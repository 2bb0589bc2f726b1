//! Submission of travel and per-diem expense transactions to a remote
//! expense-management service on behalf of an authenticated user.
//!
//! The crate covers the credential lifecycle (acquisition, storage,
//! retrieval, clearing), the context overlay that injects user and project
//! identity into a generic payload tree, date resolution for per-diem
//! weeks, and the command dispatch that gates a payload behind a
//! pre-execution hook before it is handed to the submission client.

pub mod context;
pub use context::{Context, UserContext};
pub use dates::from_date_string;
pub use dispatch::{execute, Command};

pub mod credentials;
pub mod dates;
pub mod dispatch;
pub mod errors;
pub mod json;
pub mod locale;
pub mod strings;
