//! The error model: one closed enumeration per failure kind, each
//! carrying the piece of input or detail its human-readable message
//! names.

use vstd::prelude::*;
use vstd::string::StringExecFns;

verus! {

/// Every failure the library reports.
#[derive(Debug)]
pub enum ExpendError {
    /// Reading, writing or parsing the stored credential blob failed.
    Credential { detail: String },
    /// A terminal read failed, or secret entry was aborted.
    InteractiveInput { detail: String },
    /// The authentication URL could not be opened in a browser.
    BrowserLaunch { url: String },
    /// A date string could not be parsed, or a date computation left
    /// the representable range.
    DateParse { input: String },
    /// A country or destination identifier is not implemented.
    LocaleParse { input: String },
    /// The per-diem calculator could not build a payload.
    PayloadConstruction { detail: String },
    /// The pre-execution hook rejected the resolved payload.
    PreExecutionHook { detail: String },
    /// The submission client failed; its message is passed through.
    Submission { detail: String },
}

/// The message `ExpendError::message` returns for each variant.
pub open spec fn spec_message(e: ExpendError) -> Seq<char> {
    match e {
        ExpendError::Credential { detail } => detail@,
        ExpendError::InteractiveInput { detail } => detail@,
        ExpendError::BrowserLaunch { url } => "Could not open '"@ + url@
            + "' in your browser."@,
        ExpendError::DateParse { input } => "Could not parse date string '"@ + input@ + "'"@,
        ExpendError::LocaleParse { input } => "Invalid locale identifier: '"@ + input@
            + "'. It is not implemented."@,
        ExpendError::PayloadConstruction { detail } => detail@,
        ExpendError::PreExecutionHook { detail } => detail@,
        ExpendError::Submission { detail } => detail@,
    }
}

impl ExpendError {
    /// The human-readable description of the failure; it embeds the
    /// offending input where the variant carries one.
    pub fn message(&self) -> (r: String)
        ensures
            r@ == spec_message(*self),
    {
        match self {
            ExpendError::Credential { detail } => detail.clone(),
            ExpendError::InteractiveInput { detail } => detail.clone(),
            ExpendError::BrowserLaunch { url } => {
                let mut m = String::new();
                m.append("Could not open '");
                m.append(url.as_str());
                m.append("' in your browser.");
                m
            },
            ExpendError::DateParse { input } => {
                let mut m = String::new();
                m.append("Could not parse date string '");
                m.append(input.as_str());
                m.append("'");
                m
            },
            ExpendError::LocaleParse { input } => {
                let mut m = String::new();
                m.append("Invalid locale identifier: '");
                m.append(input.as_str());
                m.append("'. It is not implemented.");
                m
            },
            ExpendError::PayloadConstruction { detail } => detail.clone(),
            ExpendError::PreExecutionHook { detail } => detail.clone(),
            ExpendError::Submission { detail } => detail.clone(),
        }
    }
}

} // verus!
