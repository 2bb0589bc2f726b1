//! The credential flows and the command dispatcher, run against
//! in-memory fakes of the secret store, the terminal, the per-diem
//! calculator and the submission client.

use std::cell::RefCell;
use std::rc::Rc;

use expend::context::{Categories, Context, Tags, UserContext};
use expend::credentials::{
    from_keychain_or_clear, query_from_user, store_in_keychain, SecretStore, UserInterface,
};
use expend::dispatch::{execute, Command, PerDiemBuilder, PreExecuteHook, SubmissionClient};
use expend::errors::ExpendError;
use expend::json::{JsonField, JsonValue};
use expend::locale::Country;

struct MemoryStore {
    value: Option<String>,
}

impl SecretStore for MemoryStore {
    fn get_secret(&mut self) -> Option<String> {
        self.value.clone()
    }

    fn set_secret(&mut self, value: &str) -> bool {
        self.value = Some(value.to_string());
        true
    }

    fn delete_secret(&mut self) -> bool {
        self.value.take().is_some()
    }
}

struct BrokenStore;

impl SecretStore for BrokenStore {
    fn get_secret(&mut self) -> Option<String> {
        None
    }

    fn set_secret(&mut self, _value: &str) -> bool {
        false
    }

    fn delete_secret(&mut self) -> bool {
        false
    }
}

#[test]
fn clear_on_empty_store_succeeds_with_nothing() {
    let mut store = MemoryStore { value: None };
    let r = from_keychain_or_clear(&mut store, true).unwrap();
    assert!(r.is_none());
}

#[test]
fn clear_deletes_a_populated_store() {
    let mut store = MemoryStore { value: None };
    store_in_keychain(&mut store, ("alice".to_string(), "pw".to_string())).unwrap();
    assert!(store.value.is_some());
    let r = from_keychain_or_clear(&mut store, true).unwrap();
    assert!(r.is_none());
    let after = from_keychain_or_clear(&mut store, false).unwrap();
    assert!(after.is_none());
}

#[test]
fn store_then_read_returns_the_pair() {
    let mut store = MemoryStore { value: None };
    let handed_back =
        store_in_keychain(&mut store, ("alice".to_string(), "pw\"x".to_string())).unwrap();
    assert_eq!(handed_back, ("alice".to_string(), "pw\"x".to_string()));
    let read = from_keychain_or_clear(&mut store, false).unwrap();
    assert_eq!(read, Some(("alice".to_string(), "pw\"x".to_string())));
}

#[test]
fn store_overwrites_unconditionally() {
    let mut store = MemoryStore { value: None };
    store_in_keychain(&mut store, ("a".to_string(), "1".to_string())).unwrap();
    store_in_keychain(&mut store, ("b".to_string(), "2".to_string())).unwrap();
    let read = from_keychain_or_clear(&mut store, false).unwrap();
    assert_eq!(read, Some(("b".to_string(), "2".to_string())));
}

#[test]
fn missing_entry_is_not_an_error() {
    let mut store = MemoryStore { value: None };
    assert!(from_keychain_or_clear(&mut store, false).unwrap().is_none());
}

#[test]
fn malformed_stored_blob_is_a_failure() {
    let mut store = MemoryStore { value: Some("garbage".to_string()) };
    let e = from_keychain_or_clear(&mut store, false).unwrap_err();
    assert!(matches!(e, ExpendError::Credential { .. }));
}

#[test]
fn failed_write_is_a_credential_error() {
    let mut store = BrokenStore;
    let e = store_in_keychain(&mut store, ("a".to_string(), "b".to_string())).unwrap_err();
    assert!(matches!(e, ExpendError::Credential { .. }));
    assert_eq!(e.message(), "Could not set password");
}

struct ScriptedUi {
    line_answers: Vec<String>,
    secret_answer: Option<String>,
    open_succeeds: bool,
    opened: Vec<String>,
    notices: Vec<String>,
}

impl ScriptedUi {
    fn new(answer: &str, id: &str, secret: Option<&str>) -> ScriptedUi {
        ScriptedUi {
            line_answers: vec![id.to_string(), answer.to_string()],
            secret_answer: secret.map(|s| s.to_string()),
            open_succeeds: true,
            opened: Vec::new(),
            notices: Vec::new(),
        }
    }
}

impl UserInterface for ScriptedUi {
    fn prompt_line(&mut self, _prompt: &str) -> Result<String, ExpendError> {
        Ok(self.line_answers.pop().expect("no scripted answer left"))
    }

    fn prompt_secret(&mut self, _prompt: &str) -> Result<Option<String>, ExpendError> {
        Ok(self.secret_answer.clone())
    }

    fn open_url(&mut self, url: &str) -> bool {
        self.opened.push(url.to_string());
        self.open_succeeds
    }

    fn notify(&mut self, message: &str) {
        self.notices.push(message.to_string());
    }
}

#[test]
fn query_opens_browser_unless_declined() {
    let mut ui = ScriptedUi::new("", " alice \n", Some("pw"));
    let (id, secret) = query_from_user(&mut ui).unwrap();
    assert_eq!(id, "alice");
    assert_eq!(secret, "pw");
    assert_eq!(ui.opened.len(), 1);
    assert!(ui.opened[0].contains("expensify.com"));
}

#[test]
fn query_declined_with_n_skips_browser() {
    for answer in ["n", "N", " n \n"] {
        let mut ui = ScriptedUi::new(answer, "alice", Some("pw"));
        query_from_user(&mut ui).unwrap();
        assert!(ui.opened.is_empty());
    }
}

#[test]
fn browser_failure_is_reported_but_does_not_abort() {
    let mut ui = ScriptedUi::new("", "alice", Some("pw"));
    ui.open_succeeds = false;
    let (id, _) = query_from_user(&mut ui).unwrap();
    assert_eq!(id, "alice");
    assert_eq!(ui.notices.len(), 1);
    assert!(ui.notices[0].contains("https://www.expensify.com/tools/integrations/"));
}

#[test]
fn aborted_secret_entry_is_a_hard_error() {
    let mut ui = ScriptedUi::new("n", "alice", None);
    let e = query_from_user(&mut ui).unwrap_err();
    assert!(matches!(e, ExpendError::InteractiveInput { .. }));
    assert!(e.message().contains("Cannot proceed without a password."));
}

fn test_context() -> Context {
    Context {
        user: UserContext {
            project: "proj".to_string(),
            email: "me@example.com".to_string(),
            country: Country::Germany,
            destination: None,
            tags: Tags::default(),
            categories: Categories::default(),
        },
        reference_date: None,
        comment: None,
    }
}

struct Period;

struct Kind;

struct RecordingClient {
    posts: Rc<RefCell<Vec<(String, JsonValue)>>>,
}

impl SubmissionClient for RecordingClient {
    fn post(&mut self, payload_type: &str, payload: &JsonValue) -> Result<JsonValue, String> {
        self.posts.borrow_mut().push((payload_type.to_string(), clone_value(payload)));
        Ok(JsonValue::Str("accepted".to_string()))
    }
}

fn clone_value(v: &JsonValue) -> JsonValue {
    match v {
        JsonValue::Null => JsonValue::Null,
        JsonValue::Bool(b) => JsonValue::Bool(*b),
        JsonValue::Int(i) => JsonValue::Int(*i),
        JsonValue::Str(s) => JsonValue::Str(s.clone()),
        JsonValue::Arr(items) => JsonValue::Arr(items.iter().map(clone_value).collect()),
        JsonValue::Obj(fields) => JsonValue::Obj(
            fields
                .iter()
                .map(|f| JsonField { key: f.key.clone(), value: clone_value(&f.value) })
                .collect(),
        ),
    }
}

struct FixedBuilder {
    result: Result<JsonValue, String>,
    calls: usize,
}

impl PerDiemBuilder<Period, Kind> for FixedBuilder {
    fn build(&mut self, _ctx: &Context, _period: &Period, _kind: &Kind) -> Result<JsonValue, String> {
        self.calls += 1;
        match &self.result {
            Ok(v) => Ok(clone_value(v)),
            Err(e) => Err(e.clone()),
        }
    }
}

struct GateHook {
    accept: bool,
    seen: Vec<(String, JsonValue)>,
}

impl PreExecuteHook for GateHook {
    fn check(&mut self, payload_type: &str, payload: &JsonValue) -> Result<(), String> {
        self.seen.push((payload_type.to_string(), clone_value(payload)));
        if self.accept {
            Ok(())
        } else {
            Err("rejected by hook".to_string())
        }
    }
}

#[test]
fn failing_hook_prevents_any_submission() {
    let posts = Rc::new(RefCell::new(Vec::new()));
    let mut client = RecordingClient { posts: posts.clone() };
    let mut builder = FixedBuilder { result: Ok(JsonValue::Null), calls: 0 };
    let mut hook = GateHook { accept: false, seen: Vec::new() };
    let cmd: Command<Period, Kind> =
        Command::Payload(None, "create".to_string(), JsonValue::Int(1));
    let e = execute(&mut client, &mut builder, &mut hook, cmd).unwrap_err();
    assert!(matches!(e, ExpendError::PreExecutionHook { .. }));
    assert!(posts.borrow().is_empty());
    assert_eq!(hook.seen.len(), 1);
}

#[test]
fn plain_payload_posts_verbatim_after_hook() {
    let posts = Rc::new(RefCell::new(Vec::new()));
    let mut client = RecordingClient { posts: posts.clone() };
    let mut builder = FixedBuilder { result: Ok(JsonValue::Null), calls: 0 };
    let mut hook = GateHook { accept: true, seen: Vec::new() };
    let cmd: Command<Period, Kind> =
        Command::Payload(None, "update".to_string(), JsonValue::Int(7));
    let r = execute(&mut client, &mut builder, &mut hook, cmd).unwrap();
    assert_eq!(r, JsonValue::Str("accepted".to_string()));
    assert_eq!(posts.borrow().len(), 1);
    assert_eq!(posts.borrow()[0].0, "update");
    assert_eq!(posts.borrow()[0].1, JsonValue::Int(7));
    assert_eq!(builder.calls, 0);
}

#[test]
fn contextual_payload_goes_through_the_overlay() {
    let posts = Rc::new(RefCell::new(Vec::new()));
    let mut client = RecordingClient { posts: posts.clone() };
    let mut builder = FixedBuilder { result: Ok(JsonValue::Null), calls: 0 };
    let mut hook = GateHook { accept: true, seen: Vec::new() };
    let payload = JsonValue::Obj(vec![JsonField {
        key: "employeeEmail".to_string(),
        value: JsonValue::Str("old@example.com".to_string()),
    }]);
    let cmd: Command<Period, Kind> =
        Command::Payload(Some(test_context()), "create".to_string(), payload);
    execute(&mut client, &mut builder, &mut hook, cmd).unwrap();
    let expected = JsonValue::Obj(vec![JsonField {
        key: "employeeEmail".to_string(),
        value: JsonValue::Str("me@example.com".to_string()),
    }]);
    assert_eq!(posts.borrow()[0].1, expected);
}

#[test]
fn per_diem_uses_the_calculator_under_create() {
    let posts = Rc::new(RefCell::new(Vec::new()));
    let mut client = RecordingClient { posts: posts.clone() };
    let built = JsonValue::Str("transactions".to_string());
    let mut builder = FixedBuilder { result: Ok(built), calls: 0 };
    let mut hook = GateHook { accept: true, seen: Vec::new() };
    let cmd = Command::PerDiem(test_context(), Period, Kind);
    execute(&mut client, &mut builder, &mut hook, cmd).unwrap();
    assert_eq!(builder.calls, 1);
    assert_eq!(posts.borrow()[0].0, "create");
    assert_eq!(posts.borrow()[0].1, JsonValue::Str("transactions".to_string()));
}

#[test]
fn calculator_failure_aborts_before_the_hook() {
    let posts = Rc::new(RefCell::new(Vec::new()));
    let mut client = RecordingClient { posts: posts.clone() };
    let mut builder = FixedBuilder { result: Err("no rates".to_string()), calls: 0 };
    let mut hook = GateHook { accept: true, seen: Vec::new() };
    let cmd = Command::PerDiem(test_context(), Period, Kind);
    let e = execute(&mut client, &mut builder, &mut hook, cmd).unwrap_err();
    assert!(matches!(e, ExpendError::PayloadConstruction { .. }));
    assert!(e.message().contains("no rates"));
    assert!(hook.seen.is_empty());
    assert!(posts.borrow().is_empty());
}

#[test]
fn client_failure_is_a_submission_error() {
    struct FailingClient;
    impl SubmissionClient for FailingClient {
        fn post(&mut self, _payload_type: &str, _payload: &JsonValue) -> Result<JsonValue, String> {
            Err("service said no".to_string())
        }
    }
    let mut client = FailingClient;
    let mut builder = FixedBuilder { result: Ok(JsonValue::Null), calls: 0 };
    let mut hook = GateHook { accept: true, seen: Vec::new() };
    let cmd: Command<Period, Kind> =
        Command::Payload(None, "create".to_string(), JsonValue::Null);
    let e = execute(&mut client, &mut builder, &mut hook, cmd).unwrap_err();
    assert!(matches!(e, ExpendError::Submission { .. }));
    assert!(e.message().contains("service said no"));
}
