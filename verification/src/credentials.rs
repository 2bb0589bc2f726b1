//! The credential lifecycle: the credential pair, its JSON blob codec
//! (escaping proved lossless), and the store / interactive flows behind
//! two small interfaces, so the logic runs the same against the OS
//! keychain and terminal as against in-memory fakes.

use vstd::prelude::*;
use vstd::string::{StrSliceExecFns, StringExecFns};
use crate::errors::ExpendError;
use crate::strings::{is_blank, push_char, str_eq, trim_blanks, trimmed};

verus! {

/// The credential pair the tool authenticates with.
#[derive(Debug)]
pub struct Credentials {
    pub user_id: String,
    pub user_secret: String,
}

impl Credentials {
    /// Wraps a pair of id and secret.
    pub fn from_pair(p: (String, String)) -> (r: Credentials)
        ensures
            r.user_id@ == p.0@,
            r.user_secret@ == p.1@,
    {
        Credentials { user_id: p.0, user_secret: p.1 }
    }

    /// Unwraps into the pair of id and secret.
    pub fn into_pair(self) -> (r: (String, String))
        ensures
            r.0@ == self.user_id@,
            r.1@ == self.user_secret@,
    {
        (self.user_id, self.user_secret)
    }
}

/// The escape sequence of one character inside a JSON string: quote and
/// backslash get a backslash prefix, everything else stands for itself.
pub open spec fn esc_char(c: char) -> Seq<char> {
    if c == '"' || c == '\\' {
        seq!['\\', c]
    } else {
        seq![c]
    }
}

/// The escaped form of a string's characters.
pub open spec fn esc(s: Seq<char>) -> Seq<char>
    decreases s.len(),
{
    if s.len() == 0 {
        Seq::empty()
    } else {
        esc_char(s[0]) + esc(s.subrange(1, s.len() as int))
    }
}

/// Escaping one character is its escape sequence.
proof fn lemma_esc_single(c: char)
    ensures
        esc(seq![c]) == esc_char(c),
{
    assert(seq![c].subrange(1, 1) =~= Seq::<char>::empty());
    assert(esc(Seq::<char>::empty()) =~= Seq::<char>::empty());
    assert(esc(seq![c]) =~= esc_char(c) + Seq::<char>::empty());
    assert(esc_char(c) + Seq::<char>::empty() =~= esc_char(c));
}

/// Escaping distributes over concatenation.
pub proof fn lemma_esc_concat(a: Seq<char>, b: Seq<char>)
    ensures
        esc(a + b) == esc(a) + esc(b),
    decreases a.len(),
{
    if a.len() == 0 {
        assert(a + b =~= b);
        assert(esc(a) + esc(b) =~= esc(b));
    } else {
        let t = a.subrange(1, a.len() as int);
        assert((a + b).subrange(1, (a + b).len() as int) =~= t + b);
        lemma_esc_concat(t, b);
        assert(esc_char(a[0]) + (esc(t) + esc(b)) =~= (esc_char(a[0]) + esc(t)) + esc(b));
        assert(esc(a + b) =~= esc(a) + esc(b));
    }
}

/// The serialized credential blob: a JSON object with the two fields in
/// fixed order, string values escaped.
pub open spec fn spec_blob(user_id: Seq<char>, user_secret: Seq<char>) -> Seq<char> {
    "{\"user_id\":\""@ + esc(user_id) + "\",\"user_secret\":\""@ + esc(user_secret) + "\"}"@
}

/// Appends the escaped form of `s` to `out`.
fn append_escaped(out: &mut String, s: &str)
    ensures
        final(out)@ == old(out)@ + esc(s@),
{
    let len: usize = s.unicode_len();
    let mut i: usize = 0;
    while i < len
        invariant
            i <= len,
            len == s@.len(),
            out@ == old(out)@ + esc(s@.subrange(0, i as int)),
        decreases len - i,
    {
        let c = s.get_char(i);
        if c == '"' || c == '\\' {
            push_char(out, '\\');
            push_char(out, c);
        } else {
            push_char(out, c);
        }
        proof {
            let pre = s@.subrange(0, i as int);
            let ext = s@.subrange(0, i + 1);
            assert(ext =~= pre + seq![s@[i as int]]);
            lemma_esc_concat(pre, seq![s@[i as int]]);
            lemma_esc_single(s@[i as int]);
            assert(out@ =~= old(out)@ + esc(ext));
        }
        i = i + 1;
    }
    proof {
        assert(s@.subrange(0, len as int) =~= s@);
    }
}

/// Renders the credential pair as its JSON blob.
pub fn serialize_credentials(c: &Credentials) -> (r: String)
    ensures
        r@ == spec_blob(c.user_id@, c.user_secret@),
{
    let mut out = String::new();
    out.append("{\"user_id\":\"");
    append_escaped(&mut out, c.user_id.as_str());
    out.append("\",\"user_secret\":\"");
    append_escaped(&mut out, c.user_secret.as_str());
    out.append("\"}");
    out
}

/// Reads an escaped string body up to and including its closing quote;
/// the result is the unescaped content and the remainder after the
/// quote. Nothing (an unterminated or ill-escaped body) is an error.
pub open spec fn spec_unescape(s: Seq<char>) -> Option<(Seq<char>, Seq<char>)>
    decreases s.len(),
{
    if s.len() == 0 {
        None
    } else if s[0] == '"' {
        Some((Seq::empty(), s.subrange(1, s.len() as int)))
    } else if s[0] == '\\' {
        if s.len() < 2 || !(s[1] == '"' || s[1] == '\\') {
            None
        } else {
            match spec_unescape(s.subrange(2, s.len() as int)) {
                Some(p) => Some((seq![s[1]] + p.0, p.1)),
                None => None,
            }
        }
    } else {
        match spec_unescape(s.subrange(1, s.len() as int)) {
            Some(p) => Some((seq![s[0]] + p.0, p.1)),
            None => None,
        }
    }
}

/// Whether `s` begins with `prefix`.
pub open spec fn starts_with(s: Seq<char>, prefix: Seq<char>) -> bool {
    s.len() >= prefix.len() && s.subrange(0, prefix.len() as int) == prefix
}

/// What `parse_credentials` accepts: exactly the blobs this codec
/// writes — the two fields in order, escaped string values — giving the
/// unescaped id and secret.
pub open spec fn spec_parse_credentials(s: Seq<char>) -> Option<(Seq<char>, Seq<char>)> {
    let lit1 = "{\"user_id\":\""@;
    let lit2 = ",\"user_secret\":\""@;
    if !starts_with(s, lit1) {
        None
    } else {
        match spec_unescape(s.subrange(lit1.len() as int, s.len() as int)) {
            None => None,
            Some(p1) => if !starts_with(p1.1, lit2) {
                None
            } else {
                match spec_unescape(p1.1.subrange(lit2.len() as int, p1.1.len() as int)) {
                    None => None,
                    Some(p2) => if p2.1 == "}"@ {
                        Some((p1.0, p2.0))
                    } else {
                        None
                    },
                }
            },
        }
    }
}

/// Unescaping inverts escaping: the body written as `esc(a)` plus the
/// closing quote reads back as exactly `a`, leaving the remainder.
pub proof fn lemma_unescape_of_escaped(a: Seq<char>, rest: Seq<char>)
    ensures
        spec_unescape(esc(a) + seq!['"'] + rest) == Some((a, rest)),
    decreases a.len(),
{
    let s = esc(a) + seq!['"'] + rest;
    if a.len() == 0 {
        assert(s =~= seq!['"'] + rest);
        assert(s[0] == '"');
        assert(s.subrange(1, s.len() as int) =~= rest);
        assert(spec_unescape(s)->Some_0.0 =~= a);
    } else {
        let c = a[0];
        let t = a.subrange(1, a.len() as int);
        lemma_unescape_of_escaped(t, rest);
        if c == '"' || c == '\\' {
            assert(s[0] == '\\' && s[1] == c);
            assert(s.subrange(2, s.len() as int) =~= esc(t) + seq!['"'] + rest);
            assert(seq![c] + t =~= a);
        } else {
            assert(s[0] == c);
            assert(s.subrange(1, s.len() as int) =~= esc(t) + seq!['"'] + rest);
            assert(seq![c] + t =~= a);
        }
    }
}

/// The codec round-trips: parsing a written blob gives back exactly the
/// id and secret it was written from.
pub proof fn lemma_credentials_round_trip(user_id: Seq<char>, user_secret: Seq<char>)
    ensures
        spec_parse_credentials(spec_blob(user_id, user_secret)) == Some((user_id, user_secret)),
{
    let lit1 = "{\"user_id\":\""@;
    let mid = "\",\"user_secret\":\""@;
    let lit2 = ",\"user_secret\":\""@;
    let tail = "\"}"@;
    reveal_strlit("{\"user_id\":\"");
    reveal_strlit("\",\"user_secret\":\"");
    reveal_strlit(",\"user_secret\":\"");
    reveal_strlit("\"}");
    reveal_strlit("}");
    assert(mid =~= seq!['"'] + lit2);
    assert(tail =~= seq!['"'] + "}"@);
    let s = spec_blob(user_id, user_secret);
    let rest1 = lit2 + esc(user_secret) + seq!['"'] + "}"@;
    assert(s =~= lit1 + (esc(user_id) + seq!['"'] + rest1));
    assert(starts_with(s, lit1)) by {
        assert(s.subrange(0, lit1.len() as int) =~= lit1);
    }
    assert(s.subrange(lit1.len() as int, s.len() as int) =~= esc(user_id) + seq!['"'] + rest1);
    lemma_unescape_of_escaped(user_id, rest1);
    assert(starts_with(rest1, lit2)) by {
        assert(rest1.subrange(0, lit2.len() as int) =~= lit2);
    }
    assert(rest1.subrange(lit2.len() as int, rest1.len() as int) =~= esc(user_secret)
        + seq!['"'] + "}"@);
    lemma_unescape_of_escaped(user_secret, "}"@);
}

/// Reads an escaped string body of `s` from index `from`; on success
/// the content and the index just past the closing quote.
fn unescape_from(s: &str, from: usize) -> (r: Option<(String, usize)>)
    requires
        from <= s@.len(),
    ensures
        match r {
            Some(p) => from <= p.1 <= s@.len() && spec_unescape(
                s@.subrange(from as int, s@.len() as int),
            ) == Some((p.0@, s@.subrange(p.1 as int, s@.len() as int))),
            None => spec_unescape(s@.subrange(from as int, s@.len() as int)) is None,
        },
{
    let len: usize = s.unicode_len();
    let mut acc = String::new();
    let mut i: usize = from;
    loop
        invariant
            from <= i <= len,
            len == s@.len(),
            spec_unescape(s@.subrange(from as int, len as int)) == (match spec_unescape(
                s@.subrange(i as int, len as int),
            ) {
                Some(p) => Some::<(Seq<char>, Seq<char>)>((acc@ + p.0, p.1)),
                None => None::<(Seq<char>, Seq<char>)>,
            }),
        decreases len - i,
    {
        let ghost si = s@.subrange(i as int, len as int);
        if i == len {
            proof {
                assert(si.len() == 0);
            }
            return None;
        }
        let c = s.get_char(i);
        proof {
            assert(si[0] == s@[i as int]);
        }
        if c == '"' {
            proof {
                assert(si.subrange(1, si.len() as int) =~= s@.subrange(i + 1, len as int));
                assert(acc@ + Seq::<char>::empty() =~= acc@);
            }
            return Some((acc, i + 1));
        } else if c == '\\' {
            if i + 1 == len {
                proof {
                    assert(si.len() == 1);
                }
                return None;
            }
            let c2 = s.get_char(i + 1);
            proof {
                assert(si[1] == s@[i as int + 1]);
            }
            if c2 == '"' || c2 == '\\' {
                let ghost acc0 = acc@;
                push_char(&mut acc, c2);
                proof {
                    let sj = s@.subrange(i + 2, len as int);
                    assert(si.subrange(2, si.len() as int) =~= sj);
                    match spec_unescape(sj) {
                        Some(p) => {
                            assert(acc0 + (seq![si[1]] + p.0) =~= (acc0 + seq![si[1]]) + p.0);
                        },
                        None => {},
                    }
                }
                i = i + 2;
            } else {
                return None;
            }
        } else {
            let ghost acc0 = acc@;
            push_char(&mut acc, c);
            proof {
                let sj = s@.subrange(i + 1, len as int);
                assert(si.subrange(1, si.len() as int) =~= sj);
                match spec_unescape(sj) {
                    Some(p) => {
                        assert(acc0 + (seq![si[0]] + p.0) =~= (acc0 + seq![si[0]]) + p.0);
                    },
                    None => {},
                }
            }
            i = i + 1;
        }
    }
}

/// Whether `s`, read from index `i`, begins with `pat`.
fn starts_with_at(s: &str, i: usize, pat: &str) -> (r: bool)
    requires
        i <= s@.len(),
    ensures
        r == starts_with(s@.subrange(i as int, s@.len() as int), pat@),
        r ==> i + pat@.len() <= s@.len(),
{
    let len: usize = s.unicode_len();
    let plen: usize = pat.unicode_len();
    if plen > len - i {
        assert(s@.subrange(i as int, len as int).len() < pat@.len());
        return false;
    }
    let mut j: usize = 0;
    while j < plen
        invariant
            j <= plen,
            i + plen <= len,
            len == s@.len(),
            plen == pat@.len(),
            forall|k: int| 0 <= k < j ==> s@[i + k] == pat@[k],
        decreases plen - j,
    {
        if s.get_char(i + j) != pat.get_char(j) {
            assert(s@.subrange(i as int, len as int)[j as int] != pat@[j as int]);
            assert(!starts_with(s@.subrange(i as int, s@.len() as int), pat@));
            return false;
        }
        j = j + 1;
    }
    proof {
        assert(s@.subrange(i as int, len as int).subrange(0, plen as int) =~= pat@);
    }
    true
}

/// Parses a credential blob as this codec writes it; any other text is
/// rejected as a credential error.
pub fn parse_credentials(s: &str) -> (r: Result<Credentials, ExpendError>)
    ensures
        match spec_parse_credentials(s@) {
            Some(p) => r matches Ok(c) && c.user_id@ == p.0 && c.user_secret@ == p.1,
            None => r matches Err(e) && e matches ExpendError::Credential { .. },
        },
{
    let lit1 = "{\"user_id\":\"";
    let lit2 = ",\"user_secret\":\"";
    let len: usize = s.unicode_len();
    proof {
        assert(s@.subrange(0, s@.len() as int) =~= s@);
    }
    if !starts_with_at(s, 0, lit1) {
        return Err(parse_failure());
    }
    let l1: usize = lit1.unicode_len();
    match unescape_from(s, l1) {
        None => Err(parse_failure()),
        Some((uid, i1)) => {
            if !starts_with_at(s, i1, lit2) {
                return Err(parse_failure());
            }
            let i2: usize = i1 + lit2.unicode_len();
            proof {
                let p11 = s@.subrange(i1 as int, s@.len() as int);
                assert(p11.subrange(lit2@.len() as int, p11.len() as int) =~= s@.subrange(
                    i2 as int,
                    s@.len() as int,
                ));
            }
            match unescape_from(s, i2) {
                None => Err(parse_failure()),
                Some((sec, i3)) => {
                    let ghost p21 = s@.subrange(i3 as int, s@.len() as int);
                    if len - i3 == 1 && s.get_char(i3) == '}' {
                        proof {
                            reveal_strlit("}");
                            assert(p21 =~= "}"@);
                        }
                        Ok(Credentials { user_id: uid, user_secret: sec })
                    } else {
                        proof {
                            reveal_strlit("}");
                            if len - i3 == 1 {
                                assert(p21[0] == s@[i3 as int]);
                                assert(p21 != "}"@);
                            } else {
                                assert(p21.len() != 1);
                                assert(p21 != "}"@);
                            }
                        }
                        Err(parse_failure())
                    }
                },
            }
        },
    }
}

/// The error every malformed blob is reported as.
fn parse_failure() -> (r: ExpendError)
    ensures
        r matches ExpendError::Credential { .. },
{
    ExpendError::Credential { detail: "Could not parse the stored credential blob.".to_owned() }
}

/// The OS secret store, as the credential flows use it. The real store
/// is the OS keychain; tests substitute an in-memory map.
pub trait SecretStore {
    /// The stored blob, or nothing when no entry exists or it cannot
    /// be read.
    fn get_secret(&mut self) -> Option<String>;

    /// Overwrites the stored blob; false when writing failed.
    fn set_secret(&mut self, value: &str) -> bool;

    /// Deletes any stored blob; false when nothing was deleted.
    fn delete_secret(&mut self) -> bool;
}

/// The interactive terminal, as credential entry uses it.
pub trait UserInterface {
    /// Shows the prompt and reads one line.
    fn prompt_line(&mut self, prompt: &str) -> Result<String, ExpendError>;

    /// Shows the prompt and reads a secret with echo disabled; nothing
    /// when entry was aborted.
    fn prompt_secret(&mut self, prompt: &str) -> Result<Option<String>, ExpendError>;

    /// Opens the URL in the default browser; false when that failed.
    fn open_url(&mut self, url: &str) -> bool;

    /// Shows a message without asking for input.
    fn notify(&mut self, message: &str);
}

/// Reads the stored credential pair, or clears the store: with `clear`
/// set, any stored entry is deleted (a missing entry is not an error)
/// and nothing is returned; otherwise a missing entry gives nothing,
/// and a stored blob is parsed — a malformed one is a failure.
pub fn from_keychain_or_clear<S: SecretStore>(store: &mut S, clear: bool) -> (r: Result<
    Option<(String, String)>,
    ExpendError,
>)
    ensures
        clear ==> (r matches Ok(v) && v is None),
        r matches Err(e) ==> !clear && e matches ExpendError::Credential { .. },
{
    if clear {
        store.delete_secret();
        Ok(None)
    } else {
        match store.get_secret() {
            None => Ok(None),
            Some(blob) => match parse_credentials(blob.as_str()) {
                Ok(c) => Ok(Some(c.into_pair())),
                Err(e) => Err(e),
            },
        }
    }
}

/// Serializes the credential pair and overwrites any stored entry; a
/// failed write is a credential error, and the pair is handed back on
/// success.
pub fn store_in_keychain<S: SecretStore>(store: &mut S, creds: (String, String)) -> (r: Result<
    (String, String),
    ExpendError,
>)
    ensures
        r matches Ok(p) ==> p.0@ == creds.0@ && p.1@ == creds.1@,
        r matches Err(e) ==> e matches ExpendError::Credential { .. },
{
    let c = Credentials::from_pair(creds);
    let blob = serialize_credentials(&c);
    if store.set_secret(blob.as_str()) {
        Ok(c.into_pair())
    } else {
        Err(ExpendError::Credential { detail: "Could not set password".to_owned() })
    }
}

/// The page where the service issues API credentials.
pub fn authentication_url() -> (r: &'static str)
    ensures
        r@ == "https://www.expensify.com/tools/integrations/"@,
{
    "https://www.expensify.com/tools/integrations/"
}

/// Whether a prompt answer declines: its trimmed form is exactly `n`,
/// in either case.
pub fn is_decline(answer: &str) -> (r: bool)
    ensures
        r == (trimmed(answer@) == "n"@ || trimmed(answer@) == "N"@),
{
    let t = trim_blanks(answer);
    str_eq(t.as_str(), "n") || str_eq(t.as_str(), "N")
}

/// Interactive credential entry: offers to open the authentication URL
/// in the browser (declined only by an answer whose trimmed form is
/// `n` or `N`; a failed browser launch is reported, with the URL in the
/// message, but does not abort), then prompts for the user id (line,
/// trimmed) and the secret (no echo). An aborted secret entry is a hard
/// failure.
pub fn query_from_user<U: UserInterface>(ui: &mut U) -> (r: Result<(String, String), ExpendError>)
    ensures
        r matches Ok(p) ==> p.0@ == trimmed(p.0@),
{
    let answer = match ui.prompt_line(
        "To obtain Expensify credentials, hit enter to generate them in your browser (use 'SAML' for login), or n otherwise: ",
    ) {
        Ok(a) => a,
        Err(e) => {
            return Err(e);
        },
    };
    if !is_decline(answer.as_str()) {
        if !ui.open_url(authentication_url()) {
            let warning = ExpendError::BrowserLaunch {
                url: authentication_url().to_owned(),
            };
            let msg = warning.message();
            ui.notify(msg.as_str());
        }
    }
    let raw_id = match ui.prompt_line("Please enter your user user-id: ") {
        Ok(a) => a,
        Err(e) => {
            return Err(e);
        },
    };
    let user_id = trim_blanks(raw_id.as_str());
    proof {
        lemma_trimmed_idempotent(raw_id@);
    }
    let secret = match ui.prompt_secret("Please enter your user user secret (it won't display): ") {
        Ok(Some(sec)) => sec,
        Ok(None) => {
            return Err(
                ExpendError::InteractiveInput {
                    detail: "Cannot proceed without a password.".to_owned(),
                },
            );
        },
        Err(e) => {
            return Err(e);
        },
    };
    Ok((user_id, secret))
}

/// A trimmed string has no blank at either edge.
proof fn lemma_trimmed_edges(s: Seq<char>)
    ensures
        trimmed(s).len() > 0 ==> !is_blank(trimmed(s)[0]) && !is_blank(
            trimmed(s)[trimmed(s).len() - 1],
        ),
    decreases s.len(),
{
    if s.len() > 0 {
        if is_blank(s[0]) {
            lemma_trimmed_edges(s.drop_first());
        } else if is_blank(s[s.len() - 1]) {
            lemma_trimmed_edges(s.drop_last());
        }
    }
}

/// Trimming is idempotent.
proof fn lemma_trimmed_idempotent(s: Seq<char>)
    ensures
        trimmed(trimmed(s)) == trimmed(s),
{
    lemma_trimmed_edges(s);
}

} // verus!
