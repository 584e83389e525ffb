//! Authentication material: the cookies kept from a browser storage state
//! and the tokens found on the NotebookLM home page.

use vstd::prelude::*;
use crate::error::{NotebookLmError, Result, SError};
use crate::text::{
    append_all, chars_of, contains, join, push_str, starts_with, str_has, str_starts, string_from,
    string_of,
};

verus! {

pub const NOTEBOOKLM_HOME_URL: &'static str = "https://notebooklm.google.com/";

/// The cookies and tokens of a signed-in session. Cookie names are distinct.
#[derive(Debug, Clone)]
pub struct AuthTokens {
    pub cookies: Vec<(String, String)>,
    pub csrf_token: String,
    pub session_id: String,
}

/// The texts of name/value pairs.
pub open spec fn pairs_view(v: Seq<(String, String)>) -> Seq<(Seq<char>, Seq<char>)> {
    Seq::new(v.len(), |i: int| (v[i].0@, v[i].1@))
}

/// `name=value` for each pair, in order.
pub open spec fn cookie_parts(ps: Seq<(Seq<char>, Seq<char>)>) -> Seq<Seq<char>> {
    Seq::new(ps.len(), |i: int| ps[i].0 + "="@ + ps[i].1)
}

/// The `Cookie` header of the pairs: `name=value` joined by `; `.
pub open spec fn spec_cookie_header(ps: Seq<(Seq<char>, Seq<char>)>) -> Seq<char> {
    join(cookie_parts(ps), "; "@)
}

impl AuthTokens {
    /// The `Cookie` header that carries the session's cookies.
    pub fn cookie_header(&self) -> (r: String)
        ensures
            r@ == spec_cookie_header(pairs_view(self.cookies@)),
    {
        let ghost ps = pairs_view(self.cookies@);
        let ghost parts = cookie_parts(ps);
        let mut out: Vec<char> = Vec::new();
        let mut i: usize = 0;
        let n = self.cookies.len();
        assert(parts.take(0) =~= Seq::<Seq<char>>::empty());
        while i < n
            invariant
                i <= n == self.cookies@.len(),
                ps == pairs_view(self.cookies@),
                parts == cookie_parts(ps),
                out@ == join(parts.take(i as int), "; "@),
            decreases n - i,
        {
            assert(parts.take(i + 1).drop_last() =~= parts.take(i as int));
            if i > 0 {
                push_str(&mut out, "; ");
            }
            let name = chars_of(self.cookies[i].0.as_str());
            let value = chars_of(self.cookies[i].1.as_str());
            append_all(&mut out, name.as_slice());
            push_str(&mut out, "=");
            append_all(&mut out, value.as_slice());
            i = i + 1;
            assert(parts.take(i as int).last() == parts[i - 1]);
            assert(out@ =~= join(parts.take(i as int), "; "@));
        }
        assert(parts.take(n as int) =~= parts);
        string_of(out.as_slice())
    }
}

/// Cookie domains whose cookies authenticate against NotebookLM.
pub open spec fn spec_allowed_domain(d: Seq<char>) -> bool {
    d == ".google.com"@ || d == "notebooklm.google.com"@ || d == ".googleusercontent.com"@
        || starts_with(d, ".google."@)
}

pub fn is_allowed_auth_domain(domain: &str) -> (r: bool)
    ensures
        r == spec_allowed_domain(domain@),
{
    let d = string_from(domain);
    d == string_from(".google.com") || d == string_from("notebooklm.google.com") || d
        == string_from(".googleusercontent.com") || str_starts(
        chars_of(domain).as_slice(),
        ".google.",
    )
}

/// The texts of storage-state cookie entries `(name, value, domain)`.
pub open spec fn entries_view(v: Seq<(String, String, String)>) -> Seq<(Seq<char>, Seq<char>, Seq<char>)> {
    Seq::new(v.len(), |i: int| (v[i].0@, v[i].1@, v[i].2@))
}

/// The cookies kept from the entries: those of allowed domains, a later
/// entry of a name replacing an earlier one.
pub open spec fn spec_cookie_map(es: Seq<(Seq<char>, Seq<char>, Seq<char>)>) -> Map<Seq<char>, Seq<char>>
    decreases es.len(),
{
    if es.len() == 0 {
        Map::empty()
    } else {
        let m = spec_cookie_map(es.drop_last());
        let e = es.last();
        if spec_allowed_domain(e.2) {
            m.insert(e.0, e.1)
        } else {
            m
        }
    }
}

/// A cookie is kept with the value of the last entry of its name whose
/// domain is allowed: entries of other domains never replace it.
pub proof fn law_last_allowed_cookie_wins(es: Seq<(Seq<char>, Seq<char>, Seq<char>)>, i: int)
    requires
        0 <= i < es.len(),
        spec_allowed_domain(es[i].2),
        forall|j: int| i < j < es.len() && #[trigger] es[j].0 == es[i].0 ==> !spec_allowed_domain(es[j].2),
    ensures
        spec_cookie_map(es).contains_key(es[i].0),
        spec_cookie_map(es)[es[i].0] == es[i].1,
    decreases es.len(),
{
    if i < es.len() - 1 {
        let front = es.drop_last();
        assert forall|j: int| i < j < front.len() && #[trigger] front[j].0 == front[i].0 implies !spec_allowed_domain(front[j].2) by {
            assert(front[j] == es[j]);
        }
        law_last_allowed_cookie_wins(front, i);
    }
}

/// A name without an entry of an allowed domain has no cookie.
pub proof fn law_disallowed_cookies_dropped(es: Seq<(Seq<char>, Seq<char>, Seq<char>)>, name: Seq<char>)
    requires
        forall|j: int| 0 <= j < es.len() && #[trigger] es[j].0 == name ==> !spec_allowed_domain(es[j].2),
    ensures
        !spec_cookie_map(es).contains_key(name),
    decreases es.len(),
{
    if es.len() > 0 {
        let front = es.drop_last();
        assert forall|j: int| 0 <= j < front.len() && #[trigger] front[j].0 == name implies !spec_allowed_domain(front[j].2) by {
            assert(front[j] == es[j]);
        }
        law_disallowed_cookies_dropped(front, name);
        assert(es.last() == es[es.len() - 1]);
    }
}

pub open spec fn distinct_names(ps: Seq<(Seq<char>, Seq<char>)>) -> bool {
    forall|i: int, j: int| 0 <= i < ps.len() && 0 <= j < ps.len() && i != j ==> #[trigger] ps[i].0 != #[trigger] ps[j].0
}

/// The pairs hold exactly the map: distinct names, each with its value,
/// and every name of the map among them.
pub open spec fn pairs_are_map(ps: Seq<(Seq<char>, Seq<char>)>, m: Map<Seq<char>, Seq<char>>) -> bool {
    &&& distinct_names(ps)
    &&& forall|i: int| 0 <= i < ps.len() ==> m.contains_key(#[trigger] ps[i].0) && m[ps[i].0] == ps[i].1
    &&& forall|k: Seq<char>| m.contains_key(k) ==> exists|i: int| 0 <= i < ps.len() && #[trigger] ps[i].0 == k
}

/// The message when the storage state has no `SID` cookie.
pub open spec fn missing_sid_message() -> Seq<char> {
    "missing SID cookie in storage state; run `notebooklm login`"@
}

/// The cookies of a storage state, given its cookie entries
/// `(name, value, domain)`: the entries of allowed domains, a later entry of
/// a name replacing an earlier one; an `Auth` error when no `SID` cookie is
/// kept.
pub fn cookies_from_entries(entries: &Vec<(String, String, String)>) -> (r: Result<Vec<(String, String)>>)
    ensures
        match r {
            Ok(v) => pairs_are_map(pairs_view(v@), spec_cookie_map(entries_view(entries@)))
                && spec_cookie_map(entries_view(entries@)).contains_key("SID"@),
            Err(e) => e@ == SError::Auth(missing_sid_message()) && !spec_cookie_map(
                entries_view(entries@),
            ).contains_key("SID"@),
        },
{
    let ghost es = entries_view(entries@);
    let mut out: Vec<(String, String)> = Vec::new();
    let mut i: usize = 0;
    let n = entries.len();
    assert(es.take(0) =~= Seq::<(Seq<char>, Seq<char>, Seq<char>)>::empty());
    while i < n
        invariant
            i <= n == entries@.len(),
            es == entries_view(entries@),
            pairs_are_map(pairs_view(out@), spec_cookie_map(es.take(i as int))),
        decreases n - i,
    {
        assert(es.take(i + 1).drop_last() =~= es.take(i as int));
        assert(es.take(i + 1).last() == es[i as int]);
        let ghost m0 = spec_cookie_map(es.take(i as int));
        let ghost ps0 = pairs_view(out@);
        if is_allowed_auth_domain(entries[i].2.as_str()) {
            let name = entries[i].0.clone();
            let value = entries[i].1.clone();
            let ghost m1 = m0.insert(name@, value@);
            let mut j: usize = 0;
            while j < out.len() && !(out[j].0 == name)
                invariant
                    j <= out@.len(),
                    forall|k: int| 0 <= k < j ==> #[trigger] pairs_view(out@)[k].0 != name@,
                decreases out@.len() - j,
            {
                j = j + 1;
            }
            if j < out.len() {
                assert(pairs_view(out@)[j as int].0 == name@);
                out.set(j, (name, value));
                let ghost ps1 = pairs_view(out@);
                assert(ps1 =~= ps0.update(j as int, (name@, value@)));
                assert forall|k: Seq<char>| m1.contains_key(k) implies exists|q: int| 0 <= q < ps1.len() && #[trigger] ps1[q].0 == k by {
                    if k == name@ {
                        assert(ps1[j as int].0 == k);
                    } else {
                        let q = choose|q: int| 0 <= q < ps0.len() && #[trigger] ps0[q].0 == k;
                        assert(ps1[q].0 == k);
                    }
                }
            } else {
                assert(j == out@.len());
                out.push((name, value));
                let ghost ps1 = pairs_view(out@);
                assert(ps1 =~= ps0.push((name@, value@)));
                assert forall|k: Seq<char>| m1.contains_key(k) implies exists|q: int| 0 <= q < ps1.len() && #[trigger] ps1[q].0 == k by {
                    if k == name@ {
                        assert(ps1[ps0.len() as int].0 == k);
                    } else {
                        let q = choose|q: int| 0 <= q < ps0.len() && #[trigger] ps0[q].0 == k;
                        assert(ps1[q].0 == k);
                    }
                }
            }
        }
        i = i + 1;
    }
    assert(es.take(n as int) =~= es);
    let ghost m = spec_cookie_map(es);
    let ghost ps = pairs_view(out@);
    let sid = string_from("SID");
    let mut j: usize = 0;
    while j < out.len()
        invariant
            j <= out@.len(),
            ps == pairs_view(out@),
            pairs_are_map(ps, m),
            m == spec_cookie_map(entries_view(entries@)),
            sid@ == "SID"@,
            forall|k: int| 0 <= k < j ==> #[trigger] ps[k].0 != "SID"@,
        decreases out@.len() - j,
    {
        if out[j].0 == sid {
            assert(ps[j as int].0 == "SID"@);
            assert(m.contains_key(ps[j as int].0));
            return Ok(out);
        }
        j = j + 1;
    }
    assert(!m.contains_key("SID"@));
    Err(NotebookLmError::Auth(string_from("missing SID cookie in storage state; run `notebooklm login`")))
}

/// What the `regex` crate makes of `pattern` on `text`: the first capture
/// group of the leftmost-first match (`None` where there is no match, or the
/// group took no part in it), or the text of the error where `pattern` does
/// not compile.
pub uninterp spec fn spec_regex_capture(pattern: Seq<char>, text: Seq<char>) -> core::result::Result<Option<Seq<char>>, Seq<char>>;

pub open spec fn capture_view(r: core::result::Result<Option<String>, String>) -> core::result::Result<Option<Seq<char>>, Seq<char>> {
    match r {
        Ok(c) => Ok(crate::json::opt_string_view(c)),
        Err(e) => Err(e@),
    }
}

/// `regex::Regex::new(pattern)` then `captures(text)` and group 1, as
/// `spec_regex_capture` names it; a compile error is written with its
/// `Display`.
#[verifier::external_body]
pub(crate) fn regex_capture(pattern: &str, text: &str) -> (r: core::result::Result<Option<String>, String>)
    ensures
        capture_view(r) == spec_regex_capture(pattern@, text@),
{
    match regex::Regex::new(pattern) {
        Ok(re) => match re.captures(text) {
            Some(caps) => match caps.get(1) {
                Some(m) => Ok(Some(m.as_str().to_string())),
                None => Ok(None),
            },
            None => Ok(None),
        },
        Err(e) => Err(e.to_string()),
    }
}

/// The pattern of the CSRF token on the home page.
pub open spec fn csrf_pattern() -> Seq<char> {
    r#"\"SNlM0e\":\"([^\"]+)\""#@
}

/// The pattern of the session id on the home page.
pub open spec fn session_pattern() -> Seq<char> {
    r#"\"FdrFJe\":\"([^\"]+)\""#@
}

/// The tokens, given what the two patterns captured: both are owed, the
/// CSRF token first.
pub open spec fn spec_tokens(csrf: Option<Seq<char>>, sid: Option<Seq<char>>) -> core::result::Result<(Seq<char>, Seq<char>), SError> {
    match csrf {
        None => Err(SError::Auth("failed to extract CSRF token (SNlM0e)"@)),
        Some(c) => match sid {
            None => Err(SError::Auth("failed to extract session id (FdrFJe)"@)),
            Some(s) => Ok((c, s)),
        },
    }
}

pub open spec fn tokens_view(r: Result<(String, String)>) -> core::result::Result<(Seq<char>, Seq<char>), SError> {
    match r {
        Ok(p) => Ok((p.0@, p.1@)),
        Err(e) => Err(e@),
    }
}

/// The CSRF token and session id from what the page's patterns captured.
pub fn tokens_from_captures(csrf: Option<String>, sid: Option<String>) -> (r: Result<(String, String)>)
    ensures
        tokens_view(r) == spec_tokens(
            crate::json::opt_string_view(csrf),
            crate::json::opt_string_view(sid),
        ),
{
    match csrf {
        None => Err(NotebookLmError::Auth(string_from("failed to extract CSRF token (SNlM0e)"))),
        Some(c) => match sid {
            None => Err(NotebookLmError::Auth(string_from("failed to extract session id (FdrFJe)"))),
            Some(s) => Ok((c, s)),
        },
    }
}

/// The captured text, or nothing where the pattern did not compile.
pub open spec fn captured(r: core::result::Result<Option<Seq<char>>, Seq<char>>) -> Option<Seq<char>> {
    match r {
        Ok(c) => c,
        Err(_) => None,
    }
}

/// The tokens of the home page reached at `final_url` with body `body`: a
/// page on `accounts.google.com` means the session expired; a pattern that
/// does not compile is reported as a decoding error; otherwise the tokens
/// are what the two patterns capture in the body.
pub open spec fn spec_extract_tokens(final_url: Seq<char>, body: Seq<char>) -> core::result::Result<(Seq<char>, Seq<char>), SError> {
    let c = spec_regex_capture(csrf_pattern(), body);
    let s = spec_regex_capture(session_pattern(), body);
    if contains(final_url, "accounts.google.com"@) {
        Err(SError::Auth("authentication expired; run `notebooklm login`"@))
    } else if c is Err {
        Err(SError::RpcDecode(c->Err_0))
    } else if s is Err {
        Err(SError::RpcDecode(s->Err_0))
    } else {
        spec_tokens(captured(c), captured(s))
    }
}

pub fn extract_tokens(final_url: &str, body: &str) -> (r: Result<(String, String)>)
    ensures
        tokens_view(r) == spec_extract_tokens(final_url@, body@),
{
    if str_has(chars_of(final_url).as_slice(), "accounts.google.com") {
        return Err(
            NotebookLmError::Auth(string_from("authentication expired; run `notebooklm login`")),
        );
    }
    let csrf = regex_capture(r#"\"SNlM0e\":\"([^\"]+)\""#, body);
    let sid = regex_capture(r#"\"FdrFJe\":\"([^\"]+)\""#, body);
    let csrf = match csrf {
        Ok(c) => c,
        Err(e) => {
            return Err(NotebookLmError::RpcDecode(e));
        },
    };
    let sid = match sid {
        Ok(c) => c,
        Err(e) => {
            return Err(NotebookLmError::RpcDecode(e));
        },
    };
    tokens_from_captures(csrf, sid)
}

} // verus!
