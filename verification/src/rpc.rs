//! The batchexecute wire format: request encoding and response decoding.

use vstd::prelude::*;
use vstd::utf8::encode_utf8;
use crate::auth::{pairs_view, AuthTokens};
use crate::error::{NotebookLmError, Result, SError};
use crate::json::{
    arr, copy_json, jstr, parse_json, sarr, si64, sis_array, spec_json_text, spec_parse_json, sstr,
    or_empty, to_json_text, views, JsonValue, SJson,
};
use crate::text::{
    append_all, chars_of, find_char, index_of, is_usize_text, nonblank_lines, nonblank_lines_exec,
    parses_as_usize, push_str, slice_chars, starts_with, str_starts, string_from, string_of,
    decimal_i64, decimal_int, decimal_nat, decimal_u64,
};

verus! {

pub const BATCHEXECUTE_URL: &'static str = "https://notebooklm.google.com/_/LabsTailwindUi/data/batchexecute";

pub const QUERY_URL: &'static str = "https://notebooklm.google.com/_/LabsTailwindUi/data/google.internal.labs.tailwind.orchestration.v1.LabsTailwindOrchestrationService/GenerateFreeFormStreamed";

/// The RPC methods of the batchexecute endpoint.
#[derive(Debug, Clone, Copy, PartialEq, Eq, Structural)]
pub enum RpcMethod {
    ListNotebooks,
    CreateNotebook,
    GetNotebook,
    RenameNotebook,
    DeleteNotebook,
    Summarize,
    AddSource,
    DeleteSource,
    GetSource,
    RefreshSource,
    UpdateSource,
    GetConversationHistory,
    CreateArtifact,
    ListArtifacts,
    DeleteArtifact,
    RenameArtifact,
    ExportArtifact,
    GenerateMindMap,
    CreateNote,
    UpdateNote,
    GetInteractiveHtml,
    GetNotesAndMindMaps,
    StartFastResearch,
    StartDeepResearch,
    PollResearch,
    ImportResearch,
    GetUserSettings,
    SetUserSettings,
    GetShareStatus,
    ShareNotebook,
}

impl RpcMethod {
    /// The wire identifier of the method.
    pub open spec fn spec_id(self) -> Seq<char> {
        match self {
            RpcMethod::ListNotebooks => "wXbhsf"@,
            RpcMethod::CreateNotebook => "CCqFvf"@,
            RpcMethod::GetNotebook => "rLM1Ne"@,
            RpcMethod::RenameNotebook => "s0tc2d"@,
            RpcMethod::DeleteNotebook => "WWINqb"@,
            RpcMethod::Summarize => "VfAZjd"@,
            RpcMethod::AddSource => "izAoDd"@,
            RpcMethod::DeleteSource => "tGMBJ"@,
            RpcMethod::GetSource => "hizoJc"@,
            RpcMethod::RefreshSource => "FLmJqe"@,
            RpcMethod::UpdateSource => "b7Wfje"@,
            RpcMethod::GetConversationHistory => "hPTbtc"@,
            RpcMethod::CreateArtifact => "R7cb6c"@,
            RpcMethod::ListArtifacts => "gArtLc"@,
            RpcMethod::DeleteArtifact => "V5N4be"@,
            RpcMethod::RenameArtifact => "rc3d8d"@,
            RpcMethod::ExportArtifact => "Krh3pd"@,
            RpcMethod::GenerateMindMap => "yyryJe"@,
            RpcMethod::CreateNote => "CYK0Xb"@,
            RpcMethod::UpdateNote => "cYAfTb"@,
            RpcMethod::GetInteractiveHtml => "v9rmvd"@,
            RpcMethod::GetNotesAndMindMaps => "cFji9"@,
            RpcMethod::StartFastResearch => "Ljjv0c"@,
            RpcMethod::StartDeepResearch => "QA9ei"@,
            RpcMethod::PollResearch => "e3bVqc"@,
            RpcMethod::ImportResearch => "LBwxtb"@,
            RpcMethod::GetUserSettings => "ZwVcOc"@,
            RpcMethod::SetUserSettings => "hT54vc"@,
            RpcMethod::GetShareStatus => "JFMDGd"@,
            RpcMethod::ShareNotebook => "QDyure"@,
        }
    }

    pub fn id(self) -> (r: &'static str)
        ensures
            r@ == self.spec_id(),
    {
        match self {
            RpcMethod::ListNotebooks => "wXbhsf",
            RpcMethod::CreateNotebook => "CCqFvf",
            RpcMethod::GetNotebook => "rLM1Ne",
            RpcMethod::RenameNotebook => "s0tc2d",
            RpcMethod::DeleteNotebook => "WWINqb",
            RpcMethod::Summarize => "VfAZjd",
            RpcMethod::AddSource => "izAoDd",
            RpcMethod::DeleteSource => "tGMBJ",
            RpcMethod::GetSource => "hizoJc",
            RpcMethod::RefreshSource => "FLmJqe",
            RpcMethod::UpdateSource => "b7Wfje",
            RpcMethod::GetConversationHistory => "hPTbtc",
            RpcMethod::CreateArtifact => "R7cb6c",
            RpcMethod::ListArtifacts => "gArtLc",
            RpcMethod::DeleteArtifact => "V5N4be",
            RpcMethod::RenameArtifact => "rc3d8d",
            RpcMethod::ExportArtifact => "Krh3pd",
            RpcMethod::GenerateMindMap => "yyryJe",
            RpcMethod::CreateNote => "CYK0Xb",
            RpcMethod::UpdateNote => "cYAfTb",
            RpcMethod::GetInteractiveHtml => "v9rmvd",
            RpcMethod::GetNotesAndMindMaps => "cFji9",
            RpcMethod::StartFastResearch => "Ljjv0c",
            RpcMethod::StartDeepResearch => "QA9ei",
            RpcMethod::PollResearch => "e3bVqc",
            RpcMethod::ImportResearch => "LBwxtb",
            RpcMethod::GetUserSettings => "ZwVcOc",
            RpcMethod::SetUserSettings => "hT54vc",
            RpcMethod::GetShareStatus => "JFMDGd",
            RpcMethod::ShareNotebook => "QDyure",
        }
    }
}

/// The method whose id begins with the two characters `c0`, `c1`: the
/// first two characters of the ids already tell the methods apart.
pub open spec fn method_of_prefix(c0: char, c1: char) -> Option<RpcMethod> {
    if c0 == 'w' && c1 == 'X' {
        Some(RpcMethod::ListNotebooks)
    } else if c0 == 'C' && c1 == 'C' {
        Some(RpcMethod::CreateNotebook)
    } else if c0 == 'r' && c1 == 'L' {
        Some(RpcMethod::GetNotebook)
    } else if c0 == 's' && c1 == '0' {
        Some(RpcMethod::RenameNotebook)
    } else if c0 == 'W' && c1 == 'W' {
        Some(RpcMethod::DeleteNotebook)
    } else if c0 == 'V' && c1 == 'f' {
        Some(RpcMethod::Summarize)
    } else if c0 == 'i' && c1 == 'z' {
        Some(RpcMethod::AddSource)
    } else if c0 == 't' && c1 == 'G' {
        Some(RpcMethod::DeleteSource)
    } else if c0 == 'h' && c1 == 'i' {
        Some(RpcMethod::GetSource)
    } else if c0 == 'F' && c1 == 'L' {
        Some(RpcMethod::RefreshSource)
    } else if c0 == 'b' && c1 == '7' {
        Some(RpcMethod::UpdateSource)
    } else if c0 == 'h' && c1 == 'P' {
        Some(RpcMethod::GetConversationHistory)
    } else if c0 == 'R' && c1 == '7' {
        Some(RpcMethod::CreateArtifact)
    } else if c0 == 'g' && c1 == 'A' {
        Some(RpcMethod::ListArtifacts)
    } else if c0 == 'V' && c1 == '5' {
        Some(RpcMethod::DeleteArtifact)
    } else if c0 == 'r' && c1 == 'c' {
        Some(RpcMethod::RenameArtifact)
    } else if c0 == 'K' && c1 == 'r' {
        Some(RpcMethod::ExportArtifact)
    } else if c0 == 'y' && c1 == 'y' {
        Some(RpcMethod::GenerateMindMap)
    } else if c0 == 'C' && c1 == 'Y' {
        Some(RpcMethod::CreateNote)
    } else if c0 == 'c' && c1 == 'Y' {
        Some(RpcMethod::UpdateNote)
    } else if c0 == 'v' && c1 == '9' {
        Some(RpcMethod::GetInteractiveHtml)
    } else if c0 == 'c' && c1 == 'F' {
        Some(RpcMethod::GetNotesAndMindMaps)
    } else if c0 == 'L' && c1 == 'j' {
        Some(RpcMethod::StartFastResearch)
    } else if c0 == 'Q' && c1 == 'A' {
        Some(RpcMethod::StartDeepResearch)
    } else if c0 == 'e' && c1 == '3' {
        Some(RpcMethod::PollResearch)
    } else if c0 == 'L' && c1 == 'B' {
        Some(RpcMethod::ImportResearch)
    } else if c0 == 'Z' && c1 == 'w' {
        Some(RpcMethod::GetUserSettings)
    } else if c0 == 'h' && c1 == 'T' {
        Some(RpcMethod::SetUserSettings)
    } else if c0 == 'J' && c1 == 'F' {
        Some(RpcMethod::GetShareStatus)
    } else if c0 == 'Q' && c1 == 'D' {
        Some(RpcMethod::ShareNotebook)
    } else {
        None
    }
}

/// No two methods share an id: the id names the method.
pub proof fn law_method_ids_distinct(m1: RpcMethod, m2: RpcMethod)
    ensures
        m1.spec_id() == m2.spec_id() <==> m1 == m2,
{
    lemma_prefix_names_method(m1);
    lemma_prefix_names_method(m2);
    if m1.spec_id() == m2.spec_id() {
        assert(m1.spec_id()[0] == m2.spec_id()[0]);
        assert(m1.spec_id()[1] == m2.spec_id()[1]);
    }
}

proof fn lemma_prefix_names_method(m: RpcMethod)
    ensures
        m.spec_id().len() >= 2,
        method_of_prefix(m.spec_id()[0], m.spec_id()[1]) == Some(m),
{
    reveal_strlit("wXbhsf");
    reveal_strlit("CCqFvf");
    reveal_strlit("rLM1Ne");
    reveal_strlit("s0tc2d");
    reveal_strlit("WWINqb");
    reveal_strlit("VfAZjd");
    reveal_strlit("izAoDd");
    reveal_strlit("tGMBJ");
    reveal_strlit("hizoJc");
    reveal_strlit("FLmJqe");
    reveal_strlit("b7Wfje");
    reveal_strlit("hPTbtc");
    reveal_strlit("R7cb6c");
    reveal_strlit("gArtLc");
    reveal_strlit("V5N4be");
    reveal_strlit("rc3d8d");
    reveal_strlit("Krh3pd");
    reveal_strlit("yyryJe");
    reveal_strlit("CYK0Xb");
    reveal_strlit("cYAfTb");
    reveal_strlit("v9rmvd");
    reveal_strlit("cFji9");
    reveal_strlit("Ljjv0c");
    reveal_strlit("QA9ei");
    reveal_strlit("e3bVqc");
    reveal_strlit("LBwxtb");
    reveal_strlit("ZwVcOc");
    reveal_strlit("hT54vc");
    reveal_strlit("JFMDGd");
    reveal_strlit("QDyure");
}

// ---- Request encoding ----

/// The envelope `[[[id, params_json, null, "generic"]]]`.
pub open spec fn spec_rpc_request(method: RpcMethod, params: SJson) -> SJson {
    SJson::Array(
        seq![
            SJson::Array(
                seq![
                    SJson::Array(
                        seq![
                            SJson::Str(method.spec_id()),
                            SJson::Str(spec_json_text(params)),
                            SJson::Null,
                            SJson::Str("generic"@),
                        ],
                    ),
                ],
            ),
        ],
    )
}

/// Wraps the parameters of a call in the batchexecute envelope; the
/// parameters travel as their JSON text.
pub fn encode_rpc_request(method: RpcMethod, params: JsonValue) -> (r: Result<JsonValue>)
    ensures
        r matches Ok(v) && v@ == spec_rpc_request(method, params@),
{
    let params_json = to_json_text(&params);
    let inner = arr(
        vec![
            jstr(method.id()),
            JsonValue::Str(params_json),
            JsonValue::Null,
            jstr("generic"),
        ],
    );
    let ghost iv = inner@;
    let mid = arr(vec![inner]);
    let ghost mv = mid@;
    let outer = arr(vec![mid]);
    proof {
        let a = seq![
            SJson::Str(method.spec_id()),
            SJson::Str(spec_json_text(params@)),
            SJson::Null,
            SJson::Str("generic"@),
        ];
        assert(sarr(Some(iv))->0 =~= a);
        assert(sarr(Some(mv))->0 =~= seq![iv]);
        assert(sarr(Some(outer@))->0 =~= seq![mv]);
    }
    Ok(outer)
}

/// Bytes that `urlencoding` leaves as they are.
pub open spec fn is_unreserved(b: u8) -> bool {
    (48 <= b <= 57) || (65 <= b <= 90) || (97 <= b <= 122) || b == 45 || b == 46 || b == 95
        || b == 126
}

/// The upper-case hexadecimal digit of `d` (`d < 16`).
pub open spec fn hex_upper(d: u8) -> char {
    if d < 10 {
        ((48 + d) as u8) as char
    } else {
        ((55 + d) as u8) as char
    }
}

/// Percent-encoding of the bytes: unreserved bytes stay, every other byte
/// becomes `%` and two upper-case hex digits.
pub open spec fn percent_encode(bs: Seq<u8>) -> Seq<char>
    decreases bs.len(),
{
    if bs.len() == 0 {
        Seq::empty()
    } else {
        let b = bs[0];
        (if is_unreserved(b) {
            seq![b as char]
        } else {
            seq!['%', hex_upper(b / 16), hex_upper(b % 16)]
        }) + percent_encode(bs.drop_first())
    }
}

/// `urlencoding::encode`: percent-encodes every byte of the UTF-8 text except
/// ASCII letters, digits and `-`, `.`, `_`, `~`, with upper-case hex digits.
#[verifier::external_body]
fn url_encode(s: &str) -> (r: String)
    ensures
        r@ == percent_encode(encode_utf8(s@)),
{
    urlencoding::encode(s).into_owned()
}

/// The form body `f.req=<request>&at=<token>&`.
pub open spec fn spec_request_body(rpc_request: SJson, csrf_token: Seq<char>) -> Seq<char> {
    "f.req="@ + percent_encode(encode_utf8(spec_json_text(rpc_request))) + "&at="@
        + percent_encode(encode_utf8(csrf_token)) + "&"@
}

/// The form-encoded body of a call: the request's JSON text and the CSRF
/// token, each percent-encoded.
pub fn build_request_body(rpc_request: &JsonValue, csrf_token: &str) -> (r: Result<String>)
    ensures
        r matches Ok(b) && b@ == spec_request_body(rpc_request@, csrf_token@),
{
    let f_req = to_json_text(rpc_request);
    let a = url_encode(f_req.as_str());
    let t = url_encode(csrf_token);
    let mut out: Vec<char> = Vec::new();
    push_str(&mut out, "f.req=");
    push_str(&mut out, a.as_str());
    push_str(&mut out, "&at=");
    push_str(&mut out, t.as_str());
    push_str(&mut out, "&");
    Ok(string_of(out.as_slice()))
}


/// The form body of a chat query: `f.req=<[null, params_json]>&at=<token>&`,
/// each part percent-encoded.
pub open spec fn spec_query_body(params: SJson, csrf_token: Seq<char>) -> Seq<char> {
    let f_req = spec_json_text(SJson::Array(seq![SJson::Null, SJson::Str(spec_json_text(params))]));
    "f.req="@ + percent_encode(encode_utf8(f_req)) + "&at="@ + percent_encode(
        encode_utf8(csrf_token),
    ) + "&"@
}

pub fn build_query_body(params: &JsonValue, csrf_token: &str) -> (r: String)
    ensures
        r@ == spec_query_body(params@, csrf_token@),
{
    let params_json = to_json_text(params);
    let envelope = arr(vec![JsonValue::Null, JsonValue::Str(params_json)]);
    let ghost ev = envelope@;
    assert(ev == SJson::Array(seq![SJson::Null, SJson::Str(spec_json_text(params@))])) by {
        assert(sarr(Some(ev))->0 =~= seq![SJson::Null, SJson::Str(spec_json_text(params@))]);
    }
    let f_req = to_json_text(&envelope);
    let a = url_encode(f_req.as_str());
    let t = url_encode(csrf_token);
    let mut out: Vec<char> = Vec::new();
    push_str(&mut out, "f.req=");
    push_str(&mut out, a.as_str());
    push_str(&mut out, "&at=");
    push_str(&mut out, t.as_str());
    push_str(&mut out, "&");
    string_of(out.as_slice())
}

/// The build label that chat queries carry.
pub const DEFAULT_QUERY_BL: &'static str = "boq_labs-tailwind-frontend_20251221.14_p0";

/// The URL that the `url` crate makes of `base` with the query pairs
/// appended in order (form-encoded), or the text of its parse error.
pub uninterp spec fn spec_url_with_params(
    base: Seq<char>,
    params: Seq<(Seq<char>, Seq<char>)>,
) -> core::result::Result<Seq<char>, Seq<char>>;

/// `reqwest::Url::parse_with_params(base, params)`, written out as text; an
/// error is written with its `Display`. Both are what
/// `spec_url_with_params` names for the arguments.
#[verifier::external_body]
fn url_with_params(base: &str, params: &Vec<(String, String)>) -> (r: core::result::Result<String, String>)
    ensures
        match r {
            Ok(u) => spec_url_with_params(base@, pairs_view(params@)) == Ok::<Seq<char>, Seq<char>>(u@),
            Err(e) => spec_url_with_params(base@, pairs_view(params@)) == Err::<Seq<char>, Seq<char>>(e@),
        },
{
    match reqwest::Url::parse_with_params(base, params.iter()) {
        Ok(u) => Ok(u.to_string()),
        Err(e) => Err(e.to_string()),
    }
}

fn pair(k: &str, v: &str) -> (r: (String, String))
    ensures
        r.0@ == k@ && r.1@ == v@,
{
    (string_from(k), string_from(v))
}

/// The query pairs of a batchexecute call.
pub open spec fn rpc_url_params(method: RpcMethod, source_path: Seq<char>, session_id: Seq<char>) -> Seq<(Seq<char>, Seq<char>)> {
    seq![
        ("rpcids"@, method.spec_id()),
        ("source-path"@, source_path),
        ("f.sid"@, session_id),
        ("rt"@, "c"@),
    ]
}

pub open spec fn url_result_view(r: Result<String>) -> core::result::Result<Seq<char>, SError> {
    match r {
        Ok(u) => Ok(u@),
        Err(e) => Err(e@),
    }
}

/// The URL of a batchexecute call; a URL that cannot be built is a
/// configuration error.
pub open spec fn spec_rpc_url(method: RpcMethod, source_path: Seq<char>, session_id: Seq<char>) -> core::result::Result<Seq<char>, SError> {
    match spec_url_with_params(BATCHEXECUTE_URL@, rpc_url_params(method, source_path, session_id)) {
        Ok(u) => Ok(u),
        Err(e) => Err(SError::Config("invalid rpc url params: "@ + e)),
    }
}

pub fn build_rpc_url(auth: &AuthTokens, method: RpcMethod, source_path: &str) -> (r: Result<String>)
    ensures
        url_result_view(r) == spec_rpc_url(method, source_path@, auth.session_id@),
{
    let params = vec![
        pair("rpcids", method.id()),
        pair("source-path", source_path),
        pair("f.sid", auth.session_id.as_str()),
        pair("rt", "c"),
    ];
    assert(pairs_view(params@) =~= rpc_url_params(method, source_path@, auth.session_id@));
    match url_with_params(BATCHEXECUTE_URL, &params) {
        Ok(u) => Ok(u),
        Err(e) => {
            let mut m = chars_of("invalid rpc url params: ");
            push_str(&mut m, e.as_str());
            Err(NotebookLmError::Config(string_of(m.as_slice())))
        },
    }
}

/// The query pairs of a chat query.
pub open spec fn query_url_params(reqid: Seq<char>, session_id: Seq<char>) -> Seq<(Seq<char>, Seq<char>)> {
    seq![
        ("bl"@, DEFAULT_QUERY_BL@),
        ("hl"@, "en"@),
        ("_reqid"@, reqid),
        ("rt"@, "c"@),
        ("f.sid"@, session_id),
    ]
}

pub open spec fn spec_query_url(reqid: Seq<char>, session_id: Seq<char>) -> core::result::Result<Seq<char>, SError> {
    match spec_url_with_params(QUERY_URL@, query_url_params(reqid, session_id)) {
        Ok(u) => Ok(u),
        Err(e) => Err(SError::Config("invalid query url params: "@ + e)),
    }
}

/// The request counter's value before the first chat query.
pub const REQUEST_NUMBER_START: u64 = 100000;

/// How far the request counter moves for each chat query.
pub const REQUEST_NUMBER_STEP: u64 = 100000;

/// The request number of the next chat query, from the counter's value
/// before it: one step further, with its decimal text; `None` where that
/// passes `u64::MAX`.
pub fn next_request_number(previous: u64) -> (r: Option<(u64, String)>)
    ensures
        match r {
            Some((n, text)) => previous + REQUEST_NUMBER_STEP <= u64::MAX
                && n == previous + REQUEST_NUMBER_STEP && text@ == decimal_nat(n as nat),
            None => previous + REQUEST_NUMBER_STEP > u64::MAX,
        },
{
    if previous > u64::MAX - REQUEST_NUMBER_STEP {
        None
    } else {
        let n = previous + REQUEST_NUMBER_STEP;
        let digits = decimal_u64(n);
        Some((n, string_of(digits.as_slice())))
    }
}

/// The URL of a chat query with request number `reqid`.
pub fn build_query_url(auth: &AuthTokens, reqid: &str) -> (r: Result<String>)
    ensures
        url_result_view(r) == spec_query_url(reqid@, auth.session_id@),
{
    let params = vec![
        pair("bl", DEFAULT_QUERY_BL),
        pair("hl", "en"),
        pair("_reqid", reqid),
        pair("rt", "c"),
        pair("f.sid", auth.session_id.as_str()),
    ];
    assert(pairs_view(params@) =~= query_url_params(reqid@, auth.session_id@));
    match url_with_params(QUERY_URL, &params) {
        Ok(u) => Ok(u),
        Err(e) => {
            let mut m = chars_of("invalid query url params: ");
            push_str(&mut m, e.as_str());
            Err(NotebookLmError::Config(string_of(m.as_slice())))
        },
    }
}


// ---- Response decoding ----

/// The response without its anti-XSSI first line: text that starts with
/// `)]}'` loses everything up to and including its first newline.
pub open spec fn spec_strip_anti_xssi(s: Seq<char>) -> Seq<char> {
    if starts_with(s, ")]}'"@) {
        match index_of(s, '\n') {
            Some(k) => s.subrange(k + 1, s.len() as int),
            None => s,
        }
    } else {
        s
    }
}

proof fn lemma_index_of_first(pre: Seq<char>, c: char, post: Seq<char>)
    requires
        forall|i: int| 0 <= i < pre.len() ==> pre[i] != c,
    ensures
        index_of(pre + seq![c] + post, c) == Some(pre.len() as int),
    decreases pre.len(),
{
    let s = pre + seq![c] + post;
    if pre.len() == 0 {
        assert(s[0] == c);
    } else {
        lemma_index_of_first(pre.drop_first(), c, post);
        assert(s.drop_first() =~= pre.drop_first() + seq![c] + post);
        assert(s[0] == pre[0]);
    }
}

/// The guard line is taken off an answer: after `)]}'` and the rest of its
/// line, what follows the first line break is the body; an answer that
/// does not start with the guard is kept whole.
pub proof fn law_guard_removed(line: Seq<char>, body: Seq<char>, other: Seq<char>)
    requires
        forall|i: int| 0 <= i < line.len() ==> line[i] != '\n',
    ensures
        spec_strip_anti_xssi(")]}'"@ + line + seq!['\n'] + body) == body,
        !starts_with(other, ")]}'"@) ==> spec_strip_anti_xssi(other) == other,
{
    reveal_strlit(")]}'");
    let g = ")]}'"@;
    let pre = g + line;
    assert forall|i: int| 0 <= i < pre.len() implies pre[i] != '\n' by {
        if i >= 4 {
            assert(pre[i] == line[i - 4]);
        }
    }
    lemma_index_of_first(pre, '\n', body);
    let s = g + line + seq!['\n'] + body;
    assert(s =~= pre + seq!['\n'] + body);
    assert(s.subrange(0, 4) =~= g);
    assert(s.subrange(pre.len() as int + 1, s.len() as int) =~= body);
}

pub fn strip_anti_xssi(response: &str) -> (r: String)
    ensures
        r@ == spec_strip_anti_xssi(response@),
{
    let s = chars_of(response);
    if str_starts(s.as_slice(), ")]}'") {
        match find_char(s.as_slice(), '\n') {
            Some(k) => {
                assert(k < s.len());
                let rest = slice_chars(s.as_slice(), k + 1, s.len());
                return string_of(rest.as_slice());
            },
            None => {},
        }
    }
    string_of(s.as_slice())
}

/// A one-element sequence for `Some`, an empty one for `None`.
pub open spec fn opt_seq(o: Option<SJson>) -> Seq<SJson> {
    match o {
        Some(v) => seq![v],
        None => Seq::empty(),
    }
}

/// The JSON chunks of a chunked response, given its non-blank lines: a line
/// that reads as a length announces that the next line is a chunk; a line
/// that is not JSON is skipped.
pub open spec fn spec_chunks(lines: Seq<Seq<char>>) -> Seq<SJson>
    decreases lines.len(),
{
    if lines.len() == 0 {
        Seq::empty()
    } else if is_usize_text(lines[0]) {
        if lines.len() >= 2 {
            opt_seq(spec_parse_json(lines[1])) + spec_chunks(lines.subrange(2, lines.len() as int))
        } else {
            Seq::empty()
        }
    } else {
        opt_seq(spec_parse_json(lines[0])) + spec_chunks(lines.drop_first())
    }
}

/// The JSON chunks of a chunked response body.
pub fn parse_chunked_response(response: &str) -> (r: Vec<JsonValue>)
    ensures
        views(r@) == spec_chunks(nonblank_lines(response@)),
{
    let s = chars_of(response);
    let lines = nonblank_lines_exec(s.as_slice());
    let ghost ls = nonblank_lines(response@);
    let n = lines.len();
    let mut chunks: Vec<JsonValue> = Vec::new();
    let mut i: usize = 0;
    assert(ls.subrange(0, n as int) =~= ls);
    assert(views(chunks@) =~= Seq::<SJson>::empty());
    while i < n
        invariant
            i <= n,
            n == lines@.len() == ls.len(),
            forall|k: int| 0 <= k < n ==> #[trigger] lines@[k]@ == ls[k],
            views(chunks@) + spec_chunks(ls.subrange(i as int, n as int)) == spec_chunks(ls),
        decreases n - i,
    {
        let ghost rest = ls.subrange(i as int, n as int);
        let ghost before = views(chunks@);
        assert(rest[0] == ls[i as int]);
        if parses_as_usize(lines[i].as_slice()) {
            if i + 1 < n {
                assert(rest[1] == ls[i + 1]);
                assert(rest.subrange(2, rest.len() as int) =~= ls.subrange(i + 2, n as int));
                let text = string_of(lines[i + 1].as_slice());
                match parse_json(text.as_str()) {
                    Some(v) => {
                        chunks.push(v);
                        assert(views(chunks@) =~= before + opt_seq(spec_parse_json(ls[i + 1])));
                    },
                    None => {
                        assert(views(chunks@) =~= before + opt_seq(spec_parse_json(ls[i + 1])));
                    },
                }
                i = i + 2;
                assert(views(chunks@) + spec_chunks(ls.subrange(i as int, n as int)) =~= spec_chunks(ls));
            } else {
                assert(spec_chunks(rest) == Seq::<SJson>::empty());
                i = n;
                assert(views(chunks@) + spec_chunks(ls.subrange(i as int, n as int)) =~= spec_chunks(ls));
            }
        } else {
            assert(rest.drop_first() =~= ls.subrange(i + 1, n as int));
            let text = string_of(lines[i].as_slice());
            match parse_json(text.as_str()) {
                Some(v) => {
                    chunks.push(v);
                    assert(views(chunks@) =~= before + opt_seq(spec_parse_json(ls[i as int])));
                },
                None => {
                    assert(views(chunks@) =~= before + opt_seq(spec_parse_json(ls[i as int])));
                },
            }
            i = i + 1;
            assert(views(chunks@) + spec_chunks(ls.subrange(i as int, n as int)) =~= spec_chunks(ls));
        }
    }
    assert(ls.subrange(n as int, n as int) =~= Seq::<Seq<char>>::empty());
    assert(views(chunks@) + spec_chunks(Seq::empty()) =~= views(chunks@));
    chunks
}


/// What one item of a response says about a call.
pub enum RpcFind {
    /// The item is about another call, or is not a call result.
    Skip,
    /// The call failed, with the error code if the item has one.
    Failed(Option<i64>),
    /// The call returned this payload.
    Found(SJson),
}

/// The items of a chunk: the chunk's elements where its first element is an
/// array, else the chunk itself.
pub open spec fn chunk_items(c: SJson) -> Seq<SJson> {
    match c {
        SJson::Array(a) => if a.len() > 0 && sis_array(Some(a[0])) {
            a
        } else {
            seq![c]
        },
        _ => seq![c],
    }
}

/// A payload: text is read as JSON where it is JSON, else kept as text.
pub open spec fn payload(d: SJson) -> SJson {
    match d {
        SJson::Str(t) => match spec_parse_json(t) {
            Some(v) => v,
            None => SJson::Str(t),
        },
        _ => d,
    }
}

/// What `item` says about the call `id`: `[tag, id, data, ...]` with tag
/// `er` for a failure and `wrb.fr` for a result.
pub open spec fn item_find(item: SJson, id: Seq<char>) -> RpcFind {
    match item {
        SJson::Array(a) => if a.len() < 3 {
            RpcFind::Skip
        } else {
            let tag = or_empty(sstr(Some(a[0])));
            let iid = or_empty(sstr(Some(a[1])));
            if iid != id {
                RpcFind::Skip
            } else if tag == "er"@ {
                RpcFind::Failed(si64(Some(a[2])))
            } else if tag == "wrb.fr"@ {
                RpcFind::Found(payload(a[2]))
            } else {
                RpcFind::Skip
            }
        },
        _ => RpcFind::Skip,
    }
}

/// The first item of `items` that is about the call `id`.
pub open spec fn find_in_items(items: Seq<SJson>, id: Seq<char>) -> RpcFind
    decreases items.len(),
{
    if items.len() == 0 {
        RpcFind::Skip
    } else {
        match item_find(items[0], id) {
            RpcFind::Skip => find_in_items(items.drop_first(), id),
            r => r,
        }
    }
}

/// The first item, over all chunks in order, that is about the call `id`.
pub open spec fn find_in_chunks(chunks: Seq<SJson>, id: Seq<char>) -> RpcFind
    decreases chunks.len(),
{
    if chunks.len() == 0 {
        RpcFind::Skip
    } else {
        match find_in_items(chunk_items(chunks[0]), id) {
            RpcFind::Skip => find_in_chunks(chunks.drop_first(), id),
            r => r,
        }
    }
}

/// The message of an RPC failure with the given code.
pub open spec fn rpc_error_message(code: Option<i64>) -> Seq<char> {
    match code {
        Some(c) => if c == 401 {
            "authentication required"@
        } else if c == 403 {
            "forbidden"@
        } else if c == 404 {
            "not found"@
        } else if c == 429 {
            "rate limited"@
        } else {
            "rpc error code "@ + decimal_int(c as int)
        },
        None => "unknown rpc error"@,
    }
}

/// The result of the call `id` in the chunks: its payload, its failure, or
/// `null` where no item is about it.
pub open spec fn spec_extract_rpc_result(chunks: Seq<SJson>, id: Seq<char>) -> core::result::Result<SJson, SError> {
    match find_in_chunks(chunks, id) {
        RpcFind::Skip => Ok(SJson::Null),
        RpcFind::Failed(code) => Err(SError::Rpc { method_id: id, message: rpc_error_message(code), code }),
        RpcFind::Found(v) => Ok(v),
    }
}

pub open spec fn json_result_view(r: Result<JsonValue>) -> core::result::Result<SJson, SError> {
    match r {
        Ok(v) => Ok(v@),
        Err(e) => Err(e@),
    }
}

enum Find {
    Skip,
    Failed(Option<i64>),
    Found(JsonValue),
}

spec fn find_view(f: Find) -> RpcFind {
    match f {
        Find::Skip => RpcFind::Skip,
        Find::Failed(c) => RpcFind::Failed(c),
        Find::Found(v) => RpcFind::Found(v@),
    }
}

fn find_in_item(item: &JsonValue, id: &String) -> (r: Find)
    ensures
        find_view(r) == item_find(item@, id@),
{
    let a = match item.as_array() {
        Some(a) => a,
        None => {
            return Find::Skip;
        },
    };
    if a.len() < 3 {
        return Find::Skip;
    }
    assert(views(a@)[0] == a@[0]@);
    assert(views(a@)[1] == a@[1]@);
    assert(views(a@)[2] == a@[2]@);
    let tag = crate::json::owned_or_empty(a[0].as_str());
    let iid = crate::json::owned_or_empty(a[1].as_str());
    if !(iid == *id) {
        return Find::Skip;
    }
    if tag == string_from("er") {
        return Find::Failed(a[2].as_i64());
    }
    if tag == string_from("wrb.fr") {
        let data = &a[2];
        match data.as_str() {
            Some(t) => match parse_json(t.as_str()) {
                Some(v) => {
                    return Find::Found(v);
                },
                None => {
                    return Find::Found(JsonValue::Str(t.clone()));
                },
            },
            None => {
                return Find::Found(copy_json(data));
            },
        }
    }
    Find::Skip
}

fn find_in_list(items: &Vec<JsonValue>, id: &String) -> (r: Find)
    ensures
        find_view(r) == find_in_items(views(items@), id@),
{
    let ghost vs = views(items@);
    let n = items.len();
    let mut i: usize = 0;
    assert(vs.subrange(0, n as int) =~= vs);
    while i < n
        invariant
            i <= n == items@.len() == vs.len(),
            vs == views(items@),
            find_in_items(vs, id@) == find_in_items(vs.subrange(i as int, n as int), id@),
        decreases n - i,
    {
        let ghost rest = vs.subrange(i as int, n as int);
        assert(rest[0] == items@[i as int]@);
        assert(rest.drop_first() =~= vs.subrange(i + 1, n as int));
        let f = find_in_item(&items[i], id);
        match f {
            Find::Skip => {},
            _ => {
                return f;
            },
        }
        i = i + 1;
    }
    Find::Skip
}

fn find_in_chunk(chunk: &JsonValue, id: &String) -> (r: Find)
    ensures
        find_view(r) == find_in_items(chunk_items(chunk@), id@),
{
    match chunk.as_array() {
        Some(a) => {
            if a.len() > 0 {
                assert(views(a@)[0] == a@[0]@);
            }
            if a.len() > 0 && a[0].is_array() {
                return find_in_list(a, id);
            }
            assert(chunk_items(chunk@) == seq![chunk@]);
        },
        None => {
            assert(chunk_items(chunk@) == seq![chunk@]);
        },
    }
    let f = find_in_item(chunk, id);
    proof {
        let one = seq![chunk@];
        assert(one[0] == chunk@);
        assert(one.drop_first() =~= Seq::<SJson>::empty());
        assert(find_in_items(Seq::<SJson>::empty(), id@) == RpcFind::Skip);
        assert(find_in_items(one, id@) == (match item_find(chunk@, id@) {
            RpcFind::Skip => RpcFind::Skip,
            r => r,
        }));
    }
    f
}

/// The message of an RPC failure with the given code.
/// How the result of a call is read from the chunks of an answer: with no
/// chunk there is no result (`null`); a chunk that is one item
/// `[tag, other, data]` about another call is passed over; a result item
/// `["wrb.fr", id, data]` gives its data (read as JSON where it is JSON
/// text); a failure item `["er", id, code]` gives an RPC error for the
/// call carrying the code, "not found" for 404.
pub proof fn law_rpc_result_items(id: Seq<char>, other: Seq<char>, tag: Seq<char>, data: SJson, rest: Seq<SJson>)
    ensures
        spec_extract_rpc_result(Seq::empty(), id) == Ok::<SJson, SError>(SJson::Null),
        other != id ==> spec_extract_rpc_result(
            seq![SJson::Array(seq![SJson::Str(tag), SJson::Str(other), data])] + rest,
            id,
        ) == spec_extract_rpc_result(rest, id),
        !(data is Str) ==> spec_extract_rpc_result(
            seq![SJson::Array(seq![SJson::Str("wrb.fr"@), SJson::Str(id), data])] + rest,
            id,
        ) == Ok::<SJson, SError>(data),
        (data matches SJson::Str(t) && spec_parse_json(t) is Some) ==> spec_extract_rpc_result(
            seq![SJson::Array(seq![SJson::Str("wrb.fr"@), SJson::Str(id), data])] + rest,
            id,
        ) == Ok::<SJson, SError>(spec_parse_json(data->Str_0)->0),
        (data is Int) ==> (spec_extract_rpc_result(
            seq![SJson::Array(seq![SJson::Str("er"@), SJson::Str(id), data])] + rest,
            id,
        ) == Err::<SJson, SError>(SError::Rpc {
            method_id: id,
            message: rpc_error_message(Some(data->Int_0)),
            code: Some(data->Int_0),
        })),
        rpc_error_message(Some(404)) == "not found"@,
        rpc_error_message(Some(401)) == "authentication required"@,
        rpc_error_message(Some(429)) == "rate limited"@,
{
    let chunks = seq![SJson::Array(seq![SJson::Str(tag), SJson::Str(other), data])] + rest;
    assert(chunks.drop_first() =~= rest);
    let ok_chunks = seq![SJson::Array(seq![SJson::Str("wrb.fr"@), SJson::Str(id), data])] + rest;
    assert(ok_chunks.drop_first() =~= rest);
    let er_chunks = seq![SJson::Array(seq![SJson::Str("er"@), SJson::Str(id), data])] + rest;
    assert(er_chunks.drop_first() =~= rest);
    reveal_strlit("er");
    reveal_strlit("wrb.fr");
    assert("er"@.len() == 2 && "wrb.fr"@.len() == 6);
    let c = chunks[0];
    assert(chunk_items(c) == seq![c]);
    assert(seq![c].drop_first() =~= Seq::<SJson>::empty());
    if other != id {
        assert(item_find(c, id) == RpcFind::Skip);
        assert(seq![c][0] == c);
        assert(find_in_items(Seq::<SJson>::empty(), id) == RpcFind::Skip);
        assert(find_in_items(seq![c], id) == find_in_items(seq![c].drop_first(), id));
        assert(find_in_items(seq![c], id) == RpcFind::Skip);
        assert(find_in_chunks(chunks, id) == find_in_chunks(rest, id));
    }
    let oc = ok_chunks[0];
    assert(chunk_items(oc) == seq![oc]);
    assert(seq![oc].drop_first() =~= Seq::<SJson>::empty());
    let ec = er_chunks[0];
    assert(chunk_items(ec) == seq![ec]);
    assert(seq![ec].drop_first() =~= Seq::<SJson>::empty());
}

pub fn rpc_error_text(code: Option<i64>) -> (r: String)
    ensures
        r@ == rpc_error_message(code),
{
    match code {
        Some(c) => if c == 401 {
            string_from("authentication required")
        } else if c == 403 {
            string_from("forbidden")
        } else if c == 404 {
            string_from("not found")
        } else if c == 429 {
            string_from("rate limited")
        } else {
            let mut out = chars_of("rpc error code ");
            let d = decimal_i64(c);
            append_all(&mut out, d.as_slice());
            string_of(out.as_slice())
        },
        None => string_from("unknown rpc error"),
    }
}

/// The result of the call `rpc_id` among the chunks of a response.
pub fn extract_rpc_result(chunks: &Vec<JsonValue>, rpc_id: &str) -> (r: Result<JsonValue>)
    ensures
        json_result_view(r) == spec_extract_rpc_result(views(chunks@), rpc_id@),
{
    let id = string_from(rpc_id);
    let ghost cs = views(chunks@);
    let n = chunks.len();
    let mut i: usize = 0;
    assert(cs.subrange(0, n as int) =~= cs);
    while i < n
        invariant
            i <= n == chunks@.len() == cs.len(),
            cs == views(chunks@),
            id@ == rpc_id@,
            find_in_chunks(cs, id@) == find_in_chunks(cs.subrange(i as int, n as int), id@),
        decreases n - i,
    {
        let ghost rest = cs.subrange(i as int, n as int);
        assert(rest[0] == chunks@[i as int]@);
        assert(rest.drop_first() =~= cs.subrange(i + 1, n as int));
        let f = find_in_chunk(&chunks[i], &id);
        match f {
            Find::Skip => {},
            Find::Failed(code) => {
                return Err(
                    NotebookLmError::Rpc { method_id: id, message: rpc_error_text(code), code },
                );
            },
            Find::Found(v) => {
                return Ok(v);
            },
        }
        i = i + 1;
    }
    Ok(JsonValue::Null)
}

/// The decoded result of a batchexecute response for the call `rpc_id`:
/// the anti-XSSI line goes, the chunks are read, and the call's payload,
/// failure or `null` is found; `null` is an error unless `allow_null`.
pub open spec fn spec_decode_response(raw: Seq<char>, id: Seq<char>, allow_null: bool) -> core::result::Result<SJson, SError> {
    let chunks = spec_chunks(nonblank_lines(spec_strip_anti_xssi(raw)));
    match spec_extract_rpc_result(chunks, id) {
        Ok(v) => if v == SJson::Null && !allow_null {
            Err(SError::RpcDecode("null response for rpc method "@ + id))
        } else {
            Ok(v)
        },
        Err(e) => Err(e),
    }
}

/// Decoding with `allow_null` set gives exactly the result extracted for
/// the method, a null result included; without it, decoding differs from
/// that result only on a null result, which is then refused as a
/// null-response error. So a null-response error comes only when
/// `allow_null` is unset, and the two settings agree on every answer that
/// is not null.
pub proof fn law_null_result_allowed(raw: Seq<char>, id: Seq<char>)
    ensures
        ({
            let extracted = spec_extract_rpc_result(spec_chunks(nonblank_lines(spec_strip_anti_xssi(raw))), id);
            &&& spec_decode_response(raw, id, true) == extracted
            &&& (extracted == Ok::<SJson, SError>(SJson::Null) ==> spec_decode_response(raw, id, true)
                == Ok::<SJson, SError>(SJson::Null))
            &&& (extracted != Ok::<SJson, SError>(SJson::Null) ==> spec_decode_response(raw, id, false)
                == extracted)
            &&& (extracted == Ok::<SJson, SError>(SJson::Null) ==> spec_decode_response(raw, id, false)
                == Err::<SJson, SError>(SError::RpcDecode("null response for rpc method "@ + id)))
            &&& (forall|m: Seq<char>| spec_decode_response(raw, id, true) != Err::<SJson, SError>(
                SError::RpcDecode(m),
            ) || extracted == Err::<SJson, SError>(SError::RpcDecode(m)))
        }),
{
}

pub fn decode_response(raw: &str, rpc_id: &str, allow_null: bool) -> (r: Result<JsonValue>)
    ensures
        json_result_view(r) == spec_decode_response(raw@, rpc_id@, allow_null),
{
    let stripped = strip_anti_xssi(raw);
    let chunks = parse_chunked_response(stripped.as_str());
    let result = extract_rpc_result(&chunks, rpc_id);
    match result {
        Ok(v) => {
            if v.is_null() && !allow_null {
                let mut out = chars_of("null response for rpc method ");
                push_str(&mut out, rpc_id);
                return Err(NotebookLmError::RpcDecode(string_of(out.as_slice())));
            }
            Ok(v)
        },
        Err(e) => Err(e),
    }
}

} // verus!
