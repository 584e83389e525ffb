//! The calls of the notebook, source, chat-history, settings and sharing
//! operations, and what is read from their answers.

use vstd::prelude::*;
use crate::calls::{call_view, home_call, notebook_call, notebook_path, RpcCall, SRpcCall};
use crate::error::{NotebookLmError, Result, SError};
use crate::json::{
    arr, arr1, arr2, arr3, arr4, arr5, jstr, oget, oi64, opt_string_view, or_empty, ostr,
    owned_opt, owned_or_empty, path_at, sarr, sget, si64, sstr, views, JsonValue, SJson,
};
use crate::payloads::nulls;
use crate::research::{arr_or_empty, call_result_view};
use crate::responses::{extract_nested_string, permission_of, share_status_view, SShareStatus};
use crate::rpc::RpcMethod;
use crate::text::{contains, join, join_chars, chars_of, str_has, string_from, string_of};
use crate::types::{
    extract_fulltext_content, fulltext_pieces, opt_source_view, spec_notebook,
    spec_source_from_api, spec_source_from_notebook, strings_view, Notebook, SNotebook, SSource,
    ShareAccess, SharePermission, ShareStatus, ShareViewLevel, Source, SourceFulltext, text_is,
};
use crate::chat::byte_len;

verus! {

/// Appends `n` nulls.
fn push_nulls(v: &mut Vec<JsonValue>, n: usize)
    ensures
        views(final(v)@) == views(old(v)@) + nulls(n as nat),
{
    let ghost start = views(v@);
    let mut k: usize = 0;
    assert(views(v@) =~= start + nulls(0));
    while k < n
        invariant
            k <= n,
            views(v@) == start + nulls(k as nat),
        decreases n - k,
    {
        let ghost before = v@;
        v.push(JsonValue::Null);
        assert(views(v@) =~= views(before).push(SJson::Null));
        k = k + 1;
        assert(views(v@) =~= start + nulls(k as nat));
    }
}

/// Appends one document.
fn push_json(v: &mut Vec<JsonValue>, x: JsonValue)
    ensures
        views(final(v)@) == views(old(v)@).push(x@),
{
    let ghost xv = x@;
    let ghost before = v@;
    v.push(x);
    assert(views(v@) =~= views(before).push(xv));
}

/// `[2]`.
pub open spec fn two_marker() -> SJson {
    SJson::Array(seq![SJson::Int(2)])
}

// ---- Notebooks ----

/// Listing notebooks: `[null, 1, null, [2]]` from the home page.
pub open spec fn spec_list_notebooks_call() -> SRpcCall {
    SRpcCall {
        method: RpcMethod::ListNotebooks,
        params: SJson::Array(seq![SJson::Null, SJson::Int(1), SJson::Null, two_marker()]),
        source_path: "/"@,
        allow_null: false,
    }
}

pub fn list_notebooks_call() -> (r: RpcCall)
    ensures
        call_view(r) == spec_list_notebooks_call(),
{
    let params = arr4(JsonValue::Null, JsonValue::Int(1), JsonValue::Null, arr1(JsonValue::Int(2)));
    home_call(RpcMethod::ListNotebooks, params, false)
}

/// The entries of a list answer: the first element's elements where it is a
/// list of lists, else the list itself; nothing for an answer that is not a
/// list.
pub open spec fn list_entries(result: SJson) -> Seq<SJson> {
    match result {
        SJson::Array(a) => if a.len() > 0 && (a[0] is Array) {
            sarr(Some(a[0]))->0
        } else {
            a
        },
        _ => Seq::empty(),
    }
}

fn list_entries_exec(result: &JsonValue) -> (r: &Vec<JsonValue>)
    requires
        result@ is Array,
    ensures
        views(r@) == list_entries(result@),
{
    let a = result.as_array().unwrap();
    if a.len() > 0 {
        assert(views(a@)[0] == a@[0]@);
        match a[0].as_array() {
            Some(inner) => {
                return inner;
            },
            None => {},
        }
    }
    a
}

pub open spec fn notebooks_view(v: Seq<Notebook>) -> Seq<SNotebook> {
    Seq::new(v.len(), |i: int| v[i]@)
}

/// Every notebook of a list answer, in order.
pub open spec fn spec_notebook_list(result: SJson) -> Seq<SNotebook> {
    let es = list_entries(result);
    Seq::new(es.len(), |i: int| spec_notebook(es[i]))
}

pub fn parse_notebook_list(result: &JsonValue) -> (r: Vec<Notebook>)
    ensures
        notebooks_view(r@) == spec_notebook_list(result@),
{
    let mut out: Vec<Notebook> = Vec::new();
    if !result.is_array() {
        assert(notebooks_view(out@) =~= spec_notebook_list(result@));
        return out;
    }
    let es = list_entries_exec(result);
    let ghost vs = views(es@);
    let mut i: usize = 0;
    while i < es.len()
        invariant
            i <= es@.len() == vs.len(),
            vs == views(es@),
            vs == list_entries(result@),
            out@.len() == i,
            forall|k: int| 0 <= k < i ==> #[trigger] out@[k]@ == spec_notebook(vs[k]),
        decreases es@.len() - i,
    {
        out.push(Notebook::from_api_response(&es[i]));
        i = i + 1;
    }
    assert(notebooks_view(out@) =~= spec_notebook_list(result@));
    out
}

/// Creating a notebook: `[title, null, null, [2], [1]]` from the home page.
pub open spec fn spec_create_notebook_call(title: Seq<char>) -> SRpcCall {
    SRpcCall {
        method: RpcMethod::CreateNotebook,
        params: SJson::Array(
            seq![
                SJson::Str(title),
                SJson::Null,
                SJson::Null,
                two_marker(),
                SJson::Array(seq![SJson::Int(1)]),
            ],
        ),
        source_path: "/"@,
        allow_null: false,
    }
}

pub fn create_notebook_call(title: &str) -> (r: RpcCall)
    ensures
        call_view(r) == spec_create_notebook_call(title@),
{
    let params = arr5(
        jstr(title),
        JsonValue::Null,
        JsonValue::Null,
        arr1(JsonValue::Int(2)),
        arr1(JsonValue::Int(1)),
    );
    home_call(RpcMethod::CreateNotebook, params, false)
}

/// Reading a notebook (and its sources): `[notebook, null, [2], null, 0]`.
pub open spec fn spec_get_notebook_call(notebook_id: Seq<char>) -> SRpcCall {
    SRpcCall {
        method: RpcMethod::GetNotebook,
        params: SJson::Array(
            seq![SJson::Str(notebook_id), SJson::Null, two_marker(), SJson::Null, SJson::Int(0)],
        ),
        source_path: notebook_path(notebook_id),
        allow_null: false,
    }
}

pub fn get_notebook_call(notebook_id: &str) -> (r: RpcCall)
    ensures
        call_view(r) == spec_get_notebook_call(notebook_id@),
{
    let params = arr5(
        jstr(notebook_id),
        JsonValue::Null,
        arr1(JsonValue::Int(2)),
        JsonValue::Null,
        JsonValue::Int(0),
    );
    notebook_call(RpcMethod::GetNotebook, params, notebook_id, false)
}

/// The notebook of a read answer `[notebook_info, ...]` (an empty info where
/// there is none).
pub open spec fn spec_read_notebook(result: SJson) -> SNotebook {
    match sget(Some(result), 0) {
        Some(info) => spec_notebook(info),
        None => spec_notebook(SJson::Array(Seq::empty())),
    }
}

pub fn parse_notebook(result: &JsonValue) -> (r: Notebook)
    ensures
        r@ == spec_read_notebook(result@),
{
    match result.get(0) {
        Some(info) => Notebook::from_api_response(info),
        None => {
            let empty = arr(Vec::new());
            assert(views(Seq::<JsonValue>::empty()) =~= Seq::<SJson>::empty());
            Notebook::from_api_response(&empty)
        },
    }
}

/// Deleting a notebook: `[[notebook], [2]]` from the home page.
pub open spec fn spec_delete_notebook_call(notebook_id: Seq<char>) -> SRpcCall {
    SRpcCall {
        method: RpcMethod::DeleteNotebook,
        params: SJson::Array(
            seq![SJson::Array(seq![SJson::Str(notebook_id)]), two_marker()],
        ),
        source_path: "/"@,
        allow_null: false,
    }
}

pub fn delete_notebook_call(notebook_id: &str) -> (r: RpcCall)
    ensures
        call_view(r) == spec_delete_notebook_call(notebook_id@),
{
    let params = arr2(arr1(jstr(notebook_id)), arr1(JsonValue::Int(2)));
    home_call(RpcMethod::DeleteNotebook, params, false)
}

/// Renaming a notebook: `[notebook, [[null, null, null, [null, title]]]]`
/// from the home page; an empty answer is fine.
pub open spec fn spec_rename_notebook_call(notebook_id: Seq<char>, title: Seq<char>) -> SRpcCall {
    SRpcCall {
        method: RpcMethod::RenameNotebook,
        params: SJson::Array(
            seq![
                SJson::Str(notebook_id),
                SJson::Array(
                    seq![
                        SJson::Array(
                            seq![
                                SJson::Null,
                                SJson::Null,
                                SJson::Null,
                                SJson::Array(seq![SJson::Null, SJson::Str(title)]),
                            ],
                        ),
                    ],
                ),
            ],
        ),
        source_path: "/"@,
        allow_null: true,
    }
}

pub fn rename_notebook_call(notebook_id: &str, new_title: &str) -> (r: RpcCall)
    ensures
        call_view(r) == spec_rename_notebook_call(notebook_id@, new_title@),
{
    let change = arr4(
        JsonValue::Null,
        JsonValue::Null,
        JsonValue::Null,
        arr2(JsonValue::Null, jstr(new_title)),
    );
    let params = arr2(jstr(notebook_id), arr1(change));
    home_call(RpcMethod::RenameNotebook, params, true)
}

/// Summarizing a notebook: `[notebook, [2]]`.
pub open spec fn spec_summary_call(notebook_id: Seq<char>) -> SRpcCall {
    SRpcCall {
        method: RpcMethod::Summarize,
        params: SJson::Array(seq![SJson::Str(notebook_id), two_marker()]),
        source_path: notebook_path(notebook_id),
        allow_null: false,
    }
}

pub fn summary_call(notebook_id: &str) -> (r: RpcCall)
    ensures
        call_view(r) == spec_summary_call(notebook_id@),
{
    let params = arr2(jstr(notebook_id), arr1(JsonValue::Int(2)));
    notebook_call(RpcMethod::Summarize, params, notebook_id, false)
}

// ---- Sources ----

pub open spec fn sources_view(v: Seq<Source>) -> Seq<SSource> {
    Seq::new(v.len(), |i: int| v[i]@)
}

/// The sources of a notebook, read from `[[title, [source, ...], ...], ...]`:
/// each entry that reads as a source, in order.
pub open spec fn source_list(entries: Seq<SJson>) -> Seq<SSource>
    decreases entries.len(),
{
    if entries.len() == 0 {
        Seq::empty()
    } else {
        let rest = source_list(entries.drop_last());
        match spec_source_from_notebook(entries.last()) {
            Some(s) => rest.push(s),
            None => rest,
        }
    }
}

pub open spec fn spec_sources_of_notebook(result: SJson) -> Seq<SSource> {
    source_list(arr_or_empty(sarr(sget(sget(Some(result), 0), 1))))
}

pub fn parse_source_list(result: &JsonValue) -> (r: Vec<Source>)
    ensures
        sources_view(r@) == spec_sources_of_notebook(result@),
{
    let mut out: Vec<Source> = Vec::new();
    let entries = match oget(result.get(0), 1) {
        Some(e) => match e.as_array() {
            Some(a) => a,
            None => {
                assert(sources_view(out@) =~= source_list(Seq::empty()));
                return out;
            },
        },
        None => {
            assert(sources_view(out@) =~= source_list(Seq::empty()));
            return out;
        },
    };
    let ghost vs = views(entries@);
    let mut i: usize = 0;
    assert(vs.take(0) =~= Seq::<SJson>::empty());
    assert(sources_view(out@) =~= Seq::<SSource>::empty());
    while i < entries.len()
        invariant
            i <= entries@.len() == vs.len(),
            vs == views(entries@),
            sources_view(out@) == source_list(vs.take(i as int)),
        decreases entries@.len() - i,
    {
        assert(vs.take(i + 1).drop_last() =~= vs.take(i as int));
        assert(vs.take(i + 1).last() == entries@[i as int]@);
        let ghost before = out@;
        match Source::from_notebook_source(&entries[i]) {
            Some(s) => {
                out.push(s);
                assert(sources_view(out@) =~= sources_view(before).push(s@));
            },
            None => {},
        }
        i = i + 1;
    }
    assert(vs.take(entries@.len() as int) =~= vs);
    out
}

/// The first source with the given id.
pub open spec fn first_source_with_id(sources: Seq<SSource>, id: Seq<char>) -> Option<SSource>
    decreases sources.len(),
{
    if sources.len() == 0 {
        None
    } else if sources[0].id == id {
        Some(sources[0])
    } else {
        first_source_with_id(sources.drop_first(), id)
    }
}

/// The first source of the list with the given id.
pub fn find_source(sources: Vec<Source>, source_id: &str) -> (r: Option<Source>)
    ensures
        opt_source_view(r) == first_source_with_id(sources_view(sources@), source_id@),
{
    let ghost sv = sources_view(sources@);
    let mut rest = sources;
    let mut i: usize = 0;
    let n = rest.len();
    assert(sv.subrange(0, sv.len() as int) =~= sv);
    while i < n
        invariant
            i <= n == rest@.len() == sv.len(),
            sv == sources_view(rest@),
            sv == sources_view(sources@),
            first_source_with_id(sv, source_id@) == first_source_with_id(
                sv.subrange(i as int, n as int),
                source_id@,
            ),
        decreases n - i,
    {
        let ghost tail = sv.subrange(i as int, n as int);
        assert(tail[0] == rest@[i as int]@);
        assert(tail.drop_first() =~= sv.subrange(i + 1, n as int));
        if text_is(&rest[i].id, source_id) {
            let ghost before = rest@;
            let found = rest.remove(i);
            assert(found == before[i as int]);
            assert(found@ == tail[0]);
            return Some(found);
        }
        i = i + 1;
    }
    assert(sv.subrange(n as int, n as int) =~= Seq::<SSource>::empty());
    None
}

/// Whether a url is a YouTube video.
pub open spec fn is_youtube_url(url: Seq<char>) -> bool {
    contains(url, "youtube.com"@) || contains(url, "youtu.be"@)
}

/// Adding a source by url: a YouTube url goes in slot 7 of the source
/// descriptor and may answer empty; any other url goes in slot 2.
pub open spec fn spec_add_url_call(notebook_id: Seq<char>, url: Seq<char>) -> SRpcCall {
    let u = SJson::Array(seq![SJson::Str(url)]);
    if is_youtube_url(url) {
        SRpcCall {
            method: RpcMethod::AddSource,
            params: SJson::Array(
                seq![
                    SJson::Array(
                        seq![SJson::Array(nulls(7) + seq![u] + nulls(2) + seq![SJson::Int(1)])],
                    ),
                    SJson::Str(notebook_id),
                    two_marker(),
                    SJson::Array(
                        seq![SJson::Int(1)] + nulls(9) + seq![SJson::Array(seq![SJson::Int(1)])],
                    ),
                ],
            ),
            source_path: notebook_path(notebook_id),
            allow_null: true,
        }
    } else {
        SRpcCall {
            method: RpcMethod::AddSource,
            params: SJson::Array(
                seq![
                    SJson::Array(seq![SJson::Array(nulls(2) + seq![u] + nulls(5))]),
                    SJson::Str(notebook_id),
                    two_marker(),
                    SJson::Null,
                    SJson::Null,
                ],
            ),
            source_path: notebook_path(notebook_id),
            allow_null: false,
        }
    }
}

pub fn add_url_call(notebook_id: &str, url: &str) -> (r: RpcCall)
    ensures
        call_view(r) == spec_add_url_call(notebook_id@, url@),
{
    let u = chars_of(url);
    let youtube = str_has(u.as_slice(), "youtube.com") || str_has(u.as_slice(), "youtu.be");
    let ghost uv = SJson::Array(seq![SJson::Str(url@)]);
    if youtube {
        let mut d: Vec<JsonValue> = Vec::new();
        assert(views(d@) =~= Seq::<SJson>::empty());
        push_nulls(&mut d, 7);
        push_json(&mut d, arr1(jstr(url)));
        push_nulls(&mut d, 2);
        push_json(&mut d, JsonValue::Int(1));
        assert(views(d@) =~= nulls(7) + seq![uv] + nulls(2) + seq![SJson::Int(1)]);
        let descriptor = arr(d);
        let mut opts: Vec<JsonValue> = Vec::new();
        assert(views(opts@) =~= Seq::<SJson>::empty());
        push_json(&mut opts, JsonValue::Int(1));
        push_nulls(&mut opts, 9);
        push_json(&mut opts, arr1(JsonValue::Int(1)));
        assert(views(opts@) =~= seq![SJson::Int(1)] + nulls(9) + seq![
            SJson::Array(seq![SJson::Int(1)]),
        ]);
        let params = arr4(arr1(descriptor), jstr(notebook_id), arr1(JsonValue::Int(2)), arr(opts));
        notebook_call(RpcMethod::AddSource, params, notebook_id, true)
    } else {
        let mut d: Vec<JsonValue> = Vec::new();
        assert(views(d@) =~= Seq::<SJson>::empty());
        push_nulls(&mut d, 2);
        push_json(&mut d, arr1(jstr(url)));
        push_nulls(&mut d, 5);
        assert(views(d@) =~= nulls(2) + seq![uv] + nulls(5));
        let descriptor = arr(d);
        let params = arr5(
            arr1(descriptor),
            jstr(notebook_id),
            arr1(JsonValue::Int(2)),
            JsonValue::Null,
            JsonValue::Null,
        );
        notebook_call(RpcMethod::AddSource, params, notebook_id, false)
    }
}

pub open spec fn source_result_view(r: Result<Source>) -> core::result::Result<SSource, SError> {
    match r {
        Ok(s) => Ok(s@),
        Err(e) => Err(e@),
    }
}

/// The source that an add call answers, or a decoding error.
pub open spec fn spec_added_source(result: SJson) -> core::result::Result<SSource, SError> {
    match spec_source_from_api(result) {
        Some(s) => Ok(s),
        None => Err(SError::RpcDecode("failed to parse source from add_url response"@)),
    }
}

pub fn parse_added_source(result: &JsonValue) -> (r: Result<Source>)
    ensures
        source_result_view(r) == spec_added_source(result@),
{
    match Source::from_api_response(result) {
        Some(s) => Ok(s),
        None => Err(
            NotebookLmError::RpcDecode(string_from("failed to parse source from add_url response")),
        ),
    }
}

/// Deleting a source: `[[[source]]]`; an empty answer is fine.
pub open spec fn spec_delete_source_call(notebook_id: Seq<char>, source_id: Seq<char>) -> SRpcCall {
    SRpcCall {
        method: RpcMethod::DeleteSource,
        params: SJson::Array(
            seq![SJson::Array(seq![SJson::Array(seq![SJson::Str(source_id)])])],
        ),
        source_path: notebook_path(notebook_id),
        allow_null: true,
    }
}

pub fn delete_source_call(notebook_id: &str, source_id: &str) -> (r: RpcCall)
    ensures
        call_view(r) == spec_delete_source_call(notebook_id@, source_id@),
{
    let params = arr1(arr1(arr1(jstr(source_id))));
    notebook_call(RpcMethod::DeleteSource, params, notebook_id, true)
}

/// Renaming a source: `[null, [source], [[[title]]]]`; an empty answer is
/// fine.
pub open spec fn spec_rename_source_call(
    notebook_id: Seq<char>,
    source_id: Seq<char>,
    title: Seq<char>,
) -> SRpcCall {
    SRpcCall {
        method: RpcMethod::UpdateSource,
        params: SJson::Array(
            seq![
                SJson::Null,
                SJson::Array(seq![SJson::Str(source_id)]),
                SJson::Array(
                    seq![SJson::Array(seq![SJson::Array(seq![SJson::Str(title)])])],
                ),
            ],
        ),
        source_path: notebook_path(notebook_id),
        allow_null: true,
    }
}

pub fn rename_source_call(notebook_id: &str, source_id: &str, new_title: &str) -> (r: RpcCall)
    ensures
        call_view(r) == spec_rename_source_call(notebook_id@, source_id@, new_title@),
{
    let params = arr3(JsonValue::Null, arr1(jstr(source_id)), arr1(arr1(arr1(jstr(new_title)))));
    notebook_call(RpcMethod::UpdateSource, params, notebook_id, true)
}

/// The renamed source: as the answer describes it, or else the id with
/// the new title, ready (status 2).
pub open spec fn spec_renamed_source(result: SJson, source_id: Seq<char>, title: Seq<char>) -> SSource {
    match spec_source_from_api(result) {
        Some(s) => s,
        None => SSource {
            id: source_id,
            title: Some(title),
            url: None,
            type_code: None,
            created_at_unix: None,
            status: 2,
        },
    }
}

pub fn parse_renamed_source(result: &JsonValue, source_id: &str, new_title: &str) -> (r: Source)
    ensures
        r@ == spec_renamed_source(result@, source_id@, new_title@),
{
    match Source::from_api_response(result) {
        Some(s) => s,
        None => Source {
            id: string_from(source_id),
            title: Some(string_from(new_title)),
            url: None,
            type_code: None,
            created_at_unix: None,
            status: 2,
        },
    }
}

/// Refreshing a source: `[null, [source], [2]]`; an empty answer is fine.
pub open spec fn spec_refresh_source_call(notebook_id: Seq<char>, source_id: Seq<char>) -> SRpcCall {
    SRpcCall {
        method: RpcMethod::RefreshSource,
        params: SJson::Array(
            seq![SJson::Null, SJson::Array(seq![SJson::Str(source_id)]), two_marker()],
        ),
        source_path: notebook_path(notebook_id),
        allow_null: true,
    }
}

pub fn refresh_source_call(notebook_id: &str, source_id: &str) -> (r: RpcCall)
    ensures
        call_view(r) == spec_refresh_source_call(notebook_id@, source_id@),
{
    let params = arr3(JsonValue::Null, arr1(jstr(source_id)), arr1(JsonValue::Int(2)));
    notebook_call(RpcMethod::RefreshSource, params, notebook_id, true)
}

/// Reading a source's text: `[[source], [2], [2]]`; an empty answer is
/// fine.
pub open spec fn spec_fulltext_call(notebook_id: Seq<char>, source_id: Seq<char>) -> SRpcCall {
    SRpcCall {
        method: RpcMethod::GetSource,
        params: SJson::Array(
            seq![SJson::Array(seq![SJson::Str(source_id)]), two_marker(), two_marker()],
        ),
        source_path: notebook_path(notebook_id),
        allow_null: true,
    }
}

pub fn fulltext_call(notebook_id: &str, source_id: &str) -> (r: RpcCall)
    ensures
        call_view(r) == spec_fulltext_call(notebook_id@, source_id@),
{
    let params = arr3(arr1(jstr(source_id)), arr1(JsonValue::Int(2)), arr1(JsonValue::Int(2)));
    notebook_call(RpcMethod::GetSource, params, notebook_id, true)
}

pub struct SFulltext {
    pub source_id: Seq<char>,
    pub title: Seq<char>,
    pub content: Seq<char>,
    pub type_code: Option<i64>,
    pub url: Option<Seq<char>>,
    pub char_count: usize,
}

pub open spec fn fulltext_view(f: SourceFulltext) -> SFulltext {
    SFulltext {
        source_id: f.source_id@,
        title: f.title@,
        content: f.content@,
        type_code: f.type_code,
        url: opt_string_view(f.url),
        char_count: f.char_count,
    }
}

/// The text of a source, read from
/// `[[_, title, [_, _, _, _, type, _, _, [url]]], _, _, [content_root]]`:
/// the non-empty texts under the content root, one per line, and the
/// length of that text in bytes.
pub open spec fn spec_fulltext(result: SJson, source_id: Seq<char>) -> SFulltext {
    let r = Some(result);
    let head = sget(r, 0);
    let meta = sget(head, 2);
    let pieces = match sget(sget(r, 3), 0) {
        Some(root) => fulltext_pieces(root),
        None => Seq::empty(),
    };
    let content = join(pieces, "\n"@);
    SFulltext {
        source_id,
        title: or_empty(sstr(sget(head, 1))),
        content,
        type_code: si64(sget(meta, 4)),
        url: sstr(sget(sget(meta, 7), 0)),
        char_count: byte_len(content),
    }
}

pub fn parse_fulltext(result: &JsonValue, source_id: &str) -> (r: SourceFulltext)
    ensures
        fulltext_view(r) == spec_fulltext(result@, source_id@),
{
    let head = result.get(0);
    let meta = oget(head, 2);
    let title = owned_or_empty(ostr(oget(head, 1)));
    let type_code = oi64(oget(meta, 4));
    let url = owned_opt(ostr(oget(oget(meta, 7), 0)));
    let mut texts: Vec<String> = Vec::new();
    assert(strings_view(texts@) =~= Seq::<Seq<char>>::empty());
    match oget(result.get(3), 0) {
        Some(root) => {
            extract_fulltext_content(root, &mut texts);
            assert(strings_view(texts@) =~= fulltext_pieces(root@));
        },
        None => {},
    }
    let mut parts: Vec<Vec<char>> = Vec::new();
    let mut i: usize = 0;
    while i < texts.len()
        invariant
            i <= texts@.len(),
            parts@.len() == i,
            forall|k: int| 0 <= k < i ==> #[trigger] parts@[k]@ == texts@[k]@,
        decreases texts@.len() - i,
    {
        parts.push(chars_of(texts[i].as_str()));
        i = i + 1;
    }
    let nl = chars_of("\n");
    let joined = join_chars(&parts, nl.as_slice());
    let content = string_of(joined.as_slice());
    let char_count = crate::chat::text_byte_len(&content);
    proof {
        let pv = parts@.map_values(|p: Vec<char>| p@);
        assert(pv =~= strings_view(texts@));
    }
    SourceFulltext {
        source_id: string_from(source_id),
        title,
        content,
        type_code,
        url,
        char_count,
    }
}

// ---- Chat history ----

/// Reading the chat history of a notebook: `[[], null, notebook, limit]`.
pub open spec fn spec_history_call(notebook_id: Seq<char>, limit: usize) -> SRpcCall {
    SRpcCall {
        method: RpcMethod::GetConversationHistory,
        params: SJson::Array(
            seq![
                SJson::Array(Seq::empty()),
                SJson::Null,
                SJson::Str(notebook_id),
                crate::json::count_json(limit),
            ],
        ),
        source_path: notebook_path(notebook_id),
        allow_null: false,
    }
}

pub fn history_call(notebook_id: &str, limit: usize) -> (r: RpcCall)
    ensures
        call_view(r) == spec_history_call(notebook_id@, limit),
{
    let empty = arr(Vec::new());
    assert(views(Seq::<JsonValue>::empty()) =~= Seq::<SJson>::empty());
    let params = arr4(empty, JsonValue::Null, jstr(notebook_id), crate::json::count_value(limit));
    notebook_call(RpcMethod::GetConversationHistory, params, notebook_id, false)
}

// ---- Settings ----

/// Reading the user settings:
/// `[null, [1, null x9, [1]]]` from the home page.
pub open spec fn spec_get_settings_call() -> SRpcCall {
    SRpcCall {
        method: RpcMethod::GetUserSettings,
        params: SJson::Array(
            seq![
                SJson::Null,
                SJson::Array(
                    seq![SJson::Int(1)] + nulls(9) + seq![SJson::Array(seq![SJson::Int(1)])],
                ),
            ],
        ),
        source_path: "/"@,
        allow_null: false,
    }
}

pub fn get_settings_call() -> (r: RpcCall)
    ensures
        call_view(r) == spec_get_settings_call(),
{
    let mut v: Vec<JsonValue> = Vec::new();
    assert(views(v@) =~= Seq::<SJson>::empty());
    push_json(&mut v, JsonValue::Int(1));
    push_nulls(&mut v, 9);
    push_json(&mut v, arr1(JsonValue::Int(1)));
    assert(views(v@) =~= seq![SJson::Int(1)] + nulls(9) + seq![SJson::Array(seq![SJson::Int(1)])]);
    let params = arr2(JsonValue::Null, arr(v));
    home_call(RpcMethod::GetUserSettings, params, false)
}

/// The output language in the settings answer, at `[0][2][4][0]`.
pub fn parse_output_language(result: &JsonValue) -> (r: Option<String>)
    ensures
        opt_string_view(r) == sstr(path_at(result@, seq![0int, 2, 4, 0])),
{
    let path: [usize; 4] = [0, 2, 4, 0];
    let r = extract_nested_string(result, &path);
    assert(path@.map_values(|k: usize| k as int) =~= seq![0int, 2, 4, 0]);
    r
}

/// Setting the output language:
/// `[[[null, [[null, null, null, null, [language]]]]]]` from the home page;
/// the language cannot be empty.
pub open spec fn spec_set_language_call(language: Seq<char>) -> core::result::Result<SRpcCall, SError> {
    if language.len() == 0 {
        Err(SError::Config("language cannot be empty"@))
    } else {
        Ok(
            SRpcCall {
                method: RpcMethod::SetUserSettings,
                params: SJson::Array(
                    seq![
                        SJson::Array(
                            seq![
                                SJson::Array(
                                    seq![
                                        SJson::Null,
                                        SJson::Array(
                                            seq![
                                                SJson::Array(
                                                    nulls(4) + seq![
                                                        SJson::Array(seq![SJson::Str(language)]),
                                                    ],
                                                ),
                                            ],
                                        ),
                                    ],
                                ),
                            ],
                        ),
                    ],
                ),
                source_path: "/"@,
                allow_null: false,
            },
        )
    }
}

pub fn set_language_call(language: &str) -> (r: Result<RpcCall>)
    ensures
        call_result_view(r) == spec_set_language_call(language@),
{
    if language.is_empty() {
        return Err(NotebookLmError::Config(string_from("language cannot be empty")));
    }
    let mut v: Vec<JsonValue> = Vec::new();
    assert(views(v@) =~= Seq::<SJson>::empty());
    push_nulls(&mut v, 4);
    push_json(&mut v, arr1(jstr(language)));
    assert(views(v@) =~= nulls(4) + seq![SJson::Array(seq![SJson::Str(language@)])]);
    let params = arr1(arr1(arr2(JsonValue::Null, arr1(arr(v)))));
    Ok(home_call(RpcMethod::SetUserSettings, params, false))
}

/// The output language in the answer to a change, at `[2][4][0]`.
pub fn parse_set_language(result: &JsonValue) -> (r: Option<String>)
    ensures
        opt_string_view(r) == sstr(path_at(result@, seq![2int, 4, 0])),
{
    let path: [usize; 3] = [2, 4, 0];
    let r = extract_nested_string(result, &path);
    assert(path@.map_values(|k: usize| k as int) =~= seq![2int, 4, 0]);
    r
}

// ---- Sharing ----

/// Reading how a notebook is shared: `[notebook, [2]]`.
pub open spec fn spec_share_status_call(notebook_id: Seq<char>) -> SRpcCall {
    SRpcCall {
        method: RpcMethod::GetShareStatus,
        params: SJson::Array(seq![SJson::Str(notebook_id), two_marker()]),
        source_path: notebook_path(notebook_id),
        allow_null: false,
    }
}

pub fn share_status_call(notebook_id: &str) -> (r: RpcCall)
    ensures
        call_view(r) == spec_share_status_call(notebook_id@),
{
    let params = arr2(jstr(notebook_id), arr1(JsonValue::Int(2)));
    notebook_call(RpcMethod::GetShareStatus, params, notebook_id, false)
}

/// Opening a notebook to anyone with the link, or closing it:
/// `[[[notebook, null, [access], [access, ""]]], 1, null, [2]]`.
pub open spec fn spec_set_public_call(notebook_id: Seq<char>, public: bool) -> SRpcCall {
    let a = SJson::Int(
        if public {
            ShareAccess::AnyoneWithLink.spec_code()
        } else {
            ShareAccess::Restricted.spec_code()
        },
    );
    SRpcCall {
        method: RpcMethod::ShareNotebook,
        params: SJson::Array(
            seq![
                SJson::Array(
                    seq![
                        SJson::Array(
                            seq![
                                SJson::Str(notebook_id),
                                SJson::Null,
                                SJson::Array(seq![a]),
                                SJson::Array(seq![a, SJson::Str(Seq::empty())]),
                            ],
                        ),
                    ],
                ),
                SJson::Int(1),
                SJson::Null,
                two_marker(),
            ],
        ),
        source_path: notebook_path(notebook_id),
        allow_null: true,
    }
}

pub fn set_public_call(notebook_id: &str, public: bool) -> (r: RpcCall)
    ensures
        call_view(r) == spec_set_public_call(notebook_id@, public),
{
    let access = if public {
        ShareAccess::AnyoneWithLink
    } else {
        ShareAccess::Restricted
    };
    let a = access.code();
    let entry = arr4(
        jstr(notebook_id),
        JsonValue::Null,
        arr1(JsonValue::Int(a)),
        arr2(JsonValue::Int(a), JsonValue::Str(String::new())),
    );
    let params = arr4(arr1(entry), JsonValue::Int(1), JsonValue::Null, arr1(JsonValue::Int(2)));
    notebook_call(RpcMethod::ShareNotebook, params, notebook_id, true)
}

/// Choosing what viewers see:
/// `[notebook, [[null x8, [[level]]]]]`, sent as a notebook change.
pub open spec fn spec_set_view_level_call(notebook_id: Seq<char>, level: ShareViewLevel) -> SRpcCall {
    SRpcCall {
        method: RpcMethod::RenameNotebook,
        params: SJson::Array(
            seq![
                SJson::Str(notebook_id),
                SJson::Array(
                    seq![
                        SJson::Array(
                            nulls(8) + seq![
                                SJson::Array(
                                    seq![SJson::Array(seq![SJson::Int(level.spec_code())])],
                                ),
                            ],
                        ),
                    ],
                ),
            ],
        ),
        source_path: notebook_path(notebook_id),
        allow_null: true,
    }
}

pub fn set_view_level_call(notebook_id: &str, level: ShareViewLevel) -> (r: RpcCall)
    ensures
        call_view(r) == spec_set_view_level_call(notebook_id@, level),
{
    let mut v: Vec<JsonValue> = Vec::new();
    assert(views(v@) =~= Seq::<SJson>::empty());
    push_nulls(&mut v, 8);
    push_json(&mut v, arr1(arr1(JsonValue::Int(level.code()))));
    assert(views(v@) =~= nulls(8) + seq![
        SJson::Array(seq![SJson::Array(seq![SJson::Int(level.spec_code())])]),
    ]);
    let params = arr2(jstr(notebook_id), arr1(arr(v)));
    notebook_call(RpcMethod::RenameNotebook, params, notebook_id, true)
}

/// The share status after a view-level change: as read, with the level set.
pub open spec fn spec_with_view_level(s: SShareStatus, level: ShareViewLevel) -> SShareStatus {
    SShareStatus { view_level: level, ..s }
}

pub fn with_view_level(status: ShareStatus, level: ShareViewLevel) -> (r: ShareStatus)
    ensures
        share_status_view(r) == spec_with_view_level(share_status_view(status), level),
{
    let mut s = status;
    s.view_level = level;
    s
}

/// The share entry of one user:
/// `[[[notebook, [[email, null, permission]], null, [message_flag, message]]], notify, null, [2]]`.
pub open spec fn spec_share_user_params(
    notebook_id: Seq<char>,
    email: Seq<char>,
    permission: i64,
    message_flag: i64,
    message: Seq<char>,
    notify: i64,
) -> SJson {
    SJson::Array(
        seq![
            SJson::Array(
                seq![
                    SJson::Array(
                        seq![
                            SJson::Str(notebook_id),
                            SJson::Array(
                                seq![
                                    SJson::Array(
                                        seq![SJson::Str(email), SJson::Null, SJson::Int(permission)],
                                    ),
                                ],
                            ),
                            SJson::Null,
                            SJson::Array(seq![SJson::Int(message_flag), SJson::Str(message)]),
                        ],
                    ),
                ],
            ),
            SJson::Int(notify),
            SJson::Null,
            two_marker(),
        ],
    )
}

fn share_user_params(
    notebook_id: &str,
    email: &str,
    permission: i64,
    message_flag: i64,
    message: &str,
    notify: i64,
) -> (r: JsonValue)
    ensures
        r@ == spec_share_user_params(notebook_id@, email@, permission, message_flag, message@, notify),
{
    let user = arr3(jstr(email), JsonValue::Null, JsonValue::Int(permission));
    let entry = arr4(
        jstr(notebook_id),
        arr1(user),
        JsonValue::Null,
        arr2(JsonValue::Int(message_flag), jstr(message)),
    );
    arr4(arr1(entry), JsonValue::Int(notify), JsonValue::Null, arr1(JsonValue::Int(2)))
}

/// Sharing a notebook with a user: the owner cannot be assigned, and
/// removing goes through `remove_user`; the message flag is 1 when there
/// is no welcome message.
pub open spec fn spec_add_user_call(
    notebook_id: Seq<char>,
    email: Seq<char>,
    permission: SharePermission,
    notify: bool,
    welcome_message: Seq<char>,
) -> core::result::Result<SRpcCall, SError> {
    if permission == SharePermission::Owner {
        Err(SError::Config("cannot assign owner permission"@))
    } else if permission == SharePermission::Remove {
        Err(SError::Config("use remove_user for remove operation"@))
    } else {
        Ok(
            SRpcCall {
                method: RpcMethod::ShareNotebook,
                params: spec_share_user_params(
                    notebook_id,
                    email,
                    permission.spec_code(),
                    if welcome_message.len() == 0 {
                        1
                    } else {
                        0
                    },
                    welcome_message,
                    if notify {
                        1
                    } else {
                        0
                    },
                ),
                source_path: notebook_path(notebook_id),
                allow_null: true,
            },
        )
    }
}

pub fn add_user_call(
    notebook_id: &str,
    email: &str,
    permission: SharePermission,
    notify: bool,
    welcome_message: &str,
) -> (r: Result<RpcCall>)
    ensures
        call_result_view(r) == spec_add_user_call(
            notebook_id@,
            email@,
            permission,
            notify,
            welcome_message@,
        ),
{
    if permission == SharePermission::Owner {
        return Err(NotebookLmError::Config(string_from("cannot assign owner permission")));
    }
    if permission == SharePermission::Remove {
        return Err(NotebookLmError::Config(string_from("use remove_user for remove operation")));
    }
    let message_flag: i64 = if welcome_message.is_empty() { 1 } else { 0 };
    let notify_flag: i64 = if notify { 1 } else { 0 };
    let params = share_user_params(
        notebook_id,
        email,
        permission.code(),
        message_flag,
        welcome_message,
        notify_flag,
    );
    Ok(notebook_call(RpcMethod::ShareNotebook, params, notebook_id, true))
}

/// Changing a user's permission: sharing again, without notice or message.
pub fn update_user_call(notebook_id: &str, email: &str, permission: SharePermission) -> (r: Result<RpcCall>)
    ensures
        call_result_view(r) == spec_add_user_call(notebook_id@, email@, permission, false, Seq::empty()),
{
    let empty = String::new();
    add_user_call(notebook_id, email, permission, false, empty.as_str())
}

/// Removing a user: the share entry with the remove permission, no message
/// and no notice.
pub open spec fn spec_remove_user_call(notebook_id: Seq<char>, email: Seq<char>) -> SRpcCall {
    SRpcCall {
        method: RpcMethod::ShareNotebook,
        params: spec_share_user_params(
            notebook_id,
            email,
            SharePermission::Remove.spec_code(),
            0,
            Seq::empty(),
            0,
        ),
        source_path: notebook_path(notebook_id),
        allow_null: true,
    }
}

pub fn remove_user_call(notebook_id: &str, email: &str) -> (r: RpcCall)
    ensures
        call_view(r) == spec_remove_user_call(notebook_id@, email@),
{
    let empty = String::new();
    let params = share_user_params(
        notebook_id,
        email,
        SharePermission::Remove.code(),
        0,
        empty.as_str(),
        0,
    );
    notebook_call(RpcMethod::ShareNotebook, params, notebook_id, true)
}

// ---- Laws of the sharing calls ----

/// The user entry `[email, null, permission]` of a share call.
pub open spec fn shared_entry(params: SJson) -> Option<SJson> {
    sget(sget(sget(sget(Some(params), 0), 0), 1), 0)
}

/// Sharing with a user is refused for the owner and remove permissions
/// and made for editors and viewers; the permission sent (editor 2,
/// viewer 3) reads back, in the sharing status, as the permission given.
/// Removing a user sends the code 4, which reads back as a removal. The
/// notice flag is 1 exactly when a notice is asked for, and the message
/// flag is 1 exactly when there is no welcome message.
pub proof fn law_share_permission_round_trip(
    nb: Seq<char>,
    email: Seq<char>,
    permission: SharePermission,
    notify: bool,
    message: Seq<char>,
)
    ensures
        spec_add_user_call(nb, email, permission, notify, message) is Ok <==> (permission
            == SharePermission::Editor || permission == SharePermission::Viewer),
        spec_add_user_call(nb, email, permission, notify, message) matches Ok(c) ==> ({
            let code = si64(sget(shared_entry(c.params), 2));
            &&& sstr(sget(shared_entry(c.params), 0)) == Some(email)
            &&& code == Some(if permission == SharePermission::Editor { 2i64 } else { 3i64 })
            &&& permission_of(code->0) == permission
            &&& sget(Some(c.params), 1) == Some(SJson::Int(if notify { 1i64 } else { 0i64 }))
            &&& sget(sget(sget(sget(Some(c.params), 0), 0), 3), 0) == Some(
                SJson::Int(if message.len() == 0 { 1i64 } else { 0i64 }),
            )
        }),
        si64(sget(shared_entry(spec_remove_user_call(nb, email).params), 2)) == Some(4i64),
        permission_of(4) == SharePermission::Remove,
        sstr(sget(shared_entry(spec_remove_user_call(nb, email).params), 0)) == Some(email),
{
}

/// Making a notebook public sends the access code 1 (anyone with the link)
/// and making it private sends 0; the view level sent is 0 for the full
/// notebook and 1 for chat only.
pub proof fn law_share_codes_sent(nb: Seq<char>, public: bool, level: ShareViewLevel)
    ensures
        sget(sget(sget(sget(Some(spec_set_public_call(nb, public).params), 0), 0), 2), 0) == Some(
            SJson::Int(if public { 1i64 } else { 0i64 }),
        ),
        sget(sget(sget(sget(sget(Some(spec_set_view_level_call(nb, level).params), 1), 0), 8), 0), 0)
            == Some(
            SJson::Int(
                match level {
                    ShareViewLevel::FullNotebook => 0i64,
                    ShareViewLevel::ChatOnly => 1i64,
                },
            ),
        ),
{
}

} // verus!
