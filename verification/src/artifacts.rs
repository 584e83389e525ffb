//! Artifacts: the calls that list, generate, export, rename and delete
//! them, and what a download reads out of the listings.

use vstd::prelude::*;
use crate::api::list_entries;
use crate::calls::{call_view, notebook_call, notebook_path, RpcCall, SRpcCall};
use crate::error::{NotebookLmError, Result, SError};
use crate::format::{
    extract_app_data_from_html, format_flashcards_markdown, format_quiz_markdown, member_text,
    spec_app_data, spec_flashcards_markdown, spec_quiz_markdown,
};
use crate::json::{
    arr, arr1, arr2, arr3, arr4, arr5, copy_json, jstr, opt_str_ref_view, json_at, oget, oi64, or_empty, ostr,
    owned_or_empty, parse_json_text, path_at, sarr, sget, si64, skey, spec_json_parse,
    spec_json_pretty, spec_json_text, sstr, to_json_pretty, to_json_text, views, JsonValue, SJson,
};
use crate::payloads::{opt_text, sids_triple, source_ids_triple};
use crate::research::arr_or_empty;
use crate::responses::{
    artifact_from_mind_map_item, find_audio_url, find_infographic_url, find_slide_deck_url,
    find_video_url, is_deleted_note, is_deleted_note_exec, parse_data_table,
    select_completed_artifact, select_mind_map_item, spec_artifact_from_mind_map, spec_audio_url,
    spec_csv_row, spec_data_table, spec_infographic_url, spec_select_completed,
    spec_select_mind_map, spec_slide_deck_url, spec_video_url, csv_row,
};
use crate::rpc::RpcMethod;
use crate::text::{
    append_all, chars_of, contains, decimal_nat, decimal_u64, push_str, str_has, string_from,
    string_of,
};
use crate::types::{
    artifact_status_to_str, opt_artifact_view, spec_artifact_from_api, spec_kind, spec_status_text,
    strings_view, text_is, Artifact, ArtifactExportType, ArtifactKind, GenerationStatus,
    InteractiveOutputFormat, MindMapGenerationResult, MindMapOutputFormat, SArtifact,
    SGenerationStatus,
};

verus! {

// ---- Calls ----

/// Listing a notebook's artifacts, suggestions left out:
/// `[[2], notebook, "NOT artifact.status = \"ARTIFACT_STATUS_SUGGESTED\""]`.
pub open spec fn spec_list_artifacts_call(notebook_id: Seq<char>) -> SRpcCall {
    SRpcCall {
        method: RpcMethod::ListArtifacts,
        params: SJson::Array(
            seq![
                SJson::Array(seq![SJson::Int(2)]),
                SJson::Str(notebook_id),
                SJson::Str("NOT artifact.status = \"ARTIFACT_STATUS_SUGGESTED\""@),
            ],
        ),
        source_path: notebook_path(notebook_id),
        allow_null: true,
    }
}

pub fn list_artifacts_call(notebook_id: &str) -> (r: RpcCall)
    ensures
        call_view(r) == spec_list_artifacts_call(notebook_id@),
{
    let params = arr3(
        arr1(JsonValue::Int(2)),
        jstr(notebook_id),
        jstr("NOT artifact.status = \"ARTIFACT_STATUS_SUGGESTED\""),
    );
    notebook_call(RpcMethod::ListArtifacts, params, notebook_id, true)
}

fn copy_all(items: &Vec<JsonValue>) -> (r: Vec<JsonValue>)
    ensures
        views(r@) == views(items@),
{
    let mut out: Vec<JsonValue> = Vec::new();
    let mut i: usize = 0;
    while i < items.len()
        invariant
            i <= items@.len(),
            out@.len() == i,
            forall|k: int| 0 <= k < i ==> #[trigger] out@[k]@ == items@[k]@,
        decreases items@.len() - i,
    {
        out.push(copy_json(&items[i]));
        i = i + 1;
    }
    assert(views(out@) =~= views(items@));
    out
}

/// The raw artifact entries of a listing (see `list_entries`).
pub fn parse_artifact_list(result: &JsonValue) -> (r: Vec<JsonValue>)
    ensures
        views(r@) == list_entries(result@),
{
    match result.as_array() {
        Some(a) => {
            if a.len() > 0 {
                assert(views(a@)[0] == a@[0]@);
                match a[0].as_array() {
                    Some(inner) => {
                        return copy_all(inner);
                    },
                    None => {},
                }
            }
            copy_all(a)
        },
        None => {
            assert(views(Seq::<JsonValue>::empty()) =~= Seq::<SJson>::empty());
            Vec::new()
        },
    }
}

/// Listing a notebook's notes and mind maps: `[notebook]`.
pub open spec fn spec_notes_call(notebook_id: Seq<char>) -> SRpcCall {
    SRpcCall {
        method: RpcMethod::GetNotesAndMindMaps,
        params: SJson::Array(seq![SJson::Str(notebook_id)]),
        source_path: notebook_path(notebook_id),
        allow_null: true,
    }
}

pub fn notes_call(notebook_id: &str) -> (r: RpcCall)
    ensures
        call_view(r) == spec_notes_call(notebook_id@),
{
    notebook_call(RpcMethod::GetNotesAndMindMaps, arr1(jstr(notebook_id)), notebook_id, true)
}

/// The content of a note entry `[id, content_or_[?, content], ...]`.
pub open spec fn note_content(item: SJson) -> Seq<char> {
    match sget(Some(item), 1) {
        Some(SJson::Str(s)) => s,
        Some(v) => or_empty(sstr(sget(Some(v), 1))),
        None => Seq::empty(),
    }
}

/// A note that holds a mind map: not deleted, and its content has
/// `"children":` or `"nodes":`.
pub open spec fn is_mind_map_note(item: SJson) -> bool {
    match item {
        SJson::Array(a) => !is_deleted_note(a) && (contains(note_content(item), "\"children\":"@)
            || contains(note_content(item), "\"nodes\":"@)),
        _ => false,
    }
}

pub open spec fn mind_map_notes(items: Seq<SJson>) -> Seq<SJson>
    decreases items.len(),
{
    if items.len() == 0 {
        Seq::empty()
    } else {
        let rest = mind_map_notes(items.drop_last());
        if is_mind_map_note(items.last()) {
            rest.push(items.last())
        } else {
            rest
        }
    }
}

/// The mind maps among the notes of a notes answer `[[note, ...], ...]`.
pub open spec fn spec_mind_map_items(result: SJson) -> Seq<SJson> {
    mind_map_notes(arr_or_empty(sarr(sget(Some(result), 0))))
}

fn is_mind_map_note_exec(item: &JsonValue) -> (r: bool)
    ensures
        r == is_mind_map_note(item@),
{
    let a = match item.as_array() {
        Some(a) => a,
        None => {
            return false;
        },
    };
    if is_deleted_note_exec(a) {
        return false;
    }
    let content: Vec<char> = match item.get(1) {
        Some(v) => match v.as_str() {
            Some(s) => chars_of(s.as_str()),
            None => match ostr(v.get(1)) {
                Some(s) => chars_of(s.as_str()),
                None => Vec::new(),
            },
        },
        None => Vec::new(),
    };
    assert(content@ == note_content(item@));
    str_has(content.as_slice(), "\"children\":") || str_has(content.as_slice(), "\"nodes\":")
}

/// The mind maps among the notes of a notes answer, in order.
pub fn filter_mind_map_items(result: &JsonValue) -> (r: Vec<JsonValue>)
    ensures
        views(r@) == spec_mind_map_items(result@),
{
    let mut out: Vec<JsonValue> = Vec::new();
    let notes = match result.get(0) {
        Some(n) => match n.as_array() {
            Some(a) => a,
            None => {
                assert(views(out@) =~= mind_map_notes(Seq::empty()));
                return out;
            },
        },
        None => {
            assert(views(out@) =~= mind_map_notes(Seq::empty()));
            return out;
        },
    };
    let ghost vs = views(notes@);
    let mut i: usize = 0;
    assert(vs.take(0) =~= Seq::<SJson>::empty());
    assert(views(out@) =~= Seq::<SJson>::empty());
    while i < notes.len()
        invariant
            i <= notes@.len() == vs.len(),
            vs == views(notes@),
            views(out@) == mind_map_notes(vs.take(i as int)),
        decreases notes@.len() - i,
    {
        assert(vs.take(i + 1).drop_last() =~= vs.take(i as int));
        assert(vs.take(i + 1).last() == notes@[i as int]@);
        if is_mind_map_note_exec(&notes[i]) {
            let ghost before = out@;
            let c = copy_json(&notes[i]);
            out.push(c);
            assert(views(out@) =~= views(before).push(notes@[i as int]@));
        }
        i = i + 1;
    }
    assert(vs.take(notes@.len() as int) =~= vs);
    out
}

// ---- Listing ----

pub open spec fn artifacts_view(v: Seq<Artifact>) -> Seq<SArtifact> {
    Seq::new(v.len(), |i: int| v[i]@)
}

/// The artifacts that raw entries read as, in order.
pub open spec fn api_artifacts(raw: Seq<SJson>) -> Seq<SArtifact>
    decreases raw.len(),
{
    if raw.len() == 0 {
        Seq::empty()
    } else {
        let rest = api_artifacts(raw.drop_last());
        match spec_artifact_from_api(raw.last()) {
            Some(a) => rest.push(a),
            None => rest,
        }
    }
}

/// The artifacts that mind map notes read as, in order.
pub open spec fn mind_map_artifacts(items: Seq<SJson>) -> Seq<SArtifact>
    decreases items.len(),
{
    if items.len() == 0 {
        Seq::empty()
    } else {
        let rest = mind_map_artifacts(items.drop_last());
        match spec_artifact_from_mind_map(items.last()) {
            Some(a) => rest.push(a),
            None => rest,
        }
    }
}

/// The artifacts of one kind, in order.
pub open spec fn of_kind(arts: Seq<SArtifact>, kind: ArtifactKind) -> Seq<SArtifact>
    decreases arts.len(),
{
    if arts.len() == 0 {
        Seq::empty()
    } else {
        let rest = of_kind(arts.drop_last(), kind);
        if spec_kind(arts.last().artifact_type, arts.last().variant) == kind {
            rest.push(arts.last())
        } else {
            rest
        }
    }
}

/// A listing asked for one kind holds artifacts of that kind only.
pub proof fn law_listing_is_of_kind(
    raw: Seq<SJson>,
    mind_map_items: Seq<SJson>,
    kind: ArtifactKind,
)
    ensures
        forall|k: int|
            0 <= k < spec_artifact_listing(raw, mind_map_items, Some(kind)).len() ==> spec_kind(
                #[trigger] spec_artifact_listing(raw, mind_map_items, Some(kind))[k].artifact_type,
                spec_artifact_listing(raw, mind_map_items, Some(kind))[k].variant,
            ) == kind,
{
    let all = api_artifacts(raw) + if spec_needs_mind_maps(Some(kind)) {
        mind_map_artifacts(mind_map_items)
    } else {
        Seq::empty()
    };
    lemma_of_kind(all, kind);
}

proof fn lemma_of_kind(arts: Seq<SArtifact>, kind: ArtifactKind)
    ensures
        forall|k: int| 0 <= k < of_kind(arts, kind).len() ==> spec_kind(
            #[trigger] of_kind(arts, kind)[k].artifact_type,
            of_kind(arts, kind)[k].variant,
        ) == kind,
    decreases arts.len(),
{
    if arts.len() > 0 {
        lemma_of_kind(arts.drop_last(), kind);
    }
}

/// Whether a listing of this kind takes the mind maps too.
pub open spec fn spec_needs_mind_maps(kind: Option<ArtifactKind>) -> bool {
    kind is None || kind == Some(ArtifactKind::MindMap)
}

pub fn needs_mind_maps(kind: Option<ArtifactKind>) -> (r: bool)
    ensures
        r == spec_needs_mind_maps(kind),
{
    match kind {
        None => true,
        Some(k) => k == ArtifactKind::MindMap,
    }
}

/// The artifacts of a notebook: the listed ones, then (for all kinds or
/// for mind maps) the mind maps, kept to the requested kind.
pub open spec fn spec_artifact_listing(
    raw: Seq<SJson>,
    mind_map_items: Seq<SJson>,
    kind: Option<ArtifactKind>,
) -> Seq<SArtifact> {
    let all = api_artifacts(raw) + if spec_needs_mind_maps(kind) {
        mind_map_artifacts(mind_map_items)
    } else {
        Seq::empty()
    };
    match kind {
        Some(k) => of_kind(all, k),
        None => all,
    }
}

fn push_artifact(out: &mut Vec<Artifact>, a: Artifact)
    ensures
        artifacts_view(final(out)@) == artifacts_view(old(out)@).push(a@),
{
    let ghost av = a@;
    let ghost before = out@;
    out.push(a);
    assert(artifacts_view(out@) =~= artifacts_view(before).push(av));
}

/// The artifacts of a notebook, from its raw listing and (where
/// `needs_mind_maps` asks for them) its mind map notes.
pub fn list_artifacts(
    raw: &Vec<JsonValue>,
    mind_map_items: &Vec<JsonValue>,
    kind: Option<ArtifactKind>,
) -> (r: Vec<Artifact>)
    ensures
        artifacts_view(r@) == spec_artifact_listing(views(raw@), views(mind_map_items@), kind),
{
    let ghost rv = views(raw@);
    let ghost mv = views(mind_map_items@);
    let mut all: Vec<Artifact> = Vec::new();
    let mut i: usize = 0;
    assert(rv.take(0) =~= Seq::<SJson>::empty());
    assert(artifacts_view(all@) =~= Seq::<SArtifact>::empty());
    while i < raw.len()
        invariant
            i <= raw@.len() == rv.len(),
            rv == views(raw@),
            artifacts_view(all@) == api_artifacts(rv.take(i as int)),
        decreases raw@.len() - i,
    {
        assert(rv.take(i + 1).drop_last() =~= rv.take(i as int));
        assert(rv.take(i + 1).last() == raw@[i as int]@);
        match Artifact::from_api_response(&raw[i]) {
            Some(a) => push_artifact(&mut all, a),
            None => {},
        }
        i = i + 1;
    }
    assert(rv.take(raw@.len() as int) =~= rv);
    let ghost base = artifacts_view(all@);
    if needs_mind_maps(kind) {
        let mut k: usize = 0;
        assert(mv.take(0) =~= Seq::<SJson>::empty());
        assert(base + mind_map_artifacts(Seq::empty()) =~= base);
        while k < mind_map_items.len()
            invariant
                k <= mind_map_items@.len() == mv.len(),
                mv == views(mind_map_items@),
                artifacts_view(all@) == base + mind_map_artifacts(mv.take(k as int)),
            decreases mind_map_items@.len() - k,
        {
            assert(mv.take(k + 1).drop_last() =~= mv.take(k as int));
            assert(mv.take(k + 1).last() == mind_map_items@[k as int]@);
            match artifact_from_mind_map_item(&mind_map_items[k]) {
                Some(a) => push_artifact(&mut all, a),
                None => {},
            }
            k = k + 1;
        }
        assert(mv.take(mind_map_items@.len() as int) =~= mv);
    } else {
        assert(artifacts_view(all@) =~= base + Seq::<SArtifact>::empty());
    }
    match kind {
        None => all,
        Some(wanted) => {
            let ghost av = artifacts_view(all@);
            let mut kept: Vec<Artifact> = Vec::new();
            let mut rest = all;
            let n = rest.len();
            let mut j: usize = 0;
            assert(av.take(0) =~= Seq::<SArtifact>::empty());
            assert(artifacts_view(kept@) =~= Seq::<SArtifact>::empty());
            while j < n
                invariant
                    j <= n == rest@.len() == av.len(),
                    av == artifacts_view(rest@),
                    artifacts_view(kept@) == of_kind(av.take(j as int), wanted),
                decreases n - j,
            {
                assert(av.take(j + 1).drop_last() =~= av.take(j as int));
                assert(av.take(j + 1).last() == rest@[j as int]@);
                if rest[j].kind() == wanted {
                    let a = copy_artifact(&rest[j]);
                    push_artifact(&mut kept, a);
                }
                j = j + 1;
            }
            assert(av.take(n as int) =~= av);
            kept
        },
    }
}

/// A copy of an artifact.
pub fn copy_artifact(a: &Artifact) -> (r: Artifact)
    ensures
        r@ == a@,
{
    Artifact {
        id: a.id.clone(),
        title: a.title.clone(),
        artifact_type: a.artifact_type,
        variant: a.variant,
        status: a.status,
        created_at_unix: a.created_at_unix,
    }
}

/// The first artifact with the given id.
pub open spec fn first_artifact_with_id(arts: Seq<SArtifact>, id: Seq<char>) -> Option<SArtifact>
    decreases arts.len(),
{
    if arts.len() == 0 {
        None
    } else if arts[0].id == id {
        Some(arts[0])
    } else {
        first_artifact_with_id(arts.drop_first(), id)
    }
}

pub fn find_artifact(artifacts: &Vec<Artifact>, artifact_id: &str) -> (r: Option<Artifact>)
    ensures
        opt_artifact_view(r) == first_artifact_with_id(artifacts_view(artifacts@), artifact_id@),
{
    let ghost av = artifacts_view(artifacts@);
    let n = artifacts.len();
    let mut i: usize = 0;
    assert(av.subrange(0, n as int) =~= av);
    while i < n
        invariant
            i <= n == artifacts@.len() == av.len(),
            av == artifacts_view(artifacts@),
            first_artifact_with_id(av, artifact_id@) == first_artifact_with_id(
                av.subrange(i as int, n as int),
                artifact_id@,
            ),
        decreases n - i,
    {
        let ghost tail = av.subrange(i as int, n as int);
        assert(tail[0] == artifacts@[i as int]@);
        assert(tail.drop_first() =~= av.subrange(i + 1, n as int));
        if text_is(&artifacts[i].id, artifact_id) {
            return Some(copy_artifact(&artifacts[i]));
        }
        i = i + 1;
    }
    assert(av.subrange(n as int, n as int) =~= Seq::<SArtifact>::empty());
    None
}

// ---- Generation ----

/// A generation request, sent as it is built (see the builders of
/// `payloads`); an empty answer is fine.
pub open spec fn spec_generate_call(notebook_id: Seq<char>, params: SJson) -> SRpcCall {
    SRpcCall {
        method: RpcMethod::CreateArtifact,
        params,
        source_path: notebook_path(notebook_id),
        allow_null: true,
    }
}

pub fn generate_call(notebook_id: &str, params: JsonValue) -> (r: RpcCall)
    ensures
        call_view(r) == spec_generate_call(notebook_id@, params@),
{
    notebook_call(RpcMethod::CreateArtifact, params, notebook_id, true)
}

/// The status of a task among the listed artifacts: the first entry with
/// the task's id gives its status name (status 2 where none is given);
/// a task not listed yet is pending.
pub open spec fn task_status_in(raw: Seq<SJson>, task_id: Seq<char>) -> SGenerationStatus
    decreases raw.len(),
{
    if raw.len() == 0 {
        SGenerationStatus {
            task_id,
            status: "pending"@,
            error: None,
            error_code: None,
        }
    } else if raw[0] is Array && or_empty(sstr(sget(Some(raw[0]), 0))) == task_id {
        SGenerationStatus {
            task_id,
            status: spec_status_text(
                match si64(sget(Some(raw[0]), 4)) {
                    Some(c) => c,
                    None => 2,
                },
            ),
            error: None,
            error_code: None,
        }
    } else {
        task_status_in(raw.drop_first(), task_id)
    }
}

pub fn status_from_artifacts(raw: &Vec<JsonValue>, task_id: &str) -> (r: GenerationStatus)
    ensures
        r@ == task_status_in(views(raw@), task_id@),
{
    let ghost rv = views(raw@);
    let n = raw.len();
    let mut i: usize = 0;
    assert(rv.subrange(0, n as int) =~= rv);
    while i < n
        invariant
            i <= n == raw@.len() == rv.len(),
            rv == views(raw@),
            task_status_in(rv, task_id@) == task_status_in(rv.subrange(i as int, n as int), task_id@),
        decreases n - i,
    {
        let ghost tail = rv.subrange(i as int, n as int);
        assert(tail[0] == raw@[i as int]@);
        assert(tail.drop_first() =~= rv.subrange(i + 1, n as int));
        let art = &raw[i];
        if art.is_array() {
            let id = owned_or_empty(ostr(art.get(0)));
            if text_is(&id, task_id) {
                let code = match oi64(art.get(4)) {
                    Some(c) => c,
                    None => 2,
                };
                return GenerationStatus {
                    task_id: string_from(task_id),
                    status: string_from(artifact_status_to_str(code)),
                    error: None,
                    error_code: None,
                };
            }
        }
        i = i + 1;
    }
    assert(rv.subrange(n as int, n as int) =~= Seq::<SJson>::empty());
    GenerationStatus {
        task_id: string_from(task_id),
        status: string_from("pending"),
        error: None,
        error_code: None,
    }
}

// ---- Downloads ----

/// The media artifacts that download as a file from a url.
#[derive(Debug, Clone, Copy, PartialEq, Eq, Structural)]
pub enum MediaKind {
    Audio,
    Video,
    Infographic,
    SlideDeck,
}

/// The artifact type of a media kind.
pub open spec fn media_type(kind: MediaKind) -> i64 {
    match kind {
        MediaKind::Audio => 1,
        MediaKind::Video => 3,
        MediaKind::Infographic => 7,
        MediaKind::SlideDeck => 8,
    }
}

/// The url of a media artifact of its kind.
pub open spec fn media_url_of(kind: MediaKind, a: SJson) -> Option<Seq<char>> {
    match kind {
        MediaKind::Audio => spec_audio_url(a),
        MediaKind::Video => spec_video_url(a),
        MediaKind::Infographic => spec_infographic_url(a),
        MediaKind::SlideDeck => spec_slide_deck_url(a),
    }
}

/// The error of a media download without artifact or url.
pub open spec fn no_media_message(kind: MediaKind) -> Seq<char> {
    match kind {
        MediaKind::Audio => "no completed audio artifact found"@,
        MediaKind::Video => "no completed video artifact found"@,
        MediaKind::Infographic => "no completed infographic artifact found"@,
        MediaKind::SlideDeck => "no completed slide deck artifact found"@,
    }
}

pub open spec fn text_result_view(r: Result<String>) -> core::result::Result<Seq<char>, SError> {
    match r {
        Ok(t) => Ok(t@),
        Err(e) => Err(e@),
    }
}

/// The url to download a media artifact from: of the completed artifact
/// of the kind (the given one, else the latest).
pub open spec fn spec_media_url(
    raw: Seq<SJson>,
    kind: MediaKind,
    artifact_id: Option<Seq<char>>,
) -> core::result::Result<Seq<char>, SError> {
    match spec_select_completed(raw, media_type(kind), artifact_id) {
        Some(i) => match media_url_of(kind, raw[i]) {
            Some(u) => Ok(u),
            None => Err(SError::RpcDecode(no_media_message(kind))),
        },
        None => Err(SError::RpcDecode(no_media_message(kind))),
    }
}

pub fn media_url(raw: &Vec<JsonValue>, kind: MediaKind, artifact_id: Option<&str>) -> (r: Result<String>)
    ensures
        text_result_view(r) == spec_media_url(views(raw@), kind, opt_str_ref_view(artifact_id)),
{
    let t: i64 = match kind {
        MediaKind::Audio => 1,
        MediaKind::Video => 3,
        MediaKind::Infographic => 7,
        MediaKind::SlideDeck => 8,
    };
    let message = match kind {
        MediaKind::Audio => "no completed audio artifact found",
        MediaKind::Video => "no completed video artifact found",
        MediaKind::Infographic => "no completed infographic artifact found",
        MediaKind::SlideDeck => "no completed slide deck artifact found",
    };
    let found = match select_completed_artifact(raw.as_slice(), t, artifact_id) {
        Some(a) => match kind {
            MediaKind::Audio => find_audio_url(a),
            MediaKind::Video => find_video_url(a),
            MediaKind::Infographic => find_infographic_url(a),
            MediaKind::SlideDeck => find_slide_deck_url(a),
        },
        None => None,
    };
    match found {
        Some(u) => Ok(u),
        None => Err(NotebookLmError::RpcDecode(string_from(message))),
    }
}

/// The Markdown of a report: of the completed report (the given one, else
/// the latest), the text at `[7][0]`, else at `[7]`.
pub open spec fn spec_report_markdown(raw: Seq<SJson>, artifact_id: Option<Seq<char>>) -> core::result::Result<Seq<char>, SError> {
    match spec_select_completed(raw, 2, artifact_id) {
        None => Err(SError::RpcDecode("no completed report artifact found"@)),
        Some(i) => {
            let at7 = sget(Some(raw[i]), 7);
            match sstr(sget(at7, 0)) {
                Some(m) => Ok(m),
                None => match sstr(at7) {
                    Some(m) => Ok(m),
                    None => Err(SError::RpcDecode("could not parse report content"@)),
                },
            }
        },
    }
}

pub fn report_markdown(raw: &Vec<JsonValue>, artifact_id: Option<&str>) -> (r: Result<String>)
    ensures
        text_result_view(r) == spec_report_markdown(views(raw@), opt_str_ref_view(artifact_id)),
{
    let art = match select_completed_artifact(raw.as_slice(), 2, artifact_id) {
        Some(a) => a,
        None => {
            return Err(
                NotebookLmError::RpcDecode(string_from("no completed report artifact found")),
            );
        },
    };
    let at7 = art.get(7);
    match ostr(oget(at7, 0)) {
        Some(m) => Ok(m.clone()),
        None => match ostr(at7) {
            Some(m) => Ok(m.clone()),
            None => Err(NotebookLmError::RpcDecode(string_from("could not parse report content"))),
        },
    }
}

/// The saved text of a mind map: of the chosen mind map (the given one,
/// else the latest), the JSON at `[1][1]`, written compact or indented.
pub open spec fn spec_mind_map_file(
    items: Seq<SJson>,
    artifact_id: Option<Seq<char>>,
    format: MindMapOutputFormat,
) -> core::result::Result<Seq<char>, SError> {
    if items.len() == 0 {
        Err(SError::RpcDecode("no mind maps found"@))
    } else {
        match spec_select_mind_map(items, artifact_id) {
            Err(e) => Err(e),
            Ok(i) => match sstr(sget(sget(Some(items[i]), 1), 1)) {
                None => Err(SError::RpcDecode("mind map content unavailable"@)),
                Some(js) => match spec_json_parse(js) {
                    Err(e) => Err(SError::Json(e)),
                    Ok(v) => Ok(
                        match format {
                            MindMapOutputFormat::Json => spec_json_text(v),
                            MindMapOutputFormat::PrettyJson => spec_json_pretty(v),
                        },
                    ),
                },
            },
        }
    }
}

pub fn mind_map_file(
    items: &Vec<JsonValue>,
    artifact_id: Option<&str>,
    format: MindMapOutputFormat,
) -> (r: Result<String>)
    ensures
        text_result_view(r) == spec_mind_map_file(views(items@), opt_str_ref_view(artifact_id), format),
{
    if items.len() == 0 {
        return Err(NotebookLmError::RpcDecode(string_from("no mind maps found")));
    }
    let selected = match select_mind_map_item(items.as_slice(), artifact_id) {
        Ok(s) => s,
        Err(e) => {
            return Err(e);
        },
    };
    let js = match ostr(oget(selected.get(1), 1)) {
        Some(t) => t,
        None => {
            return Err(NotebookLmError::RpcDecode(string_from("mind map content unavailable")));
        },
    };
    match parse_json_text(js.as_str()) {
        Err(e) => Err(NotebookLmError::Json(e)),
        Ok(v) => match format {
            MindMapOutputFormat::Json => Ok(to_json_text(&v)),
            MindMapOutputFormat::PrettyJson => Ok(to_json_pretty(&v)),
        },
    }
}

/// Lines of a CSV document, each ended by a line break.
pub open spec fn csv_lines(rows: Seq<Seq<Seq<char>>>) -> Seq<char>
    decreases rows.len(),
{
    if rows.len() == 0 {
        Seq::empty()
    } else {
        csv_lines(rows.drop_last()) + spec_csv_row(rows.last()) + "\n"@
    }
}

/// A data table as CSV: of the completed table (the given one, else the
/// latest), its content at `[18]`, the header line then each row.
pub open spec fn spec_data_table_csv(raw: Seq<SJson>, artifact_id: Option<Seq<char>>) -> core::result::Result<Seq<char>, SError> {
    match spec_select_completed(raw, 9, artifact_id) {
        None => Err(SError::RpcDecode("no completed data table artifact found"@)),
        Some(i) => match sget(Some(raw[i]), 18) {
            None => Err(SError::RpcDecode("could not parse data table structure"@)),
            Some(content) => match spec_data_table(content) {
                Err(e) => Err(e),
                Ok((headers, rows)) => Ok(csv_lines(seq![headers] + rows)),
            },
        },
    }
}

pub fn data_table_csv(raw: &Vec<JsonValue>, artifact_id: Option<&str>) -> (r: Result<String>)
    ensures
        text_result_view(r) == spec_data_table_csv(views(raw@), opt_str_ref_view(artifact_id)),
{
    let art = match select_completed_artifact(raw.as_slice(), 9, artifact_id) {
        Some(a) => a,
        None => {
            return Err(
                NotebookLmError::RpcDecode(string_from("no completed data table artifact found")),
            );
        },
    };
    let content = match art.get(18) {
        Some(c) => c,
        None => {
            return Err(
                NotebookLmError::RpcDecode(string_from("could not parse data table structure")),
            );
        },
    };
    let (headers, rows) = match parse_data_table(content) {
        Ok(t) => t,
        Err(e) => {
            return Err(e);
        },
    };
    let ghost hv = strings_view(headers@);
    let ghost rv = Seq::new(rows@.len(), |i: int| strings_view(rows@[i]@));
    let ghost all = seq![hv] + rv;
    let mut out: Vec<char> = Vec::new();
    let h = csv_row(headers.as_slice());
    push_str(&mut out, h.as_str());
    push_str(&mut out, "\n");
    assert(all.take(1).drop_last() =~= Seq::<Seq<Seq<char>>>::empty());
    assert(all.take(1).last() == hv);
    assert(csv_lines(all.take(1).drop_last()) == Seq::<char>::empty());
    assert(out@ =~= csv_lines(all.take(1)));
    let mut i: usize = 0;
    while i < rows.len()
        invariant
            i <= rows@.len() == rv.len(),
            rv == Seq::new(rows@.len(), |k: int| strings_view(rows@[k]@)),
            all == seq![hv] + rv,
            out@ == csv_lines(all.take(i + 1)),
        decreases rows@.len() - i,
    {
        let line = csv_row(rows[i].as_slice());
        push_str(&mut out, line.as_str());
        push_str(&mut out, "\n");
        assert(all.take(i + 2).drop_last() =~= all.take(i + 1));
        assert(all.take(i + 2).last() == rv[i as int]);
        i = i + 1;
    }
    assert(all.take(rows@.len() as int + 1) =~= all);
    Ok(string_of(out.as_slice()))
}

/// The body text reported for a failed download: its size in bytes.
pub open spec fn spec_download_failure_text(n: nat) -> Seq<char> {
    "download failed ("@ + decimal_nat(n) + " bytes body)"@
}

pub fn download_failure_text(body_len: usize) -> (r: String)
    ensures
        r@ == spec_download_failure_text(body_len as nat),
{
    let mut v = chars_of("download failed (");
    let d = decimal_u64(body_len as u64);
    append_all(&mut v, d.as_slice());
    push_str(&mut v, " bytes body)");
    string_of(v.as_slice())
}

// ---- Interactive artifacts ----

/// The name of an interactive kind in messages.
pub open spec fn interactive_name(is_quiz: bool) -> Seq<char> {
    if is_quiz {
        "quiz"@
    } else {
        "flashcards"@
    }
}

/// The completed artifacts, in order.
pub open spec fn completed(arts: Seq<SArtifact>) -> Seq<SArtifact>
    decreases arts.len(),
{
    if arts.len() == 0 {
        Seq::empty()
    } else {
        let rest = completed(arts.drop_last());
        if arts.last().status == 3 {
            rest.push(arts.last())
        } else {
            rest
        }
    }
}

/// The creation time used to rank artifacts (0 where unknown).
pub open spec fn created_or_zero(a: SArtifact) -> i64 {
    match a.created_at_unix {
        Some(c) => c,
        None => 0,
    }
}

/// The index of the latest artifact among the first `n` (`n >= 1`): the
/// last of those created latest.
pub open spec fn latest_index(arts: Seq<SArtifact>, n: int) -> int
    decreases n,
{
    if n <= 1 {
        0
    } else {
        let j = latest_index(arts, n - 1);
        if created_or_zero(arts[n - 1]) >= created_or_zero(arts[j]) {
            n - 1
        } else {
            j
        }
    }
}

proof fn lemma_latest_index_range(arts: Seq<SArtifact>, n: int)
    requires
        1 <= n,
    ensures
        0 <= latest_index(arts, n) < n,
    decreases n,
{
    if n > 1 {
        lemma_latest_index_range(arts, n - 1);
    }
}

/// The interactive artifact a download uses: among the completed ones,
/// the one with the given id, else the latest.
pub open spec fn spec_select_interactive(
    arts: Seq<SArtifact>,
    artifact_id: Option<Seq<char>>,
    is_quiz: bool,
) -> core::result::Result<SArtifact, SError> {
    let done = completed(arts);
    if done.len() == 0 {
        Err(SError::RpcDecode("no completed "@ + interactive_name(is_quiz) + " artifact found"@))
    } else {
        match artifact_id {
            Some(id) => match first_artifact_with_id(done, id) {
                Some(a) => Ok(a),
                None => Err(SError::RpcDecode("artifact "@ + id + " not found"@)),
            },
            None => Ok(done[latest_index(done, done.len() as int)]),
        }
    }
}

pub open spec fn artifact_result_view(r: Result<Artifact>) -> core::result::Result<SArtifact, SError> {
    match r {
        Ok(a) => Ok(a@),
        Err(e) => Err(e@),
    }
}

pub fn select_interactive(
    artifacts: &Vec<Artifact>,
    artifact_id: Option<&str>,
    is_quiz: bool,
) -> (r: Result<Artifact>)
    ensures
        artifact_result_view(r) == spec_select_interactive(
            artifacts_view(artifacts@),
            opt_str_ref_view(artifact_id),
            is_quiz,
        ),
{
    let ghost av = artifacts_view(artifacts@);
    let mut done: Vec<Artifact> = Vec::new();
    let mut i: usize = 0;
    assert(av.take(0) =~= Seq::<SArtifact>::empty());
    assert(artifacts_view(done@) =~= Seq::<SArtifact>::empty());
    while i < artifacts.len()
        invariant
            i <= artifacts@.len() == av.len(),
            av == artifacts_view(artifacts@),
            artifacts_view(done@) == completed(av.take(i as int)),
        decreases artifacts@.len() - i,
    {
        assert(av.take(i + 1).drop_last() =~= av.take(i as int));
        assert(av.take(i + 1).last() == artifacts@[i as int]@);
        if artifacts[i].status == 3 {
            push_artifact(&mut done, copy_artifact(&artifacts[i]));
        }
        i = i + 1;
    }
    assert(av.take(artifacts@.len() as int) =~= av);
    let ghost dv = artifacts_view(done@);
    if done.len() == 0 {
        let mut m = chars_of("no completed ");
        if is_quiz {
            push_str(&mut m, "quiz");
        } else {
            push_str(&mut m, "flashcards");
        }
        push_str(&mut m, " artifact found");
        return Err(NotebookLmError::RpcDecode(string_of(m.as_slice())));
    }
    match artifact_id {
        Some(id) => match find_artifact(&done, id) {
            Some(a) => Ok(a),
            None => {
                let mut m = chars_of("artifact ");
                push_str(&mut m, id);
                push_str(&mut m, " not found");
                Err(NotebookLmError::RpcDecode(string_of(m.as_slice())))
            },
        },
        None => {
            let mut best: usize = 0;
            let mut j: usize = 1;
            while j < done.len()
                invariant
                    1 <= j <= done@.len() == dv.len(),
                    dv == artifacts_view(done@),
                    best == latest_index(dv, j as int),
                decreases done@.len() - j,
            {
                proof {
                    lemma_latest_index_range(dv, j as int);
                }
                let cj = match done[j].created_at_unix {
                    Some(c) => c,
                    None => 0,
                };
                let cb = match done[best].created_at_unix {
                    Some(c) => c,
                    None => 0,
                };
                if cj >= cb {
                    best = j;
                }
                j = j + 1;
            }
            proof {
                lemma_latest_index_range(dv, dv.len() as int);
            }
            Ok(copy_artifact(&done[best]))
        },
    }
}

/// Reading an interactive artifact's page: `[artifact]`.
pub open spec fn spec_html_call(notebook_id: Seq<char>, artifact_id: Seq<char>) -> SRpcCall {
    SRpcCall {
        method: RpcMethod::GetInteractiveHtml,
        params: SJson::Array(seq![SJson::Str(artifact_id)]),
        source_path: notebook_path(notebook_id),
        allow_null: true,
    }
}

pub fn html_call(notebook_id: &str, artifact_id: &str) -> (r: RpcCall)
    ensures
        call_view(r) == spec_html_call(notebook_id@, artifact_id@),
{
    notebook_call(RpcMethod::GetInteractiveHtml, arr1(jstr(artifact_id)), notebook_id, true)
}

/// The page of an interactive artifact, at `[0][9][0]` of the answer.
pub open spec fn spec_interactive_html(result: SJson) -> core::result::Result<Seq<char>, SError> {
    match sstr(path_at(result, seq![0int, 9, 0])) {
        Some(h) => Ok(h),
        None => Err(SError::RpcDecode("interactive artifact HTML unavailable"@)),
    }
}

pub fn interactive_html(result: &JsonValue) -> (r: Result<String>)
    ensures
        text_result_view(r) == spec_interactive_html(result@),
{
    let path: [usize; 3] = [0, 9, 0];
    let found = json_at(result, &path);
    assert(path@.map_values(|k: usize| k as int) =~= seq![0int, 9, 0]);
    match ostr(found) {
        Some(h) => Ok(h.clone()),
        None => Err(
            NotebookLmError::RpcDecode(string_from("interactive artifact HTML unavailable")),
        ),
    }
}

/// A flashcard as written to JSON: `{"front": f, "back": b}`.
pub open spec fn normalized_card(card: SJson) -> SJson {
    SJson::Object(
        seq![
            ("front"@, SJson::Str(member_text(card, "f"@))),
            ("back"@, SJson::Str(member_text(card, "b"@))),
        ],
    )
}

/// The saved text of an interactive artifact: its page as it is; or its
/// data (the `quiz` questions or the `flashcards` cards) as Markdown, or
/// as indented JSON with the title.
pub open spec fn spec_interactive_file(
    html: Seq<char>,
    title: Seq<char>,
    format: InteractiveOutputFormat,
    is_quiz: bool,
) -> core::result::Result<Seq<char>, SError> {
    if format == InteractiveOutputFormat::Html {
        Ok(html)
    } else {
        match spec_app_data(html) {
            Err(e) => Err(e),
            Ok(data) => if is_quiz {
                let qs = arr_or_empty(sarr(skey(Some(data), "quiz"@)));
                if format == InteractiveOutputFormat::Markdown {
                    Ok(spec_quiz_markdown(title, qs))
                } else {
                    Ok(
                        spec_json_pretty(
                            SJson::Object(
                                seq![
                                    ("title"@, SJson::Str(title)),
                                    ("questions"@, SJson::Array(qs)),
                                ],
                            ),
                        ),
                    )
                }
            } else {
                let cs = arr_or_empty(sarr(skey(Some(data), "flashcards"@)));
                if format == InteractiveOutputFormat::Markdown {
                    Ok(spec_flashcards_markdown(title, cs))
                } else {
                    Ok(
                        spec_json_pretty(
                            SJson::Object(
                                seq![
                                    ("title"@, SJson::Str(title)),
                                    (
                                        "cards"@,
                                        SJson::Array(
                                            Seq::new(cs.len(), |i: int| normalized_card(cs[i])),
                                        ),
                                    ),
                                ],
                            ),
                        ),
                    )
                }
            },
        }
    }
}

fn object2(k1: &str, v1: JsonValue, k2: &str, v2: JsonValue) -> (r: JsonValue)
    ensures
        r@ == SJson::Object(seq![(k1@, v1@), (k2@, v2@)]),
{
    let ghost a = (k1@, v1@);
    let ghost b = (k2@, v2@);
    let mut es: Vec<(String, JsonValue)> = Vec::new();
    es.push((string_from(k1), v1));
    es.push((string_from(k2), v2));
    let r = JsonValue::Object(es);
    assert(crate::json::sarr_entries(r@) =~= seq![a, b]);
    r
}

fn member_text_json(v: &JsonValue, key: &str) -> (r: JsonValue)
    ensures
        r@ == SJson::Str(member_text(v@, key@)),
{
    match ostr(v.get_key(key)) {
        Some(t) => JsonValue::Str(t.clone()),
        None => JsonValue::Str(String::new()),
    }
}

pub fn interactive_file(
    html: &str,
    title: &str,
    format: InteractiveOutputFormat,
    is_quiz: bool,
) -> (r: Result<String>)
    ensures
        text_result_view(r) == spec_interactive_file(html@, title@, format, is_quiz),
{
    if format == InteractiveOutputFormat::Html {
        return Ok(string_from(html));
    }
    let data = match extract_app_data_from_html(html) {
        Ok(d) => d,
        Err(e) => {
            return Err(e);
        },
    };
    let key = if is_quiz { "quiz" } else { "flashcards" };
    let empty: Vec<JsonValue> = Vec::new();
    assert(views(empty@) =~= Seq::<SJson>::empty());
    let items: &Vec<JsonValue> = match data.get_key(key) {
        Some(v) => match v.as_array() {
            Some(a) => a,
            None => &empty,
        },
        None => &empty,
    };
    let ghost iv = views(items@);
    if is_quiz {
        if format == InteractiveOutputFormat::Markdown {
            Ok(format_quiz_markdown(title, items.as_slice()))
        } else {
            let doc = object2("title", jstr(title), "questions", arr(copy_all(items)));
            Ok(to_json_pretty(&doc))
        }
    } else {
        if format == InteractiveOutputFormat::Markdown {
            Ok(format_flashcards_markdown(title, items.as_slice()))
        } else {
            let mut cards: Vec<JsonValue> = Vec::new();
            let mut i: usize = 0;
            while i < items.len()
                invariant
                    i <= items@.len() == iv.len(),
                    iv == views(items@),
                    cards@.len() == i,
                    forall|k: int| 0 <= k < i ==> #[trigger] cards@[k]@ == normalized_card(iv[k]),
                decreases items@.len() - i,
            {
                let c = &items[i];
                assert(iv[i as int] == c@);
                cards.push(object2("front", member_text_json(c, "f"), "back", member_text_json(c, "b")));
                i = i + 1;
            }
            assert(views(cards@) =~= Seq::new(iv.len(), |k: int| normalized_card(iv[k])));
            let doc = object2("title", jstr(title), "cards", arr(cards));
            Ok(to_json_pretty(&doc))
        }
    }
}

// ---- Mind map generation ----

/// Generating a mind map:
/// `[[[[id]], ...], null x4, ["interactive_mindmap", [["[CONTEXT]", ""]], ""], null, [2, null, [1]]]`;
/// an empty answer is fine.
pub open spec fn spec_mind_map_call(notebook_id: Seq<char>, ids: Seq<Seq<char>>) -> SRpcCall {
    SRpcCall {
        method: RpcMethod::GenerateMindMap,
        params: SJson::Array(
            seq![
                SJson::Array(sids_triple(ids)),
                SJson::Null,
                SJson::Null,
                SJson::Null,
                SJson::Null,
                SJson::Array(
                    seq![
                        SJson::Str("interactive_mindmap"@),
                        SJson::Array(
                            seq![
                                SJson::Array(
                                    seq![SJson::Str("[CONTEXT]"@), SJson::Str(Seq::empty())],
                                ),
                            ],
                        ),
                        SJson::Str(Seq::empty()),
                    ],
                ),
                SJson::Null,
                SJson::Array(seq![SJson::Int(2), SJson::Null, SJson::Array(seq![SJson::Int(1)])]),
            ],
        ),
        source_path: notebook_path(notebook_id),
        allow_null: true,
    }
}

pub fn mind_map_call(notebook_id: &str, source_ids: &[String]) -> (r: RpcCall)
    ensures
        call_view(r) == spec_mind_map_call(notebook_id@, strings_view(source_ids@)),
{
    let kind = arr3(
        jstr("interactive_mindmap"),
        arr1(arr2(jstr("[CONTEXT]"), JsonValue::Str(String::new()))),
        JsonValue::Str(String::new()),
    );
    let marker = arr3(JsonValue::Int(2), JsonValue::Null, arr1(JsonValue::Int(1)));
    let params = crate::json::arr8(
        arr(source_ids_triple(source_ids)),
        JsonValue::Null,
        JsonValue::Null,
        JsonValue::Null,
        JsonValue::Null,
        kind,
        JsonValue::Null,
        marker,
    );
    notebook_call(RpcMethod::GenerateMindMap, params, notebook_id, true)
}

/// A generated mind map: its JSON text, the document it reads as (the
/// text itself where it is not JSON), and its title.
pub struct GeneratedMindMap {
    pub content: String,
    pub mind_map: JsonValue,
    pub title: String,
}

pub struct SGeneratedMindMap {
    pub content: Seq<char>,
    pub mind_map: SJson,
    pub title: Seq<char>,
}

pub open spec fn generated_view(g: Option<GeneratedMindMap>) -> Option<SGeneratedMindMap> {
    match g {
        Some(m) => Some(SGeneratedMindMap { content: m.content@, mind_map: m.mind_map@, title: m.title@ }),
        None => None,
    }
}

/// The mind map in a generation answer `[[json, ...], ...]`; its title is
/// its `name`, else `Mind Map`.
pub open spec fn spec_generated_mind_map(result: SJson) -> Option<SGeneratedMindMap> {
    match sstr(sget(sget(Some(result), 0), 0)) {
        None => None,
        Some(js) => {
            let doc = match spec_json_parse(js) {
                Ok(v) => v,
                Err(_) => SJson::Str(js),
            };
            Some(
                SGeneratedMindMap {
                    content: js,
                    mind_map: doc,
                    title: match sstr(skey(Some(doc), "name"@)) {
                        Some(t) => t,
                        None => "Mind Map"@,
                    },
                },
            )
        },
    }
}

pub fn read_generated_mind_map(result: &JsonValue) -> (r: Option<GeneratedMindMap>)
    ensures
        generated_view(r) == spec_generated_mind_map(result@),
{
    let js = match ostr(oget(result.get(0), 0)) {
        Some(t) => t,
        None => {
            return None;
        },
    };
    let doc = match parse_json_text(js.as_str()) {
        Ok(v) => v,
        Err(_) => JsonValue::Str(js.clone()),
    };
    let title = match ostr(doc.get_key("name")) {
        Some(t) => t.clone(),
        None => string_from("Mind Map"),
    };
    Some(GeneratedMindMap { content: js.clone(), mind_map: doc, title })
}

/// Creating an empty note: `[notebook, "", [1], null, "New Note"]`.
pub open spec fn spec_create_note_call(notebook_id: Seq<char>) -> SRpcCall {
    SRpcCall {
        method: RpcMethod::CreateNote,
        params: SJson::Array(
            seq![
                SJson::Str(notebook_id),
                SJson::Str(Seq::empty()),
                SJson::Array(seq![SJson::Int(1)]),
                SJson::Null,
                SJson::Str("New Note"@),
            ],
        ),
        source_path: notebook_path(notebook_id),
        allow_null: true,
    }
}

pub fn create_note_call(notebook_id: &str) -> (r: RpcCall)
    ensures
        call_view(r) == spec_create_note_call(notebook_id@),
{
    let params = arr5(
        jstr(notebook_id),
        JsonValue::Str(String::new()),
        arr1(JsonValue::Int(1)),
        JsonValue::Null,
        jstr("New Note"),
    );
    notebook_call(RpcMethod::CreateNote, params, notebook_id, true)
}

/// The id of a created note, at `[0][0]`, else at `[0]`.
pub open spec fn spec_created_note_id(result: SJson) -> core::result::Result<Seq<char>, SError> {
    match sstr(sget(sget(Some(result), 0), 0)) {
        Some(id) => Ok(id),
        None => match sstr(sget(Some(result), 0)) {
            Some(id) => Ok(id),
            None => Err(
                SError::DecodeShape {
                    path: "[0][0]"@,
                    context: "create_note did not return a note id"@,
                },
            ),
        },
    }
}

pub fn parse_created_note_id(result: &JsonValue) -> (r: Result<String>)
    ensures
        text_result_view(r) == spec_created_note_id(result@),
{
    match ostr(oget(result.get(0), 0)) {
        Some(id) => Ok(id.clone()),
        None => match ostr(result.get(0)) {
            Some(id) => Ok(id.clone()),
            None => Err(
                NotebookLmError::DecodeShape {
                    path: string_from("[0][0]"),
                    context: string_from("create_note did not return a note id"),
                },
            ),
        },
    }
}

/// Saving a note: `[notebook, note, [[[content, title, [], 0]]]]`.
pub open spec fn spec_update_note_call(
    notebook_id: Seq<char>,
    note_id: Seq<char>,
    content: Seq<char>,
    title: Seq<char>,
) -> SRpcCall {
    SRpcCall {
        method: RpcMethod::UpdateNote,
        params: SJson::Array(
            seq![
                SJson::Str(notebook_id),
                SJson::Str(note_id),
                SJson::Array(
                    seq![
                        SJson::Array(
                            seq![
                                SJson::Array(
                                    seq![
                                        SJson::Str(content),
                                        SJson::Str(title),
                                        SJson::Array(Seq::empty()),
                                        SJson::Int(0),
                                    ],
                                ),
                            ],
                        ),
                    ],
                ),
            ],
        ),
        source_path: notebook_path(notebook_id),
        allow_null: true,
    }
}

pub fn update_note_call(notebook_id: &str, note_id: &str, content: &str, title: &str) -> (r: RpcCall)
    ensures
        call_view(r) == spec_update_note_call(notebook_id@, note_id@, content@, title@),
{
    let empty = arr(Vec::new());
    assert(views(Seq::<JsonValue>::empty()) =~= Seq::<SJson>::empty());
    let note = arr4(jstr(content), jstr(title), empty, JsonValue::Int(0));
    let params = arr3(jstr(notebook_id), jstr(note_id), arr1(arr1(note)));
    notebook_call(RpcMethod::UpdateNote, params, notebook_id, true)
}

/// Keeping a generated mind map in the notebook's notes, once the note
/// was created or not: where the note exists (`created` is its id), the
/// update that writes the mind map's content and title into it, and the
/// note's id in the result; where creating it failed, no update and no
/// note id. The mind map is in the result either way, and what the update
/// answers does not change the result.
pub fn save_mind_map(
    notebook_id: &str,
    generated: GeneratedMindMap,
    created: Result<String>,
) -> (r: (Option<RpcCall>, MindMapGenerationResult))
    ensures
        r.1.mind_map is Some,
        r.1.mind_map->0@ == generated.mind_map@,
        match created {
            Ok(id) => {
                &&& r.0 is Some
                &&& call_view(r.0->0) == spec_update_note_call(
                    notebook_id@,
                    id@,
                    generated.content@,
                    generated.title@,
                )
                &&& r.1.note_id is Some
                &&& r.1.note_id->0@ == id@
            },
            Err(_) => r.0 is None && r.1.note_id is None,
        },
{
    match created {
        Ok(id) => {
            let update = update_note_call(
                notebook_id,
                id.as_str(),
                generated.content.as_str(),
                generated.title.as_str(),
            );
            (Some(update), MindMapGenerationResult { mind_map: Some(generated.mind_map), note_id: Some(id) })
        },
        Err(_) => (None, MindMapGenerationResult { mind_map: Some(generated.mind_map), note_id: None }),
    }
}

// ---- Export, rename, delete ----

/// Exporting an artifact or content: `[null, artifact, content, title,
/// type]`; an empty answer is fine.
pub open spec fn spec_export_call(
    notebook_id: Seq<char>,
    artifact_id: Option<Seq<char>>,
    content: Option<Seq<char>>,
    title: Seq<char>,
    type_code: i64,
) -> SRpcCall {
    SRpcCall {
        method: RpcMethod::ExportArtifact,
        params: SJson::Array(
            seq![
                SJson::Null,
                opt_text(artifact_id),
                opt_text(content),
                SJson::Str(title),
                SJson::Int(type_code),
            ],
        ),
        source_path: notebook_path(notebook_id),
        allow_null: true,
    }
}

fn opt_str_json(o: Option<&str>) -> (r: JsonValue)
    ensures
        r@ == opt_text(opt_str_ref_view(o)),
{
    match o {
        Some(s) => jstr(s),
        None => JsonValue::Null,
    }
}

pub fn export_raw_call(
    notebook_id: &str,
    artifact_id: Option<&str>,
    content: Option<&str>,
    title: &str,
    export_type_code: i64,
) -> (r: RpcCall)
    ensures
        call_view(r) == spec_export_call(
            notebook_id@,
            opt_str_ref_view(artifact_id),
            opt_str_ref_view(content),
            title@,
            export_type_code,
        ),
{
    let params = arr5(
        JsonValue::Null,
        opt_str_json(artifact_id),
        opt_str_json(content),
        jstr(title),
        JsonValue::Int(export_type_code),
    );
    notebook_call(RpcMethod::ExportArtifact, params, notebook_id, true)
}

pub fn export_call(
    notebook_id: &str,
    artifact_id: Option<&str>,
    content: Option<&str>,
    title: &str,
    export_type: ArtifactExportType,
) -> (r: RpcCall)
    ensures
        call_view(r) == spec_export_call(
            notebook_id@,
            opt_str_ref_view(artifact_id),
            opt_str_ref_view(content),
            title@,
            export_type.spec_code(),
        ),
{
    export_raw_call(notebook_id, artifact_id, content, title, export_type.code())
}

/// Deleting an artifact: `[[2], artifact]`; an empty answer is fine.
pub open spec fn spec_delete_artifact_call(notebook_id: Seq<char>, artifact_id: Seq<char>) -> SRpcCall {
    SRpcCall {
        method: RpcMethod::DeleteArtifact,
        params: SJson::Array(seq![SJson::Array(seq![SJson::Int(2)]), SJson::Str(artifact_id)]),
        source_path: notebook_path(notebook_id),
        allow_null: true,
    }
}

pub fn delete_artifact_call(notebook_id: &str, artifact_id: &str) -> (r: RpcCall)
    ensures
        call_view(r) == spec_delete_artifact_call(notebook_id@, artifact_id@),
{
    let params = arr2(arr1(JsonValue::Int(2)), jstr(artifact_id));
    notebook_call(RpcMethod::DeleteArtifact, params, notebook_id, true)
}

/// Renaming an artifact: `[[artifact, title], [["title"]]]`; an empty
/// answer is fine.
pub open spec fn spec_rename_artifact_call(
    notebook_id: Seq<char>,
    artifact_id: Seq<char>,
    title: Seq<char>,
) -> SRpcCall {
    SRpcCall {
        method: RpcMethod::RenameArtifact,
        params: SJson::Array(
            seq![
                SJson::Array(seq![SJson::Str(artifact_id), SJson::Str(title)]),
                SJson::Array(seq![SJson::Array(seq![SJson::Str("title"@)])]),
            ],
        ),
        source_path: notebook_path(notebook_id),
        allow_null: true,
    }
}

pub fn rename_artifact_call(notebook_id: &str, artifact_id: &str, new_title: &str) -> (r: RpcCall)
    ensures
        call_view(r) == spec_rename_artifact_call(notebook_id@, artifact_id@, new_title@),
{
    let params = arr2(arr2(jstr(artifact_id), jstr(new_title)), arr1(arr1(jstr("title"))));
    notebook_call(RpcMethod::RenameArtifact, params, notebook_id, true)
}

} // verus!
