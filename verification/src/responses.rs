//! Reading the positional JSON answers of the NotebookLM RPC calls.

use vstd::prelude::*;
use crate::error::{NotebookLmError, Result, SError};
use crate::json::{
    json_at, oget, oi64, obool, opt_str_ref_view, opt_string_view, opt_view, or_empty, ostr, owned_opt,
    owned_or_empty, path_at, sarr, sbool, sget, si64, sis_null, sstr, views, JsonValue, SJson,
};
use crate::text::{
    append_all, chars_of, contains, decimal_nat, push_str, replace, replace_chars, str_has,
    string_from, string_of, join, starts_with, str_starts, decimal_u64, occurs_at,
};
use crate::types::{
    strings_view, Artifact, GenerationStatus, SArtifact, SGenerationStatus, ShareAccess,
    SharePermission, ShareStatus, ShareViewLevel, SharedUser, spec_status_text,
    artifact_status_to_str, opt_artifact_view,
};

verus! {

/// An integer or 0.
pub open spec fn or_zero(o: Option<i64>) -> i64 {
    match o {
        Some(i) => i,
        None => 0,
    }
}

// ---- Choosing an artifact ----

/// An artifact entry `[id, title, type, ?, status, ...]` of the given type
/// whose status is 3 (completed).
pub open spec fn is_completed_of(a: SJson, artifact_type: i64) -> bool {
    sarr(Some(a)) is Some && or_zero(si64(sget(Some(a), 2))) == artifact_type && or_zero(
        si64(sget(Some(a), 4)),
    ) == 3
}

/// The creation time `[15][0]` of an artifact entry, or 0.
pub open spec fn created_key(a: SJson) -> i64 {
    or_zero(si64(sget(sget(Some(a), 15), 0)))
}

/// Whether the first element of an entry is the text `id`.
pub open spec fn has_id(a: SJson, id: Seq<char>) -> bool {
    sstr(sget(Some(a), 0)) == Some(id)
}

/// The first completed artifact of the type among the first `n` entries
/// whose id is `id`.
pub open spec fn first_completed_with_id(arts: Seq<SJson>, t: i64, id: Seq<char>, n: int) -> Option<int>
    decreases n,
{
    if n <= 0 {
        None
    } else {
        match first_completed_with_id(arts, t, id, n - 1) {
            Some(i) => Some(i),
            None => if is_completed_of(arts[n - 1], t) && has_id(arts[n - 1], id) {
                Some(n - 1)
            } else {
                None
            },
        }
    }
}

/// The latest completed artifact of the type among the first `n` entries:
/// the greatest creation time, and the last such entry among equals.
pub open spec fn latest_completed(arts: Seq<SJson>, t: i64, n: int) -> Option<int>
    decreases n,
{
    if n <= 0 {
        None
    } else {
        let prev = latest_completed(arts, t, n - 1);
        if is_completed_of(arts[n - 1], t) {
            match prev {
                None => Some(n - 1),
                Some(p) => if created_key(arts[n - 1]) >= created_key(arts[p]) {
                    Some(n - 1)
                } else {
                    Some(p)
                },
            }
        } else {
            prev
        }
    }
}

/// The completed artifact of the type that a download uses: the one with
/// the given id, else the latest.
pub open spec fn spec_select_completed(arts: Seq<SJson>, t: i64, id: Option<Seq<char>>) -> Option<int> {
    match id {
        Some(x) => first_completed_with_id(arts, t, x, arts.len() as int),
        None => latest_completed(arts, t, arts.len() as int),
    }
}

proof fn lemma_latest_in_range(arts: Seq<SJson>, t: i64, n: int)
    requires
        0 <= n <= arts.len(),
    ensures
        latest_completed(arts, t, n) matches Some(i) ==> 0 <= i < n && is_completed_of(arts[i], t),
    decreases n,
{
    if n > 0 {
        lemma_latest_in_range(arts, t, n - 1);
    }
}

proof fn lemma_first_in_range(arts: Seq<SJson>, t: i64, id: Seq<char>, n: int)
    requires
        0 <= n <= arts.len(),
    ensures
        first_completed_with_id(arts, t, id, n) matches Some(i) ==> 0 <= i < n,
    decreases n,
{
    if n > 0 {
        lemma_first_in_range(arts, t, id, n - 1);
    }
}

proof fn lemma_first_completed_is_match(arts: Seq<SJson>, t: i64, id: Seq<char>, n: int)
    requires
        0 <= n <= arts.len(),
    ensures
        first_completed_with_id(arts, t, id, n) matches Some(i) ==> is_completed_of(arts[i], t)
            && has_id(arts[i], id),
    decreases n,
{
    if n > 0 {
        lemma_first_completed_is_match(arts, t, id, n - 1);
    }
}

/// A download only ever uses a completed artifact of the requested type,
/// and, where an id is given, the one with that id.
pub proof fn law_selected_artifact_is_completed(arts: Seq<SJson>, t: i64, id: Option<Seq<char>>)
    ensures
        spec_select_completed(arts, t, id) matches Some(i) ==> 0 <= i < arts.len()
            && is_completed_of(arts[i], t) && (id matches Some(x) ==> has_id(arts[i], x)),
{
    match id {
        Some(x) => {
            lemma_first_in_range(arts, t, x, arts.len() as int);
            lemma_first_completed_is_match(arts, t, x, arts.len() as int);
        },
        None => {
            lemma_latest_in_range(arts, t, arts.len() as int);
        },
    }
}

/// Without an id, no completed artifact of the type was created later than
/// the one chosen.
pub proof fn law_selected_artifact_is_latest(arts: Seq<SJson>, t: i64, k: int)
    requires
        0 <= k < arts.len(),
        is_completed_of(arts[k], t),
    ensures
        spec_select_completed(arts, t, None) matches Some(i) && created_key(arts[k]) <= created_key(
            arts[i],
        ),
{
    lemma_latest_is_max(arts, t, arts.len() as int, k);
}

proof fn lemma_latest_is_max(arts: Seq<SJson>, t: i64, n: int, k: int)
    requires
        0 <= k < n <= arts.len(),
        is_completed_of(arts[k], t),
    ensures
        latest_completed(arts, t, n) matches Some(i) && created_key(arts[k]) <= created_key(arts[i]),
    decreases n,
{
    lemma_latest_in_range(arts, t, n);
    if k < n - 1 {
        lemma_latest_is_max(arts, t, n - 1, k);
    }
}

pub fn is_completed_of_exec(a: &JsonValue, artifact_type: i64) -> (r: bool)
    ensures
        r == is_completed_of(a@, artifact_type),
{
    if a.as_array().is_none() {
        return false;
    }
    let t = match a.get(2) {
        Some(v) => match v.as_i64() {
            Some(x) => x,
            None => 0,
        },
        None => 0,
    };
    let s = match oi64(a.get(4)) {
        Some(x) => x,
        None => 0,
    };
    t == artifact_type && s == 3
}

pub fn created_key_exec(a: &JsonValue) -> (r: i64)
    ensures
        r == created_key(a@),
{
    match oi64(oget(a.get(15), 0)) {
        Some(x) => x,
        None => 0,
    }
}

pub fn has_id_exec(a: &JsonValue, id: &str) -> (r: bool)
    ensures
        r == has_id(a@, id@),
{
    match ostr(a.get(0)) {
        Some(s) => *s == string_from(id),
        None => false,
    }
}

/// The completed artifact of the type that a download uses: the one with
/// the given id, else the one created last.
pub fn select_completed_artifact<'a>(
    artifacts: &'a [JsonValue],
    artifact_type: i64,
    artifact_id: Option<&str>,
) -> (r: Option<&'a JsonValue>)
    ensures
        opt_view(r) == (match spec_select_completed(views(artifacts@), artifact_type, opt_str_ref_view(artifact_id)) {
            Some(i) => Some(views(artifacts@)[i]),
            None => None,
        }),
{
    let ghost arts = views(artifacts@);
    let n = artifacts.len();
    match artifact_id {
        Some(id) => {
            let mut i: usize = 0;
            while i < n
                invariant
                    i <= n == artifacts@.len() == arts.len(),
                    arts == views(artifacts@),
                    artifact_id == Some(id),
                    first_completed_with_id(arts, artifact_type, id@, i as int) is None,
                decreases n - i,
            {
                if is_completed_of_exec(&artifacts[i], artifact_type) && has_id_exec(&artifacts[i], id) {
                    assert(first_completed_with_id(arts, artifact_type, id@, i + 1) == Some(i as int));
                    proof {
                        lemma_first_stable(arts, artifact_type, id@, i + 1, n as int);
                        assert(spec_select_completed(arts, artifact_type, opt_str_ref_view(artifact_id)) == Some(i as int));
                        assert(arts[i as int] == artifacts@[i as int]@);
                    }
                    return Some(&artifacts[i]);
                }
                i = i + 1;
            }
            None
        },
        None => {
            let mut best: Option<usize> = None;
            let mut i: usize = 0;
            while i < n
                invariant
                    i <= n == artifacts@.len() == arts.len(),
                    arts == views(artifacts@),
                    match best {
                        Some(b) => latest_completed(arts, artifact_type, i as int) == Some(b as int),
                        None => latest_completed(arts, artifact_type, i as int) is None,
                    },
                decreases n - i,
            {
                proof {
                    lemma_latest_in_range(arts, artifact_type, i as int);
                }
                if is_completed_of_exec(&artifacts[i], artifact_type) {
                    match best {
                        None => {
                            best = Some(i);
                        },
                        Some(b) => {
                            if created_key_exec(&artifacts[i]) >= created_key_exec(&artifacts[b]) {
                                best = Some(i);
                            }
                        },
                    }
                }
                i = i + 1;
            }
            proof {
                lemma_latest_in_range(arts, artifact_type, n as int);
            }
            match best {
                Some(b) => Some(&artifacts[b]),
                None => None,
            }
        },
    }
}

proof fn lemma_first_stable(arts: Seq<SJson>, t: i64, id: Seq<char>, m: int, n: int)
    requires
        0 <= m <= n,
        first_completed_with_id(arts, t, id, m) is Some,
    ensures
        first_completed_with_id(arts, t, id, n) == first_completed_with_id(arts, t, id, m),
    decreases n - m,
{
    if n > m {
        lemma_first_stable(arts, t, id, m, n - 1);
    }
}


// ---- Choosing a mind map ----

/// The creation time `[1][2][0]` of a mind map item, or 0.
pub open spec fn mind_map_key(a: SJson) -> i64 {
    or_zero(si64(sget(sget(sget(Some(a), 1), 2), 0)))
}

/// The first of the first `n` items whose id is `id`.
pub open spec fn first_with_id(items: Seq<SJson>, id: Seq<char>, n: int) -> Option<int>
    decreases n,
{
    if n <= 0 {
        None
    } else {
        match first_with_id(items, id, n - 1) {
            Some(i) => Some(i),
            None => if has_id(items[n - 1], id) {
                Some(n - 1)
            } else {
                None
            },
        }
    }
}

/// The item of the first `n` with the greatest creation time, the last such
/// among equals (`Iterator::max_by_key`).
pub open spec fn latest_mind_map(items: Seq<SJson>, n: int) -> Option<int>
    decreases n,
{
    if n <= 0 {
        None
    } else {
        match latest_mind_map(items, n - 1) {
            None => Some(n - 1),
            Some(p) => if mind_map_key(items[n - 1]) >= mind_map_key(items[p]) {
                Some(n - 1)
            } else {
                Some(p)
            },
        }
    }
}

/// The mind map a download uses: the one with the given id, else the
/// latest; an error where there is none.
pub open spec fn spec_select_mind_map(items: Seq<SJson>, id: Option<Seq<char>>) -> core::result::Result<int, SError> {
    match id {
        Some(x) => match first_with_id(items, x, items.len() as int) {
            Some(i) => Ok(i),
            None => Err(SError::RpcDecode("mind map "@ + x + " not found"@)),
        },
        None => match latest_mind_map(items, items.len() as int) {
            Some(i) => Ok(i),
            None => Err(SError::RpcDecode("no selectable mind maps"@)),
        },
    }
}

proof fn lemma_first_with_id_stable(items: Seq<SJson>, id: Seq<char>, m: int, n: int)
    requires
        0 <= m <= n,
        first_with_id(items, id, m) is Some,
    ensures
        first_with_id(items, id, n) == first_with_id(items, id, m),
    decreases n - m,
{
    if n > m {
        lemma_first_with_id_stable(items, id, m, n - 1);
    }
}

proof fn lemma_latest_mind_map_range(items: Seq<SJson>, n: int)
    requires
        0 <= n <= items.len(),
    ensures
        latest_mind_map(items, n) matches Some(i) ==> 0 <= i < n,
        n > 0 ==> latest_mind_map(items, n) is Some,
    decreases n,
{
    if n > 0 {
        lemma_latest_mind_map_range(items, n - 1);
    }
}

proof fn lemma_first_with_id_found(items: Seq<SJson>, id: Seq<char>, n: int)
    requires
        0 <= n <= items.len(),
    ensures
        first_with_id(items, id, n) matches Some(i) ==> 0 <= i < n && has_id(items[i], id),
        (exists|k: int| 0 <= k < n && #[trigger] has_id(items[k], id)) ==> first_with_id(
            items,
            id,
            n,
        ) is Some,
    decreases n,
{
    if n > 0 {
        lemma_first_with_id_found(items, id, n - 1);
        if exists|k: int| 0 <= k < n && #[trigger] has_id(items[k], id) {
            let k = choose|k: int| 0 <= k < n && #[trigger] has_id(items[k], id);
            if k < n - 1 {
                assert(exists|j: int| 0 <= j < n - 1 && #[trigger] has_id(items[j], id));
            }
        }
    }
}

/// A mind map download picks an existing item: the one with the given id
/// whenever some item has it, else the latest whenever there is any item.
pub proof fn law_mind_map_selection(items: Seq<SJson>, id: Option<Seq<char>>)
    ensures
        spec_select_mind_map(items, id) matches Ok(i) ==> 0 <= i < items.len() && (id matches Some(
            x,
        ) ==> has_id(items[i], x)),
        id is None ==> (spec_select_mind_map(items, id) is Ok <==> items.len() > 0),
        id matches Some(x) ==> (spec_select_mind_map(items, id) is Ok <==> exists|k: int|
            0 <= k < items.len() && #[trigger] has_id(items[k], x)),
{
    lemma_latest_mind_map_range(items, items.len() as int);
    match id {
        Some(x) => {
            lemma_first_with_id_found(items, x, items.len() as int);
            if let Some(i) = first_with_id(items, x, items.len() as int) {
                assert(has_id(items[i], x));
            }
        },
        None => {},
    }
}

pub fn mind_map_key_exec(a: &JsonValue) -> (r: i64)
    ensures
        r == mind_map_key(a@),
{
    match oi64(oget(oget(a.get(1), 2), 0)) {
        Some(x) => x,
        None => 0,
    }
}

pub open spec fn ref_result_view(r: Result<&JsonValue>) -> core::result::Result<SJson, SError> {
    match r {
        Ok(v) => Ok(v@),
        Err(e) => Err(e@),
    }
}

/// The mind map a download uses: the item with the given id, else the one
/// created last.
pub fn select_mind_map_item<'a>(mind_maps: &'a [JsonValue], artifact_id: Option<&str>) -> (r: Result<&'a JsonValue>)
    ensures
        ref_result_view(r) == (match spec_select_mind_map(views(mind_maps@), opt_str_ref_view(artifact_id)) {
            Ok(i) => Ok(views(mind_maps@)[i]),
            Err(e) => Err(e),
        }),
{
    let ghost items = views(mind_maps@);
    let n = mind_maps.len();
    match artifact_id {
        Some(id) => {
            let mut i: usize = 0;
            while i < n
                invariant
                    i <= n == mind_maps@.len() == items.len(),
                    items == views(mind_maps@),
                    artifact_id == Some(id),
                    first_with_id(items, id@, i as int) is None,
                decreases n - i,
            {
                if has_id_exec(&mind_maps[i], id) {
                    proof {
                        assert(first_with_id(items, id@, i + 1) == Some(i as int));
                        lemma_first_with_id_stable(items, id@, i + 1, n as int);
                        assert(items[i as int] == mind_maps@[i as int]@);
                    }
                    return Ok(&mind_maps[i]);
                }
                i = i + 1;
            }
            let mut m = chars_of("mind map ");
            push_str(&mut m, id);
            push_str(&mut m, " not found");
            Err(NotebookLmError::RpcDecode(string_of(m.as_slice())))
        },
        None => {
            let mut best: Option<usize> = None;
            let mut i: usize = 0;
            while i < n
                invariant
                    i <= n == mind_maps@.len() == items.len(),
                    items == views(mind_maps@),
                    match best {
                        Some(b) => latest_mind_map(items, i as int) == Some(b as int),
                        None => latest_mind_map(items, i as int) is None,
                    },
                decreases n - i,
            {
                proof {
                    lemma_latest_mind_map_range(items, i as int);
                }
                match best {
                    None => {
                        best = Some(i);
                    },
                    Some(b) => {
                        if mind_map_key_exec(&mind_maps[i]) >= mind_map_key_exec(&mind_maps[b]) {
                            best = Some(i);
                        }
                    },
                }
                i = i + 1;
            }
            proof {
                lemma_latest_mind_map_range(items, n as int);
            }
            match best {
                Some(b) => Ok(&mind_maps[b]),
                None => Err(NotebookLmError::RpcDecode(string_from("no selectable mind maps"))),
            }
        },
    }
}

// ---- Media URLs of artifacts ----

/// Scans media entries `[url, ?, mime]` from position `i`: the URL of the
/// first entry of type `mime`; nothing where an entry is not an array;
/// `fallback` where no entry has the type.
pub open spec fn scan_media(items: Seq<SJson>, mime: Seq<char>, i: int, fallback: Option<Seq<char>>) -> Option<Seq<char>>
    decreases items.len() - i,
{
    if i < 0 || i >= items.len() {
        fallback
    } else if sarr(Some(items[i])) is None {
        None
    } else if sstr(sget(Some(items[i]), 2)) == Some(mime) {
        sstr(sget(Some(items[i]), 0))
    } else {
        scan_media(items, mime, i + 1, fallback)
    }
}

/// The URL of the first media entry.
pub open spec fn first_media_url(items: Seq<SJson>) -> Option<Seq<char>> {
    sstr(sget(sget(Some(SJson::Array(items)), 0), 0))
}

fn scan_media_exec(items: &Vec<JsonValue>, mime: &str, fallback: Option<String>) -> (r: Option<String>)
    ensures
        opt_string_view(r) == scan_media(views(items@), mime@, 0, opt_string_view(fallback)),
{
    let ghost vs = views(items@);
    let n = items.len();
    let mut i: usize = 0;
    let m = string_from(mime);
    while i < n
        invariant
            i <= n == items@.len() == vs.len(),
            vs == views(items@),
            m@ == mime@,
            scan_media(vs, mime@, 0, opt_string_view(fallback)) == scan_media(vs, mime@, i as int, opt_string_view(fallback)),
        decreases n - i,
    {
        assert(vs[i as int] == items@[i as int]@);
        let entry = &items[i];
        if entry.as_array().is_none() {
            return None;
        }
        match ostr(entry.get(2)) {
            Some(t) => {
                if *t == m {
                    return owned_opt(ostr(entry.get(0)));
                }
            },
            None => {},
        }
        i = i + 1;
    }
    fallback
}

/// The audio URL of an audio artifact: among the media entries at `[6][5]`,
/// the first of type `audio/mp4`, else the first entry's.
pub open spec fn spec_audio_url(a: SJson) -> Option<Seq<char>> {
    match sarr(sget(sget(Some(a), 6), 5)) {
        None => None,
        Some(m) => scan_media(m, "audio/mp4"@, 0, first_media_url(m)),
    }
}

pub fn find_audio_url(artifact: &JsonValue) -> (r: Option<String>)
    ensures
        opt_string_view(r) == spec_audio_url(artifact@),
{
    let media = match oget(artifact.get(6), 5) {
        Some(m) => m,
        None => {
            return None;
        },
    };
    let list = match media.as_array() {
        Some(l) => l,
        None => {
            return None;
        },
    };
    let fallback = owned_opt(ostr(oget(media.get(0), 0)));
    scan_media_exec(list, "audio/mp4", fallback)
}

/// Whether a media entry's URL starts with `http`.
pub open spec fn is_http_entry(e: SJson) -> bool {
    match sstr(sget(Some(e), 0)) {
        Some(u) => starts_with(u, "http"@),
        None => false,
    }
}

pub open spec fn has_http_entry(items: Seq<SJson>) -> bool {
    exists|k: int| 0 <= k < items.len() && is_http_entry(#[trigger] items[k])
}

/// Scans the media groups at `[8]` from group `g`: the first group whose
/// entries include an `http` URL gives its `video/mp4` entry or its first
/// entry; nothing where a group is not an array.
pub open spec fn scan_video_groups(groups: Seq<SJson>, g: int) -> Option<Seq<char>>
    decreases groups.len() - g,
{
    if g < 0 || g >= groups.len() {
        None
    } else {
        match sarr(Some(groups[g])) {
            None => None,
            Some(items) => if has_http_entry(items) {
                scan_media(items, "video/mp4"@, 0, first_media_url(items))
            } else {
                scan_video_groups(groups, g + 1)
            },
        }
    }
}

pub open spec fn spec_video_url(a: SJson) -> Option<Seq<char>> {
    match sarr(sget(Some(a), 8)) {
        None => None,
        Some(groups) => scan_video_groups(groups, 0),
    }
}

fn is_http_entry_exec(e: &JsonValue) -> (r: bool)
    ensures
        r == is_http_entry(e@),
{
    match ostr(e.get(0)) {
        Some(u) => str_starts(chars_of(u.as_str()).as_slice(), "http"),
        None => false,
    }
}

fn has_http_entry_exec(items: &Vec<JsonValue>) -> (r: bool)
    ensures
        r == has_http_entry(views(items@)),
{
    let ghost vs = views(items@);
    let mut i: usize = 0;
    while i < items.len()
        invariant
            i <= items@.len() == vs.len(),
            vs == views(items@),
            forall|k: int| 0 <= k < i ==> !is_http_entry(#[trigger] vs[k]),
        decreases items@.len() - i,
    {
        assert(vs[i as int] == items@[i as int]@);
        if is_http_entry_exec(&items[i]) {
            return true;
        }
        i = i + 1;
    }
    false
}

pub fn find_video_url(artifact: &JsonValue) -> (r: Option<String>)
    ensures
        opt_string_view(r) == spec_video_url(artifact@),
{
    let groups = match artifact.get(8) {
        Some(g) => match g.as_array() {
            Some(x) => x,
            None => {
                return None;
            },
        },
        None => {
            return None;
        },
    };
    let ghost gs = views(groups@);
    let n = groups.len();
    let mut g: usize = 0;
    while g < n
        invariant
            g <= n == groups@.len() == gs.len(),
            gs == views(groups@),
            spec_video_url(artifact@) == scan_video_groups(gs, 0),
            scan_video_groups(gs, 0) == scan_video_groups(gs, g as int),
        decreases n - g,
    {
        assert(gs[g as int] == groups@[g as int]@);
        let group = &groups[g];
        let items = match group.as_array() {
            Some(x) => x,
            None => {
                return None;
            },
        };
        if has_http_entry_exec(items) {
            let fallback = owned_opt(ostr(oget(group.get(0), 0)));
            return scan_media_exec(items, "video/mp4", fallback);
        }
        g = g + 1;
    }
    None
}

/// Scans the entries of an infographic from the last one back (`k` entries
/// left): the first image URL `[2][0][1][0]` that starts with `http`;
/// nothing where an entry lacks that shape.
pub open spec fn scan_infographic(items: Seq<SJson>, k: int) -> Option<Seq<char>>
    decreases k,
{
    if k <= 0 || k > items.len() {
        None
    } else {
        let item = Some(items[k - 1]);
        if sarr(item) is None || sarr(sget(item, 2)) is None || sarr(sget(sget(sget(item, 2), 0), 1)) is None {
            None
        } else {
            match sstr(sget(sget(sget(sget(item, 2), 0), 1), 0)) {
                None => None,
                Some(u) => if starts_with(u, "http"@) {
                    Some(u)
                } else {
                    scan_infographic(items, k - 1)
                },
            }
        }
    }
}

pub open spec fn spec_infographic_url(a: SJson) -> Option<Seq<char>> {
    match sarr(Some(a)) {
        None => None,
        Some(items) => scan_infographic(items, items.len() as int),
    }
}

pub fn find_infographic_url(artifact: &JsonValue) -> (r: Option<String>)
    ensures
        opt_string_view(r) == spec_infographic_url(artifact@),
{
    let items = match artifact.as_array() {
        Some(x) => x,
        None => {
            return None;
        },
    };
    let ghost vs = views(items@);
    let mut k: usize = items.len();
    while k > 0
        invariant
            k <= items@.len() == vs.len(),
            vs == views(items@),
            spec_infographic_url(artifact@) == scan_infographic(vs, vs.len() as int),
            scan_infographic(vs, vs.len() as int) == scan_infographic(vs, k as int),
        decreases k,
    {
        assert(vs[k - 1] == items@[k - 1]@);
        let item = &items[k - 1];
        if item.as_array().is_none() {
            return None;
        }
        let content = item.get(2);
        match content {
            Some(c) => if c.as_array().is_none() {
                return None;
            },
            None => {
                return None;
            },
        }
        let img = oget(oget(content, 0), 1);
        match img {
            Some(x) => if x.as_array().is_none() {
                return None;
            },
            None => {
                return None;
            },
        }
        match ostr(oget(img, 0)) {
            None => {
                return None;
            },
            Some(u) => {
                if str_starts(chars_of(u.as_str()).as_slice(), "http") {
                    return Some(u.clone());
                }
            },
        }
        k = k - 1;
    }
    None
}

/// The slide deck URL `[16][3]` of a slide deck artifact.
pub open spec fn spec_slide_deck_url(a: SJson) -> Option<Seq<char>> {
    sstr(sget(sget(Some(a), 16), 3))
}

pub fn find_slide_deck_url(artifact: &JsonValue) -> (r: Option<String>)
    ensures
        opt_string_view(r) == spec_slide_deck_url(artifact@),
{
    owned_opt(ostr(oget(artifact.get(16), 3)))
}

// ---- Mind maps and generation answers ----

/// A note entry `[id, null, 2]` is a deleted note.
pub open spec fn is_deleted_note(arr: Seq<SJson>) -> bool {
    arr.len() >= 3 && sis_null(Some(arr[1])) && si64(Some(arr[2])) == Some(2i64)
}

/// A mind map item `[id, [?, json, [?, ?, [created]], ?, title], ...]` read
/// as an artifact of type 5, completed; nothing for a deleted note or an
/// item without an id or content.
pub open spec fn spec_artifact_from_mind_map(item: SJson) -> Option<SArtifact> {
    match sarr(Some(item)) {
        None => None,
        Some(arr) => match sstr(sget(Some(item), 0)) {
            None => None,
            Some(id) => if is_deleted_note(arr) {
                None
            } else {
                let inner = sget(Some(item), 1);
                match sarr(inner) {
                    None => None,
                    Some(_) => Some(
                        SArtifact {
                            id,
                            title: match sstr(sget(inner, 4)) {
                                Some(t) => t,
                                None => "Mind Map"@,
                            },
                            artifact_type: 5,
                            variant: None,
                            status: 3,
                            created_at_unix: si64(sget(sget(sget(inner, 2), 2), 0)),
                        },
                    ),
                }
            },
        },
    }
}

pub fn is_deleted_note_exec(arr: &Vec<JsonValue>) -> (r: bool)
    ensures
        r == is_deleted_note(views(arr@)),
{
    if arr.len() < 3 {
        return false;
    }
    assert(views(arr@)[1] == arr@[1]@);
    assert(views(arr@)[2] == arr@[2]@);
    arr[1].is_null() && arr[2].as_i64() == Some(2i64)
}

pub fn artifact_from_mind_map_item(item: &JsonValue) -> (r: Option<Artifact>)
    ensures
        opt_artifact_view(r) == spec_artifact_from_mind_map(item@),
{
    let arr = match item.as_array() {
        Some(a) => a,
        None => {
            return None;
        },
    };
    let id = match ostr(item.get(0)) {
        Some(s) => s.clone(),
        None => {
            return None;
        },
    };
    if is_deleted_note_exec(arr) {
        return None;
    }
    let inner = item.get(1);
    match inner {
        Some(x) => if x.as_array().is_none() {
            return None;
        },
        None => {
            return None;
        },
    }
    let title = match ostr(oget(inner, 4)) {
        Some(t) => t.clone(),
        None => string_from("Mind Map"),
    };
    Some(
        Artifact {
            id,
            title,
            artifact_type: 5,
            variant: None,
            status: 3,
            created_at_unix: oi64(oget(oget(oget(inner, 2), 2), 0)),
        },
    )
}

/// The status of a generation request from its answer `[[id, ?, ?, ?,
/// status], ...]`: the artifact id and status name (status 2 where none is
/// given), or a failure where no artifact id came back.
pub open spec fn spec_generation_result(d: SJson) -> SGenerationStatus {
    let art = sget(Some(d), 0);
    let id = or_empty(sstr(sget(art, 0)));
    if sarr(art) is Some && id.len() > 0 {
        SGenerationStatus {
            task_id: id,
            status: spec_status_text(
                match si64(sget(art, 4)) {
                    Some(c) => c,
                    None => 2,
                },
            ),
            error: None,
            error_code: None,
        }
    } else {
        SGenerationStatus {
            task_id: Seq::empty(),
            status: "failed"@,
            error: Some("generation failed - no artifact id returned"@),
            error_code: None,
        }
    }
}

pub fn parse_generation_result(result: &JsonValue) -> (r: GenerationStatus)
    ensures
        r@ == spec_generation_result(result@),
{
    let art = result.get(0);
    let is_arr = match art {
        Some(a) => a.as_array().is_some(),
        None => false,
    };
    if is_arr {
        let id = owned_or_empty(ostr(oget(art, 0)));
        let code = match oi64(oget(art, 4)) {
            Some(c) => c,
            None => 2,
        };
        if !id.as_str().is_empty() {
            return GenerationStatus {
                task_id: id,
                status: string_from(artifact_status_to_str(code)),
                error: None,
                error_code: None,
            };
        }
    }
    GenerationStatus {
        task_id: String::new(),
        status: string_from("failed"),
        error: Some(string_from("generation failed - no artifact id returned")),
        error_code: None,
    }
}


// ---- Paths ----

/// The indices of a path as integers.
pub open spec fn path_ints(path: Seq<usize>) -> Seq<int> {
    path.map_values(|k: usize| k as int)
}

/// The text at `path` through nested arrays.
pub fn extract_nested_string(data: &JsonValue, path: &[usize]) -> (r: Option<String>)
    ensures
        opt_string_view(r) == sstr(path_at(data@, path_ints(path@))),
{
    owned_opt(ostr(json_at(data, path)))
}

/// How `{:?}` writes a list of indices: `[a, b, c]`.
pub open spec fn debug_path(path: Seq<usize>) -> Seq<char> {
    "["@ + join(Seq::new(path.len(), |i: int| decimal_nat(path[i] as nat)), ", "@) + "]"@
}

pub fn debug_path_exec(path: &[usize]) -> (r: String)
    ensures
        r@ == debug_path(path@),
{
    let ghost parts = Seq::new(path@.len(), |i: int| decimal_nat(path@[i] as nat));
    let mut out: Vec<char> = Vec::new();
    let mut i: usize = 0;
    assert(parts.take(0) =~= Seq::<Seq<char>>::empty());
    while i < path.len()
        invariant
            i <= path@.len(),
            parts == Seq::new(path@.len(), |i: int| decimal_nat(path@[i] as nat)),
            out@ == join(parts.take(i as int), ", "@),
        decreases path@.len() - i,
    {
        assert(parts.take(i + 1).drop_last() =~= parts.take(i as int));
        if i > 0 {
            push_str(&mut out, ", ");
        }
        let d = decimal_u64(path[i] as u64);
        append_all(&mut out, d.as_slice());
        i = i + 1;
        assert(out@ =~= join(parts.take(i as int), ", "@));
    }
    assert(parts.take(path@.len() as int) =~= parts);
    let mut all = chars_of("[");
    append_all(&mut all, out.as_slice());
    push_str(&mut all, "]");
    string_of(all.as_slice())
}

/// The node at `path`, or a `DecodeShape` error that names the path.
pub fn required_json_at<'a>(data: &'a JsonValue, path: &[usize], context: &str) -> (r: Result<&'a JsonValue>)
    ensures
        ref_result_view(r) == (match path_at(data@, path_ints(path@)) {
            Some(v) => Ok(v),
            None => Err(SError::DecodeShape { path: debug_path(path@), context: context@ }),
        }),
{
    match json_at(data, path) {
        Some(v) => Ok(v),
        None => Err(
            NotebookLmError::DecodeShape { path: debug_path_exec(path), context: string_from(context) },
        ),
    }
}

// ---- Sharing ----

pub struct SSharedUser {
    pub email: Seq<char>,
    pub permission: SharePermission,
    pub display_name: Option<Seq<char>>,
    pub avatar_url: Option<Seq<char>>,
}

pub open spec fn user_view(u: SharedUser) -> SSharedUser {
    SSharedUser {
        email: u.email@,
        permission: u.permission,
        display_name: opt_string_view(u.display_name),
        avatar_url: opt_string_view(u.avatar_url),
    }
}

pub struct SShareStatus {
    pub notebook_id: Seq<char>,
    pub is_public: bool,
    pub access: ShareAccess,
    pub view_level: ShareViewLevel,
    pub shared_users: Seq<SSharedUser>,
    pub share_url: Option<Seq<char>>,
}

pub open spec fn share_status_view(s: ShareStatus) -> SShareStatus {
    SShareStatus {
        notebook_id: s.notebook_id@,
        is_public: s.is_public,
        access: s.access,
        view_level: s.view_level,
        shared_users: Seq::new(s.shared_users@.len(), |i: int| user_view(s.shared_users@[i])),
        share_url: opt_string_view(s.share_url),
    }
}

/// The permission of a code: 1 owner, 2 editor, 4 remove, else viewer.
pub open spec fn permission_of(code: i64) -> SharePermission {
    if code == 1 {
        SharePermission::Owner
    } else if code == 2 {
        SharePermission::Editor
    } else if code == 4 {
        SharePermission::Remove
    } else {
        SharePermission::Viewer
    }
}

/// A user entry `[email, permission, ?, [name, avatar]]`; the permission is
/// viewer where the entry gives none.
pub open spec fn spec_user(u: SJson) -> SSharedUser {
    SSharedUser {
        email: or_empty(sstr(sget(Some(u), 0))),
        permission: permission_of(
            match si64(sget(Some(u), 1)) {
                Some(c) => c,
                None => 3,
            },
        ),
        display_name: sstr(sget(sget(Some(u), 3), 0)),
        avatar_url: sstr(sget(sget(Some(u), 3), 1)),
    }
}

/// The users of the entries that are arrays, in order.
pub open spec fn spec_users(list: Seq<SJson>) -> Seq<SSharedUser>
    decreases list.len(),
{
    if list.len() == 0 {
        Seq::empty()
    } else {
        let r = spec_users(list.drop_last());
        if sarr(Some(list.last())) is Some {
            r.push(spec_user(list.last()))
        } else {
            r
        }
    }
}

/// The sharing state of a notebook from `[[users...], [is_public], ...]`.
pub open spec fn spec_share_status(d: SJson, nb: Seq<char>, level: Option<ShareViewLevel>) -> SShareStatus {
    let is_public = sbool(sget(sget(Some(d), 1), 0)) == Some(true);
    SShareStatus {
        notebook_id: nb,
        is_public,
        access: if is_public {
            ShareAccess::AnyoneWithLink
        } else {
            ShareAccess::Restricted
        },
        view_level: match level {
            Some(l) => l,
            None => ShareViewLevel::FullNotebook,
        },
        shared_users: match sarr(sget(Some(d), 0)) {
            Some(l) => spec_users(l),
            None => Seq::empty(),
        },
        share_url: if is_public {
            Some("https://notebooklm.google.com/notebook/"@ + nb)
        } else {
            None
        },
    }
}

proof fn lemma_users_of_entries(list: Seq<SJson>)
    requires
        forall|k: int| 0 <= k < list.len() ==> #[trigger] sarr(Some(list[k])) is Some,
    ensures
        spec_users(list) == Seq::new(list.len(), |k: int| spec_user(list[k])),
    decreases list.len(),
{
    if list.len() > 0 {
        let front = list.drop_last();
        assert forall|k: int| 0 <= k < front.len() implies #[trigger] sarr(Some(front[k])) is Some by {
            assert(front[k] == list[k]);
        }
        lemma_users_of_entries(front);
        assert(sarr(Some(list[list.len() - 1])) is Some);
        assert(spec_users(list) =~= Seq::new(list.len(), |k: int| spec_user(list[k])));
    }
}

/// Each user entry of a sharing answer gives one user, in order, with the
/// entry's email and the permission of its code: 1 owner, 2 editor,
/// 4 remove, any other code or none viewer.
pub proof fn law_share_user_permissions(d: SJson, nb: Seq<char>, level: Option<ShareViewLevel>, list: Seq<SJson>)
    requires
        sarr(sget(Some(d), 0)) == Some(list),
        forall|k: int| 0 <= k < list.len() ==> #[trigger] sarr(Some(list[k])) is Some,
    ensures
        spec_share_status(d, nb, level).shared_users.len() == list.len(),
        forall|k: int|
            0 <= k < list.len() ==> {
                let u = #[trigger] spec_share_status(d, nb, level).shared_users[k];
                let code = si64(sget(Some(list[k]), 1));
                &&& u.email == or_empty(sstr(sget(Some(list[k]), 0)))
                &&& code == Some(1i64) ==> u.permission == SharePermission::Owner
                &&& code == Some(2i64) ==> u.permission == SharePermission::Editor
                &&& code == Some(4i64) ==> u.permission == SharePermission::Remove
                &&& code != Some(1i64) && code != Some(2i64) && code != Some(4i64) ==> u.permission
                    == SharePermission::Viewer
            },
{
    lemma_users_of_entries(list);
}

fn permission_of_exec(code: i64) -> (r: SharePermission)
    ensures
        r == permission_of(code),
{
    if code == 1 {
        SharePermission::Owner
    } else if code == 2 {
        SharePermission::Editor
    } else if code == 4 {
        SharePermission::Remove
    } else {
        SharePermission::Viewer
    }
}

pub fn parse_share_status(data: &JsonValue, notebook_id: &str, view_level_override: Option<ShareViewLevel>) -> (r: ShareStatus)
    ensures
        share_status_view(r) == spec_share_status(data@, notebook_id@, view_level_override),
{
    let mut users: Vec<SharedUser> = Vec::new();
    match data.get(0) {
        Some(first) => match first.as_array() {
            Some(list) => {
                let ghost vs = views(list@);
                let mut i: usize = 0;
                assert(vs.take(0) =~= Seq::<SJson>::empty());
                while i < list.len()
                    invariant
                        i <= list@.len() == vs.len(),
                        vs == views(list@),
                        users@.len() == spec_users(vs.take(i as int)).len(),
                        forall|k: int| 0 <= k < users@.len() ==> #[trigger] user_view(users@[k]) == spec_users(vs.take(i as int))[k],
                    decreases list@.len() - i,
                {
                    assert(vs.take(i + 1).drop_last() =~= vs.take(i as int));
                    assert(vs.take(i + 1).last() == list@[i as int]@);
                    let u = &list[i];
                    if u.as_array().is_some() {
                        let code = match oi64(u.get(1)) {
                            Some(c) => c,
                            None => 3,
                        };
                        let user = SharedUser {
                            email: owned_or_empty(ostr(u.get(0))),
                            permission: permission_of_exec(code),
                            display_name: owned_opt(ostr(oget(u.get(3), 0))),
                            avatar_url: owned_opt(ostr(oget(u.get(3), 1))),
                        };
                        assert(user_view(user) == spec_user(u@));
                        users.push(user);
                    }
                    i = i + 1;
                }
                assert(vs.take(list@.len() as int) =~= vs);
            },
            None => {},
        },
        None => {},
    }
    let is_public = obool(oget(data.get(1), 0)) == Some(true);
    let access = if is_public {
        ShareAccess::AnyoneWithLink
    } else {
        ShareAccess::Restricted
    };
    let view_level = match view_level_override {
        Some(l) => l,
        None => ShareViewLevel::FullNotebook,
    };
    let share_url = if is_public {
        let mut u = chars_of("https://notebooklm.google.com/notebook/");
        push_str(&mut u, notebook_id);
        Some(string_of(u.as_slice()))
    } else {
        None
    };
    let r = ShareStatus {
        notebook_id: string_from(notebook_id),
        is_public,
        access,
        view_level,
        shared_users: users,
        share_url,
    };
    assert(share_status_view(r).shared_users =~= spec_share_status(data@, notebook_id@, view_level_override).shared_users);
    r
}


// ---- Data tables ----

/// The text of a table cell: its text, or the texts of its parts joined.
pub open spec fn cell_text(v: SJson) -> Seq<char>
    decreases v,
{
    match v {
        SJson::Str(s) => s,
        SJson::Array(a) => cell_text_list(a),
        _ => Seq::empty(),
    }
}

pub open spec fn cell_text_list(a: Seq<SJson>) -> Seq<char>
    decreases a,
{
    if a.len() == 0 {
        Seq::empty()
    } else {
        cell_text_list(a.drop_last()) + cell_text(a.last())
    }
}

pub fn extract_cell_text(cell: &JsonValue) -> (r: String)
    ensures
        r@ == cell_text(cell@),
    decreases cell,
{
    match cell {
        JsonValue::Str(s) => s.clone(),
        JsonValue::Array(items) => {
            assert(decreases_to!(*cell => *items));
            let ghost vs = views(items@);
            let mut out: Vec<char> = Vec::new();
            let mut i: usize = 0;
            assert(vs.take(0) =~= Seq::<SJson>::empty());
            while i < items.len()
                invariant
                    i <= items@.len() == vs.len(),
                    decreases_to!(*cell => *items),
                    vs == views(items@),
                    out@ == cell_text_list(vs.take(i as int)),
                decreases items@.len() - i,
            {
                assert(decreases_to!(*items => items@));
                assert(decreases_to!(items@ => items@[i as int]));
                let t = extract_cell_text(&items[i]);
                let tc = chars_of(t.as_str());
                append_all(&mut out, tc.as_slice());
                assert(vs.take(i + 1).drop_last() =~= vs.take(i as int));
                assert(vs.take(i + 1).last() == items@[i as int]@);
                i = i + 1;
            }
            assert(vs.take(items@.len() as int) =~= vs);
            assert(cell@ == SJson::Array(vs)) by {
                assert(sarr(Some(cell@))->0 =~= vs);
            }
            string_of(out.as_slice())
        },
        _ => String::new(),
    }
}

/// The cells `[2]` of a table row entry.
pub open spec fn row_cells(row: SJson) -> Option<Seq<SJson>> {
    sarr(sget(Some(row), 2))
}

/// The texts of the cells of a row.
pub open spec fn row_texts(row: SJson) -> Seq<Seq<char>> {
    let cells = row_cells(row)->0;
    Seq::new(cells.len(), |i: int| cell_text(cells[i]))
}

/// The header and body rows of a table's row entries: every entry must
/// have cells, and the first row, the header, must not be empty.
pub open spec fn spec_table_rows(rows: Seq<SJson>) -> core::result::Result<(Seq<Seq<char>>, Seq<Seq<Seq<char>>>), SError> {
    if exists|i: int| 0 <= i < rows.len() && #[trigger] row_cells(rows[i]) is None {
        Err(SError::DecodeShape { path: "[row][2]"@, context: "invalid row structure"@ })
    } else if rows.len() == 0 || row_texts(rows[0]).len() == 0 {
        Err(SError::DecodeShape { path: "[rows][0]"@, context: "failed to extract data table headers"@ })
    } else {
        Ok((row_texts(rows[0]), Seq::new((rows.len() - 1) as nat, |i: int| row_texts(rows[i + 1]))))
    }
}

/// Where the rows of a data table sit in its content.
pub open spec fn table_path() -> Seq<usize> {
    seq![0usize, 0, 0, 0, 4, 2]
}

/// The header and body rows of a data table artifact's content, whose rows
/// are at `[0][0][0][0][4][2]`.
pub open spec fn spec_data_table(raw: SJson) -> core::result::Result<(Seq<Seq<char>>, Seq<Seq<Seq<char>>>), SError> {
    match path_at(raw, path_ints(table_path())) {
        None => Err(SError::DecodeShape { path: debug_path(table_path()), context: "invalid data table structure"@ }),
        Some(node) => match sarr(Some(node)) {
            None => Err(SError::DecodeShape { path: debug_path(table_path()), context: "rows array is not an array"@ }),
            Some(rows) => spec_table_rows(rows),
        },
    }
}

pub open spec fn table_view(r: Result<(Vec<String>, Vec<Vec<String>>)>) -> core::result::Result<(Seq<Seq<char>>, Seq<Seq<Seq<char>>>), SError> {
    match r {
        Ok(t) => Ok((strings_view(t.0@), Seq::new(t.1@.len(), |i: int| strings_view(t.1@[i]@)))),
        Err(e) => Err(e@),
    }
}

fn row_texts_exec(cells: &Vec<JsonValue>) -> (r: Vec<String>)
    ensures
        strings_view(r@) == Seq::new(cells@.len(), |i: int| cell_text(views(cells@)[i])),
{
    let mut out: Vec<String> = Vec::new();
    let mut i: usize = 0;
    while i < cells.len()
        invariant
            i <= cells@.len(),
            out@.len() == i,
            forall|k: int| 0 <= k < i ==> #[trigger] out@[k]@ == cell_text(cells@[k]@),
        decreases cells@.len() - i,
    {
        out.push(extract_cell_text(&cells[i]));
        i = i + 1;
    }
    assert(strings_view(out@) =~= Seq::new(cells@.len(), |i: int| cell_text(views(cells@)[i])));
    out
}

pub fn parse_data_table(raw_data: &JsonValue) -> (r: Result<(Vec<String>, Vec<Vec<String>>)>)
    ensures
        table_view(r) == spec_data_table(raw_data@),
{
    let path: [usize; 6] = [0, 0, 0, 0, 4, 2];
    assert(path@ =~= table_path());
    let node = match required_json_at(raw_data, &path, "invalid data table structure") {
        Ok(n) => n,
        Err(e) => {
            return Err(e);
        },
    };
    let rows = match node.as_array() {
        Some(rs) => rs,
        None => {
            return Err(
                NotebookLmError::DecodeShape {
                    path: debug_path_exec(&path),
                    context: string_from("rows array is not an array"),
                },
            );
        },
    };
    let ghost vs = views(rows@);
    let mut headers: Vec<String> = Vec::new();
    let mut body: Vec<Vec<String>> = Vec::new();
    let mut i: usize = 0;
    while i < rows.len()
        invariant
            i <= rows@.len() == vs.len(),
            vs == views(rows@),
            spec_data_table(raw_data@) == spec_table_rows(vs),
            forall|k: int| 0 <= k < i ==> #[trigger] row_cells(vs[k]) is Some,
            i > 0 ==> strings_view(headers@) == row_texts(vs[0]),
            i == 0 ==> headers@.len() == 0,
            body@.len() == if i > 0 { i - 1 } else { 0 },
            forall|k: int| 0 <= k < body@.len() ==> #[trigger] strings_view(body@[k]@) == row_texts(vs[k + 1]),
        decreases rows@.len() - i,
    {
        assert(vs[i as int] == rows@[i as int]@);
        let cells = match rows[i].get(2) {
            Some(c) => match c.as_array() {
                Some(cs) => cs,
                None => {
                    assert(row_cells(vs[i as int]) is None);
                    return Err(
                        NotebookLmError::DecodeShape {
                            path: string_from("[row][2]"),
                            context: string_from("invalid row structure"),
                        },
                    );
                },
            },
            None => {
                assert(row_cells(vs[i as int]) is None);
                return Err(
                    NotebookLmError::DecodeShape {
                        path: string_from("[row][2]"),
                        context: string_from("invalid row structure"),
                    },
                );
            },
        };
        let texts = row_texts_exec(cells);
        assert(strings_view(texts@) == row_texts(vs[i as int]));
        if i == 0 {
            headers = texts;
        } else {
            body.push(texts);
        }
        i = i + 1;
    }
    if headers.len() == 0 {
        return Err(
            NotebookLmError::DecodeShape {
                path: string_from("[rows][0]"),
                context: string_from("failed to extract data table headers"),
            },
        );
    }
    let ghost bv = body@;
    let r = Ok((headers, body));
    assert(Seq::new(bv.len(), |i: int| strings_view(bv[i]@)) =~= Seq::new((vs.len() - 1) as nat, |i: int| row_texts(vs[i + 1])));
    r
}

// ---- CSV ----

/// Whether a CSV field needs quotes: it holds a comma, a quote or a line break.
pub open spec fn needs_quotes(v: Seq<char>) -> bool {
    contains(v, ","@) || contains(v, "\""@) || contains(v, "\n"@) || contains(v, "\r"@)
}

/// A CSV field: quoted, with its quotes doubled, where it needs quotes.
pub open spec fn csv_field(v: Seq<char>) -> Seq<char> {
    if needs_quotes(v) {
        "\""@ + replace(v, "\""@, "\"\""@) + "\""@
    } else {
        v
    }
}

/// A CSV line of the fields, separated by commas.
pub open spec fn spec_csv_row(vs: Seq<Seq<char>>) -> Seq<char> {
    join(Seq::new(vs.len(), |i: int| csv_field(vs[i])), ","@)
}

// ---- Reading a CSV line back ----

/// Reading the inside of a quoted field, after its opening quote: the
/// value, with `""` read as `"`, and what follows the closing quote.
pub open spec fn read_quoted(s: Seq<char>) -> (Seq<char>, Seq<char>)
    decreases s.len(),
{
    if s.len() == 0 {
        (Seq::empty(), Seq::empty())
    } else if s[0] == '"' {
        if s.len() >= 2 && s[1] == '"' {
            let (v, rest) = read_quoted(s.subrange(2, s.len() as int));
            (seq!['"'] + v, rest)
        } else {
            (Seq::empty(), s.drop_first())
        }
    } else {
        let (v, rest) = read_quoted(s.drop_first());
        (seq![s[0]] + v, rest)
    }
}

/// Reading an unquoted field: up to the next comma or the end, and what
/// follows.
pub open spec fn read_plain(s: Seq<char>) -> (Seq<char>, Seq<char>)
    decreases s.len(),
{
    if s.len() == 0 || s[0] == ',' {
        (Seq::empty(), s)
    } else {
        let (v, rest) = read_plain(s.drop_first());
        (seq![s[0]] + v, rest)
    }
}

/// Reading one field: quoted where it opens with a quote, else plain.
pub open spec fn read_field(s: Seq<char>) -> (Seq<char>, Seq<char>) {
    if s.len() > 0 && s[0] == '"' {
        read_quoted(s.drop_first())
    } else {
        read_plain(s)
    }
}

/// Reading a field never leaves more than it was given.
pub proof fn lemma_read_shortens(s: Seq<char>)
    ensures
        read_quoted(s).1.len() <= s.len(),
        read_plain(s).1.len() <= s.len(),
        read_field(s).1.len() <= s.len(),
    decreases s.len(),
{
    if s.len() > 0 {
        lemma_read_shortens(s.drop_first());
        if s.len() >= 2 {
            lemma_read_shortens(s.subrange(2, s.len() as int));
        }
    }
}

/// Reading a line as one CSV record: fields separated by commas, each read
/// as `read_field` reads it.
pub open spec fn read_record(s: Seq<char>) -> Seq<Seq<char>>
    decreases s.len(),
{
    let (v, rest) = read_field(s);
    if rest.len() > 0 && rest[0] == ',' {
        proof {
            lemma_read_shortens(s);
        }
        seq![v] + read_record(rest.drop_first())
    } else {
        seq![v]
    }
}

/// What may follow a field in a line: nothing, or a comma.
pub open spec fn field_end(tail: Seq<char>) -> bool {
    tail.len() == 0 || tail[0] == ','
}

proof fn lemma_lacks_char(v: Seq<char>, c: char, i: int)
    requires
        !contains(v, seq![c]),
        0 <= i < v.len(),
    ensures
        v[i] != c,
{
    if v[i] == c {
        assert(v.subrange(i, i + 1) =~= seq![c]);
        assert(occurs_at(v, seq![c], i));
    }
}

proof fn lemma_read_plain(v: Seq<char>, tail: Seq<char>)
    requires
        forall|i: int| 0 <= i < v.len() ==> v[i] != ',',
        field_end(tail),
    ensures
        read_plain(v + tail) == (v, tail),
    decreases v.len(),
{
    if v.len() == 0 {
        assert(v + tail =~= tail);
    } else {
        lemma_read_plain(v.drop_first(), tail);
        assert((v + tail).drop_first() =~= v.drop_first() + tail);
        assert(seq![v[0]] + v.drop_first() =~= v);
    }
}

proof fn lemma_read_quoted(v: Seq<char>, tail: Seq<char>)
    requires
        field_end(tail),
    ensures
        read_quoted(replace(v, "\""@, "\"\""@) + seq!['"'] + tail) == (v, tail),
    decreases v.len(),
{
    reveal_strlit("\"");
    reveal_strlit("\"\"");
    let q: Seq<char> = "\""@;
    let qq: Seq<char> = "\"\""@;
    let s = replace(v, q, qq) + seq!['"'] + tail;
    if v.len() == 0 {
        assert(s =~= seq!['"'] + tail);
        assert(s.drop_first() =~= tail);
    } else {
        let w = v.drop_first();
        lemma_read_quoted(w, tail);
        let sw = replace(w, q, qq) + seq!['"'] + tail;
        if v[0] == '"' {
            assert(v.subrange(0, 1) =~= q);
            assert(starts_with(v, q));
            assert(v.subrange(1, v.len() as int) =~= w);
            assert(s =~= qq + sw);
            assert(s.subrange(2, s.len() as int) =~= sw);
            assert(seq!['"'] + w =~= v);
        } else {
            assert(!starts_with(v, q)) by {
                if starts_with(v, q) {
                    assert(v.subrange(0, 1)[0] == v[0]);
                }
            }
            assert(s =~= seq![v[0]] + sw);
            assert(s.drop_first() =~= sw);
            assert(seq![v[0]] + w =~= v);
        }
    }
}

proof fn lemma_read_field(v: Seq<char>, tail: Seq<char>)
    requires
        field_end(tail),
    ensures
        read_field(csv_field(v) + tail) == (v, tail),
{
    reveal_strlit("\"");
    reveal_strlit(",");
    let s = csv_field(v) + tail;
    if needs_quotes(v) {
        let body = replace(v, "\""@, "\"\""@);
        assert(s =~= seq!['"'] + (body + seq!['"'] + tail));
        assert(s.drop_first() =~= body + seq!['"'] + tail);
        lemma_read_quoted(v, tail);
    } else {
        assert(","@ =~= seq![',']);
        assert("\""@ =~= seq!['"']);
        assert forall|i: int| 0 <= i < v.len() implies v[i] != ',' by {
            lemma_lacks_char(v, ',', i);
        }
        if v.len() > 0 {
            lemma_lacks_char(v, '"', 0);
        }
        lemma_read_plain(v, tail);
    }
}

proof fn lemma_join_front(ps: Seq<Seq<char>>, sep: Seq<char>)
    requires
        ps.len() >= 2,
    ensures
        join(ps, sep) == ps[0] + sep + join(ps.drop_first(), sep),
    decreases ps.len(),
{
    if ps.len() == 2 {
        assert(ps.drop_last() =~= seq![ps[0]]);
        assert(ps.drop_first() =~= seq![ps[1]]);
        assert(join(ps.drop_last(), sep) == ps[0]);
        assert(join(ps.drop_first(), sep) == ps[1]);
        assert(ps.last() == ps[1]);
    } else {
        lemma_join_front(ps.drop_last(), sep);
        let a = ps.drop_last().drop_first();
        assert(a =~= ps.drop_first().drop_last());
        assert(ps.drop_first().last() == ps.last());
        assert(ps.drop_last()[0] == ps[0]);
        let j = join(a, sep);
        assert(join(ps.drop_first(), sep) == j + sep + ps.last());
        assert(join(ps, sep) == (ps[0] + sep + j) + sep + ps.last());
        assert((ps[0] + sep + j) + sep + ps.last() =~= ps[0] + sep + (j + sep + ps.last()));
    }
}

/// A CSV line reads back as the values it was written from: reading
/// `spec_csv_row(vs)` as one record, fields split at unquoted commas and
/// `""` read as `"` inside quotes, gives `vs` again, in order.
pub proof fn law_csv_row_reads_back(vs: Seq<Seq<char>>)
    requires
        vs.len() >= 1,
    ensures
        read_record(spec_csv_row(vs)) == vs,
    decreases vs.len(),
{
    reveal_strlit(",");
    let fields = Seq::new(vs.len(), |i: int| csv_field(vs[i]));
    if vs.len() == 1 {
        assert(spec_csv_row(vs) == csv_field(vs[0]));
        lemma_read_field(vs[0], Seq::empty());
        assert(csv_field(vs[0]) + Seq::<char>::empty() =~= csv_field(vs[0]));
        assert(read_record(spec_csv_row(vs)) =~= seq![vs[0]]);
        assert(vs =~= seq![vs[0]]);
    } else {
        let rest = vs.drop_first();
        law_csv_row_reads_back(rest);
        lemma_join_front(fields, ","@);
        assert(fields.drop_first() =~= Seq::new(rest.len(), |i: int| csv_field(rest[i])));
        let tail = ","@ + spec_csv_row(rest);
        assert(spec_csv_row(vs) =~= csv_field(vs[0]) + tail);
        assert(","@ =~= seq![',']);
        lemma_read_field(vs[0], tail);
        assert(tail.drop_first() =~= spec_csv_row(rest));
        assert(vs =~= seq![vs[0]] + rest);
    }
}

pub fn csv_field_exec(v: &String) -> (r: Vec<char>)
    ensures
        r@ == csv_field(v@),
{
    let c = chars_of(v.as_str());
    if str_has(c.as_slice(), ",") || str_has(c.as_slice(), "\"") || str_has(c.as_slice(), "\n")
        || str_has(c.as_slice(), "\r") {
        let q = chars_of("\"");
        let qq = chars_of("\"\"");
        proof {
            reveal_strlit("\"");
        }
        let inner = replace_chars(c.as_slice(), q.as_slice(), qq.as_slice());
        let mut out = chars_of("\"");
        append_all(&mut out, inner.as_slice());
        push_str(&mut out, "\"");
        out
    } else {
        c
    }
}

/// One CSV line of the values (without the line break).
pub fn csv_row(values: &[String]) -> (r: String)
    ensures
        r@ == spec_csv_row(strings_view(values@)),
{
    let ghost parts = Seq::new(values@.len(), |i: int| csv_field(values@[i]@));
    let mut out: Vec<char> = Vec::new();
    let mut i: usize = 0;
    assert(parts.take(0) =~= Seq::<Seq<char>>::empty());
    while i < values.len()
        invariant
            i <= values@.len(),
            parts == Seq::new(values@.len(), |i: int| csv_field(values@[i]@)),
            out@ == join(parts.take(i as int), ","@),
        decreases values@.len() - i,
    {
        assert(parts.take(i + 1).drop_last() =~= parts.take(i as int));
        if i > 0 {
            push_str(&mut out, ",");
        }
        let f = csv_field_exec(&values[i]);
        append_all(&mut out, f.as_slice());
        i = i + 1;
        assert(out@ =~= join(parts.take(i as int), ","@));
    }
    assert(parts.take(values@.len() as int) =~= parts);
    assert(parts =~= Seq::new(strings_view(values@).len(), |i: int| csv_field(strings_view(values@)[i])));
    string_of(out.as_slice())
}

} // verus!
