//! Research: starting a web or Drive search, reading its progress, and
//! importing the sources it found.

use vstd::prelude::*;
use crate::calls::{call_view, notebook_call, notebook_path, RpcCall, SRpcCall};
use crate::error::{NotebookLmError, Result, SError};
use crate::json::{
    arr, arr1, arr2, arr4, arr5, jstr, oget, oi64, opt_string_view, or_empty, ostr, owned_opt,
    owned_or_empty, sarr, sget, si64, sis_array, sstr, views, JsonValue, SJson,
};
use crate::rpc::RpcMethod;
use crate::text::string_from;
use crate::types::{
    ResearchImportedSource, ResearchMode, ResearchPollResult, ResearchSource, ResearchSourceType,
    ResearchStartResult,
};

verus! {

// ---- Views ----

pub struct SResearchSource {
    pub url: Seq<char>,
    pub title: Seq<char>,
}

pub open spec fn research_source_view(s: ResearchSource) -> SResearchSource {
    SResearchSource { url: s.url@, title: s.title@ }
}

pub open spec fn research_sources_view(v: Seq<ResearchSource>) -> Seq<SResearchSource> {
    Seq::new(v.len(), |i: int| research_source_view(v[i]))
}

pub struct SPoll {
    pub task_id: Option<Seq<char>>,
    pub status: Seq<char>,
    pub query: Seq<char>,
    pub sources: Seq<SResearchSource>,
    pub summary: Seq<char>,
}

pub open spec fn poll_view(r: ResearchPollResult) -> SPoll {
    SPoll {
        task_id: opt_string_view(r.task_id),
        status: r.status@,
        query: r.query@,
        sources: research_sources_view(r.sources@),
        summary: r.summary@,
    }
}

pub struct SStart {
    pub task_id: Seq<char>,
    pub report_id: Option<Seq<char>>,
    pub notebook_id: Seq<char>,
    pub query: Seq<char>,
    pub mode: Seq<char>,
}

pub open spec fn start_view(r: ResearchStartResult) -> SStart {
    SStart {
        task_id: r.task_id@,
        report_id: opt_string_view(r.report_id),
        notebook_id: r.notebook_id@,
        query: r.query@,
        mode: r.mode@,
    }
}

pub struct SImported {
    pub id: Seq<char>,
    pub title: Seq<char>,
}

pub open spec fn imported_view(v: Seq<ResearchImportedSource>) -> Seq<SImported> {
    Seq::new(v.len(), |i: int| SImported { id: v[i].id@, title: v[i].title@ })
}

// ---- Starting ----

/// The wire code of where research looks.
pub open spec fn source_type_code(source: ResearchSourceType) -> i64 {
    match source {
        ResearchSourceType::Web => 1,
        ResearchSourceType::Drive => 2,
    }
}

/// The name of a research mode.
pub open spec fn mode_name(mode: ResearchMode) -> Seq<char> {
    match mode {
        ResearchMode::Fast => "fast"@,
        ResearchMode::Deep => "deep"@,
    }
}

/// The call that starts research: fast research
/// `[[query, source], null, 1, notebook]`, deep research
/// `[null, [1], [query, source], 5, notebook]`. Deep research cannot look
/// in Drive.
pub open spec fn spec_start_call(
    notebook_id: Seq<char>,
    query: Seq<char>,
    source: ResearchSourceType,
    mode: ResearchMode,
) -> core::result::Result<SRpcCall, SError> {
    let st = SJson::Int(source_type_code(source));
    if mode == ResearchMode::Deep && source == ResearchSourceType::Drive {
        Err(SError::Config("deep research only supports web source"@))
    } else if mode == ResearchMode::Fast {
        Ok(
            SRpcCall {
                method: RpcMethod::StartFastResearch,
                params: SJson::Array(
                    seq![
                        SJson::Array(seq![SJson::Str(query), st]),
                        SJson::Null,
                        SJson::Int(1),
                        SJson::Str(notebook_id),
                    ],
                ),
                source_path: notebook_path(notebook_id),
                allow_null: false,
            },
        )
    } else {
        Ok(
            SRpcCall {
                method: RpcMethod::StartDeepResearch,
                params: SJson::Array(
                    seq![
                        SJson::Null,
                        SJson::Array(seq![SJson::Int(1)]),
                        SJson::Array(seq![SJson::Str(query), st]),
                        SJson::Int(5),
                        SJson::Str(notebook_id),
                    ],
                ),
                source_path: notebook_path(notebook_id),
                allow_null: false,
            },
        )
    }
}

/// Where research looks, as sent: the web is 1 and Drive is 2.
pub open spec fn sent_source(source: ResearchSourceType) -> SJson {
    match source {
        ResearchSourceType::Web => SJson::Int(1),
        ResearchSourceType::Drive => SJson::Int(2),
    }
}

/// Starting research sends the query with where to look: fast research at
/// `[0]` as `[query, source]`, deep research (web only) at `[2]`; web is 1
/// and Drive is 2, so a Drive search and a web search for the same query
/// are different calls. Deep research in Drive is refused.
pub proof fn law_research_source_sent(nb: Seq<char>, query: Seq<char>, source: ResearchSourceType)
    ensures
        spec_start_call(nb, query, source, ResearchMode::Fast) matches Ok(c) && c.method
            == RpcMethod::StartFastResearch && sget(Some(c.params), 0) == Some(
            SJson::Array(seq![SJson::Str(query), sent_source(source)]),
        ),
        spec_start_call(nb, query, ResearchSourceType::Web, ResearchMode::Deep) matches Ok(c)
            && c.method == RpcMethod::StartDeepResearch && sget(Some(c.params), 2) == Some(
            SJson::Array(seq![SJson::Str(query), SJson::Int(1)]),
        ),
        spec_start_call(nb, query, ResearchSourceType::Drive, ResearchMode::Deep) is Err,
        spec_start_call(nb, query, ResearchSourceType::Web, ResearchMode::Fast) != spec_start_call(
            nb,
            query,
            ResearchSourceType::Drive,
            ResearchMode::Fast,
        ),
{
    let w = spec_start_call(nb, query, ResearchSourceType::Web, ResearchMode::Fast);
    let d = spec_start_call(nb, query, ResearchSourceType::Drive, ResearchMode::Fast);
    assert(sget(Some(w->Ok_0.params), 0) != sget(Some(d->Ok_0.params), 0));
}

pub open spec fn call_result_view(r: Result<RpcCall>) -> core::result::Result<SRpcCall, SError> {
    match r {
        Ok(c) => Ok(call_view(c)),
        Err(e) => Err(e@),
    }
}

pub fn start_call(
    notebook_id: &str,
    query: &str,
    source: ResearchSourceType,
    mode: ResearchMode,
) -> (r: Result<RpcCall>)
    ensures
        call_result_view(r) == spec_start_call(notebook_id@, query@, source, mode),
{
    if mode == ResearchMode::Deep && source == ResearchSourceType::Drive {
        return Err(
            NotebookLmError::Config(string_from("deep research only supports web source")),
        );
    }
    let st: i64 = match source {
        ResearchSourceType::Web => 1,
        ResearchSourceType::Drive => 2,
    };
    if mode == ResearchMode::Fast {
        let params = arr4(
            arr2(jstr(query), JsonValue::Int(st)),
            JsonValue::Null,
            JsonValue::Int(1),
            jstr(notebook_id),
        );
        Ok(notebook_call(RpcMethod::StartFastResearch, params, notebook_id, false))
    } else {
        let params = arr5(
            JsonValue::Null,
            arr1(JsonValue::Int(1)),
            arr2(jstr(query), JsonValue::Int(st)),
            JsonValue::Int(5),
            jstr(notebook_id),
        );
        Ok(notebook_call(RpcMethod::StartDeepResearch, params, notebook_id, false))
    }
}

/// What a start call answers: `[task_id, report_id, ...]` with a non-empty
/// task id starts research; anything else does not.
pub open spec fn spec_start_result(
    result: SJson,
    notebook_id: Seq<char>,
    query: Seq<char>,
    mode: ResearchMode,
) -> Option<SStart> {
    match result {
        SJson::Array(a) => if a.len() == 0 {
            None
        } else {
            let task_id = or_empty(sstr(Some(a[0])));
            if task_id.len() == 0 {
                None
            } else {
                Some(
                    SStart {
                        task_id,
                        report_id: sstr(sget(Some(result), 1)),
                        notebook_id,
                        query,
                        mode: mode_name(mode),
                    },
                )
            }
        },
        _ => None,
    }
}

pub open spec fn opt_start_view(r: Option<ResearchStartResult>) -> Option<SStart> {
    match r {
        Some(s) => Some(start_view(s)),
        None => None,
    }
}

pub fn parse_start_result(
    result: &JsonValue,
    notebook_id: &str,
    query: &str,
    mode: ResearchMode,
) -> (r: Option<ResearchStartResult>)
    ensures
        opt_start_view(r) == spec_start_result(result@, notebook_id@, query@, mode),
{
    let a = match result.as_array() {
        Some(a) => a,
        None => {
            return None;
        },
    };
    if a.len() == 0 {
        return None;
    }
    let task_id = owned_or_empty(ostr(result.get(0)));
    if task_id.as_str().is_empty() {
        return None;
    }
    let mode_text = match mode {
        ResearchMode::Fast => string_from("fast"),
        ResearchMode::Deep => string_from("deep"),
    };
    Some(
        ResearchStartResult {
            task_id,
            report_id: owned_opt(ostr(result.get(1))),
            notebook_id: string_from(notebook_id),
            query: string_from(query),
            mode: mode_text,
        },
    )
}

// ---- Polling ----

/// The call that reads research progress: `[null, null, notebook]`.
pub open spec fn spec_poll_call(notebook_id: Seq<char>) -> SRpcCall {
    SRpcCall {
        method: RpcMethod::PollResearch,
        params: SJson::Array(seq![SJson::Null, SJson::Null, SJson::Str(notebook_id)]),
        source_path: notebook_path(notebook_id),
        allow_null: false,
    }
}

pub fn poll_call(notebook_id: &str) -> (r: RpcCall)
    ensures
        call_view(r) == spec_poll_call(notebook_id@),
{
    let params = crate::json::arr3(JsonValue::Null, JsonValue::Null, jstr(notebook_id));
    notebook_call(RpcMethod::PollResearch, params, notebook_id, false)
}

/// A list of lists wrapped once more (`[[[...], ...]]`) is unwrapped.
pub open spec fn unwrap_root(r: SJson) -> SJson {
    match r {
        SJson::Array(a) => if a.len() > 0 && (match a[0] {
            SJson::Array(b) => b.len() > 0 && sis_array(Some(b[0])),
            _ => false,
        }) {
            a[0]
        } else {
            r
        },
        _ => r,
    }
}

/// The elements of an array, or none.
pub open spec fn arr_or_empty(o: Option<Seq<SJson>>) -> Seq<SJson> {
    match o {
        Some(a) => a,
        None => Seq::empty(),
    }
}

/// A found source `[url, title, ...]`: kept when it has a url or a title.
pub open spec fn source_entry(src: SJson) -> Option<SResearchSource> {
    match src {
        SJson::Array(s) => if s.len() < 2 {
            None
        } else {
            let url = or_empty(sstr(Some(s[0])));
            let title = or_empty(sstr(Some(s[1])));
            if url.len() > 0 || title.len() > 0 {
                Some(SResearchSource { url, title })
            } else {
                None
            }
        },
        _ => None,
    }
}

/// The found sources, in order.
pub open spec fn source_entries(srcs: Seq<SJson>) -> Seq<SResearchSource>
    decreases srcs.len(),
{
    if srcs.len() == 0 {
        Seq::empty()
    } else {
        let rest = source_entries(srcs.drop_last());
        match source_entry(srcs.last()) {
            Some(e) => rest.push(e),
            None => rest,
        }
    }
}

/// The progress of one task `[task_id, info]`, given its info
/// `[_, [query], _, [[sources...], summary], status]`: status 2 is
/// completed, anything else (or none) in progress.
pub open spec fn spec_task_progress(task_id: Option<Seq<char>>, info: Seq<SJson>) -> SPoll {
    let i = Some(SJson::Array(info));
    let summary_part = arr_or_empty(sarr(sget(i, 3)));
    let sources_data = if summary_part.len() > 0 {
        arr_or_empty(sarr(Some(summary_part[0])))
    } else {
        Seq::empty()
    };
    let summary = if summary_part.len() > 1 {
        or_empty(sstr(Some(summary_part[1])))
    } else {
        Seq::<char>::empty()
    };
    let code = match si64(sget(i, 4)) {
        Some(c) => c,
        None => 1,
    };
    SPoll {
        task_id,
        status: if code == 2 {
            "completed"@
        } else {
            "in_progress"@
        },
        query: or_empty(sstr(sget(sget(i, 1), 0))),
        sources: source_entries(sources_data),
        summary,
    }
}

/// A research task reads as completed exactly when its status code at
/// `[4]` is 2, and as in progress otherwise (no code included).
pub proof fn law_research_completion(task_id: Option<Seq<char>>, info: Seq<SJson>)
    ensures
        (spec_task_progress(task_id, info).status == "completed"@) <==> si64(
            sget(Some(SJson::Array(info)), 4),
        ) == Some(2i64),
        (spec_task_progress(task_id, info).status == "in_progress"@) <==> si64(
            sget(Some(SJson::Array(info)), 4),
        ) != Some(2i64),
{
    reveal_strlit("completed");
    reveal_strlit("in_progress");
    assert("completed"@.len() != "in_progress"@.len());
}

/// The answer when no research is running.
pub open spec fn no_research() -> SPoll {
    SPoll {
        task_id: None,
        status: "no_research"@,
        query: Seq::empty(),
        sources: Seq::empty(),
        summary: Seq::empty(),
    }
}

/// A task `[task_id, info, ...]` whose info is an array.
pub open spec fn task_info(task: SJson) -> Option<(Option<Seq<char>>, Seq<SJson>)> {
    match task {
        SJson::Array(t) => if t.len() < 2 {
            None
        } else {
            match sarr(Some(t[1])) {
                Some(info) => Some((sstr(Some(t[0])), info)),
                None => None,
            }
        },
        _ => None,
    }
}

/// The progress of the first well-formed task.
pub open spec fn tasks_progress(tasks: Seq<SJson>) -> SPoll
    decreases tasks.len(),
{
    if tasks.len() == 0 {
        no_research()
    } else {
        match task_info(tasks[0]) {
            Some((id, info)) => spec_task_progress(id, info),
            None => tasks_progress(tasks.drop_first()),
        }
    }
}

/// Research progress as the poll call answers it.
pub open spec fn spec_poll_result(result: SJson) -> SPoll {
    match sarr(Some(unwrap_root(result))) {
        Some(tasks) => tasks_progress(tasks),
        None => no_research(),
    }
}

fn unwrap_root_exec(result: &JsonValue) -> (r: &JsonValue)
    ensures
        r@ == unwrap_root(result@),
{
    match result.as_array() {
        Some(a) => {
            if a.len() > 0 {
                assert(views(a@)[0] == a@[0]@);
                match a[0].as_array() {
                    Some(b) => {
                        if b.len() > 0 && b[0].is_array() {
                            assert(views(b@)[0] == b@[0]@);
                            return &a[0];
                        }
                        assert(views(b@).len() == b@.len());
                        if b.len() > 0 {
                            assert(views(b@)[0] == b@[0]@);
                        }
                    },
                    None => {},
                }
            }
            result
        },
        None => result,
    }
}

fn source_entries_exec(srcs: &Vec<JsonValue>) -> (r: Vec<ResearchSource>)
    ensures
        research_sources_view(r@) == source_entries(views(srcs@)),
{
    let ghost vs = views(srcs@);
    let mut out: Vec<ResearchSource> = Vec::new();
    let mut i: usize = 0;
    assert(vs.take(0) =~= Seq::<SJson>::empty());
    while i < srcs.len()
        invariant
            i <= srcs@.len() == vs.len(),
            vs == views(srcs@),
            research_sources_view(out@) == source_entries(vs.take(i as int)),
        decreases srcs@.len() - i,
    {
        assert(vs.take(i + 1).drop_last() =~= vs.take(i as int));
        assert(vs.take(i + 1).last() == srcs@[i as int]@);
        let s = &srcs[i];
        let ghost before = out@;
        match s.as_array() {
            Some(sa) => {
                if sa.len() >= 2 {
                    assert(views(sa@)[0] == sa@[0]@ && views(sa@)[1] == sa@[1]@);
                    let url = owned_or_empty(sa[0].as_str());
                    let title = owned_or_empty(sa[1].as_str());
                    if !url.as_str().is_empty() || !title.as_str().is_empty() {
                        let e = ResearchSource { url, title };
                        out.push(e);
                        assert(research_sources_view(out@) =~= research_sources_view(before).push(
                            research_source_view(e),
                        ));
                    }
                }
            },
            None => {},
        }
        i = i + 1;
    }
    assert(vs.take(srcs@.len() as int) =~= vs);
    out
}

fn no_research_exec() -> (r: ResearchPollResult)
    ensures
        poll_view(r) == no_research(),
{
    let r = ResearchPollResult {
        task_id: None,
        status: string_from("no_research"),
        query: String::new(),
        sources: Vec::new(),
        summary: String::new(),
    };
    assert(research_sources_view(r.sources@) =~= Seq::<SResearchSource>::empty());
    r
}

fn task_progress_exec(task_id: Option<String>, info: &JsonValue) -> (r: ResearchPollResult)
    requires
        info@ is Array,
    ensures
        poll_view(r) == spec_task_progress(opt_string_view(task_id), sarr(Some(info@))->0),
{
    let empty: Vec<JsonValue> = Vec::new();
    assert(views(empty@) =~= Seq::<SJson>::empty());
    let summary_part: &Vec<JsonValue> = match oget(Some(info), 3) {
        Some(p) => match p.as_array() {
            Some(pa) => pa,
            None => &empty,
        },
        None => &empty,
    };
    let sources_data: &Vec<JsonValue> = if summary_part.len() > 0 {
        assert(views(summary_part@)[0] == summary_part@[0]@);
        match summary_part[0].as_array() {
            Some(d) => d,
            None => &empty,
        }
    } else {
        &empty
    };
    let summary = if summary_part.len() > 1 {
        assert(views(summary_part@)[1] == summary_part@[1]@);
        owned_or_empty(summary_part[1].as_str())
    } else {
        String::new()
    };
    let code = match oi64(oget(Some(info), 4)) {
        Some(c) => c,
        None => 1,
    };
    let status = if code == 2 {
        string_from("completed")
    } else {
        string_from("in_progress")
    };
    ResearchPollResult {
        task_id,
        status,
        query: owned_or_empty(ostr(oget(oget(Some(info), 1), 0))),
        sources: source_entries_exec(sources_data),
        summary,
    }
}

/// Research progress as the poll call answers it: the first task of the
/// form `[task_id, info, ...]` (its query, its found sources with a url or
/// a title, its summary, and whether it is completed), or `no_research`.
pub fn parse_poll_result(result: &JsonValue) -> (r: ResearchPollResult)
    ensures
        poll_view(r) == spec_poll_result(result@),
{
    let root = unwrap_root_exec(result);
    let tasks = match root.as_array() {
        Some(t) => t,
        None => {
            return no_research_exec();
        },
    };
    let ghost vs = views(tasks@);
    let mut i: usize = 0;
    assert(vs.subrange(0, vs.len() as int) =~= vs);
    while i < tasks.len()
        invariant
            i <= tasks@.len() == vs.len(),
            vs == views(tasks@),
            sarr(Some(root@)) == Some(vs),
            root@ == unwrap_root(result@),
            tasks_progress(vs) == tasks_progress(vs.subrange(i as int, vs.len() as int)),
        decreases tasks@.len() - i,
    {
        let ghost rest = vs.subrange(i as int, vs.len() as int);
        assert(rest[0] == tasks@[i as int]@);
        assert(rest.drop_first() =~= vs.subrange(i + 1, vs.len() as int));
        let t = &tasks[i];
        match t.as_array() {
            Some(ta) => {
                if ta.len() >= 2 {
                    assert(views(ta@)[0] == ta@[0]@ && views(ta@)[1] == ta@[1]@);
                    if ta[1].is_array() {
                        let task_id = owned_opt(ta[0].as_str());
                        return task_progress_exec(task_id, &ta[1]);
                    }
                }
            },
            None => {},
        }
        i = i + 1;
    }
    assert(vs.subrange(vs.len() as int, vs.len() as int) =~= Seq::<SJson>::empty());
    no_research_exec()
}

// ---- Importing ----

/// The sources worth importing: those with a url.
pub open spec fn importable(sources: Seq<SResearchSource>) -> Seq<SResearchSource>
    decreases sources.len(),
{
    if sources.len() == 0 {
        Seq::empty()
    } else {
        let rest = importable(sources.drop_last());
        if sources.last().url.len() > 0 {
            rest.push(sources.last())
        } else {
            rest
        }
    }
}

/// Only sources with a url are imported, and none of those is dropped:
/// every source kept has a url, and the kept sources are those of the
/// list that have one, in order.
pub proof fn law_import_keeps_sources_with_url(sources: Seq<SResearchSource>)
    ensures
        forall|k: int| 0 <= k < importable(sources).len() ==> #[trigger] importable(sources)[k].url.len() > 0,
        importable(sources) == sources.filter(|s: SResearchSource| s.url.len() > 0),
    decreases sources.len(),
{
    reveal(Seq::filter);
    if sources.len() > 0 {
        law_import_keeps_sources_with_url(sources.drop_last());
    }
}

/// One source to import:
/// `[null, null, [url, title or "Untitled"], null x7, 2]`.
pub open spec fn import_entry(s: SResearchSource) -> SJson {
    SJson::Array(
        seq![
            SJson::Null,
            SJson::Null,
            SJson::Array(
                seq![
                    SJson::Str(s.url),
                    SJson::Str(
                        if s.title.len() == 0 {
                            "Untitled"@
                        } else {
                            s.title
                        },
                    ),
                ],
            ),
        ] + Seq::new(7, |i: int| SJson::Null) + seq![SJson::Int(2)],
    )
}

/// The call that imports found sources, or `None` when none has a url.
pub open spec fn spec_import_call(
    notebook_id: Seq<char>,
    task_id: Seq<char>,
    sources: Seq<SResearchSource>,
) -> Option<SRpcCall> {
    let valid = importable(sources);
    if valid.len() == 0 {
        None
    } else {
        Some(
            SRpcCall {
                method: RpcMethod::ImportResearch,
                params: SJson::Array(
                    seq![
                        SJson::Null,
                        SJson::Array(seq![SJson::Int(1)]),
                        SJson::Str(task_id),
                        SJson::Str(notebook_id),
                        SJson::Array(Seq::new(valid.len(), |i: int| import_entry(valid[i]))),
                    ],
                ),
                source_path: notebook_path(notebook_id),
                allow_null: false,
            },
        )
    }
}

pub open spec fn opt_call_view(r: Option<RpcCall>) -> Option<SRpcCall> {
    match r {
        Some(c) => Some(call_view(c)),
        None => None,
    }
}

fn import_entry_exec(s: &ResearchSource) -> (r: JsonValue)
    ensures
        r@ == import_entry(research_source_view(*s)),
{
    let title = if s.title.as_str().is_empty() {
        string_from("Untitled")
    } else {
        s.title.clone()
    };
    let mut v: Vec<JsonValue> = Vec::new();
    v.push(JsonValue::Null);
    v.push(JsonValue::Null);
    v.push(arr2(JsonValue::Str(s.url.clone()), JsonValue::Str(title)));
    let mut k: usize = 0;
    while k < 7
        invariant
            k <= 7,
            v@.len() == 3 + k,
            forall|j: int| 3 <= j < 3 + k ==> #[trigger] v@[j]@ == SJson::Null,
            v@[0]@ == SJson::Null,
            v@[1]@ == SJson::Null,
            v@[2]@ == import_entry(research_source_view(*s))->Array_0[2],
        decreases 7 - k,
    {
        v.push(JsonValue::Null);
        k = k + 1;
    }
    v.push(JsonValue::Int(2));
    let r = arr(v);
    assert(views(v@) =~= import_entry(research_source_view(*s))->Array_0);
    r
}

/// The call that imports the found sources that have a url; `None` when
/// there is none to import.
pub fn import_call(notebook_id: &str, task_id: &str, sources: &[ResearchSource]) -> (r: Option<RpcCall>)
    ensures
        opt_call_view(r) == spec_import_call(notebook_id@, task_id@, research_sources_view(sources@)),
{
    let ghost sv = research_sources_view(sources@);
    let mut entries: Vec<JsonValue> = Vec::new();
    let ghost mut chosen: Seq<SResearchSource> = Seq::empty();
    let mut i: usize = 0;
    assert(sv.take(0) =~= Seq::<SResearchSource>::empty());
    while i < sources.len()
        invariant
            i <= sources@.len() == sv.len(),
            sv == research_sources_view(sources@),
            chosen == importable(sv.take(i as int)),
            entries@.len() == chosen.len(),
            forall|k: int| 0 <= k < entries@.len() ==> #[trigger] entries@[k]@ == import_entry(
                chosen[k],
            ),
        decreases sources@.len() - i,
    {
        assert(sv.take(i + 1).drop_last() =~= sv.take(i as int));
        assert(sv.take(i + 1).last() == research_source_view(sources@[i as int]));
        let s = &sources[i];
        if !s.url.as_str().is_empty() {
            entries.push(import_entry_exec(s));
            proof {
                chosen = chosen.push(research_source_view(*s));
            }
        }
        i = i + 1;
    }
    assert(sv.take(sources@.len() as int) =~= sv);
    if entries.len() == 0 {
        return None;
    }
    let ghost ev = views(entries@);
    assert(ev =~= Seq::new(chosen.len(), |k: int| import_entry(chosen[k])));
    let params = arr5(
        JsonValue::Null,
        arr1(JsonValue::Int(1)),
        jstr(task_id),
        jstr(notebook_id),
        arr(entries),
    );
    Some(notebook_call(RpcMethod::ImportResearch, params, notebook_id, false))
}

/// An imported source `[[id, ...], title, ...]`: kept when the id is not
/// empty.
pub open spec fn imported_entry(item: SJson) -> Option<SImported> {
    match item {
        SJson::Array(a) => if a.len() < 2 {
            None
        } else {
            let id = or_empty(sstr(sget(Some(a[0]), 0)));
            if id.len() > 0 {
                Some(SImported { id, title: or_empty(sstr(Some(a[1]))) })
            } else {
                None
            }
        },
        _ => None,
    }
}

pub open spec fn imported_entries(items: Seq<SJson>) -> Seq<SImported>
    decreases items.len(),
{
    if items.len() == 0 {
        Seq::empty()
    } else {
        let rest = imported_entries(items.drop_last());
        match imported_entry(items.last()) {
            Some(e) => rest.push(e),
            None => rest,
        }
    }
}

/// The sources that an import call reports as imported.
pub open spec fn spec_imported(result: SJson) -> Seq<SImported> {
    imported_entries(arr_or_empty(sarr(Some(unwrap_root(result)))))
}

/// The sources that an import call reports as imported, in order.
pub fn parse_imported(result: &JsonValue) -> (r: Vec<ResearchImportedSource>)
    ensures
        imported_view(r@) == spec_imported(result@),
{
    let root = unwrap_root_exec(result);
    let mut out: Vec<ResearchImportedSource> = Vec::new();
    match root.as_array() {
        Some(items) => {
            let ghost vs = views(items@);
            let mut i: usize = 0;
            assert(vs.take(0) =~= Seq::<SJson>::empty());
            while i < items.len()
                invariant
                    i <= items@.len() == vs.len(),
                    vs == views(items@),
                    imported_view(out@) == imported_entries(vs.take(i as int)),
                decreases items@.len() - i,
            {
                assert(vs.take(i + 1).drop_last() =~= vs.take(i as int));
                assert(vs.take(i + 1).last() == items@[i as int]@);
                let it = &items[i];
                let ghost before = out@;
                match it.as_array() {
                    Some(a) => {
                        if a.len() >= 2 {
                            assert(views(a@)[0] == a@[0]@ && views(a@)[1] == a@[1]@);
                            let title = owned_or_empty(a[1].as_str());
                            let id = owned_or_empty(ostr(a[0].get(0)));
                            if !id.as_str().is_empty() {
                                let e = ResearchImportedSource { id, title };
                                out.push(e);
                                assert(imported_view(out@) =~= imported_view(before).push(
                                    SImported { id: e.id@, title: e.title@ },
                                ));
                            }
                        }
                    },
                    None => {},
                }
                i = i + 1;
            }
            assert(vs.take(items@.len() as int) =~= vs);
            out
        },
        None => {
            assert(imported_view(out@) =~= Seq::<SImported>::empty());
            out
        },
    }
}

} // verus!
