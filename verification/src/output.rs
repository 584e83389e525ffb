//! The text lines that the command line prints for listings, and the
//! values it builds from its arguments.

use vstd::prelude::*;
use crate::research::{research_sources_view, SResearchSource};
use crate::text::{append_all, chars_of, decimal_int, decimal_i64, push_str, string_from, string_of};
use crate::types::{spec_status_text, Artifact, Notebook, ResearchSource, Source};
use crate::json::or_empty;
use crate::json::opt_string_view;

verus! {

/// `id<TAB>title`.
pub fn notebook_line(nb: &Notebook) -> (r: String)
    ensures
        r@ == nb.id@ + "\t"@ + nb.title@,
{
    let mut v = chars_of(nb.id.as_str());
    push_str(&mut v, "\t");
    push_str(&mut v, nb.title.as_str());
    string_of(v.as_slice())
}

/// `id<TAB>title<TAB>status`, with an empty title where there is none.
pub fn source_line(src: &Source) -> (r: String)
    ensures
        r@ == src.id@ + "\t"@ + or_empty(opt_string_view(src.title)) + "\t"@ + decimal_int(
            src.status as int,
        ),
{
    let mut v = chars_of(src.id.as_str());
    push_str(&mut v, "\t");
    match &src.title {
        Some(t) => push_str(&mut v, t.as_str()),
        None => {},
    }
    push_str(&mut v, "\t");
    let d = decimal_i64(src.status);
    append_all(&mut v, d.as_slice());
    string_of(v.as_slice())
}

/// `id<TAB>title<TAB>status name`.
pub fn artifact_line(art: &Artifact) -> (r: String)
    ensures
        r@ == art.id@ + "\t"@ + art.title@ + "\t"@ + spec_status_text(art.status),
{
    let mut v = chars_of(art.id.as_str());
    push_str(&mut v, "\t");
    push_str(&mut v, art.title.as_str());
    push_str(&mut v, "\t");
    push_str(&mut v, art.status_str());
    string_of(v.as_slice())
}

/// The first 12 characters of a session id (all of a shorter one).
pub fn session_prefix(session_id: &str) -> (r: String)
    ensures
        r@ == if session_id@.len() <= 12 {
            session_id@
        } else {
            session_id@.take(12)
        },
{
    let s = chars_of(session_id);
    if s.len() <= 12 {
        return string_of(s.as_slice());
    }
    let mut out: Vec<char> = Vec::new();
    let mut i: usize = 0;
    while i < 12
        invariant
            i <= 12 < s@.len(),
            out@ == s@.take(i as int),
        decreases 12 - i,
    {
        out.push(s[i]);
        i = i + 1;
        assert(out@ =~= s@.take(i as int));
    }
    string_of(out.as_slice())
}

/// The sources to import given on the command line: each url with the
/// title given at the same position, else `Untitled`.
pub open spec fn spec_sources_from_args(urls: Seq<Seq<char>>, titles: Seq<Seq<char>>) -> Seq<SResearchSource> {
    Seq::new(
        urls.len(),
        |i: int|
            SResearchSource {
                url: urls[i],
                title: if i < titles.len() {
                    titles[i]
                } else {
                    "Untitled"@
                },
            },
    )
}

pub fn sources_from_args(urls: &Vec<String>, titles: &Vec<String>) -> (r: Vec<ResearchSource>)
    ensures
        research_sources_view(r@) == spec_sources_from_args(
            crate::types::strings_view(urls@),
            crate::types::strings_view(titles@),
        ),
{
    let mut out: Vec<ResearchSource> = Vec::new();
    let mut i: usize = 0;
    while i < urls.len()
        invariant
            i <= urls@.len(),
            out@.len() == i,
            forall|k: int| 0 <= k < i ==> #[trigger] crate::research::research_source_view(out@[k])
                == spec_sources_from_args(
                crate::types::strings_view(urls@),
                crate::types::strings_view(titles@),
            )[k],
        decreases urls@.len() - i,
    {
        let title = if i < titles.len() {
            titles[i].clone()
        } else {
            string_from("Untitled")
        };
        out.push(ResearchSource { url: urls[i].clone(), title });
        i = i + 1;
    }
    assert(research_sources_view(out@) =~= spec_sources_from_args(
        crate::types::strings_view(urls@),
        crate::types::strings_view(titles@),
    ));
    out
}

} // verus!
