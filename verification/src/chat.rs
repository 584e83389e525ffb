//! Chat: reading answers out of the streamed query response, the request
//! of a question, and the per-conversation history kept between questions.

use vstd::prelude::*;
use crate::json::{
    arr, arr1, arr3, arr5, jstr, oget, opt_string_view, ostr, parse_json, sarr, sget, si64,
    spec_parse_json, sstr, views, JsonValue, SJson,
};
use crate::payloads::{sids_triple, source_ids_triple};
use crate::types::{strings_view, AskResult};
use crate::text::{
    chars_of, is_usize_text, nonblank_lines, nonblank_lines_exec, parses_as_usize,
    strip_all_prefix, strip_all_prefix_exec, string_of,
};
use crate::types::{text_is, ConversationTurn};

verus! {

// ---- Reading the answer ----

/// The length in bytes of the UTF-8 encoding of a text (`str::len`).
pub open spec fn byte_len(s: Seq<char>) -> usize {
    vstd::utf8::encode_utf8(s).len() as usize
}

/// `str::len` of a `String`.
pub fn text_byte_len(s: &String) -> (r: usize)
    ensures
        r == byte_len(s@),
{
    s.as_str().len()
}

/// What one item of a chunk says while looking for the answer.
pub enum ChunkStep {
    /// Look at the next item.
    Next,
    /// Stop looking, with this result.
    Stop(Option<Seq<char>>),
}

/// The first element of the first element of a decoded inner payload, as
/// an array.
pub open spec fn inner_first(inner: Option<SJson>) -> Option<Seq<SJson>> {
    match sarr(inner) {
        Some(a) => if a.len() > 0 {
            sarr(Some(a[0]))
        } else {
            None
        },
        None => None,
    }
}

/// Whether the type information at position 4 ends with the code 1, which
/// marks an answer (as opposed to a thought or a status line).
pub open spec fn marks_answer(first: Seq<SJson>) -> bool {
    match sarr(sget(Some(SJson::Array(first)), 4)) {
        Some(t) => t.len() > 0 && si64(Some(t.last())) == Some(1i64),
        None => false,
    }
}

/// The step taken on one item `[tag, _, inner_json, ...]` of a chunk.
pub open spec fn item_step(item: SJson) -> ChunkStep {
    match item {
        SJson::Array(_) => if sstr(sget(Some(item), 0)) != Some("wrb.fr"@) {
            ChunkStep::Next
        } else {
            match sstr(sget(Some(item), 2)) {
                None => ChunkStep::Stop(None),
                Some(inner) => match inner_first(spec_parse_json(inner)) {
                    None => ChunkStep::Stop(None),
                    Some(first) => match sstr(sget(Some(SJson::Array(first)), 0)) {
                        None => ChunkStep::Stop(None),
                        Some(text) => if byte_len(text) <= 20 {
                            ChunkStep::Next
                        } else if marks_answer(first) {
                            ChunkStep::Stop(Some(text))
                        } else {
                            ChunkStep::Next
                        },
                    },
                },
            }
        },
        _ => ChunkStep::Stop(None),
    }
}

/// The answer found in the items of a chunk from position `i` on.
pub open spec fn answer_from(items: Seq<SJson>, i: int) -> Option<Seq<char>>
    decreases items.len() - i,
{
    if i < 0 || i >= items.len() {
        None
    } else {
        match item_step(items[i]) {
            ChunkStep::Next => answer_from(items, i + 1),
            ChunkStep::Stop(r) => r,
        }
    }
}

/// The answer carried by one JSON chunk of the query stream, if any.
pub open spec fn spec_chunk_answer(json_text: Seq<char>) -> Option<Seq<char>> {
    match spec_parse_json(json_text) {
        Some(SJson::Array(items)) => answer_from(items, 0),
        _ => None,
    }
}

/// The step of one item, computed.
fn item_step_exec(item: &JsonValue) -> (r: (bool, Option<String>))
    ensures
        r.0 ==> item_step(item@) == ChunkStep::Next,
        !r.0 ==> item_step(item@) == ChunkStep::Stop(opt_string_view(r.1)),
{
    let a = match item.as_array() {
        Some(a) => a,
        None => {
            return (false, None);
        },
    };
    let is_result = match ostr(item.get(0)) {
        Some(t) => text_is(t, "wrb.fr"),
        None => false,
    };
    if !is_result {
        return (true, None);
    }
    let inner_text = match ostr(item.get(2)) {
        Some(t) => t,
        None => {
            return (false, None);
        },
    };
    let inner = match parse_json(inner_text.as_str()) {
        Some(v) => v,
        None => {
            return (false, None);
        },
    };
    let first = match oget(Some(&inner), 0) {
        Some(f) => match f.as_array() {
            Some(fa) => f,
            None => {
                return (false, None);
            },
        },
        None => {
            return (false, None);
        },
    };
    let ghost fs = sarr(Some(first@))->0;
    assert(inner_first(Some(inner@)) == Some(fs));
    assert(first@ == SJson::Array(fs));
    let text = match ostr(first.get(0)) {
        Some(t) => t,
        None => {
            return (false, None);
        },
    };
    if text_byte_len(text) <= 20 {
        return (true, None);
    }
    let marked = match oget(Some(first), 4) {
        Some(info) => match info.as_array() {
            Some(t) => if t.len() > 0 {
                assert(views(t@).last() == t@[t@.len() - 1]@);
                t[t.len() - 1].as_i64() == Some(1)
            } else {
                false
            },
            None => false,
        },
        None => false,
    };
    if marked {
        (false, Some(text.clone()))
    } else {
        (true, None)
    }
}

/// The answer carried by one JSON chunk of the query stream: the text of
/// the first `wrb.fr` item whose inner payload is an answer longer than 20
/// bytes. A chunk that is not JSON, or an item of the wrong shape, gives
/// `None`.
pub fn extract_answer_from_chunk(json_str: &str) -> (r: Option<String>)
    ensures
        opt_string_view(r) == spec_chunk_answer(json_str@),
{
    let data = match parse_json(json_str) {
        Some(d) => d,
        None => {
            return None;
        },
    };
    let items = match data.as_array() {
        Some(a) => a,
        None => {
            return None;
        },
    };
    let ghost vs = views(items@);
    let mut i: usize = 0;
    while i < items.len()
        invariant
            i <= items@.len() == vs.len(),
            vs == views(items@),
            spec_chunk_answer(json_str@) == answer_from(vs, i as int),
        decreases items@.len() - i,
    {
        assert(vs[i as int] == items@[i as int]@);
        let (next, found) = item_step_exec(&items[i]);
        if !next {
            return found;
        }
        i = i + 1;
    }
    None
}

/// The longer of the best answer so far and a candidate, by byte length;
/// the earlier one is kept on a tie.
pub open spec fn pick_longer(best: Seq<char>, candidate: Option<Seq<char>>) -> Seq<char> {
    match candidate {
        Some(t) => if byte_len(t) > byte_len(best) {
            t
        } else {
            best
        },
        None => best,
    }
}

/// The longest answer over the lines of the stream: a line that reads as a
/// length announces that the next line is the chunk.
pub open spec fn longest_answer(lines: Seq<Seq<char>>, best: Seq<char>) -> Seq<char>
    decreases lines.len(),
{
    if lines.len() == 0 {
        best
    } else if is_usize_text(lines[0]) {
        if lines.len() >= 2 {
            longest_answer(
                lines.subrange(2, lines.len() as int),
                pick_longer(best, spec_chunk_answer(lines[1])),
            )
        } else {
            best
        }
    } else {
        longest_answer(lines.drop_first(), pick_longer(best, spec_chunk_answer(lines[0])))
    }
}

/// The answers the chunks of the stream carry, in stream order (`None` for
/// a chunk without one): a line that reads as a length announces that the
/// next line is the chunk.
pub open spec fn chunk_answers(lines: Seq<Seq<char>>) -> Seq<Option<Seq<char>>>
    decreases lines.len(),
{
    if lines.len() == 0 {
        Seq::empty()
    } else if is_usize_text(lines[0]) {
        if lines.len() >= 2 {
            seq![spec_chunk_answer(lines[1])] + chunk_answers(lines.subrange(2, lines.len() as int))
        } else {
            Seq::empty()
        }
    } else {
        seq![spec_chunk_answer(lines[0])] + chunk_answers(lines.drop_first())
    }
}

/// The answer kept over a stream, starting from `best`, is at least as long
/// (in bytes) as `best` and as every answer of a chunk; it is `best` itself,
/// or the first chunk answer that is longer than `best` and than every
/// answer before it, so among answers of equal length the first wins.
pub proof fn law_longest_answer_wins(lines: Seq<Seq<char>>, best: Seq<char>)
    ensures
        byte_len(longest_answer(lines, best)) >= byte_len(best),
        forall|k: int|
            0 <= k < chunk_answers(lines).len() && (#[trigger] chunk_answers(lines)[k]) is Some
                ==> byte_len(longest_answer(lines, best)) >= byte_len(chunk_answers(lines)[k]->0),
        longest_answer(lines, best) == best || exists|k: int|
            0 <= k < chunk_answers(lines).len() && #[trigger] chunk_answers(lines)[k] == Some(
                longest_answer(lines, best),
            ) && byte_len(longest_answer(lines, best)) > byte_len(best) && forall|j: int|
                0 <= j < k && (#[trigger] chunk_answers(lines)[j]) is Some ==> byte_len(
                    chunk_answers(lines)[j]->0,
                ) < byte_len(longest_answer(lines, best)),
    decreases lines.len(), 1nat,
{
    if lines.len() == 0 || (is_usize_text(lines[0]) && lines.len() < 2) {
        assert(chunk_answers(lines).len() == 0);
    } else {
        lemma_longest_answer_step(lines, best);
    }
}

proof fn lemma_longest_answer_step(lines: Seq<Seq<char>>, best: Seq<char>)
    requires
        lines.len() > 0,
        !(is_usize_text(lines[0]) && lines.len() < 2),
    ensures
        byte_len(longest_answer(lines, best)) >= byte_len(best),
        forall|k: int|
            0 <= k < chunk_answers(lines).len() && (#[trigger] chunk_answers(lines)[k]) is Some
                ==> byte_len(longest_answer(lines, best)) >= byte_len(chunk_answers(lines)[k]->0),
        longest_answer(lines, best) == best || exists|k: int|
            0 <= k < chunk_answers(lines).len() && #[trigger] chunk_answers(lines)[k] == Some(
                longest_answer(lines, best),
            ) && byte_len(longest_answer(lines, best)) > byte_len(best) && forall|j: int|
                0 <= j < k && (#[trigger] chunk_answers(lines)[j]) is Some ==> byte_len(
                    chunk_answers(lines)[j]->0,
                ) < byte_len(longest_answer(lines, best)),
    decreases lines.len(), 0nat,
{
    let (c, rest) = if is_usize_text(lines[0]) {
        (spec_chunk_answer(lines[1]), lines.subrange(2, lines.len() as int))
    } else {
        (spec_chunk_answer(lines[0]), lines.drop_first())
    };
    let b2 = pick_longer(best, c);
    law_longest_answer_wins(rest, b2);
    let cs = chunk_answers(lines);
    let rs = chunk_answers(rest);
    let res = longest_answer(lines, best);
    assert(cs == seq![c] + rs);
    assert(res == longest_answer(rest, b2));
    assert(byte_len(b2) >= byte_len(best));
    assert(c is Some ==> byte_len(b2) >= byte_len(c->0));
    assert forall|k: int| 0 <= k < cs.len() && (#[trigger] cs[k]) is Some implies byte_len(res)
        >= byte_len(cs[k]->0) by {
        if k > 0 {
            assert(cs[k] == rs[k - 1]);
        }
    }
    if res != best {
        if res == b2 {
            assert(c == Some(res) && byte_len(res) > byte_len(best));
            assert(cs[0] == c);
        } else {
            let k2 = choose|k: int|
                0 <= k < rs.len() && #[trigger] rs[k] == Some(res) && byte_len(res) > byte_len(b2)
                    && forall|j: int| 0 <= j < k && (#[trigger] rs[j]) is Some ==> byte_len(rs[j]->0) < byte_len(res);
            assert(cs[k2 + 1] == Some(res));
            assert forall|j: int| 0 <= j < k2 + 1 && (#[trigger] cs[j]) is Some implies byte_len(cs[j]->0)
                < byte_len(res) by {
                if j > 0 {
                    assert(cs[j] == rs[j - 1]);
                }
            }
        }
    }
}

/// The chat answer in a raw query response.
pub open spec fn spec_chat_answer(response: Seq<char>) -> Seq<char> {
    longest_answer(nonblank_lines(strip_all_prefix(response, ")]}'"@)), Seq::empty())
}

/// The chat answer in a raw query response: after the `)]}'` guard, the
/// longest answer over all chunks (empty when there is none).
pub fn extract_chat_answer(response_text: &str) -> (r: String)
    ensures
        r@ == spec_chat_answer(response_text@),
{
    let s = chars_of(response_text);
    let guard = chars_of(")]}'");
    let stripped = strip_all_prefix_exec(s.as_slice(), guard.as_slice());
    let lines = nonblank_lines_exec(stripped.as_slice());
    let ghost ls = nonblank_lines(strip_all_prefix(response_text@, ")]}'"@));
    let n = lines.len();
    let mut longest = String::new();
    let mut longest_len: usize = 0;
    let mut i: usize = 0;
    assert(ls.subrange(0, n as int) =~= ls);
    while i < n
        invariant
            i <= n,
            n == lines@.len() == ls.len(),
            forall|k: int| 0 <= k < n ==> #[trigger] lines@[k]@ == ls[k],
            longest_len == byte_len(longest@),
            longest_answer(ls.subrange(i as int, n as int), longest@) == spec_chat_answer(
                response_text@,
            ),
        decreases n - i,
    {
        let ghost rest = ls.subrange(i as int, n as int);
        assert(rest[0] == ls[i as int]);
        let chunk_index: Option<usize>;
        if parses_as_usize(lines[i].as_slice()) {
            if i + 1 < n {
                assert(rest[1] == ls[i + 1]);
                assert(rest.subrange(2, rest.len() as int) =~= ls.subrange(i + 2, n as int));
                chunk_index = Some(i + 1);
            } else {
                chunk_index = None;
            }
        } else {
            assert(rest.drop_first() =~= ls.subrange(i + 1, n as int));
            chunk_index = Some(i);
        }
        match chunk_index {
            Some(k) => {
                let text = string_of(lines[k].as_slice());
                let candidate = extract_answer_from_chunk(text.as_str());
                match candidate {
                    Some(c) => {
                        let c_len = text_byte_len(&c);
                        if c_len > longest_len {
                            longest = c;
                            longest_len = c_len;
                        }
                    },
                    None => {},
                }
                i = k + 1;
            },
            None => {
                i = n;
            },
        }
    }
    assert(ls.subrange(n as int, n as int) =~= Seq::<Seq<char>>::empty());
    longest
}

// ---- Conversation history ----

/// The mathematical view of a conversation turn.
pub struct STurn {
    pub query: Seq<char>,
    pub answer: Seq<char>,
    pub turn_number: usize,
}

pub open spec fn turn_view(t: ConversationTurn) -> STurn {
    STurn { query: t.query@, answer: t.answer@, turn_number: t.turn_number }
}

pub open spec fn turns_view(v: Seq<ConversationTurn>) -> Seq<STurn> {
    Seq::new(v.len(), |i: int| turn_view(v[i]))
}

/// Turns numbered 1, 2, 3, ... in order.
pub open spec fn numbered(turns: Seq<STurn>) -> bool {
    forall|k: int| 0 <= k < turns.len() ==> #[trigger] turns[k].turn_number == k + 1
}

/// The turns recorded for a conversation, or none.
pub open spec fn turns_of(m: Map<Seq<char>, Seq<STurn>>, id: Seq<char>) -> Seq<STurn> {
    if m.dom().contains(id) {
        m[id]
    } else {
        Seq::empty()
    }
}

/// The history after one more turn of a conversation: the turn is
/// appended with the next number.
pub open spec fn with_turn(
    m: Map<Seq<char>, Seq<STurn>>,
    id: Seq<char>,
    query: Seq<char>,
    answer: Seq<char>,
) -> Map<Seq<char>, Seq<STurn>> {
    let old_turns = turns_of(m, id);
    m.insert(
        id,
        old_turns.push(
            STurn { query, answer, turn_number: (old_turns.len() + 1) as usize },
        ),
    )
}

/// The history of every conversation of a client, keyed by conversation id.
pub struct ConversationCache {
    entries: Vec<(String, Vec<ConversationTurn>)>,
}

type Entries = Seq<(String, Vec<ConversationTurn>)>;

spec fn entries_map(es: Entries) -> Map<Seq<char>, Seq<STurn>>
    decreases es.len(),
{
    if es.len() == 0 {
        Map::empty()
    } else {
        entries_map(es.drop_last()).insert(es.last().0@, turns_view(es.last().1@))
    }
}

spec fn distinct_keys(es: Entries) -> bool {
    forall|i: int, j: int| 0 <= i < j < es.len() ==> (#[trigger] es[i]).0@ != (#[trigger] es[j]).0@
}

proof fn lemma_absent(es: Entries, k: Seq<char>)
    requires
        forall|i: int| 0 <= i < es.len() ==> (#[trigger] es[i]).0@ != k,
    ensures
        !entries_map(es).dom().contains(k),
    decreases es.len(),
{
    if es.len() > 0 {
        assert forall|i: int| 0 <= i < es.drop_last().len() implies (
        #[trigger] es.drop_last()[i]).0@ != k by {
            assert(es.drop_last()[i] == es[i]);
        }
        lemma_absent(es.drop_last(), k);
    }
}

proof fn lemma_lookup(es: Entries, i: int)
    requires
        distinct_keys(es),
        0 <= i < es.len(),
    ensures
        entries_map(es).dom().contains(es[i].0@),
        entries_map(es)[es[i].0@] == turns_view(es[i].1@),
    decreases es.len(),
{
    if i < es.len() - 1 {
        let d = es.drop_last();
        assert(d[i] == es[i]);
        assert(distinct_keys(d)) by {
            assert forall|a: int, b: int| 0 <= a < b < d.len() implies (#[trigger] d[a]).0@ != (
            #[trigger] d[b]).0@ by {
                assert(d[a] == es[a] && d[b] == es[b]);
            }
        }
        lemma_lookup(d, i);
        assert(es[i].0@ != es[es.len() - 1].0@);
    }
}

proof fn lemma_distinct_drop_last(es: Entries)
    requires
        distinct_keys(es),
        es.len() > 0,
    ensures
        distinct_keys(es.drop_last()),
        forall|i: int| 0 <= i < es.len() - 1 ==> (#[trigger] es.drop_last()[i]).0@ != es.last().0@,
{
    let d = es.drop_last();
    assert forall|a: int, b: int| 0 <= a < b < d.len() implies (#[trigger] d[a]).0@ != (
    #[trigger] d[b]).0@ by {
        assert(d[a] == es[a] && d[b] == es[b]);
    }
    assert forall|i: int| 0 <= i < es.len() - 1 implies (#[trigger] d[i]).0@ != es.last().0@ by {
        assert(d[i] == es[i]);
    }
}

proof fn lemma_update(es: Entries, i: int, e: (String, Vec<ConversationTurn>))
    requires
        distinct_keys(es),
        0 <= i < es.len(),
        e.0@ == es[i].0@,
    ensures
        entries_map(es.update(i, e)) == entries_map(es).insert(e.0@, turns_view(e.1@)),
        distinct_keys(es.update(i, e)),
    decreases es.len(),
{
    let es2 = es.update(i, e);
    let d = es.drop_last();
    lemma_distinct_drop_last(es);
    assert(distinct_keys(es2)) by {
        assert forall|a: int, b: int| 0 <= a < b < es2.len() implies (#[trigger] es2[a]).0@ != (
        #[trigger] es2[b]).0@ by {
            assert(es2[a].0@ == es[a].0@ && es2[b].0@ == es[b].0@);
        }
    }
    if i == es.len() - 1 {
        assert(es2.drop_last() =~= d);
        assert(entries_map(es2) =~= entries_map(es).insert(e.0@, turns_view(e.1@)));
    } else {
        assert(es2.drop_last() =~= d.update(i, e));
        assert(d[i] == es[i]);
        lemma_update(d, i, e);
        assert(es[i].0@ != es.last().0@);
        assert(entries_map(es2) =~= entries_map(es).insert(e.0@, turns_view(e.1@)));
    }
}

proof fn lemma_remove(es: Entries, i: int)
    requires
        distinct_keys(es),
        0 <= i < es.len(),
    ensures
        entries_map(es.remove(i)) == entries_map(es).remove(es[i].0@),
        distinct_keys(es.remove(i)),
    decreases es.len(),
{
    let es2 = es.remove(i);
    let d = es.drop_last();
    lemma_distinct_drop_last(es);
    assert(distinct_keys(es2)) by {
        assert forall|a: int, b: int| 0 <= a < b < es2.len() implies (#[trigger] es2[a]).0@ != (
        #[trigger] es2[b]).0@ by {
            let a0 = if a < i { a } else { a + 1 };
            let b0 = if b < i { b } else { b + 1 };
            assert(es2[a] == es[a0] && es2[b] == es[b0]);
        }
    }
    if i == es.len() - 1 {
        assert(es2 =~= d);
        lemma_absent(d, es[i].0@);
        assert(entries_map(es2) =~= entries_map(es).remove(es[i].0@));
    } else {
        assert(es2.drop_last() =~= d.remove(i));
        assert(es2.last() == es.last());
        assert(d[i] == es[i]);
        lemma_remove(d, i);
        assert(es[i].0@ != es.last().0@);
        assert(entries_map(es2) =~= entries_map(es).remove(es[i].0@));
    }
}

impl View for ConversationCache {
    type V = Map<Seq<char>, Seq<STurn>>;

    closed spec fn view(&self) -> Map<Seq<char>, Seq<STurn>> {
        entries_map(self.entries@)
    }
}

impl ConversationCache {
    #[verifier::type_invariant]
    spec fn keys_distinct(self) -> bool {
        distinct_keys(self.entries@)
    }

    /// An empty history.
    pub fn new() -> (r: Self)
        ensures
            r@ == Map::<Seq<char>, Seq<STurn>>::empty(),
    {
        ConversationCache { entries: Vec::new() }
    }

    fn find(&self, conversation_id: &String) -> (r: Option<usize>)
        ensures
            match r {
                Some(i) => i < self.entries@.len() && self.entries@[i as int].0@
                    == conversation_id@,
                None => !self@.dom().contains(conversation_id@),
            },
    {
        let mut i: usize = 0;
        while i < self.entries.len()
            invariant
                i <= self.entries@.len(),
                forall|k: int| 0 <= k < i ==> (#[trigger] self.entries@[k]).0@ != conversation_id@,
            decreases self.entries@.len() - i,
        {
            if self.entries[i].0 == *conversation_id {
                return Some(i);
            }
            i = i + 1;
        }
        proof {
            lemma_absent(self.entries@, conversation_id@);
        }
        None
    }

    /// The turns recorded for a conversation, oldest first (none for an
    /// unknown conversation).
    pub fn turns(&self, conversation_id: &str) -> (r: Vec<ConversationTurn>)
        ensures
            turns_view(r@) == turns_of(self@, conversation_id@),
    {
        proof {
            use_type_invariant(self);
        }
        let id = string_of(chars_of(conversation_id).as_slice());
        match self.find(&id) {
            Some(i) => {
                proof {
                    lemma_lookup(self.entries@, i as int);
                }
                let src = &self.entries[i].1;
                let mut out: Vec<ConversationTurn> = Vec::new();
                let mut k: usize = 0;
                while k < src.len()
                    invariant
                        k <= src@.len(),
                        turns_view(out@) =~= turns_view(src@).take(k as int),
                    decreases src@.len() - k,
                {
                    let t = &src[k];
                    let copy = ConversationTurn {
                        query: t.query.clone(),
                        answer: t.answer.clone(),
                        turn_number: t.turn_number,
                    };
                    assert(turn_view(copy) == turn_view(src@[k as int]));
                    let ghost prev = out@;
                    out.push(copy);
                    assert(turns_view(out@) =~= turns_view(prev).push(turn_view(copy)));
                    assert(turns_view(src@).take(k + 1) =~= turns_view(src@).take(k as int).push(
                        turn_view(src@[k as int]),
                    ));
                    k = k + 1;
                }
                assert(turns_view(src@).take(src@.len() as int) =~= turns_view(src@));
                out
            },
            None => {
                assert(turns_view(Seq::<ConversationTurn>::empty()) =~= Seq::<STurn>::empty());
                Vec::new()
            },
        }
    }

    /// Records one exchange of a conversation: the turn is appended with
    /// the next number, and no other conversation changes.
    pub fn record_turn(&mut self, conversation_id: &str, query: &str, answer: &str)
        requires
            turns_of(old(self)@, conversation_id@).len() < usize::MAX,
        ensures
            final(self)@ == with_turn(old(self)@, conversation_id@, query@, answer@),
    {
        proof {
            use_type_invariant(&*self);
        }
        let id = string_of(chars_of(conversation_id).as_slice());
        let turn_query = string_of(chars_of(query).as_slice());
        let turn_answer = string_of(chars_of(answer).as_slice());
        let found = self.find(&id);
        let mut entries: Vec<(String, Vec<ConversationTurn>)> = Vec::new();
        std::mem::swap(&mut entries, &mut self.entries);
        let ghost before = entries@;
        match found {
            Some(i) => {
                proof {
                    lemma_lookup(before, i as int);
                }
                let mut entry: (String, Vec<ConversationTurn>) = (String::new(), Vec::new());
                entries.set_and_swap(i, &mut entry);
                assert(entry == before[i as int]);
                let next = entry.1.len() + 1;
                entry.1.push(
                    ConversationTurn { query: turn_query, answer: turn_answer, turn_number: next },
                );
                proof {
                    assert(turns_view(entry.1@) =~= turns_view(before[i as int].1@).push(
                        STurn { query: query@, answer: answer@, turn_number: next },
                    ));
                    lemma_update(before, i as int, entry);
                }
                entries.set(i, entry);
                assert(entries@ =~= before.update(i as int, entry));
            },
            None => {
                let mut turns: Vec<ConversationTurn> = Vec::new();
                turns.push(
                    ConversationTurn { query: turn_query, answer: turn_answer, turn_number: 1 },
                );
                assert(turns_view(turns@) =~= seq![
                    STurn { query: query@, answer: answer@, turn_number: 1 },
                ]);
                assert(turns_of(entries_map(before), conversation_id@) =~= Seq::<STurn>::empty());
                entries.push((id, turns));
                proof {
                    assert(entries@.drop_last() =~= before);
                    assert forall|a: int, b: int| 0 <= a < b < entries@.len() implies (
                    #[trigger] entries@[a]).0@ != (#[trigger] entries@[b]).0@ by {
                        if b == before.len() {
                            assert(entries@[a] == before[a]);
                            lemma_lookup(before, a);
                        } else {
                            assert(entries@[a] == before[a] && entries@[b] == before[b]);
                        }
                    }
                }
            },
        }
        self.entries = entries;
    }

    /// Forgets one conversation (`Some`), answering whether it was known,
    /// or every conversation (`None`), answering `true`.
    pub fn clear(&mut self, conversation_id: Option<&str>) -> (r: bool)
        ensures
            match conversation_id {
                Some(id) => r == old(self)@.dom().contains(id@) && final(self)@ == old(
                    self,
                )@.remove(id@),
                None => r && final(self)@ == Map::<Seq<char>, Seq<STurn>>::empty(),
            },
    {
        proof {
            use_type_invariant(&*self);
        }
        match conversation_id {
            Some(cid) => {
                let id = string_of(chars_of(cid).as_slice());
                match self.find(&id) {
                    Some(i) => {
                        let mut entries: Vec<(String, Vec<ConversationTurn>)> = Vec::new();
                        std::mem::swap(&mut entries, &mut self.entries);
                        proof {
                            lemma_lookup(entries@, i as int);
                            lemma_remove(entries@, i as int);
                        }
                        entries.remove(i);
                        self.entries = entries;
                        true
                    },
                    None => {
                        assert(entries_map(self.entries@).remove(id@) =~= entries_map(
                            self.entries@,
                        ));
                        false
                    },
                }
            },
            None => {
                self.entries = Vec::new();
                assert(entries_map(self.entries@) =~= Map::<Seq<char>, Seq<STurn>>::empty());
                true
            },
        }
    }
}

// ---- Asking a question ----

/// The text of a version-4 UUID in the hyphenated lower-case form: 36
/// characters, hyphens at positions 8, 13, 18 and 23, lower-case hex
/// digits elsewhere, the version digit `4` at position 14 and one of
/// `8`, `9`, `a`, `b` (the variant) at position 19.
pub open spec fn is_uuid_v4_text(s: Seq<char>) -> bool {
    &&& s.len() == 36
    &&& forall|i: int|
        0 <= i < 36 ==> if i == 8 || i == 13 || i == 18 || i == 23 {
            #[trigger] s[i] == '-'
        } else {
            ('0' <= s[i] <= '9') || ('a' <= s[i] <= 'f')
        }
    &&& s[14] == '4'
    &&& (s[19] == '8' || s[19] == '9' || s[19] == 'a' || s[19] == 'b')
}

/// `uuid::Uuid::new_v4().to_string()`: a fresh random version-4 id in the
/// hyphenated lower-case form. Which id comes out is chance.
#[verifier::external_body]
fn new_conversation_id() -> (r: String)
    ensures
        is_uuid_v4_text(r@),
{
    uuid::Uuid::new_v4().to_string()
}

/// The history sent with a follow-up question: for each earlier turn, the
/// answer `[answer, null, 2]` then the question `[query, null, 1]`.
pub open spec fn history_entries(turns: Seq<STurn>) -> Seq<SJson>
    decreases turns.len(),
{
    if turns.len() == 0 {
        Seq::empty()
    } else {
        let t = turns.last();
        history_entries(turns.drop_last()) + seq![
            SJson::Array(seq![SJson::Str(t.answer), SJson::Null, SJson::Int(2)]),
            SJson::Array(seq![SJson::Str(t.query), SJson::Null, SJson::Int(1)]),
        ]
    }
}

/// The history document: `null` when there is no earlier turn.
pub open spec fn spec_history(turns: Seq<STurn>) -> SJson {
    if turns.len() == 0 {
        SJson::Null
    } else {
        SJson::Array(history_entries(turns))
    }
}

/// The history document of a conversation's turns.
pub fn history_json(turns: &Vec<ConversationTurn>) -> (r: JsonValue)
    ensures
        r@ == spec_history(turns_view(turns@)),
{
    if turns.len() == 0 {
        return JsonValue::Null;
    }
    let ghost tv = turns_view(turns@);
    let mut items: Vec<JsonValue> = Vec::new();
    let mut i: usize = 0;
    while i < turns.len()
        invariant
            i <= turns@.len() == tv.len(),
            tv == turns_view(turns@),
            views(items@) == history_entries(tv.take(i as int)),
        decreases turns@.len() - i,
    {
        let t = &turns[i];
        let ghost before = views(items@);
        items.push(arr3(JsonValue::Str(t.answer.clone()), JsonValue::Null, JsonValue::Int(2)));
        items.push(arr3(JsonValue::Str(t.query.clone()), JsonValue::Null, JsonValue::Int(1)));
        assert(tv.take(i + 1).drop_last() =~= tv.take(i as int));
        assert(tv.take(i + 1).last() == tv[i as int]);
        assert(views(items@) =~= history_entries(tv.take(i + 1)));
        i = i + 1;
    }
    assert(tv.take(turns@.len() as int) =~= tv);
    arr(items)
}

/// The parameters of a chat query:
/// `[[[[id]], ...], question, history, [2, null, [1]], conversation_id]`.
pub open spec fn spec_ask_params(
    ids: Seq<Seq<char>>,
    question: Seq<char>,
    history: SJson,
    conversation_id: Seq<char>,
) -> SJson {
    SJson::Array(
        seq![
            SJson::Array(sids_triple(ids)),
            SJson::Str(question),
            history,
            SJson::Array(seq![SJson::Int(2), SJson::Null, SJson::Array(seq![SJson::Int(1)])]),
            SJson::Str(conversation_id),
        ],
    )
}

/// A chat query ready to send.
pub struct AskRequest {
    pub params: JsonValue,
    pub conversation_id: String,
    pub is_follow_up: bool,
}

/// The query for a question: a follow-up (a given conversation id) carries
/// the history cached for that conversation; a new question carries none
/// and takes `fresh_id` as its conversation id.
pub fn ask_request(
    cache: &ConversationCache,
    source_ids: &[String],
    question: &str,
    conversation_id: Option<&str>,
    fresh_id: &str,
) -> (r: AskRequest)
    ensures
        r.is_follow_up == conversation_id.is_some(),
        r.conversation_id@ == match conversation_id {
            Some(c) => c@,
            None => fresh_id@,
        },
        r.params@ == spec_ask_params(
            strings_view(source_ids@),
            question@,
            if conversation_id.is_some() {
                spec_history(turns_of(cache@, r.conversation_id@))
            } else {
                SJson::Null
            },
            r.conversation_id@,
        ),
{
    let is_follow_up = conversation_id.is_some();
    let cid = match conversation_id {
        Some(c) => string_of(chars_of(c).as_slice()),
        None => string_of(chars_of(fresh_id).as_slice()),
    };
    let history = if is_follow_up {
        let turns = cache.turns(cid.as_str());
        history_json(&turns)
    } else {
        JsonValue::Null
    };
    let sources = arr(source_ids_triple(source_ids));
    let marker = arr3(JsonValue::Int(2), JsonValue::Null, arr1(JsonValue::Int(1)));
    let params = arr5(sources, jstr(question), history, marker, JsonValue::Str(cid.clone()));
    AskRequest { params, conversation_id: cid, is_follow_up }
}

/// The query for a question, with a fresh random version-4 UUID as the
/// conversation id where none is given. Which UUID a new conversation gets
/// is chance; everything else is `ask_request`.
pub fn prepare_ask(
    cache: &ConversationCache,
    source_ids: &[String],
    question: &str,
    conversation_id: Option<&str>,
) -> (r: AskRequest)
    ensures
        r.is_follow_up == conversation_id.is_some(),
        conversation_id.is_some() ==> r.conversation_id@ == conversation_id->0@,
        conversation_id.is_none() ==> is_uuid_v4_text(r.conversation_id@),
        r.params@ == spec_ask_params(
            strings_view(source_ids@),
            question@,
            if conversation_id.is_some() {
                spec_history(turns_of(cache@, r.conversation_id@))
            } else {
                SJson::Null
            },
            r.conversation_id@,
        ),
{
    match conversation_id {
        Some(c) => ask_request(cache, source_ids, question, Some(c), c),
        None => {
            let fresh = new_conversation_id();
            ask_request(cache, source_ids, question, None, fresh.as_str())
        },
    }
}

/// The first (at most) 1000 characters of a text.
pub open spec fn preview(s: Seq<char>) -> Seq<char> {
    if s.len() <= 1000 {
        s
    } else {
        s.take(1000)
    }
}

/// The view of an answer to a question.
pub struct SAskResult {
    pub answer: Seq<char>,
    pub conversation_id: Seq<char>,
    pub turn_number: usize,
    pub is_follow_up: bool,
    pub raw_response: Seq<char>,
}

pub open spec fn ask_result_view(r: AskResult) -> SAskResult {
    SAskResult {
        answer: r.answer@,
        conversation_id: r.conversation_id@,
        turn_number: r.turn_number,
        is_follow_up: r.is_follow_up,
        raw_response: r.raw_response@,
    }
}

/// The history after an answer: a non-empty answer is recorded as the next
/// turn of the conversation; an empty one leaves the history as it was.
pub open spec fn after_answer(
    m: Map<Seq<char>, Seq<STurn>>,
    conversation_id: Seq<char>,
    question: Seq<char>,
    answer: Seq<char>,
) -> Map<Seq<char>, Seq<STurn>> {
    if answer.len() > 0 {
        with_turn(m, conversation_id, question, answer)
    } else {
        m
    }
}

/// Reads the answer out of the raw query response, records the turn when
/// there is an answer, and reports the conversation's turn count.
pub fn finish_ask(
    cache: &mut ConversationCache,
    request: &AskRequest,
    question: &str,
    raw_response: &str,
) -> (r: AskResult)
    requires
        turns_of(old(cache)@, request.conversation_id@).len() < usize::MAX,
    ensures
        final(cache)@ == after_answer(
            old(cache)@,
            request.conversation_id@,
            question@,
            spec_chat_answer(raw_response@),
        ),
        ask_result_view(r) == (SAskResult {
            answer: spec_chat_answer(raw_response@),
            conversation_id: request.conversation_id@,
            turn_number: turns_of(final(cache)@, request.conversation_id@).len() as usize,
            is_follow_up: request.is_follow_up,
            raw_response: preview(raw_response@),
        }),
{
    let answer = extract_chat_answer(raw_response);
    if !answer.as_str().is_empty() {
        cache.record_turn(request.conversation_id.as_str(), question, answer.as_str());
    }
    let turns = cache.turns(request.conversation_id.as_str());
    let raw = chars_of(raw_response);
    let kept = if raw.len() <= 1000 {
        string_of(raw.as_slice())
    } else {
        let mut head: Vec<char> = Vec::new();
        let mut i: usize = 0;
        while i < 1000
            invariant
                i <= 1000 < raw@.len(),
                head@ == raw@.take(i as int),
            decreases 1000 - i,
        {
            head.push(raw[i]);
            i = i + 1;
            assert(head@ =~= raw@.take(i as int));
        }
        string_of(head.as_slice())
    };
    AskResult {
        answer,
        conversation_id: request.conversation_id.clone(),
        turn_number: turns.len(),
        is_follow_up: request.is_follow_up,
        raw_response: kept,
    }
}

// ---- Laws of the conversation history ----

/// Every conversation's turns are numbered 1, 2, 3, ... in order: this
/// holds of the empty history, and recording a turn keeps it.
pub proof fn law_turns_stay_numbered(
    m: Map<Seq<char>, Seq<STurn>>,
    id: Seq<char>,
    query: Seq<char>,
    answer: Seq<char>,
)
    requires
        forall|k: Seq<char>| #[trigger] m.dom().contains(k) ==> numbered(m[k]),
        turns_of(m, id).len() < usize::MAX,
    ensures
        forall|k: Seq<char>|
            #[trigger] with_turn(m, id, query, answer).dom().contains(k) ==> numbered(
                with_turn(m, id, query, answer)[k],
            ),
        forall|k: Seq<char>|
            #[trigger] Map::<Seq<char>, Seq<STurn>>::empty().dom().contains(k) ==> numbered(
                Map::<Seq<char>, Seq<STurn>>::empty()[k],
            ),
{
    let m2 = with_turn(m, id, query, answer);
    assert forall|k: Seq<char>| #[trigger] m2.dom().contains(k) implies numbered(m2[k]) by {
        if k == id {
            let t = turns_of(m, id);
            assert(numbered(t));
            assert forall|j: int| 0 <= j < m2[k].len() implies #[trigger] m2[k][j].turn_number
                == j + 1 by {
                if j < t.len() {
                    assert(m2[k][j] == t[j]);
                }
            }
        }
    }
}

/// Reading a conversation right after recording a turn gives the earlier
/// turns followed by the new one, numbered next; every other conversation
/// reads as before.
pub proof fn law_read_after_record(
    m: Map<Seq<char>, Seq<STurn>>,
    id: Seq<char>,
    query: Seq<char>,
    answer: Seq<char>,
    other: Seq<char>,
)
    requires
        other != id,
    ensures
        turns_of(with_turn(m, id, query, answer), id) == turns_of(m, id).push(
            STurn { query, answer, turn_number: (turns_of(m, id).len() + 1) as usize },
        ),
        turns_of(with_turn(m, id, query, answer), other) == turns_of(m, other),
{
}

/// A forgotten conversation reads as empty; the others read as before.
pub proof fn law_clear_forgets(m: Map<Seq<char>, Seq<STurn>>, id: Seq<char>, other: Seq<char>)
    requires
        other != id,
    ensures
        turns_of(m.remove(id), id) == Seq::<STurn>::empty(),
        turns_of(m.remove(id), other) == turns_of(m, other),
{
}

/// A follow-up carries the whole exchange so far: after an answer is
/// recorded, the history sent next ends with that answer and its question.
pub proof fn law_follow_up_carries_last_turn(
    m: Map<Seq<char>, Seq<STurn>>,
    id: Seq<char>,
    question: Seq<char>,
    answer: Seq<char>,
)
    requires
        answer.len() > 0,
    ensures
        spec_history(turns_of(after_answer(m, id, question, answer), id)) == SJson::Array(
            history_entries(turns_of(m, id)) + seq![
                SJson::Array(seq![SJson::Str(answer), SJson::Null, SJson::Int(2)]),
                SJson::Array(seq![SJson::Str(question), SJson::Null, SJson::Int(1)]),
            ],
        ),
{
    let t = turns_of(m, id);
    let t2 = turns_of(after_answer(m, id, question, answer), id);
    assert(t2.drop_last() =~= t);
}

} // verus!
