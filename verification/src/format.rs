//! Interactive artifacts (quizzes and flashcards): reading their data out
//! of the artifact page, and writing them as Markdown.

use vstd::prelude::*;
use crate::auth::{regex_capture, spec_regex_capture};
use crate::error::{NotebookLmError, Result, SError};
use crate::json::{
    or_empty, ostr, obool, parse_json_text, sarr, sbool, skey, spec_json_parse, sstr, views,
    JsonValue, SJson,
};
use crate::rpc::json_result_view;
use crate::text::{
    append_all, chars_of, decimal_nat, decimal_u64, join, join_chars, push_str, replace,
    replace_chars, string_of,
};

verus! {

// ---- HTML entities ----

/// The five basic HTML entities decoded, in this order: `&quot;`, `&#39;`,
/// `&amp;`, `&lt;`, `&gt;`.
pub open spec fn spec_html_unescape(s: Seq<char>) -> Seq<char> {
    replace(
        replace(
            replace(replace(replace(s, "&quot;"@, "\""@), "&#39;"@, "'"@), "&amp;"@, "&"@),
            "&lt;"@,
            "<"@,
        ),
        "&gt;"@,
        ">"@,
    )
}

pub fn html_unescape_basic(input: &str) -> (r: String)
    ensures
        r@ == spec_html_unescape(input@),
{
    proof {
        reveal_strlit("&quot;");
        reveal_strlit("&#39;");
        reveal_strlit("&amp;");
        reveal_strlit("&lt;");
        reveal_strlit("&gt;");
    }
    let s0 = chars_of(input);
    let s1 = replace_chars(s0.as_slice(), chars_of("&quot;").as_slice(), chars_of("\"").as_slice());
    let s2 = replace_chars(s1.as_slice(), chars_of("&#39;").as_slice(), chars_of("'").as_slice());
    let s3 = replace_chars(s2.as_slice(), chars_of("&amp;").as_slice(), chars_of("&").as_slice());
    let s4 = replace_chars(s3.as_slice(), chars_of("&lt;").as_slice(), chars_of("<").as_slice());
    let s5 = replace_chars(s4.as_slice(), chars_of("&gt;").as_slice(), chars_of(">").as_slice());
    string_of(s5.as_slice())
}

/// The pattern of the data attribute of an interactive artifact page.
pub open spec fn app_data_pattern() -> Seq<char> {
    r#"data-app-data="([^"]+)""#@
}

/// The data of an interactive artifact page: the `data-app-data`
/// attribute, entity-decoded and read as JSON.
pub open spec fn spec_app_data(html: Seq<char>) -> core::result::Result<SJson, SError> {
    match spec_regex_capture(app_data_pattern(), html) {
        Err(e) => Err(SError::RpcDecode("regex compile failed: "@ + e)),
        Ok(None) => Err(SError::RpcDecode("data-app-data attribute not found"@)),
        Ok(Some(encoded)) => match spec_json_parse(spec_html_unescape(encoded)) {
            Ok(v) => Ok(v),
            Err(e) => Err(SError::Json(e)),
        },
    }
}

pub fn extract_app_data_from_html(html: &str) -> (r: Result<JsonValue>)
    ensures
        json_result_view(r) == spec_app_data(html@),
{
    let encoded = match regex_capture(r#"data-app-data="([^"]+)""#, html) {
        Err(e) => {
            let mut m = chars_of("regex compile failed: ");
            push_str(&mut m, e.as_str());
            return Err(NotebookLmError::RpcDecode(string_of(m.as_slice())));
        },
        Ok(None) => {
            return Err(
                NotebookLmError::RpcDecode(
                    string_of(chars_of("data-app-data attribute not found").as_slice()),
                ),
            );
        },
        Ok(Some(e)) => e,
    };
    let decoded = html_unescape_basic(encoded.as_str());
    match parse_json_text(decoded.as_str()) {
        Ok(v) => Ok(v),
        Err(e) => Err(NotebookLmError::Json(e)),
    }
}

// ---- Markdown ----

/// The text of a member, or the empty text.
pub open spec fn member_text(v: SJson, key: Seq<char>) -> Seq<char> {
    or_empty(sstr(skey(Some(v), key)))
}

/// The lines of one answer option: `- [x] text` for the correct one,
/// `- [ ] text` otherwise.
pub open spec fn option_line(opt: SJson) -> Seq<char> {
    let correct = match sbool(skey(Some(opt), "isCorrect"@)) {
        Some(b) => b,
        None => false,
    };
    "- "@ + (if correct {
        "[x]"@
    } else {
        "[ ]"@
    }) + " "@ + member_text(opt, "text"@)
}

pub open spec fn option_lines(opts: Seq<SJson>) -> Seq<Seq<char>>
    decreases opts.len(),
{
    if opts.len() == 0 {
        Seq::empty()
    } else {
        option_lines(opts.drop_last()).push(option_line(opts.last()))
    }
}

/// The lines of question number `n`: its heading and text, a blank line,
/// its answer options, its hint if it has one, and a blank line.
pub open spec fn question_lines(n: nat, q: SJson) -> Seq<Seq<char>> {
    seq!["## Question "@ + decimal_nat(n), member_text(q, "question"@), Seq::empty()] + (match sarr(
        skey(Some(q), "answerOptions"@),
    ) {
        Some(opts) => option_lines(opts),
        None => Seq::empty(),
    }) + (match sstr(skey(Some(q), "hint"@)) {
        Some(h) => seq![Seq::empty(), "**Hint:** "@ + h],
        None => Seq::empty(),
    }) + seq![Seq::<char>::empty()]
}

pub open spec fn quiz_lines(qs: Seq<SJson>) -> Seq<Seq<char>>
    decreases qs.len(),
{
    if qs.len() == 0 {
        Seq::empty()
    } else {
        quiz_lines(qs.drop_last()) + question_lines(qs.len(), qs.last())
    }
}

/// A quiz in Markdown: a title, then each question in order.
pub open spec fn spec_quiz_markdown(title: Seq<char>, qs: Seq<SJson>) -> Seq<char> {
    join(seq!["# "@ + title, Seq::empty()] + quiz_lines(qs), "\n"@)
}

fn push_line(lines: &mut Vec<Vec<char>>, l: Vec<char>)
    ensures
        final(lines)@.map_values(|p: Vec<char>| p@) == old(lines)@.map_values(|p: Vec<char>| p@).push(
            l@,
        ),
{
    let ghost before = lines@;
    let ghost lv = l@;
    lines.push(l);
    assert(lines@.map_values(|p: Vec<char>| p@) =~= before.map_values(|p: Vec<char>| p@).push(lv));
}

fn text_line(prefix: &str, text: &str) -> (r: Vec<char>)
    ensures
        r@ == prefix@ + text@,
{
    let mut v = chars_of(prefix);
    push_str(&mut v, text);
    v
}

fn member_text_exec(v: &JsonValue, key: &str) -> (r: Vec<char>)
    ensures
        r@ == member_text(v@, key@),
{
    match ostr(v.get_key(key)) {
        Some(t) => chars_of(t.as_str()),
        None => Vec::new(),
    }
}

fn numbered_heading(prefix: &str, n: usize) -> (r: Vec<char>)
    ensures
        r@ == prefix@ + decimal_nat(n as nat),
{
    let mut v = chars_of(prefix);
    let d = decimal_u64(n as u64);
    append_all(&mut v, d.as_slice());
    v
}

fn title_lines(title: &str) -> (r: Vec<Vec<char>>)
    ensures
        r@.map_values(|p: Vec<char>| p@) == seq!["# "@ + title@, Seq::<char>::empty()],
{
    let mut lines: Vec<Vec<char>> = Vec::new();
    assert(lines@.map_values(|p: Vec<char>| p@) =~= Seq::<Seq<char>>::empty());
    push_line(&mut lines, text_line("# ", title));
    push_line(&mut lines, Vec::new());
    assert(lines@.map_values(|p: Vec<char>| p@) =~= seq!["# "@ + title@, Seq::<char>::empty()]);
    lines
}

pub fn format_quiz_markdown(title: &str, questions: &[JsonValue]) -> (r: String)
    ensures
        r@ == spec_quiz_markdown(title@, views(questions@)),
{
    let ghost qs = views(questions@);
    let mut lines = title_lines(title);
    let ghost head = seq!["# "@ + title@, Seq::<char>::empty()];
    let mut i: usize = 0;
    assert(qs.take(0) =~= Seq::<SJson>::empty());
    assert(head + quiz_lines(Seq::empty()) =~= head);
    while i < questions.len()
        invariant
            i <= questions@.len() == qs.len(),
            qs == views(questions@),
            head == seq!["# "@ + title@, Seq::<char>::empty()],
            lines@.map_values(|p: Vec<char>| p@) == head + quiz_lines(qs.take(i as int)),
        decreases questions@.len() - i,
    {
        let q = &questions[i];
        assert(qs[i as int] == q@);
        assert(qs.take(i + 1).drop_last() =~= qs.take(i as int));
        assert(qs.take(i + 1).last() == q@);
        let ghost before = lines@.map_values(|p: Vec<char>| p@);
        push_line(&mut lines, numbered_heading("## Question ", i + 1));
        push_line(&mut lines, member_text_exec(q, "question"));
        push_line(&mut lines, Vec::new());
        let ghost mid = lines@.map_values(|p: Vec<char>| p@);
        assert(mid =~= before + seq![
            "## Question "@ + decimal_nat((i + 1) as nat),
            member_text(q@, "question"@),
            Seq::<char>::empty(),
        ]);
        let ghost opt_part: Seq<Seq<char>> = match sarr(skey(Some(q@), "answerOptions"@)) {
            Some(opts) => option_lines(opts),
            None => Seq::empty(),
        };
        match q.get_key("answerOptions") {
            Some(ov) => match ov.as_array() {
                Some(opts) => {
                    let ghost os = views(opts@);
                    let mut k: usize = 0;
                    assert(os.take(0) =~= Seq::<SJson>::empty());
                    assert(mid + option_lines(Seq::empty()) =~= mid);
                    while k < opts.len()
                        invariant
                            k <= opts@.len() == os.len(),
                            os == views(opts@),
                            lines@.map_values(|p: Vec<char>| p@) == mid + option_lines(
                                os.take(k as int),
                            ),
                        decreases opts@.len() - k,
                    {
                        let o = &opts[k];
                        assert(os[k as int] == o@);
                        assert(os.take(k + 1).drop_last() =~= os.take(k as int));
                        let correct = match obool(o.get_key("isCorrect")) {
                            Some(b) => b,
                            None => false,
                        };
                        let mut l = chars_of("- ");
                        if correct {
                            push_str(&mut l, "[x]");
                        } else {
                            push_str(&mut l, "[ ]");
                        }
                        push_str(&mut l, " ");
                        let t = member_text_exec(o, "text");
                        append_all(&mut l, t.as_slice());
                        assert(l@ == option_line(o@));
                        push_line(&mut lines, l);
                        k = k + 1;
                        assert(lines@.map_values(|p: Vec<char>| p@) =~= mid + option_lines(
                            os.take(k as int),
                        ));
                    }
                    assert(os.take(opts@.len() as int) =~= os);
                },
                None => {
                    assert(lines@.map_values(|p: Vec<char>| p@) =~= mid + opt_part);
                },
            },
            None => {
                assert(lines@.map_values(|p: Vec<char>| p@) =~= mid + opt_part);
            },
        }
        let ghost mid2 = lines@.map_values(|p: Vec<char>| p@);
        assert(mid2 == mid + opt_part);
        match ostr(q.get_key("hint")) {
            Some(h) => {
                push_line(&mut lines, Vec::new());
                push_line(&mut lines, text_line("**Hint:** ", h.as_str()));
            },
            None => {},
        }
        push_line(&mut lines, Vec::new());
        i = i + 1;
        assert(lines@.map_values(|p: Vec<char>| p@) =~= head + quiz_lines(qs.take(i as int)));
    }
    assert(qs.take(questions@.len() as int) =~= qs);
    let joined = join_chars(&lines, chars_of("\n").as_slice());
    string_of(joined.as_slice())
}

/// The lines of card number `n`: heading, front, back and a rule, each
/// followed by a blank line.
pub open spec fn card_lines(n: nat, card: SJson) -> Seq<Seq<char>> {
    seq![
        "## Card "@ + decimal_nat(n),
        Seq::empty(),
        "**Q:** "@ + member_text(card, "f"@),
        Seq::empty(),
        "**A:** "@ + member_text(card, "b"@),
        Seq::empty(),
        "---"@,
        Seq::empty(),
    ]
}

pub open spec fn cards_lines(cards: Seq<SJson>) -> Seq<Seq<char>>
    decreases cards.len(),
{
    if cards.len() == 0 {
        Seq::empty()
    } else {
        cards_lines(cards.drop_last()) + card_lines(cards.len(), cards.last())
    }
}

/// A flashcard deck in Markdown: a title, then each card in order.
pub open spec fn spec_flashcards_markdown(title: Seq<char>, cards: Seq<SJson>) -> Seq<char> {
    join(seq!["# "@ + title, Seq::empty()] + cards_lines(cards), "\n"@)
}

pub fn format_flashcards_markdown(title: &str, cards: &[JsonValue]) -> (r: String)
    ensures
        r@ == spec_flashcards_markdown(title@, views(cards@)),
{
    let ghost cs = views(cards@);
    let mut lines = title_lines(title);
    let ghost head = seq!["# "@ + title@, Seq::<char>::empty()];
    let mut i: usize = 0;
    assert(cs.take(0) =~= Seq::<SJson>::empty());
    assert(head + cards_lines(Seq::empty()) =~= head);
    while i < cards.len()
        invariant
            i <= cards@.len() == cs.len(),
            cs == views(cards@),
            head == seq!["# "@ + title@, Seq::<char>::empty()],
            lines@.map_values(|p: Vec<char>| p@) == head + cards_lines(cs.take(i as int)),
        decreases cards@.len() - i,
    {
        let c = &cards[i];
        assert(cs[i as int] == c@);
        assert(cs.take(i + 1).drop_last() =~= cs.take(i as int));
        assert(cs.take(i + 1).last() == c@);
        let mut q = chars_of("**Q:** ");
        let f = member_text_exec(c, "f");
        append_all(&mut q, f.as_slice());
        let mut a = chars_of("**A:** ");
        let b = member_text_exec(c, "b");
        append_all(&mut a, b.as_slice());
        push_line(&mut lines, numbered_heading("## Card ", i + 1));
        push_line(&mut lines, Vec::new());
        push_line(&mut lines, q);
        push_line(&mut lines, Vec::new());
        push_line(&mut lines, a);
        push_line(&mut lines, Vec::new());
        push_line(&mut lines, chars_of("---"));
        push_line(&mut lines, Vec::new());
        i = i + 1;
        assert(lines@.map_values(|p: Vec<char>| p@) =~= head + cards_lines(cs.take(i as int)));
    }
    assert(cs.take(cards@.len() as int) =~= cs);
    let joined = join_chars(&lines, chars_of("\n").as_slice());
    string_of(joined.as_slice())
}

} // verus!
