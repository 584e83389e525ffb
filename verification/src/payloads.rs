//! The parameter documents of the NotebookLM RPC calls.

use vstd::prelude::*;
use crate::json::{
    arr, arr1, arr2, arr3, arr4, arr5, arr6, arr7, arr8, jstr, opt_str_ref_view, opt_string_view,
    sget, si64, views, JsonValue,
    SJson,
};
use crate::types::{
    strings_view, AudioFormat, AudioLength, VideoFormat, VideoStyle, QuizQuantity, QuizDifficulty,
    InfographicOrientation, InfographicDetail, SlideDeckFormat, SlideDeckLength,
    AudioGenerationOptions, VideoGenerationOptions, ReportGenerationOptions, ReportFormat,
    QuizGenerationOptions, FlashcardsGenerationOptions, InfographicGenerationOptions,
    SlideDeckGenerationOptions, DataTableGenerationOptions, ArtifactKind, spec_kind,
};
use crate::text::string_from;

verus! {

/// Text or `null`.
pub open spec fn opt_text(o: Option<Seq<char>>) -> SJson {
    match o {
        Some(s) => SJson::Str(s),
        None => SJson::Null,
    }
}

/// Integer or `null`.
pub open spec fn opt_int(o: Option<i64>) -> SJson {
    match o {
        Some(i) => SJson::Int(i),
        None => SJson::Null,
    }
}

pub fn opt_text_json(o: &Option<String>) -> (r: JsonValue)
    ensures
        r@ == opt_text(opt_string_view(*o)),
{
    match o {
        Some(s) => JsonValue::Str(s.clone()),
        None => JsonValue::Null,
    }
}

pub fn opt_int_json(o: Option<i64>) -> (r: JsonValue)
    ensures
        r@ == opt_int(o),
{
    match o {
        Some(i) => JsonValue::Int(i),
        None => JsonValue::Null,
    }
}

/// `[[id]]` for each source id.
pub open spec fn sids_triple(ids: Seq<Seq<char>>) -> Seq<SJson> {
    Seq::new(ids.len(), |i: int| SJson::Array(seq![SJson::Array(seq![SJson::Str(ids[i])])]))
}

/// `[id]` for each source id.
pub open spec fn sids_double(ids: Seq<Seq<char>>) -> Seq<SJson> {
    Seq::new(ids.len(), |i: int| SJson::Array(seq![SJson::Str(ids[i])]))
}

pub fn source_ids_triple(source_ids: &[String]) -> (r: Vec<JsonValue>)
    ensures
        views(r@) == sids_triple(strings_view(source_ids@)),
{
    let mut out: Vec<JsonValue> = Vec::new();
    let mut i: usize = 0;
    while i < source_ids.len()
        invariant
            i <= source_ids@.len(),
            out@.len() == i,
            forall|k: int| 0 <= k < i ==> #[trigger] out@[k]@ == sids_triple(strings_view(source_ids@))[k],
        decreases source_ids@.len() - i,
    {
        let e = arr1(arr1(JsonValue::Str(source_ids[i].clone())));
        out.push(e);
        i = i + 1;
    }
    assert(views(out@) =~= sids_triple(strings_view(source_ids@)));
    out
}

pub fn source_ids_double(source_ids: &[String]) -> (r: Vec<JsonValue>)
    ensures
        views(r@) == sids_double(strings_view(source_ids@)),
{
    let mut out: Vec<JsonValue> = Vec::new();
    let mut i: usize = 0;
    while i < source_ids.len()
        invariant
            i <= source_ids@.len(),
            out@.len() == i,
            forall|k: int| 0 <= k < i ==> #[trigger] out@[k]@ == sids_double(strings_view(source_ids@))[k],
        decreases source_ids@.len() - i,
    {
        let e = arr1(JsonValue::Str(source_ids[i].clone()));
        out.push(e);
        i = i + 1;
    }
    assert(views(out@) =~= sids_double(strings_view(source_ids@)));
    out
}

/// `[2]`, the client marker that every generation call carries.
pub open spec fn two() -> SJson {
    SJson::Array(seq![SJson::Int(2)])
}

pub open spec fn code_of_audio_format(o: Option<AudioFormat>) -> Option<i64> {
    match o {
        Some(f) => Some(f.spec_code()),
        None => None,
    }
}

pub open spec fn code_of_audio_length(o: Option<AudioLength>) -> Option<i64> {
    match o {
        Some(f) => Some(f.spec_code()),
        None => None,
    }
}

/// The parameters that create an audio overview (type 1).
pub open spec fn spec_audio_params(nb: Seq<char>, ids: Seq<Seq<char>>, o: AudioGenerationOptions) -> SJson {
    SJson::Array(
        seq![
            two(),
            SJson::Str(nb),
            SJson::Array(
                seq![
                    SJson::Null,
                    SJson::Null,
                    SJson::Int(1),
                    SJson::Array(sids_triple(ids)),
                    SJson::Null,
                    SJson::Null,
                    SJson::Array(
                        seq![
                            SJson::Null,
                            SJson::Array(
                                seq![
                                    opt_text(opt_string_view(o.instructions)),
                                    opt_int(code_of_audio_length(o.length)),
                                    SJson::Null,
                                    SJson::Array(sids_double(ids)),
                                    SJson::Str(o.language@),
                                    SJson::Null,
                                    opt_int(code_of_audio_format(o.format)),
                                ],
                            ),
                        ],
                    ),
                ],
            ),
        ],
    )
}

pub fn build_generate_audio_params(
    notebook_id: &str,
    source_ids: &[String],
    options: &AudioGenerationOptions,
) -> (r: JsonValue)
    ensures
        r@ == spec_audio_params(notebook_id@, strings_view(source_ids@), *options),
{
    let triple = arr(source_ids_triple(source_ids));
    let double = arr(source_ids_double(source_ids));
    let length_code = match options.length {
        Some(l) => Some(l.code()),
        None => None,
    };
    let format_code = match options.format {
        Some(f) => Some(f.code()),
        None => None,
    };
    let config = arr7(
        opt_text_json(&options.instructions),
        opt_int_json(length_code),
        JsonValue::Null,
        double,
        JsonValue::Str(options.language.clone()),
        JsonValue::Null,
        opt_int_json(format_code),
    );
    let body = arr7(
        JsonValue::Null,
        JsonValue::Null,
        JsonValue::Int(1),
        triple,
        JsonValue::Null,
        JsonValue::Null,
        arr2(JsonValue::Null, config),
    );
    arr3(arr1(JsonValue::Int(2)), jstr(notebook_id), body)
}


pub open spec fn video_format_code(o: Option<VideoFormat>) -> Option<i64> {
    match o {
        Some(f) => Some(f.spec_code()),
        None => None,
    }
}

pub open spec fn video_style_code(o: Option<VideoStyle>) -> Option<i64> {
    match o {
        Some(f) => Some(f.spec_code()),
        None => None,
    }
}

pub open spec fn orientation_code(o: Option<InfographicOrientation>) -> Option<i64> {
    match o {
        Some(f) => Some(f.spec_code()),
        None => None,
    }
}

pub open spec fn detail_code(o: Option<InfographicDetail>) -> Option<i64> {
    match o {
        Some(f) => Some(f.spec_code()),
        None => None,
    }
}

pub open spec fn slide_format_code(o: Option<SlideDeckFormat>) -> Option<i64> {
    match o {
        Some(f) => Some(f.spec_code()),
        None => None,
    }
}

pub open spec fn slide_length_code(o: Option<SlideDeckLength>) -> Option<i64> {
    match o {
        Some(f) => Some(f.spec_code()),
        None => None,
    }
}

/// `count` nulls.
pub open spec fn nulls(count: nat) -> Seq<SJson> {
    Seq::new(count, |i: int| SJson::Null)
}

/// The body of a generation request: `[null, null, type, sources]`, then
/// `gap` nulls, then the type's configuration.
pub open spec fn spec_generation_body(type_code: i64, triple: SJson, gap: nat, config: SJson) -> SJson {
    SJson::Array(
        seq![SJson::Null, SJson::Null, SJson::Int(type_code), triple] + nulls(gap) + seq![config],
    )
}

pub fn generation_body(type_code: i64, triple: JsonValue, gap: usize, config: JsonValue) -> (r: JsonValue)
    ensures
        r@ == spec_generation_body(type_code, triple@, gap as nat, config@),
{
    let ghost tv = triple@;
    let ghost cv = config@;
    let mut v: Vec<JsonValue> = Vec::new();
    v.push(JsonValue::Null);
    v.push(JsonValue::Null);
    v.push(JsonValue::Int(type_code));
    v.push(triple);
    let ghost head = views(v@);
    assert(head =~= seq![SJson::Null, SJson::Null, SJson::Int(type_code), tv]);
    let mut k: usize = 0;
    while k < gap
        invariant
            k <= gap,
            views(v@) == head + nulls(k as nat),
        decreases gap - k,
    {
        let ghost before = v@;
        v.push(JsonValue::Null);
        assert(views(v@) =~= views(before).push(SJson::Null));
        k = k + 1;
        assert(views(v@) =~= head + nulls(k as nat));
    }
    v.push(config);
    assert(views(v@) =~= head + nulls(gap as nat) + seq![cv]);
    arr(v)
}

/// The generation request for a notebook: `[[2], notebook, body]`.
pub open spec fn spec_generation_request(nb: Seq<char>, body: SJson) -> SJson {
    SJson::Array(seq![two(), SJson::Str(nb), body])
}

pub open spec fn spec_video_params(nb: Seq<char>, ids: Seq<Seq<char>>, o: VideoGenerationOptions) -> SJson {
    spec_generation_request(
        nb,
        spec_generation_body(
            3,
            SJson::Array(sids_triple(ids)),
            4,
            SJson::Array(
                seq![
                    SJson::Null,
                    SJson::Null,
                    SJson::Array(
                        seq![
                            SJson::Array(sids_double(ids)),
                            SJson::Str(o.language@),
                            opt_text(opt_string_view(o.instructions)),
                            SJson::Null,
                            opt_int(video_format_code(o.format)),
                            opt_int(video_style_code(o.style)),
                        ],
                    ),
                ],
            ),
        ),
    )
}

/// The parameters that create a video overview (type 3).
pub fn build_generate_video_params(
    notebook_id: &str,
    source_ids: &[String],
    options: &VideoGenerationOptions,
) -> (r: JsonValue)
    ensures
        r@ == spec_video_params(notebook_id@, strings_view(source_ids@), *options),
{
    let triple = arr(source_ids_triple(source_ids));
    let double = arr(source_ids_double(source_ids));
    let format_code = match options.format {
        Some(f) => Some(f.code()),
        None => None,
    };
    let style_code = match options.style {
        Some(f) => Some(f.code()),
        None => None,
    };
    let config = arr3(
        JsonValue::Null,
        JsonValue::Null,
        arr6(
            double,
            JsonValue::Str(options.language.clone()),
            opt_text_json(&options.instructions),
            JsonValue::Null,
            opt_int_json(format_code),
            opt_int_json(style_code),
        ),
    );
    let body = generation_body(3, triple, 4, config);
    arr3(arr1(JsonValue::Int(2)), jstr(notebook_id), body)
}

/// The title, description and prompt of a report format; a custom report
/// takes its prompt from the caller, or a default one.
pub open spec fn spec_report_config(format: ReportFormat, custom_prompt: Option<Seq<char>>) -> (Seq<char>, Seq<char>, Seq<char>) {
    match format {
        ReportFormat::BriefingDoc => (
            "Briefing Doc"@,
            "Key insights and important quotes"@,
            "Create a comprehensive briefing document that includes an Executive Summary, detailed analysis of key themes, important quotes with context, and actionable insights."@,
        ),
        ReportFormat::StudyGuide => (
            "Study Guide"@,
            "Short-answer quiz, essay questions, glossary"@,
            "Create a comprehensive study guide that includes key concepts, short-answer practice questions, essay prompts for deeper exploration, and a glossary of important terms."@,
        ),
        ReportFormat::BlogPost => (
            "Blog Post"@,
            "Insightful takeaways in readable article format"@,
            "Write an engaging blog post that presents the key insights in an accessible, reader-friendly format. Include an attention-grabbing introduction, well-organized sections, and a compelling conclusion with takeaways."@,
        ),
        ReportFormat::Custom => (
            "Custom Report"@,
            "Custom format"@,
            match custom_prompt {
                Some(p) => p,
                None => "Create a report based on the provided sources."@,
            },
        ),
    }
}

pub fn report_config(format: ReportFormat, custom_prompt: Option<&str>) -> (r: (&'static str, &'static str, String))
    ensures
        (r.0@, r.1@, r.2@) == spec_report_config(format, opt_str_ref_view(custom_prompt)),
{
    match format {
        ReportFormat::BriefingDoc => (
            "Briefing Doc",
            "Key insights and important quotes",
            string_from("Create a comprehensive briefing document that includes an Executive Summary, detailed analysis of key themes, important quotes with context, and actionable insights."),
        ),
        ReportFormat::StudyGuide => (
            "Study Guide",
            "Short-answer quiz, essay questions, glossary",
            string_from("Create a comprehensive study guide that includes key concepts, short-answer practice questions, essay prompts for deeper exploration, and a glossary of important terms."),
        ),
        ReportFormat::BlogPost => (
            "Blog Post",
            "Insightful takeaways in readable article format",
            string_from("Write an engaging blog post that presents the key insights in an accessible, reader-friendly format. Include an attention-grabbing introduction, well-organized sections, and a compelling conclusion with takeaways."),
        ),
        ReportFormat::Custom => (
            "Custom Report",
            "Custom format",
            match custom_prompt {
                Some(p) => string_from(p),
                None => string_from("Create a report based on the provided sources."),
            },
        ),
    }
}

pub open spec fn spec_report_params(nb: Seq<char>, ids: Seq<Seq<char>>, o: ReportGenerationOptions) -> SJson {
    let c = spec_report_config(o.format, opt_string_view(o.custom_prompt));
    spec_generation_request(
        nb,
        spec_generation_body(
            2,
            SJson::Array(sids_triple(ids)),
            3,
            SJson::Array(
                seq![
                    SJson::Null,
                    SJson::Array(
                        seq![
                            SJson::Str(c.0),
                            SJson::Str(c.1),
                            SJson::Null,
                            SJson::Array(sids_double(ids)),
                            SJson::Str(o.language@),
                            SJson::Str(c.2),
                            SJson::Null,
                            SJson::Bool(true),
                        ],
                    ),
                ],
            ),
        ),
    )
}

/// The parameters that create a report (type 2).
pub fn build_generate_report_params(
    notebook_id: &str,
    source_ids: &[String],
    options: &ReportGenerationOptions,
) -> (r: JsonValue)
    ensures
        r@ == spec_report_params(notebook_id@, strings_view(source_ids@), *options),
{
    let triple = arr(source_ids_triple(source_ids));
    let double = arr(source_ids_double(source_ids));
    let prompt_arg: Option<&str> = match &options.custom_prompt {
        Some(p) => Some(p.as_str()),
        None => None,
    };
    let (title, description, prompt) = report_config(options.format, prompt_arg);
    let config = arr2(
        JsonValue::Null,
        arr8(
            jstr(title),
            jstr(description),
            JsonValue::Null,
            double,
            JsonValue::Str(options.language.clone()),
            JsonValue::Str(prompt),
            JsonValue::Null,
            JsonValue::Bool(true),
        ),
    );
    let body = generation_body(2, triple, 3, config);
    arr3(arr1(JsonValue::Int(2)), jstr(notebook_id), body)
}

pub open spec fn quantity_code(o: Option<QuizQuantity>) -> Option<i64> {
    match o {
        Some(q) => Some(q.spec_code()),
        None => None,
    }
}

pub open spec fn difficulty_code(o: Option<QuizDifficulty>) -> Option<i64> {
    match o {
        Some(q) => Some(q.spec_code()),
        None => None,
    }
}

pub open spec fn spec_quiz_params(nb: Seq<char>, ids: Seq<Seq<char>>, o: QuizGenerationOptions) -> SJson {
    spec_generation_request(
        nb,
        spec_generation_body(
            4,
            SJson::Array(sids_triple(ids)),
            5,
            SJson::Array(
                seq![
                    SJson::Null,
                    SJson::Array(
                        seq![
                            SJson::Int(2),
                            SJson::Null,
                            opt_text(opt_string_view(o.instructions)),
                            SJson::Null,
                            SJson::Null,
                            SJson::Null,
                            SJson::Null,
                            SJson::Array(
                                seq![opt_int(quantity_code(o.quantity)), opt_int(difficulty_code(o.difficulty))],
                            ),
                        ],
                    ),
                ],
            ),
        ),
    )
}

/// The parameters that create a quiz (type 4, variant 2).
pub fn build_generate_quiz_params(
    notebook_id: &str,
    source_ids: &[String],
    options: &QuizGenerationOptions,
) -> (r: JsonValue)
    ensures
        r@ == spec_quiz_params(notebook_id@, strings_view(source_ids@), *options),
{
    let triple = arr(source_ids_triple(source_ids));
    let q = match options.quantity {
        Some(x) => Some(x.code()),
        None => None,
    };
    let d = match options.difficulty {
        Some(x) => Some(x.code()),
        None => None,
    };
    let config = arr2(
        JsonValue::Null,
        arr8(
            JsonValue::Int(2),
            JsonValue::Null,
            opt_text_json(&options.instructions),
            JsonValue::Null,
            JsonValue::Null,
            JsonValue::Null,
            JsonValue::Null,
            arr2(opt_int_json(q), opt_int_json(d)),
        ),
    );
    let body = generation_body(4, triple, 5, config);
    arr3(arr1(JsonValue::Int(2)), jstr(notebook_id), body)
}

pub open spec fn spec_flashcards_params(nb: Seq<char>, ids: Seq<Seq<char>>, o: FlashcardsGenerationOptions) -> SJson {
    spec_generation_request(
        nb,
        spec_generation_body(
            4,
            SJson::Array(sids_triple(ids)),
            5,
            SJson::Array(
                seq![
                    SJson::Null,
                    SJson::Array(
                        seq![
                            SJson::Int(1),
                            SJson::Null,
                            opt_text(opt_string_view(o.instructions)),
                            SJson::Null,
                            SJson::Null,
                            SJson::Null,
                            SJson::Array(
                                seq![opt_int(difficulty_code(o.difficulty)), opt_int(quantity_code(o.quantity))],
                            ),
                        ],
                    ),
                ],
            ),
        ),
    )
}

/// The count of questions as sent: fewer is 1, standard and more are 2,
/// none is `null`.
pub open spec fn sent_quantity(o: Option<QuizQuantity>) -> SJson {
    match o {
        Some(QuizQuantity::Fewer) => SJson::Int(1),
        Some(QuizQuantity::Standard) => SJson::Int(2),
        Some(QuizQuantity::More) => SJson::Int(2),
        None => SJson::Null,
    }
}

/// The difficulty as sent: easy 1, medium 2, hard 3, none `null`.
pub open spec fn sent_difficulty(o: Option<QuizDifficulty>) -> SJson {
    match o {
        Some(QuizDifficulty::Easy) => SJson::Int(1),
        Some(QuizDifficulty::Medium) => SJson::Int(2),
        Some(QuizDifficulty::Hard) => SJson::Int(3),
        None => SJson::Null,
    }
}

/// A quiz request carries, at `[2][9][1][7]`, the number of questions
/// first and the difficulty second; a flashcards request carries, at
/// `[2][9][1][6]`, the difficulty first and the number of cards second.
/// Both ask for type 4 at `[2][2]`, a quiz as variant 2 and flashcards as
/// variant 1 at `[2][9][1][0]`.
pub proof fn law_quiz_and_flashcard_options_sent(
    nb: Seq<char>,
    ids: Seq<Seq<char>>,
    quiz: QuizGenerationOptions,
    cards: FlashcardsGenerationOptions,
)
    ensures
        sget(sget(sget(sget(Some(spec_quiz_params(nb, ids, quiz)), 2), 9), 1), 7) == Some(
            SJson::Array(seq![sent_quantity(quiz.quantity), sent_difficulty(quiz.difficulty)]),
        ),
        sget(sget(sget(sget(Some(spec_flashcards_params(nb, ids, cards)), 2), 9), 1), 6) == Some(
            SJson::Array(seq![sent_difficulty(cards.difficulty), sent_quantity(cards.quantity)]),
        ),
        sget(sget(Some(spec_quiz_params(nb, ids, quiz)), 2), 2) == Some(SJson::Int(4)),
        sget(sget(Some(spec_flashcards_params(nb, ids, cards)), 2), 2) == Some(SJson::Int(4)),
        sget(sget(sget(sget(Some(spec_quiz_params(nb, ids, quiz)), 2), 9), 1), 0) == Some(SJson::Int(2)),
        sget(sget(sget(sget(Some(spec_flashcards_params(nb, ids, cards)), 2), 9), 1), 0) == Some(
            SJson::Int(1),
        ),
{
}

/// The parameters that create flashcards (type 4, variant 1); the pair is
/// difficulty then quantity, the reverse of a quiz's.
pub fn build_generate_flashcards_params(
    notebook_id: &str,
    source_ids: &[String],
    options: &FlashcardsGenerationOptions,
) -> (r: JsonValue)
    ensures
        r@ == spec_flashcards_params(notebook_id@, strings_view(source_ids@), *options),
{
    let triple = arr(source_ids_triple(source_ids));
    let q = match options.quantity {
        Some(x) => Some(x.code()),
        None => None,
    };
    let d = match options.difficulty {
        Some(x) => Some(x.code()),
        None => None,
    };
    let config = arr2(
        JsonValue::Null,
        arr7(
            JsonValue::Int(1),
            JsonValue::Null,
            opt_text_json(&options.instructions),
            JsonValue::Null,
            JsonValue::Null,
            JsonValue::Null,
            arr2(opt_int_json(d), opt_int_json(q)),
        ),
    );
    let body = generation_body(4, triple, 5, config);
    arr3(arr1(JsonValue::Int(2)), jstr(notebook_id), body)
}

pub open spec fn spec_infographic_params(nb: Seq<char>, ids: Seq<Seq<char>>, o: InfographicGenerationOptions) -> SJson {
    spec_generation_request(
        nb,
        spec_generation_body(
            7,
            SJson::Array(sids_triple(ids)),
            10,
            SJson::Array(
                seq![
                    SJson::Array(
                        seq![
                            opt_text(opt_string_view(o.instructions)),
                            SJson::Str(o.language@),
                            SJson::Null,
                            opt_int(orientation_code(o.orientation)),
                            opt_int(detail_code(o.detail_level)),
                        ],
                    ),
                ],
            ),
        ),
    )
}

/// The parameters that create an infographic (type 7).
pub fn build_generate_infographic_params(
    notebook_id: &str,
    source_ids: &[String],
    options: &InfographicGenerationOptions,
) -> (r: JsonValue)
    ensures
        r@ == spec_infographic_params(notebook_id@, strings_view(source_ids@), *options),
{
    let triple = arr(source_ids_triple(source_ids));
    let o = match options.orientation {
        Some(x) => Some(x.code()),
        None => None,
    };
    let d = match options.detail_level {
        Some(x) => Some(x.code()),
        None => None,
    };
    let config = arr1(
        arr5(
            opt_text_json(&options.instructions),
            JsonValue::Str(options.language.clone()),
            JsonValue::Null,
            opt_int_json(o),
            opt_int_json(d),
        ),
    );
    let body = generation_body(7, triple, 10, config);
    arr3(arr1(JsonValue::Int(2)), jstr(notebook_id), body)
}

pub open spec fn spec_slide_deck_params(nb: Seq<char>, ids: Seq<Seq<char>>, o: SlideDeckGenerationOptions) -> SJson {
    spec_generation_request(
        nb,
        spec_generation_body(
            8,
            SJson::Array(sids_triple(ids)),
            12,
            SJson::Array(
                seq![
                    SJson::Array(
                        seq![
                            opt_text(opt_string_view(o.instructions)),
                            SJson::Str(o.language@),
                            opt_int(slide_format_code(o.format)),
                            opt_int(slide_length_code(o.length)),
                        ],
                    ),
                ],
            ),
        ),
    )
}

/// The parameters that create a slide deck (type 8).
pub fn build_generate_slide_deck_params(
    notebook_id: &str,
    source_ids: &[String],
    options: &SlideDeckGenerationOptions,
) -> (r: JsonValue)
    ensures
        r@ == spec_slide_deck_params(notebook_id@, strings_view(source_ids@), *options),
{
    let triple = arr(source_ids_triple(source_ids));
    let f = match options.format {
        Some(x) => Some(x.code()),
        None => None,
    };
    let l = match options.length {
        Some(x) => Some(x.code()),
        None => None,
    };
    let config = arr1(
        arr4(
            opt_text_json(&options.instructions),
            JsonValue::Str(options.language.clone()),
            opt_int_json(f),
            opt_int_json(l),
        ),
    );
    let body = generation_body(8, triple, 12, config);
    arr3(arr1(JsonValue::Int(2)), jstr(notebook_id), body)
}

pub open spec fn spec_data_table_params(nb: Seq<char>, ids: Seq<Seq<char>>, o: DataTableGenerationOptions) -> SJson {
    spec_generation_request(
        nb,
        spec_generation_body(
            9,
            SJson::Array(sids_triple(ids)),
            14,
            SJson::Array(
                seq![
                    SJson::Null,
                    SJson::Array(seq![opt_text(opt_string_view(o.instructions)), SJson::Str(o.language@)]),
                ],
            ),
        ),
    )
}

/// The parameters that create a data table (type 9).
pub fn build_generate_data_table_params(
    notebook_id: &str,
    source_ids: &[String],
    options: &DataTableGenerationOptions,
) -> (r: JsonValue)
    ensures
        r@ == spec_data_table_params(notebook_id@, strings_view(source_ids@), *options),
{
    let triple = arr(source_ids_triple(source_ids));
    let config = arr2(
        JsonValue::Null,
        arr2(opt_text_json(&options.instructions), JsonValue::Str(options.language.clone())),
    );
    let body = generation_body(9, triple, 14, config);
    arr3(arr1(JsonValue::Int(2)), jstr(notebook_id), body)
}

// ---- What each generation request asks for ----

/// An audio format as sent: deep dive 1, brief 2, critique 3, debate 4.
pub open spec fn sent_audio_format(o: Option<AudioFormat>) -> SJson {
    match o {
        Some(AudioFormat::DeepDive) => SJson::Int(1),
        Some(AudioFormat::Brief) => SJson::Int(2),
        Some(AudioFormat::Critique) => SJson::Int(3),
        Some(AudioFormat::Debate) => SJson::Int(4),
        None => SJson::Null,
    }
}

/// An audio length as sent: short 1, default 2, long 3.
pub open spec fn sent_audio_length(o: Option<AudioLength>) -> SJson {
    match o {
        Some(AudioLength::Short) => SJson::Int(1),
        Some(AudioLength::Default) => SJson::Int(2),
        Some(AudioLength::Long) => SJson::Int(3),
        None => SJson::Null,
    }
}

/// A video format as sent: explainer 1, brief 2.
pub open spec fn sent_video_format(o: Option<VideoFormat>) -> SJson {
    match o {
        Some(VideoFormat::Explainer) => SJson::Int(1),
        Some(VideoFormat::Brief) => SJson::Int(2),
        None => SJson::Null,
    }
}

/// A video style as sent: auto 1, custom 2, classic 3, whiteboard 4,
/// kawaii 5, anime 6, watercolor 7, retro print 8, heritage 9, paper
/// craft 10.
pub open spec fn sent_video_style(o: Option<VideoStyle>) -> SJson {
    match o {
        Some(VideoStyle::AutoSelect) => SJson::Int(1),
        Some(VideoStyle::Custom) => SJson::Int(2),
        Some(VideoStyle::Classic) => SJson::Int(3),
        Some(VideoStyle::Whiteboard) => SJson::Int(4),
        Some(VideoStyle::Kawaii) => SJson::Int(5),
        Some(VideoStyle::Anime) => SJson::Int(6),
        Some(VideoStyle::Watercolor) => SJson::Int(7),
        Some(VideoStyle::RetroPrint) => SJson::Int(8),
        Some(VideoStyle::Heritage) => SJson::Int(9),
        Some(VideoStyle::PaperCraft) => SJson::Int(10),
        None => SJson::Null,
    }
}

/// An infographic orientation as sent: landscape 1, portrait 2, square 3.
pub open spec fn sent_orientation(o: Option<InfographicOrientation>) -> SJson {
    match o {
        Some(InfographicOrientation::Landscape) => SJson::Int(1),
        Some(InfographicOrientation::Portrait) => SJson::Int(2),
        Some(InfographicOrientation::Square) => SJson::Int(3),
        None => SJson::Null,
    }
}

/// An infographic detail level as sent: concise 1, standard 2, detailed 3.
pub open spec fn sent_detail(o: Option<InfographicDetail>) -> SJson {
    match o {
        Some(InfographicDetail::Concise) => SJson::Int(1),
        Some(InfographicDetail::Standard) => SJson::Int(2),
        Some(InfographicDetail::Detailed) => SJson::Int(3),
        None => SJson::Null,
    }
}

/// A slide deck format as sent: detailed deck 1, presenter slides 2.
pub open spec fn sent_slide_format(o: Option<SlideDeckFormat>) -> SJson {
    match o {
        Some(SlideDeckFormat::DetailedDeck) => SJson::Int(1),
        Some(SlideDeckFormat::PresenterSlides) => SJson::Int(2),
        None => SJson::Null,
    }
}

/// A slide deck length as sent: default 1, short 2.
pub open spec fn sent_slide_length(o: Option<SlideDeckLength>) -> SJson {
    match o {
        Some(SlideDeckLength::Default) => SJson::Int(1),
        Some(SlideDeckLength::Short) => SJson::Int(2),
        None => SJson::Null,
    }
}

/// The member at `[i][j][k][l]` of a document.
pub open spec fn at(v: SJson, i: int, j: int, k: int, l: int) -> Option<SJson> {
    sget(sget(sget(sget(Some(v), i), j), k), l)
}

/// An audio request asks for type 1 for the notebook, and carries the
/// instructions, the length, the language and the format where the
/// service reads them.
pub proof fn law_audio_options_sent(nb: Seq<char>, ids: Seq<Seq<char>>, o: AudioGenerationOptions)
    ensures
        sget(Some(spec_audio_params(nb, ids, o)), 1) == Some(SJson::Str(nb)),
        sget(sget(Some(spec_audio_params(nb, ids, o)), 2), 2) == Some(SJson::Int(1)),
        at(spec_audio_params(nb, ids, o), 2, 6, 1, 0) == Some(opt_text(opt_string_view(o.instructions))),
        at(spec_audio_params(nb, ids, o), 2, 6, 1, 1) == Some(sent_audio_length(o.length)),
        at(spec_audio_params(nb, ids, o), 2, 6, 1, 4) == Some(SJson::Str(o.language@)),
        at(spec_audio_params(nb, ids, o), 2, 6, 1, 6) == Some(sent_audio_format(o.format)),
{
}

/// A video request asks for type 3, with the format at `[2][8][2][4]` and
/// the style at `[2][8][2][5]`.
pub proof fn law_video_options_sent(nb: Seq<char>, ids: Seq<Seq<char>>, o: VideoGenerationOptions)
    ensures
        sget(sget(Some(spec_video_params(nb, ids, o)), 2), 2) == Some(SJson::Int(3)),
        at(spec_video_params(nb, ids, o), 2, 8, 2, 1) == Some(SJson::Str(o.language@)),
        at(spec_video_params(nb, ids, o), 2, 8, 2, 4) == Some(sent_video_format(o.format)),
        at(spec_video_params(nb, ids, o), 2, 8, 2, 5) == Some(sent_video_style(o.style)),
{
}

/// An infographic request asks for type 7, with the orientation at
/// `[2][14][0][3]` and the detail level at `[2][14][0][4]`.
pub proof fn law_infographic_options_sent(nb: Seq<char>, ids: Seq<Seq<char>>, o: InfographicGenerationOptions)
    ensures
        sget(sget(Some(spec_infographic_params(nb, ids, o)), 2), 2) == Some(SJson::Int(7)),
        at(spec_infographic_params(nb, ids, o), 2, 14, 0, 1) == Some(SJson::Str(o.language@)),
        at(spec_infographic_params(nb, ids, o), 2, 14, 0, 3) == Some(sent_orientation(o.orientation)),
        at(spec_infographic_params(nb, ids, o), 2, 14, 0, 4) == Some(sent_detail(o.detail_level)),
{
}

/// A slide deck request asks for type 8, with the format at
/// `[2][16][0][2]` and the length at `[2][16][0][3]`.
pub proof fn law_slide_deck_options_sent(nb: Seq<char>, ids: Seq<Seq<char>>, o: SlideDeckGenerationOptions)
    ensures
        sget(sget(Some(spec_slide_deck_params(nb, ids, o)), 2), 2) == Some(SJson::Int(8)),
        at(spec_slide_deck_params(nb, ids, o), 2, 16, 0, 1) == Some(SJson::Str(o.language@)),
        at(spec_slide_deck_params(nb, ids, o), 2, 16, 0, 2) == Some(sent_slide_format(o.format)),
        at(spec_slide_deck_params(nb, ids, o), 2, 16, 0, 3) == Some(sent_slide_length(o.length)),
{
}

/// The artifact type a generation request asks for, at `[2][2]`.
pub open spec fn requested_type(params: SJson) -> Option<i64> {
    si64(sget(sget(Some(params), 2), 2))
}

/// What is generated is listed as what was asked for: the type (and, for
/// quizzes and flashcards, the variant at `[2][9][1][0]`) that each
/// generation request sends reads back, as an artifact listing reads it,
/// as the kind that was requested.
pub proof fn law_generated_kind_listed(
    nb: Seq<char>,
    ids: Seq<Seq<char>>,
    audio: AudioGenerationOptions,
    video: VideoGenerationOptions,
    report: ReportGenerationOptions,
    quiz: QuizGenerationOptions,
    cards: FlashcardsGenerationOptions,
    info: InfographicGenerationOptions,
    slides: SlideDeckGenerationOptions,
    table: DataTableGenerationOptions,
)
    ensures
        spec_kind(requested_type(spec_audio_params(nb, ids, audio))->0, None) == ArtifactKind::Audio,
        spec_kind(requested_type(spec_video_params(nb, ids, video))->0, None) == ArtifactKind::Video,
        spec_kind(requested_type(spec_report_params(nb, ids, report))->0, None) == ArtifactKind::Report,
        spec_kind(
            requested_type(spec_quiz_params(nb, ids, quiz))->0,
            si64(at(spec_quiz_params(nb, ids, quiz), 2, 9, 1, 0)),
        ) == ArtifactKind::Quiz,
        spec_kind(
            requested_type(spec_flashcards_params(nb, ids, cards))->0,
            si64(at(spec_flashcards_params(nb, ids, cards), 2, 9, 1, 0)),
        ) == ArtifactKind::Flashcards,
        spec_kind(requested_type(spec_infographic_params(nb, ids, info))->0, None)
            == ArtifactKind::Infographic,
        spec_kind(requested_type(spec_slide_deck_params(nb, ids, slides))->0, None)
            == ArtifactKind::SlideDeck,
        spec_kind(requested_type(spec_data_table_params(nb, ids, table))->0, None)
            == ArtifactKind::DataTable,
        requested_type(spec_audio_params(nb, ids, audio)) is Some,
        requested_type(spec_video_params(nb, ids, video)) is Some,
        requested_type(spec_report_params(nb, ids, report)) is Some,
        requested_type(spec_quiz_params(nb, ids, quiz)) is Some,
        requested_type(spec_flashcards_params(nb, ids, cards)) is Some,
        requested_type(spec_infographic_params(nb, ids, info)) is Some,
        requested_type(spec_slide_deck_params(nb, ids, slides)) is Some,
        requested_type(spec_data_table_params(nb, ids, table)) is Some,
{
    law_quiz_and_flashcard_options_sent(nb, ids, quiz, cards);
}

} // verus!
