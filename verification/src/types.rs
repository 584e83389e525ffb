//! The records and enumerations of the NotebookLM API, and how they are read
//! from the positional JSON that the service answers with.

use vstd::prelude::*;
use crate::json::{
    oget, oi64, ostr, owned_opt, owned_or_empty, opt_string_view, or_empty, sarr, sbool, sget,
    si64, sstr, views, JsonValue, SJson,
};
use crate::text::{
    chars_of, contains, is_ws, occurs_at, replace_chars, starts_with, string_from, string_of, trim,
    trim_chars, replace,
};

verus! {

/// Texts of a sequence of strings.
pub open spec fn strings_view(v: Seq<String>) -> Seq<Seq<char>> {
    Seq::new(v.len(), |i: int| v[i]@)
}

/// Whether the text of `a` is the text of `b`.
pub fn text_is(a: &String, b: &str) -> (r: bool)
    ensures
        r == (a@ == b@),
{
    *a == string_from(b)
}

// ---- Notebook ----

#[derive(Debug, Clone)]
pub struct Notebook {
    pub id: String,
    pub title: String,
    pub created_at_unix: Option<i64>,
    pub is_owner: bool,
}

pub struct SNotebook {
    pub id: Seq<char>,
    pub title: Seq<char>,
    pub created_at_unix: Option<i64>,
    pub is_owner: bool,
}

impl View for Notebook {
    type V = SNotebook;

    open spec fn view(&self) -> SNotebook {
        SNotebook {
            id: self.id@,
            title: self.title@,
            created_at_unix: self.created_at_unix,
            is_owner: self.is_owner,
        }
    }
}

/// A notebook read from `[title, sources, id, emoji, ?, meta]`, where
/// `meta[1]` marks a notebook shared with the user and `meta[5][0]` is its
/// creation time; the title loses every `thought\n` and its surrounding
/// whitespace.
pub open spec fn spec_notebook(d: SJson) -> SNotebook {
    let meta = sget(Some(d), 5);
    SNotebook {
        id: or_empty(sstr(sget(Some(d), 2))),
        title: trim(replace(or_empty(sstr(sget(Some(d), 0))), "thought\n"@, Seq::empty())),
        created_at_unix: si64(sget(sget(meta, 5), 0)),
        is_owner: match sget(meta, 1) {
            Some(v) => !(sbool(Some(v)) == Some(true)),
            None => true,
        },
    }
}

proof fn lemma_replace_absent(s: Seq<char>, from: Seq<char>, to: Seq<char>)
    requires
        from.len() > 0,
        !contains(s, from),
    ensures
        replace(s, from, to) == s,
    decreases s.len(),
{
    if s.len() > 0 {
        if starts_with(s, from) {
            assert(occurs_at(s, from, 0));
        }
        let t = s.drop_first();
        assert(!contains(t, from)) by {
            if contains(t, from) {
                let i = choose|i: int| occurs_at(t, from, i);
                assert(s.subrange(i + 1, i + 1 + from.len()) =~= t.subrange(i, i + from.len()));
                assert(occurs_at(s, from, i + 1));
            }
        }
        lemma_replace_absent(t, from, to);
        assert(seq![s[0]] + t =~= s);
    }
}

/// A notebook entry `[title, _, id, _, _, meta]` reads as the notebook with
/// the id at `[2]` and the creation time at `[5][5][0]`; it is owned by the
/// user unless `meta[1]` is `true`, which marks a notebook shared with
/// them. A title without the `thought` marker line and without surrounding
/// whitespace reads back unchanged.
pub proof fn law_notebook_entry(d: SJson)
    ensures
        spec_notebook(d).id == or_empty(sstr(sget(Some(d), 2))),
        spec_notebook(d).created_at_unix == si64(sget(sget(sget(Some(d), 5), 5), 0)),
        spec_notebook(d).is_owner <==> sget(sget(Some(d), 5), 1) != Some(SJson::Bool(true)),
        ({
            let t = or_empty(sstr(sget(Some(d), 0)));
            !contains(t, "thought\n"@) && (t.len() > 0 ==> !is_ws(t[0]) && !is_ws(t.last()))
                ==> spec_notebook(d).title == t
        }),
{
    let t = or_empty(sstr(sget(Some(d), 0)));
    reveal_strlit("thought\n");
    if !contains(t, "thought\n"@) {
        lemma_replace_absent(t, "thought\n"@, Seq::empty());
    }
}

impl Notebook {
    pub fn from_api_response(data: &JsonValue) -> (r: Notebook)
        ensures
            r@ == spec_notebook(data@),
    {
        let raw_title = owned_or_empty(ostr(data.get(0)));
        let t = chars_of(raw_title.as_str());
        let pat = chars_of("thought\n");
        proof {
            reveal_strlit("thought\n");
        }
        let empty: Vec<char> = Vec::new();
        let replaced = replace_chars(t.as_slice(), pat.as_slice(), empty.as_slice());
        let trimmed = trim_chars(replaced.as_slice());
        let title = string_of(trimmed.as_slice());
        let id = owned_or_empty(ostr(data.get(2)));
        let meta = data.get(5);
        let created_at_unix = oi64(oget(oget(meta, 5), 0));
        let is_owner = match oget(meta, 1) {
            Some(v) => !(v.as_bool() == Some(true)),
            None => true,
        };
        Notebook { id, title, created_at_unix, is_owner }
    }
}


// ---- Sources ----

#[derive(Debug, Clone)]
pub struct Source {
    pub id: String,
    pub title: Option<String>,
    pub url: Option<String>,
    pub type_code: Option<i64>,
    pub created_at_unix: Option<i64>,
    pub status: i64,
}

pub struct SSource {
    pub id: Seq<char>,
    pub title: Option<Seq<char>>,
    pub url: Option<Seq<char>>,
    pub type_code: Option<i64>,
    pub created_at_unix: Option<i64>,
    pub status: i64,
}

impl View for Source {
    type V = SSource;

    open spec fn view(&self) -> SSource {
        SSource {
            id: self.id@,
            title: opt_string_view(self.title),
            url: opt_string_view(self.url),
            type_code: self.type_code,
            created_at_unix: self.created_at_unix,
            status: self.status,
        }
    }
}

pub open spec fn opt_source_view(o: Option<Source>) -> Option<SSource> {
    match o {
        Some(s) => Some(s@),
        None => None,
    }
}

/// The id of a source entry: `[[id], ...]` or `[id, ...]`.
pub open spec fn spec_entry_id(first: Option<SJson>) -> Seq<char> {
    if sarr(first) is Some {
        or_empty(sstr(sget(first, 0)))
    } else {
        or_empty(sstr(first))
    }
}

/// A source read from the answer to adding or updating one: either
/// `[[id_or_[id], title, meta, ...]]` (with `meta[7][0]` the URL and
/// `meta[4]` the type) or `[id, title, ...]`; no source for anything that is
/// not a non-empty array.
pub open spec fn spec_source_from_api(d: SJson) -> Option<SSource> {
    match sarr(Some(d)) {
        None => None,
        Some(a) => if a.len() == 0 {
            None
        } else if sarr(sget(Some(d), 0)) is Some {
            let entry = sget(Some(d), 0);
            let meta = sget(entry, 2);
            Some(
                SSource {
                    id: spec_entry_id(sget(entry, 0)),
                    title: sstr(sget(entry, 1)),
                    url: sstr(sget(sget(meta, 7), 0)),
                    type_code: si64(sget(meta, 4)),
                    created_at_unix: None,
                    status: 2,
                },
            )
        } else {
            Some(
                SSource {
                    id: or_empty(sstr(sget(Some(d), 0))),
                    title: sstr(sget(Some(d), 1)),
                    url: None,
                    type_code: None,
                    created_at_unix: None,
                    status: 2,
                },
            )
        },
    }
}

/// A source read from a notebook's source list entry
/// `[id_or_[id], title, meta, [?, status]]`, where `meta[2][0]` is the
/// creation time, `meta[4]` the type and `meta[7][0]` the URL; the status is
/// 2 where the entry gives none.
pub open spec fn spec_source_from_notebook(d: SJson) -> Option<SSource> {
    match sarr(Some(d)) {
        None => None,
        Some(a) => if a.len() == 0 {
            None
        } else {
            let first = sget(Some(d), 0);
            let meta = sget(Some(d), 2);
            Some(
                SSource {
                    id: match first {
                        Some(SJson::Array(_)) => or_empty(sstr(sget(first, 0))),
                        Some(SJson::Str(t)) => t,
                        _ => Seq::empty(),
                    },
                    title: sstr(sget(Some(d), 1)),
                    url: sstr(sget(sget(meta, 7), 0)),
                    type_code: si64(sget(meta, 4)),
                    created_at_unix: si64(sget(sget(meta, 2), 0)),
                    status: match si64(sget(sget(Some(d), 3), 1)) {
                        Some(x) => x,
                        None => 2,
                    },
                },
            )
        },
    }
}

impl Source {
    pub fn from_api_response(data: &JsonValue) -> (r: Option<Source>)
        ensures
            opt_source_view(r) == spec_source_from_api(data@),
    {
        let arr = match data.as_array() {
            Some(a) => a,
            None => {
                return None;
            },
        };
        if arr.len() == 0 {
            return None;
        }
        let first = data.get(0);
        let nested = match first {
            Some(v) => v.is_array(),
            None => false,
        };
        if nested {
            let entry = first;
            let id_slot = oget(entry, 0);
            let id_is_array = match id_slot {
                Some(v) => v.is_array(),
                None => false,
            };
            let id = if id_is_array {
                owned_or_empty(ostr(oget(id_slot, 0)))
            } else {
                owned_or_empty(ostr(id_slot))
            };
            let meta = oget(entry, 2);
            return Some(
                Source {
                    id,
                    title: owned_opt(ostr(oget(entry, 1))),
                    url: owned_opt(ostr(oget(oget(meta, 7), 0))),
                    type_code: oi64(oget(meta, 4)),
                    created_at_unix: None,
                    status: 2,
                },
            );
        }
        Some(
            Source {
                id: owned_or_empty(ostr(data.get(0))),
                title: owned_opt(ostr(data.get(1))),
                url: None,
                type_code: None,
                created_at_unix: None,
                status: 2,
            },
        )
    }

    pub fn from_notebook_source(data: &JsonValue) -> (r: Option<Source>)
        ensures
            opt_source_view(r) == spec_source_from_notebook(data@),
    {
        let arr = match data.as_array() {
            Some(a) => a,
            None => {
                return None;
            },
        };
        if arr.len() == 0 {
            return None;
        }
        let first = data.get(0);
        let id = match first {
            Some(v) => match v {
                JsonValue::Array(_) => owned_or_empty(ostr(v.get(0))),
                JsonValue::Str(t) => t.clone(),
                _ => String::new(),
            },
            None => String::new(),
        };
        let meta = data.get(2);
        let status = match oi64(oget(data.get(3), 1)) {
            Some(x) => x,
            None => 2,
        };
        Some(
            Source {
                id,
                title: owned_opt(ostr(data.get(1))),
                url: owned_opt(ostr(oget(oget(meta, 7), 0))),
                type_code: oi64(oget(meta, 4)),
                created_at_unix: oi64(oget(oget(meta, 2), 0)),
                status,
            },
        )
    }
}

#[derive(Debug, Clone)]
pub struct SourceFulltext {
    pub source_id: String,
    pub title: String,
    pub content: String,
    pub type_code: Option<i64>,
    pub url: Option<String>,
    pub char_count: usize,
}

#[derive(Debug, Clone)]
pub struct ConversationTurn {
    pub query: String,
    pub answer: String,
    pub turn_number: usize,
}

#[derive(Debug, Clone)]
pub struct AskResult {
    pub answer: String,
    pub conversation_id: String,
    pub turn_number: usize,
    pub is_follow_up: bool,
    pub raw_response: String,
}


// ---- Artifact kinds and generation options ----

#[derive(Debug, Clone, Copy, PartialEq, Eq, Structural)]
pub enum ArtifactKind {
    Audio,
    Report,
    Video,
    Quiz,
    Flashcards,
    MindMap,
    Infographic,
    SlideDeck,
    DataTable,
    Unknown,
}

#[derive(Debug, Clone, Copy, PartialEq, Eq, Structural)]
pub enum ArtifactExportType {
    Report,
    DataTable,
}

impl ArtifactExportType {
    pub open spec fn spec_code(self) -> i64 {
        match self {
            ArtifactExportType::Report => 1,
            ArtifactExportType::DataTable => 2,
        }
    }

    /// The wire code of the export type.
    pub fn code(self) -> (r: i64)
        ensures
            r == self.spec_code(),
    {
        match self {
            ArtifactExportType::Report => 1,
            ArtifactExportType::DataTable => 2,
        }
    }
}

#[derive(Debug, Clone, Copy, PartialEq, Eq, Structural)]
pub enum InteractiveOutputFormat {
    Json,
    Markdown,
    Html,
}

#[derive(Debug, Clone, Copy, PartialEq, Eq, Structural)]
pub enum AudioFormat {
    DeepDive,
    Brief,
    Critique,
    Debate,
}

impl AudioFormat {
    pub open spec fn spec_code(self) -> i64 {
        match self {
            AudioFormat::DeepDive => 1,
            AudioFormat::Brief => 2,
            AudioFormat::Critique => 3,
            AudioFormat::Debate => 4,
        }
    }

    /// The wire code of the format.
    pub fn code(self) -> (r: i64)
        ensures
            r == self.spec_code(),
    {
        match self {
            AudioFormat::DeepDive => 1,
            AudioFormat::Brief => 2,
            AudioFormat::Critique => 3,
            AudioFormat::Debate => 4,
        }
    }
}

#[derive(Debug, Clone, Copy, PartialEq, Eq, Structural)]
pub enum AudioLength {
    Short,
    Default,
    Long,
}

impl AudioLength {
    pub open spec fn spec_code(self) -> i64 {
        match self {
            AudioLength::Short => 1,
            AudioLength::Default => 2,
            AudioLength::Long => 3,
        }
    }

    /// The wire code of the length.
    pub fn code(self) -> (r: i64)
        ensures
            r == self.spec_code(),
    {
        match self {
            AudioLength::Short => 1,
            AudioLength::Default => 2,
            AudioLength::Long => 3,
        }
    }
}

#[derive(Debug, Clone, Copy, PartialEq, Eq, Structural)]
pub enum VideoFormat {
    Explainer,
    Brief,
}

impl VideoFormat {
    pub open spec fn spec_code(self) -> i64 {
        match self {
            VideoFormat::Explainer => 1,
            VideoFormat::Brief => 2,
        }
    }

    /// The wire code of the format.
    pub fn code(self) -> (r: i64)
        ensures
            r == self.spec_code(),
    {
        match self {
            VideoFormat::Explainer => 1,
            VideoFormat::Brief => 2,
        }
    }
}

#[derive(Debug, Clone, Copy, PartialEq, Eq, Structural)]
pub enum VideoStyle {
    AutoSelect,
    Custom,
    Classic,
    Whiteboard,
    Kawaii,
    Anime,
    Watercolor,
    RetroPrint,
    Heritage,
    PaperCraft,
}

impl VideoStyle {
    pub open spec fn spec_code(self) -> i64 {
        match self {
            VideoStyle::AutoSelect => 1,
            VideoStyle::Custom => 2,
            VideoStyle::Classic => 3,
            VideoStyle::Whiteboard => 4,
            VideoStyle::Kawaii => 5,
            VideoStyle::Anime => 6,
            VideoStyle::Watercolor => 7,
            VideoStyle::RetroPrint => 8,
            VideoStyle::Heritage => 9,
            VideoStyle::PaperCraft => 10,
        }
    }

    /// The wire code of the style.
    pub fn code(self) -> (r: i64)
        ensures
            r == self.spec_code(),
    {
        match self {
            VideoStyle::AutoSelect => 1,
            VideoStyle::Custom => 2,
            VideoStyle::Classic => 3,
            VideoStyle::Whiteboard => 4,
            VideoStyle::Kawaii => 5,
            VideoStyle::Anime => 6,
            VideoStyle::Watercolor => 7,
            VideoStyle::RetroPrint => 8,
            VideoStyle::Heritage => 9,
            VideoStyle::PaperCraft => 10,
        }
    }
}

#[derive(Debug, Clone, Copy, PartialEq, Eq, Structural)]
pub enum QuizDifficulty {
    Easy,
    Medium,
    Hard,
}

impl QuizDifficulty {
    pub open spec fn spec_code(self) -> i64 {
        match self {
            QuizDifficulty::Easy => 1,
            QuizDifficulty::Medium => 2,
            QuizDifficulty::Hard => 3,
        }
    }

    /// The wire code of the difficulty.
    pub fn code(self) -> (r: i64)
        ensures
            r == self.spec_code(),
    {
        match self {
            QuizDifficulty::Easy => 1,
            QuizDifficulty::Medium => 2,
            QuizDifficulty::Hard => 3,
        }
    }
}

#[derive(Debug, Clone, Copy, PartialEq, Eq, Structural)]
pub enum QuizQuantity {
    Fewer,
    Standard,
    More,
}

impl QuizQuantity {
    pub open spec fn spec_code(self) -> i64 {
        match self {
            QuizQuantity::Fewer => 1,
            QuizQuantity::Standard => 2,
            QuizQuantity::More => 2,
        }
    }

    /// The wire code of the quantity: `Standard` and `More` share a code.
    pub fn code(self) -> (r: i64)
        ensures
            r == self.spec_code(),
    {
        match self {
            QuizQuantity::Fewer => 1,
            QuizQuantity::Standard => 2,
            QuizQuantity::More => 2,
        }
    }
}

#[derive(Debug, Clone, Copy, PartialEq, Eq, Structural)]
pub enum InfographicOrientation {
    Landscape,
    Portrait,
    Square,
}

impl InfographicOrientation {
    pub open spec fn spec_code(self) -> i64 {
        match self {
            InfographicOrientation::Landscape => 1,
            InfographicOrientation::Portrait => 2,
            InfographicOrientation::Square => 3,
        }
    }

    /// The wire code of the orientation.
    pub fn code(self) -> (r: i64)
        ensures
            r == self.spec_code(),
    {
        match self {
            InfographicOrientation::Landscape => 1,
            InfographicOrientation::Portrait => 2,
            InfographicOrientation::Square => 3,
        }
    }
}

#[derive(Debug, Clone, Copy, PartialEq, Eq, Structural)]
pub enum InfographicDetail {
    Concise,
    Standard,
    Detailed,
}

impl InfographicDetail {
    pub open spec fn spec_code(self) -> i64 {
        match self {
            InfographicDetail::Concise => 1,
            InfographicDetail::Standard => 2,
            InfographicDetail::Detailed => 3,
        }
    }

    /// The wire code of the detail level.
    pub fn code(self) -> (r: i64)
        ensures
            r == self.spec_code(),
    {
        match self {
            InfographicDetail::Concise => 1,
            InfographicDetail::Standard => 2,
            InfographicDetail::Detailed => 3,
        }
    }
}

#[derive(Debug, Clone, Copy, PartialEq, Eq, Structural)]
pub enum SlideDeckFormat {
    DetailedDeck,
    PresenterSlides,
}

impl SlideDeckFormat {
    pub open spec fn spec_code(self) -> i64 {
        match self {
            SlideDeckFormat::DetailedDeck => 1,
            SlideDeckFormat::PresenterSlides => 2,
        }
    }

    /// The wire code of the format.
    pub fn code(self) -> (r: i64)
        ensures
            r == self.spec_code(),
    {
        match self {
            SlideDeckFormat::DetailedDeck => 1,
            SlideDeckFormat::PresenterSlides => 2,
        }
    }
}

#[derive(Debug, Clone, Copy, PartialEq, Eq, Structural)]
pub enum SlideDeckLength {
    Default,
    Short,
}

impl SlideDeckLength {
    pub open spec fn spec_code(self) -> i64 {
        match self {
            SlideDeckLength::Default => 1,
            SlideDeckLength::Short => 2,
        }
    }

    /// The wire code of the length.
    pub fn code(self) -> (r: i64)
        ensures
            r == self.spec_code(),
    {
        match self {
            SlideDeckLength::Default => 1,
            SlideDeckLength::Short => 2,
        }
    }
}

#[derive(Debug, Clone, Copy, PartialEq, Eq, Structural)]
pub enum ReportFormat {
    BriefingDoc,
    StudyGuide,
    BlogPost,
    Custom,
}

#[derive(Debug, Clone, Copy, PartialEq, Eq, Structural)]
pub enum MindMapOutputFormat {
    Json,
    PrettyJson,
}

#[derive(Debug, Clone)]
pub struct AudioGenerationOptions {
    pub source_ids: Option<Vec<String>>,
    pub language: String,
    pub instructions: Option<String>,
    pub format: Option<AudioFormat>,
    pub length: Option<AudioLength>,
}

impl Default for AudioGenerationOptions {
    fn default() -> (r: Self)
        ensures
            r.source_ids is None,
            r.language@ == "en"@,
            r.instructions is None,
            r.format is None,
            r.length is None,
    {
        AudioGenerationOptions {
            source_ids: None,
            language: string_from("en"),
            instructions: None,
            format: None,
            length: None,
        }
    }
}

#[derive(Debug, Clone)]
pub struct VideoGenerationOptions {
    pub source_ids: Option<Vec<String>>,
    pub language: String,
    pub instructions: Option<String>,
    pub format: Option<VideoFormat>,
    pub style: Option<VideoStyle>,
}

impl Default for VideoGenerationOptions {
    fn default() -> (r: Self)
        ensures
            r.source_ids is None,
            r.language@ == "en"@,
            r.instructions is None,
            r.format is None,
            r.style is None,
    {
        VideoGenerationOptions {
            source_ids: None,
            language: string_from("en"),
            instructions: None,
            format: None,
            style: None,
        }
    }
}

#[derive(Debug, Clone)]
pub struct ReportGenerationOptions {
    pub source_ids: Option<Vec<String>>,
    pub language: String,
    pub format: ReportFormat,
    pub custom_prompt: Option<String>,
}

impl Default for ReportGenerationOptions {
    fn default() -> (r: Self)
        ensures
            r.source_ids is None,
            r.language@ == "en"@,
            r.format == ReportFormat::BriefingDoc,
            r.custom_prompt is None,
    {
        ReportGenerationOptions {
            source_ids: None,
            language: string_from("en"),
            format: ReportFormat::BriefingDoc,
            custom_prompt: None,
        }
    }
}

#[derive(Debug, Clone)]
pub struct QuizGenerationOptions {
    pub source_ids: Option<Vec<String>>,
    pub instructions: Option<String>,
    pub quantity: Option<QuizQuantity>,
    pub difficulty: Option<QuizDifficulty>,
}

impl Default for QuizGenerationOptions {
    fn default() -> (r: Self)
        ensures
            r.source_ids is None,
            r.instructions is None,
            r.quantity is None,
            r.difficulty is None,
    {
        QuizGenerationOptions { source_ids: None, instructions: None, quantity: None, difficulty: None }
    }
}

#[derive(Debug, Clone)]
pub struct FlashcardsGenerationOptions {
    pub source_ids: Option<Vec<String>>,
    pub instructions: Option<String>,
    pub quantity: Option<QuizQuantity>,
    pub difficulty: Option<QuizDifficulty>,
}

impl Default for FlashcardsGenerationOptions {
    fn default() -> (r: Self)
        ensures
            r.source_ids is None,
            r.instructions is None,
            r.quantity is None,
            r.difficulty is None,
    {
        FlashcardsGenerationOptions {
            source_ids: None,
            instructions: None,
            quantity: None,
            difficulty: None,
        }
    }
}

#[derive(Debug, Clone)]
pub struct InfographicGenerationOptions {
    pub source_ids: Option<Vec<String>>,
    pub language: String,
    pub instructions: Option<String>,
    pub orientation: Option<InfographicOrientation>,
    pub detail_level: Option<InfographicDetail>,
}

impl Default for InfographicGenerationOptions {
    fn default() -> (r: Self)
        ensures
            r.source_ids is None,
            r.language@ == "en"@,
            r.instructions is None,
            r.orientation is None,
            r.detail_level is None,
    {
        InfographicGenerationOptions {
            source_ids: None,
            language: string_from("en"),
            instructions: None,
            orientation: None,
            detail_level: None,
        }
    }
}

#[derive(Debug, Clone)]
pub struct SlideDeckGenerationOptions {
    pub source_ids: Option<Vec<String>>,
    pub language: String,
    pub instructions: Option<String>,
    pub format: Option<SlideDeckFormat>,
    pub length: Option<SlideDeckLength>,
}

impl Default for SlideDeckGenerationOptions {
    fn default() -> (r: Self)
        ensures
            r.source_ids is None,
            r.language@ == "en"@,
            r.instructions is None,
            r.format is None,
            r.length is None,
    {
        SlideDeckGenerationOptions {
            source_ids: None,
            language: string_from("en"),
            instructions: None,
            format: None,
            length: None,
        }
    }
}

#[derive(Debug, Clone)]
pub struct DataTableGenerationOptions {
    pub source_ids: Option<Vec<String>>,
    pub language: String,
    pub instructions: Option<String>,
}

impl Default for DataTableGenerationOptions {
    fn default() -> (r: Self)
        ensures
            r.source_ids is None,
            r.language@ == "en"@,
            r.instructions is None,
    {
        DataTableGenerationOptions {
            source_ids: None,
            language: string_from("en"),
            instructions: None,
        }
    }
}

#[derive(Debug, Clone)]
pub struct MindMapGenerationOptions {
    pub source_ids: Option<Vec<String>>,
}

impl Default for MindMapGenerationOptions {
    fn default() -> (r: Self)
        ensures
            r.source_ids is None,
    {
        MindMapGenerationOptions { source_ids: None }
    }
}

#[derive(Debug)]
pub struct MindMapGenerationResult {
    pub mind_map: Option<JsonValue>,
    pub note_id: Option<String>,
}

#[derive(Debug, Clone, Copy)]
pub struct RetryPolicy {
    pub max_retries: u32,
    pub base_delay_ms: u64,
    pub max_delay_ms: u64,
    pub jitter_ms: u64,
}

impl Default for RetryPolicy {
    fn default() -> (r: Self)
        ensures
            r.max_retries == 3,
            r.base_delay_ms == 250,
            r.max_delay_ms == 5000,
            r.jitter_ms == 200,
    {
        RetryPolicy { max_retries: 3, base_delay_ms: 250, max_delay_ms: 5000, jitter_ms: 200 }
    }
}


// ---- Artifacts ----

#[derive(Debug, Clone)]
pub struct Artifact {
    pub id: String,
    pub title: String,
    pub artifact_type: i64,
    pub variant: Option<i64>,
    pub status: i64,
    pub created_at_unix: Option<i64>,
}

pub struct SArtifact {
    pub id: Seq<char>,
    pub title: Seq<char>,
    pub artifact_type: i64,
    pub variant: Option<i64>,
    pub status: i64,
    pub created_at_unix: Option<i64>,
}

impl View for Artifact {
    type V = SArtifact;

    open spec fn view(&self) -> SArtifact {
        SArtifact {
            id: self.id@,
            title: self.title@,
            artifact_type: self.artifact_type,
            variant: self.variant,
            status: self.status,
            created_at_unix: self.created_at_unix,
        }
    }
}

pub open spec fn opt_artifact_view(o: Option<Artifact>) -> Option<SArtifact> {
    match o {
        Some(a) => Some(a@),
        None => None,
    }
}

/// The kind of an artifact from its type code and, for type 4, its variant.
pub open spec fn spec_kind(artifact_type: i64, variant: Option<i64>) -> ArtifactKind {
    if artifact_type == 1 {
        ArtifactKind::Audio
    } else if artifact_type == 2 {
        ArtifactKind::Report
    } else if artifact_type == 3 {
        ArtifactKind::Video
    } else if artifact_type == 4 {
        if variant == Some(1i64) {
            ArtifactKind::Flashcards
        } else if variant == Some(2i64) {
            ArtifactKind::Quiz
        } else {
            ArtifactKind::Unknown
        }
    } else if artifact_type == 5 {
        ArtifactKind::MindMap
    } else if artifact_type == 7 {
        ArtifactKind::Infographic
    } else if artifact_type == 8 {
        ArtifactKind::SlideDeck
    } else if artifact_type == 9 {
        ArtifactKind::DataTable
    } else {
        ArtifactKind::Unknown
    }
}

/// The name of an artifact status code.
pub open spec fn spec_status_text(code: i64) -> Seq<char> {
    if code == 1 {
        "in_progress"@
    } else if code == 2 {
        "pending"@
    } else if code == 3 {
        "completed"@
    } else if code == 4 {
        "failed"@
    } else {
        "unknown"@
    }
}

/// A task reads as in progress exactly for status code 1, pending exactly
/// for 2, complete exactly for 3, failed exactly for 4, and unknown for
/// every other code.
pub proof fn law_status_names(code: i64)
    ensures
        (spec_status_text(code) == "in_progress"@) <==> code == 1,
        (spec_status_text(code) == "pending"@) <==> code == 2,
        (spec_status_text(code) == "completed"@) <==> code == 3,
        (spec_status_text(code) == "failed"@) <==> code == 4,
        (spec_status_text(code) == "unknown"@) <==> !(1 <= code <= 4),
{
    reveal_strlit("in_progress");
    reveal_strlit("pending");
    reveal_strlit("completed");
    reveal_strlit("failed");
    reveal_strlit("unknown");
    assert("in_progress"@.len() == 11);
    assert("pending"@.len() == 7);
    assert("completed"@.len() == 9);
    assert("failed"@.len() == 6);
    assert("unknown"@.len() == 7);
    assert("pending"@[0] != "unknown"@[0]);
}

/// The name of an artifact status code: 1 in progress, 2 pending,
/// 3 completed, 4 failed, anything else unknown.
pub fn artifact_status_to_str(status_code: i64) -> (r: &'static str)
    ensures
        r@ == spec_status_text(status_code),
{
    if status_code == 1 {
        "in_progress"
    } else if status_code == 2 {
        "pending"
    } else if status_code == 3 {
        "completed"
    } else if status_code == 4 {
        "failed"
    } else {
        "unknown"
    }
}

/// An artifact read from `[id, title, type, ?, status, ..., [?, [variant]]
/// at 9, ..., [created] at 15]`; missing type and status read as 0.
pub open spec fn spec_artifact_from_api(d: SJson) -> Option<SArtifact> {
    match sarr(Some(d)) {
        None => None,
        Some(_) => Some(
            SArtifact {
                id: or_empty(sstr(sget(Some(d), 0))),
                title: or_empty(sstr(sget(Some(d), 1))),
                artifact_type: match si64(sget(Some(d), 2)) {
                    Some(t) => t,
                    None => 0,
                },
                variant: si64(sget(sget(sget(Some(d), 9), 1), 0)),
                status: match si64(sget(Some(d), 4)) {
                    Some(t) => t,
                    None => 0,
                },
                created_at_unix: si64(sget(sget(Some(d), 15), 0)),
            },
        ),
    }
}

impl Artifact {
    pub fn kind(&self) -> (r: ArtifactKind)
        ensures
            r == spec_kind(self.artifact_type, self.variant),
    {
        let t = self.artifact_type;
        if t == 1 {
            ArtifactKind::Audio
        } else if t == 2 {
            ArtifactKind::Report
        } else if t == 3 {
            ArtifactKind::Video
        } else if t == 4 {
            match self.variant {
                Some(1) => ArtifactKind::Flashcards,
                Some(2) => ArtifactKind::Quiz,
                _ => ArtifactKind::Unknown,
            }
        } else if t == 5 {
            ArtifactKind::MindMap
        } else if t == 7 {
            ArtifactKind::Infographic
        } else if t == 8 {
            ArtifactKind::SlideDeck
        } else if t == 9 {
            ArtifactKind::DataTable
        } else {
            ArtifactKind::Unknown
        }
    }

    pub fn status_str(&self) -> (r: &'static str)
        ensures
            r@ == spec_status_text(self.status),
    {
        artifact_status_to_str(self.status)
    }

    pub fn from_api_response(data: &JsonValue) -> (r: Option<Artifact>)
        ensures
            opt_artifact_view(r) == spec_artifact_from_api(data@),
    {
        if data.as_array().is_none() {
            return None;
        }
        let artifact_type = match oi64(data.get(2)) {
            Some(t) => t,
            None => 0,
        };
        let status = match oi64(data.get(4)) {
            Some(t) => t,
            None => 0,
        };
        Some(
            Artifact {
                id: owned_or_empty(ostr(data.get(0))),
                title: owned_or_empty(ostr(data.get(1))),
                artifact_type,
                variant: oi64(oget(oget(data.get(9), 1), 0)),
                status,
                created_at_unix: oi64(oget(data.get(15), 0)),
            },
        )
    }
}

#[derive(Debug, Clone)]
pub struct GenerationStatus {
    pub task_id: String,
    pub status: String,
    pub error: Option<String>,
    pub error_code: Option<String>,
}

pub struct SGenerationStatus {
    pub task_id: Seq<char>,
    pub status: Seq<char>,
    pub error: Option<Seq<char>>,
    pub error_code: Option<Seq<char>>,
}

impl View for GenerationStatus {
    type V = SGenerationStatus;

    open spec fn view(&self) -> SGenerationStatus {
        SGenerationStatus {
            task_id: self.task_id@,
            status: self.status@,
            error: opt_string_view(self.error),
            error_code: opt_string_view(self.error_code),
        }
    }
}

impl GenerationStatus {
    pub fn is_complete(&self) -> (r: bool)
        ensures
            r == (self.status@ == "completed"@),
    {
        text_is(&self.status, "completed")
    }

    pub fn is_failed(&self) -> (r: bool)
        ensures
            r == (self.status@ == "failed"@),
    {
        text_is(&self.status, "failed")
    }
}

// ---- Research ----

#[derive(Debug, Clone)]
pub struct ResearchStartResult {
    pub task_id: String,
    pub report_id: Option<String>,
    pub notebook_id: String,
    pub query: String,
    pub mode: String,
}

#[derive(Debug, Clone)]
pub struct ResearchSource {
    pub url: String,
    pub title: String,
}

#[derive(Debug, Clone)]
pub struct ResearchPollResult {
    pub task_id: Option<String>,
    pub status: String,
    pub query: String,
    pub sources: Vec<ResearchSource>,
    pub summary: String,
}

#[derive(Debug, Clone)]
pub struct ResearchImportedSource {
    pub id: String,
    pub title: String,
}

#[derive(Debug, Clone, Copy, PartialEq, Eq, Structural)]
pub enum ResearchSourceType {
    Web,
    Drive,
}

#[derive(Debug, Clone, Copy, PartialEq, Eq, Structural)]
pub enum ResearchMode {
    Fast,
    Deep,
}

// ---- Sharing ----

#[derive(Debug, Clone, Copy, PartialEq, Eq, Structural)]
pub enum ShareAccess {
    Restricted,
    AnyoneWithLink,
}

impl ShareAccess {
    pub open spec fn spec_code(self) -> i64 {
        match self {
            ShareAccess::Restricted => 0,
            ShareAccess::AnyoneWithLink => 1,
        }
    }

    /// The wire code of the access level.
    pub fn code(self) -> (r: i64)
        ensures
            r == self.spec_code(),
    {
        match self {
            ShareAccess::Restricted => 0,
            ShareAccess::AnyoneWithLink => 1,
        }
    }
}

#[derive(Debug, Clone, Copy, PartialEq, Eq, Structural)]
pub enum ShareViewLevel {
    FullNotebook,
    ChatOnly,
}

impl ShareViewLevel {
    pub open spec fn spec_code(self) -> i64 {
        match self {
            ShareViewLevel::FullNotebook => 0,
            ShareViewLevel::ChatOnly => 1,
        }
    }

    /// The wire code of the view level.
    pub fn code(self) -> (r: i64)
        ensures
            r == self.spec_code(),
    {
        match self {
            ShareViewLevel::FullNotebook => 0,
            ShareViewLevel::ChatOnly => 1,
        }
    }
}

#[derive(Debug, Clone, Copy, PartialEq, Eq, Structural)]
pub enum SharePermission {
    Owner,
    Editor,
    Viewer,
    Remove,
}

impl SharePermission {
    pub open spec fn spec_code(self) -> i64 {
        match self {
            SharePermission::Owner => 1,
            SharePermission::Editor => 2,
            SharePermission::Viewer => 3,
            SharePermission::Remove => 4,
        }
    }

    /// The wire code of the permission.
    pub fn code(self) -> (r: i64)
        ensures
            r == self.spec_code(),
    {
        match self {
            SharePermission::Owner => 1,
            SharePermission::Editor => 2,
            SharePermission::Viewer => 3,
            SharePermission::Remove => 4,
        }
    }
}

#[derive(Debug, Clone)]
pub struct SharedUser {
    pub email: String,
    pub permission: SharePermission,
    pub display_name: Option<String>,
    pub avatar_url: Option<String>,
}

#[derive(Debug, Clone)]
pub struct ShareStatus {
    pub notebook_id: String,
    pub is_public: bool,
    pub access: ShareAccess,
    pub view_level: ShareViewLevel,
    pub shared_users: Vec<SharedUser>,
    pub share_url: Option<String>,
}

// ---- Reading notebook summaries and source text ----

/// The summary text of a notebook: `[summary, ...]` or `[[summary], ...]`.
pub open spec fn spec_notebook_summary(d: SJson) -> Seq<char> {
    match sget(Some(d), 0) {
        Some(SJson::Str(s)) => s,
        Some(SJson::Array(a)) => or_empty(sstr(sget(Some(SJson::Array(a)), 0))),
        _ => Seq::empty(),
    }
}

pub fn extract_notebook_summary(data: &JsonValue) -> (r: String)
    ensures
        r@ == spec_notebook_summary(data@),
{
    match data.get(0) {
        Some(first) => match first {
            JsonValue::Str(s) => s.clone(),
            JsonValue::Array(_) => owned_or_empty(ostr(first.get(0))),
            _ => String::new(),
        },
        None => String::new(),
    }
}

/// The non-empty texts of a document, depth first, left to right.
pub open spec fn fulltext_pieces(v: SJson) -> Seq<Seq<char>>
    decreases v,
{
    match v {
        SJson::Str(s) => if s.len() > 0 {
            seq![s]
        } else {
            Seq::empty()
        },
        SJson::Array(a) => fulltext_list(a),
        _ => Seq::empty(),
    }
}

/// The non-empty texts of a list of documents, in order.
pub open spec fn fulltext_list(a: Seq<SJson>) -> Seq<Seq<char>>
    decreases a,
{
    if a.len() == 0 {
        Seq::empty()
    } else {
        fulltext_list(a.drop_last()) + fulltext_pieces(a.last())
    }
}

/// Appends the non-empty texts of `node`, depth first, to `out`.
pub fn extract_fulltext_content(node: &JsonValue, out: &mut Vec<String>)
    ensures
        strings_view(final(out)@) == strings_view(old(out)@) + fulltext_pieces(node@),
    decreases node,
{
    match node {
        JsonValue::Str(s) => {
            let ghost before = strings_view(out@);
            if !s.as_str().is_empty() {
                out.push(s.clone());
                assert(strings_view(out@) =~= before + seq![s@]);
            } else {
                assert(strings_view(out@) =~= before + Seq::<Seq<char>>::empty());
            }
        },
        JsonValue::Array(items) => {
            assert(decreases_to!(*node => *items));
            let ghost vs = views(items@);
            let ghost start = strings_view(out@);
            let mut i: usize = 0;
            assert(vs.take(0) =~= Seq::<SJson>::empty());
            assert(start + fulltext_list(Seq::empty()) =~= start);
            while i < items.len()
                invariant
                    i <= items@.len(),
                    decreases_to!(*node => *items),
                    vs == views(items@),
                    strings_view(out@) == start + fulltext_list(vs.take(i as int)),
                decreases items@.len() - i,
            {
                assert(decreases_to!(*items => items@));
                assert(decreases_to!(items@ => items@[i as int]));
                extract_fulltext_content(&items[i], out);
                assert(vs.take(i + 1).drop_last() =~= vs.take(i as int));
                assert(vs.take(i + 1).last() == items@[i as int]@);
                i = i + 1;
                assert(strings_view(out@) =~= start + fulltext_list(vs.take(i as int)));
            }
            assert(vs.take(items@.len() as int) =~= vs);
            assert(node@ == SJson::Array(vs)) by {
                assert(sarr(Some(node@))->0 =~= vs);
            }
        },
        _ => {
            assert(strings_view(out@) =~= strings_view(out@) + Seq::<Seq<char>>::empty());
        },
    }
}

} // verus!
