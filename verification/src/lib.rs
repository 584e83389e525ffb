//! A client library for Google NotebookLM's web RPC protocol: the calls
//! that each operation sends, what is read out of the answers, the retry
//! policy that every call runs under, and the conversation history of the
//! chat. Sending the calls is left to the caller; every decision about
//! them is made and verified here.

pub mod api;
pub mod artifacts;
pub mod auth;
pub mod calls;
pub mod chat;
pub mod error;
pub mod format;
pub mod json;
pub mod output;
pub mod payloads;
pub mod research;
pub mod responses;
pub mod rpc;
pub mod text;
pub mod transport;
pub mod types;

pub use auth::AuthTokens;
pub use error::{NotebookLmError, Result};
pub use json::JsonValue;
pub use types::{
    Artifact, ArtifactExportType, ArtifactKind, AskResult, AudioFormat, AudioGenerationOptions,
    AudioLength, ConversationTurn, DataTableGenerationOptions, FlashcardsGenerationOptions,
    GenerationStatus, InfographicDetail, InfographicGenerationOptions, InfographicOrientation,
    InteractiveOutputFormat, MindMapGenerationOptions, MindMapGenerationResult,
    MindMapOutputFormat, Notebook, QuizDifficulty, QuizGenerationOptions, QuizQuantity,
    ReportFormat, ReportGenerationOptions, ResearchImportedSource, ResearchMode,
    ResearchPollResult, ResearchSource, ResearchSourceType, ResearchStartResult, RetryPolicy,
    ShareAccess, SharePermission, ShareStatus, ShareViewLevel, SharedUser, SlideDeckFormat,
    SlideDeckGenerationOptions, SlideDeckLength, Source, SourceFulltext, VideoFormat,
    VideoGenerationOptions, VideoStyle,
};
