//! Calls of the language model.

use vstd::prelude::*;

verus! {

/// What a decoded answer of the language model is.
#[derive(Debug, Clone, Copy, PartialEq, Eq, Structural)]
pub enum DecisionKind {
    AutoResolve,
    ConflictOptions,
    ConflictProposal,
    SecurityReview,
    ContractVerification,
    FileSelection,
    SignalInvestigation,
}

/// One request to a provider of chat completions.
#[derive(Debug)]
pub struct ChatPost {
    pub endpoint: String,
    pub api_key: String,
    pub model: String,
    pub system: String,
    pub user: String,
    pub timeout_seconds: u64,
}

/// The model of `ChatPost`.
pub struct ChatPostView {
    pub endpoint: Seq<char>,
    pub api_key: Seq<char>,
    pub model: Seq<char>,
    pub system: Seq<char>,
    pub user: Seq<char>,
    pub timeout_seconds: u64,
}

impl View for ChatPost {
    type V = ChatPostView;

    open spec fn view(&self) -> ChatPostView {
        ChatPostView {
            endpoint: self.endpoint@,
            api_key: self.api_key@,
            model: self.model@,
            system: self.system@,
            user: self.user@,
            timeout_seconds: self.timeout_seconds,
        }
    }
}

/// A step of a conversation with the language model.
pub enum ModelCall<'a> {
    /// The value of an environment variable.
    ApiKey { variable: &'a str },
    /// Posts a request and gives the text of the answer.
    Post { post: ChatPost },
    /// Waits.
    Sleep { seconds: u64 },
    /// Reads a JSON text as a decision.
    Decode { kind: DecisionKind, json: String },
}

/// The model of `ModelCall`.
pub enum ModelView {
    ApiKey { variable: Seq<char> },
    Post { post: ChatPostView },
    Sleep { seconds: u64 },
    Decode { kind: DecisionKind, json: Seq<char> },
}

impl<'a> View for ModelCall<'a> {
    type V = ModelView;

    open spec fn view(&self) -> ModelView {
        match *self {
            ModelCall::ApiKey { variable } => ModelView::ApiKey {
                variable: variable@,
            },
            ModelCall::Post { post } => ModelView::Post {
                post: post@,
            },
            ModelCall::Sleep { seconds } => ModelView::Sleep {
                seconds,
            },
            ModelCall::Decode { kind, json } => ModelView::Decode {
                kind,
                json: json@,
            },
        }
    }
}

} // verus!
