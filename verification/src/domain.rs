//! Entities and ports shared by the components.

use crate::json::{lemma_object_model, member_models, Json, JsonModel, Member};
use crate::text::join_text;
use vstd::prelude::*;

verus! {

/// A prompt handed to a backend.
#[derive(Debug)]
pub struct Prompt {
    pub text: String,
}

impl Prompt {
    /// The prompt as a JSON object with the one entry `text`.
    pub fn to_json(&self) -> (j: Json)
        ensures
            j@ == JsonModel::Object(seq![("text"@, JsonModel::Text(self.text@))]),
    {
        let mut members: Vec<Member> = Vec::new();
        members.push(Member { key: "text".to_owned(), value: Json::Text(self.text.clone()) });
        proof {
            lemma_object_model(members);
            assert(member_models(members@) =~= seq![("text"@, JsonModel::Text(self.text@))]);
        }
        Json::Object(members)
    }
}

/// What a backend produced for a prompt.
#[derive(Debug)]
pub struct Completion {
    pub text: String,
    pub model: Option<String>,
}

/// Failures that the library reports to its callers.
#[derive(Debug)]
pub enum PantherError {
    /// A backend failed to produce a completion.
    Provider(String),
    /// An input could not be used.
    InvalidInput(String),
    /// The configuration does not allow the call.
    Config(String),
    /// A stage of a run has used up its attempts; the last failure's reason.
    StageExhausted(String),
}

impl PantherError {
    /// The message carried by the error.
    pub open spec fn spec_detail(self) -> String {
        match self {
            PantherError::Provider(m) => m,
            PantherError::InvalidInput(m) => m,
            PantherError::Config(m) => m,
            PantherError::StageExhausted(m) => m,
        }
    }

    /// The error as one line of text: what kind of error it is, then
    /// the message it carries.
    pub open spec fn spec_message(self) -> Seq<char> {
        match self {
            PantherError::Provider(m) => "provider error: "@ + m@,
            PantherError::InvalidInput(m) => "invalid input: "@ + m@,
            PantherError::Config(m) => "configuration error: "@ + m@,
            PantherError::StageExhausted(m) => "stage exhausted: "@ + m@,
        }
    }

    /// The error as one line of text.
    pub fn message(&self) -> (s: String)
        ensures
            s@ == self.spec_message(),
    {
        match self {
            PantherError::Provider(m) => join_text("provider error: ", m.as_str()),
            PantherError::InvalidInput(m) => join_text("invalid input: ", m.as_str()),
            PantherError::Config(m) => join_text("configuration error: ", m.as_str()),
            PantherError::StageExhausted(m) => join_text("stage exhausted: ", m.as_str()),
        }
    }

    /// The message carried by the error.
    pub fn detail(&self) -> (s: &String)
        ensures
            *s == self.spec_detail(),
    {
        match self {
            PantherError::Provider(m) => m,
            PantherError::InvalidInput(m) => m,
            PantherError::Config(m) => m,
            PantherError::StageExhausted(m) => m,
        }
    }
}

/// One language-model backend. Implementations decide what `generate`
/// returns; the library claims nothing of it.
pub trait LlmProvider {
    /// Whether `outcome` is something that this backend may return for
    /// `prompt`. An implementation that says nothing may return anything.
    open spec fn answers(&self, prompt: Seq<char>, outcome: Result<Completion, PantherError>) -> bool {
        true
    }

    /// Asks the backend for a completion of `prompt`.
    fn generate(&self, prompt: &Prompt) -> (r: Result<Completion, PantherError>)
        ensures
            self.answers(prompt.text@, r),
    ;

    /// A short name of the kind of backend.
    fn name(&self) -> &'static str {
        "unknown"
    }
}

/// A backend that answers every prompt with the prompt itself behind
/// the text `echo: `, under the model name `null`.
pub struct NullProvider;

impl LlmProvider for NullProvider {
    open spec fn answers(&self, prompt: Seq<char>, outcome: Result<Completion, PantherError>) -> bool {
        &&& outcome is Ok
        &&& outcome->Ok_0.text@ == "echo: "@ + prompt
        &&& outcome->Ok_0.model is Some
        &&& outcome->Ok_0.model->Some_0@ == "null"@
    }

    fn generate(&self, prompt: &Prompt) -> (r: Result<Completion, PantherError>) {
        Ok(
            Completion {
                text: join_text("echo: ", prompt.text.as_str()),
                model: Some("null".to_owned()),
            },
        )
    }

    fn name(&self) -> (r: &'static str)
        ensures
            r@ == "null"@,
    {
        "null"
    }
}

} // verus!
