//! Backend configurations and their selection from a run's input.

use crate::agents::ProviderCfg;
use crate::domain::PantherError;
use crate::text::join_text;
use vstd::prelude::*;

verus! {

/// How to reach an OpenAI-compatible backend with blocking calls.
#[derive(Debug)]
pub struct OpenAiProvider {
    pub api_key: String,
    pub model: String,
    pub base_url: String,
}

/// How to reach an Ollama backend with blocking calls.
#[derive(Debug)]
pub struct OllamaProvider {
    pub base_url: String,
    pub model: String,
}

/// How to reach an OpenAI-compatible backend without blocking.
#[derive(Debug)]
pub struct OpenAiProviderAsync {
    pub api_key: String,
    pub model: String,
    pub base_url: String,
    pub timeout_secs: u64,
    pub retries: u32,
}

/// How to reach an Ollama backend without blocking.
#[derive(Debug)]
pub struct OllamaProviderAsync {
    pub base_url: String,
    pub model: String,
    pub timeout_secs: u64,
    pub retries: u32,
}

/// A backend that a configuration selects.
#[derive(Debug)]
pub enum ProviderChoice {
    OpenAi(OpenAiProvider),
    Ollama(OllamaProvider),
}

/// The receipt of an anchoring: the transaction that carries the hash.
#[derive(Debug)]
pub struct AnchorResult {
    pub tx_hash: String,
}

/// Whether a configuration names a backend that can be built: an
/// `openai` entry needs a key and a model, an `ollama` entry a base
/// address and a model. Entries of any other type select nothing.
pub open spec fn selects(c: ProviderCfg) -> bool {
    ||| (c.ty@ == "openai"@ && c.api_key.is_some() && c.model.is_some())
    ||| (c.ty@ == "ollama"@ && c.base_url.is_some() && c.model.is_some())
}

/// Whether `label` and `choice` are what the configuration `c` selects.
/// An `openai` entry without a base address takes the public one.
pub open spec fn is_choice_of(c: ProviderCfg, label: String, choice: ProviderChoice) -> bool {
    if c.ty@ == "openai"@ {
        &&& c.api_key.is_some() && c.model.is_some()
        &&& label@ == "openai:"@ + c.model->Some_0@
        &&& choice is OpenAi
        &&& choice->OpenAi_0.api_key@ == c.api_key->Some_0@
        &&& choice->OpenAi_0.model@ == c.model->Some_0@
        &&& choice->OpenAi_0.base_url@ == match c.base_url {
            Some(b) => b@,
            None => "https://api.openai.com"@,
        }
    } else {
        &&& c.ty@ == "ollama"@
        &&& c.base_url.is_some() && c.model.is_some()
        &&& label@ == "ollama:"@ + c.model->Some_0@
        &&& choice is Ollama
        &&& choice->Ollama_0.base_url@ == c.base_url->Some_0@
        &&& choice->Ollama_0.model@ == c.model->Some_0@
    }
}

/// The positions, among the first `n` configurations, of those that
/// select a backend, in order.
pub open spec fn selected(cfgs: Seq<ProviderCfg>, n: nat) -> Seq<int>
    decreases n,
{
    if n == 0 || n > cfgs.len() {
        Seq::empty()
    } else if selects(cfgs[n - 1]) {
        selected(cfgs, (n - 1) as nat).push(n - 1)
    } else {
        selected(cfgs, (n - 1) as nat)
    }
}

/// What one configuration selects, if anything.
pub fn choose_provider(c: &ProviderCfg) -> (r: Option<(String, ProviderChoice)>)
    ensures
        r.is_some() == selects(*c),
        r.is_some() ==> is_choice_of(*c, r->Some_0.0, r->Some_0.1),
{
    proof {
        reveal_strlit("openai");
        reveal_strlit("ollama");
    }
    let openai = "openai".to_owned();
    let ollama = "ollama".to_owned();
    if c.ty == openai {
        assert(c.ty@ != "ollama"@) by {
            assert("openai"@[1] == 'p' && "ollama"@[1] == 'l');
        }
        match (&c.api_key, &c.model) {
            (Some(key), Some(model)) => {
                let base_url = match &c.base_url {
                    Some(b) => b.clone(),
                    None => "https://api.openai.com".to_owned(),
                };
                let label = join_text("openai:", model.as_str());
                Some(
                    (
                        label,
                        ProviderChoice::OpenAi(
                            OpenAiProvider { api_key: key.clone(), model: model.clone(), base_url },
                        ),
                    ),
                )
            },
            _ => None,
        }
    } else if c.ty == ollama {
        match (&c.base_url, &c.model) {
            (Some(base), Some(model)) => {
                let label = join_text("ollama:", model.as_str());
                Some(
                    (
                        label,
                        ProviderChoice::Ollama(
                            OllamaProvider { base_url: base.clone(), model: model.clone() },
                        ),
                    ),
                )
            },
            _ => None,
        }
    } else {
        None
    }
}

/// The backends that the configurations select, in order, each under
/// its label.
///
/// Fails where they select none.
pub fn select_providers(cfgs: &Vec<ProviderCfg>) -> (r: Result<
    Vec<(String, ProviderChoice)>,
    PantherError,
>)
    ensures
        r is Err <==> selected(cfgs@, cfgs@.len()).len() == 0,
        r is Err ==> r->Err_0 is Config && r->Err_0.spec_detail()@ == "no providers configured"@,
        r is Ok ==> {
            let picked = selected(cfgs@, cfgs@.len());
            &&& r->Ok_0@.len() == picked.len()
            &&& forall|k: int|
                0 <= k < picked.len() ==> 0 <= #[trigger] picked[k] < cfgs@.len() && is_choice_of(
                    cfgs@[picked[k]],
                    r->Ok_0@[k].0,
                    r->Ok_0@[k].1,
                )
        },
{
    let mut out: Vec<(String, ProviderChoice)> = Vec::new();
    let ghost mut picked: Seq<int> = Seq::empty();
    let mut i: usize = 0;
    while i < cfgs.len()
        invariant
            i <= cfgs.len(),
            picked == selected(cfgs@, i as nat),
            out@.len() == picked.len(),
            forall|k: int|
                0 <= k < out@.len() ==> 0 <= #[trigger] picked[k] < cfgs@.len() && is_choice_of(
                    cfgs@[picked[k]],
                    out@[k].0,
                    out@[k].1,
                ),
        decreases cfgs.len() - i,
    {
        match choose_provider(&cfgs[i]) {
            Some(entry) => {
                out.push(entry);
                proof {
                    picked = picked.push(i as int);
                }
            },
            None => {},
        }
        i += 1;
    }
    if out.len() == 0 {
        Err(PantherError::Config("no providers configured".to_owned()))
    } else {
        Ok(out)
    }
}

/// Builds backend configurations from optional settings, with defaults
/// for what is not set.
pub struct ProviderFactory;

impl ProviderFactory {
    /// An OpenAI-compatible backend under its label. The model defaults
    /// to `gpt-4o-mini` and the base address to the public one.
    pub fn openai(api_key: String, model: Option<String>, base_url: Option<String>) -> (r: (
        String,
        OpenAiProvider,
    ))
        ensures
            r.1.api_key == api_key,
            r.1.model@ == match model {
                Some(m) => m@,
                None => "gpt-4o-mini"@,
            },
            r.1.base_url@ == match base_url {
                Some(b) => b@,
                None => "https://api.openai.com"@,
            },
            r.0@ == "openai:"@ + r.1.model@,
    {
        let model = match model {
            Some(m) => m,
            None => "gpt-4o-mini".to_owned(),
        };
        let base_url = match base_url {
            Some(b) => b,
            None => "https://api.openai.com".to_owned(),
        };
        let label = join_text("openai:", model.as_str());
        (label, OpenAiProvider { api_key, model, base_url })
    }

    /// An Ollama backend under its label. The base address defaults to
    /// the local one and the model to `llama3`.
    pub fn ollama(base_url: Option<String>, model: Option<String>) -> (r: (String, OllamaProvider))
        ensures
            r.1.base_url@ == match base_url {
                Some(b) => b@,
                None => "http://localhost:11434"@,
            },
            r.1.model@ == match model {
                Some(m) => m@,
                None => "llama3"@,
            },
            r.0@ == "ollama:"@ + r.1.model@,
    {
        let base_url = match base_url {
            Some(b) => b,
            None => "http://localhost:11434".to_owned(),
        };
        let model = match model {
            Some(m) => m,
            None => "llama3".to_owned(),
        };
        let label = join_text("ollama:", model.as_str());
        (label, OllamaProvider { base_url, model })
    }
}

} // verus!
