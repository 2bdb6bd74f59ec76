//! Default model chosen for a purpose, such as chat or request-body generation.
use vstd::prelude::*;

verus! {

#[derive(Debug, Clone, PartialEq, Eq)]
pub struct DefaultModelSetting {
    pub key: String,
    pub provider_id: String,
    pub model_id: String,
    pub temperature: String,
    pub top_p: String,
    pub max_tokens: String,
    pub presence_penalty: String,
    pub frequency_penalty: String,
}

/// Plain content of a default-model setting.
pub ghost struct DefaultModelView {
    pub key: Seq<char>,
    pub provider_id: Seq<char>,
    pub model_id: Seq<char>,
    pub temperature: Seq<char>,
    pub top_p: Seq<char>,
    pub max_tokens: Seq<char>,
    pub presence_penalty: Seq<char>,
    pub frequency_penalty: Seq<char>,
}

impl View for DefaultModelSetting {
    type V = DefaultModelView;

    open spec fn view(&self) -> DefaultModelView {
        DefaultModelView {
            key: self.key@,
            provider_id: self.provider_id@,
            model_id: self.model_id@,
            temperature: self.temperature@,
            top_p: self.top_p@,
            max_tokens: self.max_tokens@,
            presence_penalty: self.presence_penalty@,
            frequency_penalty: self.frequency_penalty@,
        }
    }
}

impl DefaultModelSetting {
    /// A field-by-field copy.
    pub fn copy(&self) -> (r: DefaultModelSetting)
        ensures
            r@ == self@,
    {
        DefaultModelSetting {
            key: self.key.clone(),
            provider_id: self.provider_id.clone(),
            model_id: self.model_id.clone(),
            temperature: self.temperature.clone(),
            top_p: self.top_p.clone(),
            max_tokens: self.max_tokens.clone(),
            presence_penalty: self.presence_penalty.clone(),
            frequency_penalty: self.frequency_penalty.clone(),
        }
    }
}

} // verus!
