//! Model providers: their connection settings and the models they offer.
use vstd::prelude::*;

verus! {

/// Connection settings of a provider.
#[derive(Debug, Clone, PartialEq, Eq)]
pub struct ProviderSetting {
    pub provider_id: String,
    pub enabled: bool,
    pub api_key: String,
    pub base_url: String,
}

pub ghost struct ProviderSettingView {
    pub provider_id: Seq<char>,
    pub enabled: bool,
    pub api_key: Seq<char>,
    pub base_url: Seq<char>,
}

impl View for ProviderSetting {
    type V = ProviderSettingView;

    open spec fn view(&self) -> ProviderSettingView {
        ProviderSettingView {
            provider_id: self.provider_id@,
            enabled: self.enabled,
            api_key: self.api_key@,
            base_url: self.base_url@,
        }
    }
}

impl ProviderSetting {
    pub fn copy(&self) -> (r: ProviderSetting)
        ensures
            r@ == self@,
    {
        ProviderSetting {
            provider_id: self.provider_id.clone(),
            enabled: self.enabled,
            api_key: self.api_key.clone(),
            base_url: self.base_url.clone(),
        }
    }
}

/// What a model can do.
#[derive(Debug, Clone, Copy, PartialEq, Eq, Default, Structural)]
pub struct ProviderModelCapabilities {
    pub chat: bool,
    pub vision: bool,
    pub tool_call: bool,
    pub reasoning: bool,
    pub embedding: bool,
}

/// A model offered by a provider.
#[derive(Debug, Clone, PartialEq, Eq)]
pub struct ProviderModel {
    pub provider_id: String,
    pub model_id: String,
    pub capabilities: ProviderModelCapabilities,
}

pub ghost struct ProviderModelView {
    pub provider_id: Seq<char>,
    pub model_id: Seq<char>,
    pub capabilities: ProviderModelCapabilities,
}

impl View for ProviderModel {
    type V = ProviderModelView;

    open spec fn view(&self) -> ProviderModelView {
        ProviderModelView { provider_id: self.provider_id@, model_id: self.model_id@, capabilities: self.capabilities }
    }
}

impl ProviderModel {
    pub fn copy(&self) -> (r: ProviderModel)
        ensures
            r@ == self@,
    {
        ProviderModel {
            provider_id: self.provider_id.clone(),
            model_id: self.model_id.clone(),
            capabilities: self.capabilities,
        }
    }
}

} // verus!
