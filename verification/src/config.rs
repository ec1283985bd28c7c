//! The settings.
use crate::text::option_view;
use vstd::prelude::*;

verus! {

/// The settings of the program.
#[derive(Debug)]
pub struct Config {
    pub model_path: String,
    pub vault_path: String,
    pub llama_server_path: Option<String>,
    pub gpu_layers: u32,
    pub ctx_size: usize,
    pub port: u16,
    pub summarize_on_exit: bool,
    pub api_provider: String,
    pub api_key: Option<String>,
    pub api_model: Option<String>,
    pub max_context_nodes: usize,
    pub trust_level: String,
    pub max_agent_iterations: usize,
}

/// The contents of a `Config`.
#[verifier::ext_equal]
pub struct ConfigView {
    pub model_path: Seq<char>,
    pub vault_path: Seq<char>,
    pub llama_server_path: Option<Seq<char>>,
    pub gpu_layers: u32,
    pub ctx_size: usize,
    pub port: u16,
    pub summarize_on_exit: bool,
    pub api_provider: Seq<char>,
    pub api_key: Option<Seq<char>>,
    pub api_model: Option<Seq<char>>,
    pub max_context_nodes: usize,
    pub trust_level: Seq<char>,
    pub max_agent_iterations: usize,
}

impl View for Config {
    type V = ConfigView;

    open spec fn view(&self) -> ConfigView {
        ConfigView {
            model_path: self.model_path@,
            vault_path: self.vault_path@,
            llama_server_path: option_view(self.llama_server_path),
            gpu_layers: self.gpu_layers,
            ctx_size: self.ctx_size,
            port: self.port,
            summarize_on_exit: self.summarize_on_exit,
            api_provider: self.api_provider@,
            api_key: option_view(self.api_key),
            api_model: option_view(self.api_model),
            max_context_nodes: self.max_context_nodes,
            trust_level: self.trust_level@,
            max_agent_iterations: self.max_agent_iterations,
        }
    }
}

impl Clone for Config {
    fn clone(&self) -> (r: Self)
        ensures
            r == *self,
    {
        Config {
            model_path: self.model_path.clone(),
            vault_path: self.vault_path.clone(),
            llama_server_path: self.llama_server_path.clone(),
            gpu_layers: self.gpu_layers,
            ctx_size: self.ctx_size,
            port: self.port,
            summarize_on_exit: self.summarize_on_exit,
            api_provider: self.api_provider.clone(),
            api_key: self.api_key.clone(),
            api_model: self.api_model.clone(),
            max_context_nodes: self.max_context_nodes,
            trust_level: self.trust_level.clone(),
            max_agent_iterations: self.max_agent_iterations,
        }
    }
}

} // verus!
