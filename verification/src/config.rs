//! The configuration that the agent is built from.

use crate::models::Tier;
use crate::text::{decimal_u64, list_items, parse_u64, split_list, texts};
use vstd::prelude::*;

verus! {

/// The agent's configuration.
#[derive(Clone, Debug)]
pub struct AppConfig {
    /// Bind address of the HTTP API.
    pub bind: String,
    /// Base addresses of the worker nodes, in order.
    pub node_urls: Vec<String>,
    /// The tier of a request that names none.
    pub default_tier: Tier,
    /// Cost ceiling in micro-USDC; 0 stands for "unlimited".
    pub max_cost_microusdc: u64,
}

/// The bind address of a configuration that names none.
pub open spec fn default_bind() -> Seq<char> {
    "127.0.0.1:8787"@
}

/// The one worker address of a configuration that names none.
pub open spec fn default_node_url() -> Seq<char> {
    "http://127.0.0.1:8080"@
}

impl Default for AppConfig {
    /// The configuration of an agent on the local machine with one local
    /// worker, the standard tier and no cost ceiling.
    fn default() -> (cfg: AppConfig)
        ensures
            cfg.bind@ == default_bind(),
            texts(cfg.node_urls@) == seq![default_node_url()],
            cfg.default_tier == Tier::Standard,
            cfg.max_cost_microusdc == 0,
    {
        let mut node_urls: Vec<String> = Vec::new();
        node_urls.push(String::from_str("http://127.0.0.1:8080"));
        assert(texts(node_urls@) =~= seq![default_node_url()]);
        AppConfig {
            bind: String::from_str("127.0.0.1:8787"),
            node_urls,
            default_tier: Tier::Standard,
            max_cost_microusdc: 0,
        }
    }
}

/// Settings that stand above a loaded configuration, each as the text in
/// which it was given; `None` where none was given.
#[derive(Clone, Debug)]
pub struct EnvOverrides {
    /// The worker addresses as a comma-separated list.
    pub node_urls: Option<String>,
    /// The bind address.
    pub bind: Option<String>,
    /// The name of the default tier.
    pub default_tier: Option<String>,
    /// The cost ceiling as a decimal number.
    pub max_cost_microusdc: Option<String>,
}

impl AppConfig {
    /// The configuration with the overrides applied. A list of worker
    /// addresses replaces the configured ones by its items; a bind address
    /// replaces the configured one; a default tier or a cost ceiling does so
    /// only where its text can be read, and is ignored otherwise.
    pub fn apply_env(self, env: EnvOverrides) -> (cfg: AppConfig)
        ensures
            texts(cfg.node_urls@) == match env.node_urls {
                Some(list) => list_items(list@),
                None => texts(self.node_urls@),
            },
            cfg.bind@ == match env.bind {
                Some(bind) => bind@,
                None => self.bind@,
            },
            cfg.default_tier == match env.default_tier {
                Some(name) => match Tier::spec_parse(name@) {
                    Some(tier) => tier,
                    None => self.default_tier,
                },
                None => self.default_tier,
            },
            cfg.max_cost_microusdc == match env.max_cost_microusdc {
                Some(number) => match decimal_u64(number@) {
                    Some(n) => n,
                    None => self.max_cost_microusdc,
                },
                None => self.max_cost_microusdc,
            },
    {
        let node_urls = match &env.node_urls {
            Some(list) => split_list(list.as_str()),
            None => self.node_urls,
        };
        let bind = match env.bind {
            Some(bind) => bind,
            None => self.bind,
        };
        let default_tier = match &env.default_tier {
            Some(name) => match Tier::parse(name.as_str()) {
                Some(tier) => tier,
                None => self.default_tier,
            },
            None => self.default_tier,
        };
        let max_cost_microusdc = match &env.max_cost_microusdc {
            Some(number) => match parse_u64(number.as_str()) {
                Some(n) => n,
                None => self.max_cost_microusdc,
            },
            None => self.max_cost_microusdc,
        };
        AppConfig { bind, node_urls, default_tier, max_cost_microusdc }
    }
}

} // verus!
