//! The admission and shaping policy.

use crate::models::Tier;
use vstd::prelude::*;

verus! {

/// The token budget of a request that names none.
pub const DEFAULT_MAX_TOKENS: u32 = 256;

/// The largest token budget that the policy grants.
pub const MAX_TOKENS_CEILING: u32 = 4096;

/// The outcome of the policy for one request.
#[derive(Clone, Debug)]
pub struct PolicyDecision {
    pub tier: Tier,
    pub max_tokens: u32,
    pub allowed: bool,
    pub deny_reason: Option<String>,
}

/// The policy engine: a default tier and a cost ceiling in micro-USDC.
/// The ceiling is accepted and not evaluated; 0 stands for "unlimited".
#[derive(Clone, Debug)]
pub struct PolicyEngine {
    pub default_tier: Tier,
    pub max_cost_microusdc: u64,
}

/// The token budget granted to a request that asks for `requested`.
pub open spec fn granted_tokens(requested: Option<u32>) -> u32 {
    let wanted = match requested {
        Some(n) => n,
        None => DEFAULT_MAX_TOKENS,
    };
    if wanted <= MAX_TOKENS_CEILING {
        wanted
    } else {
        MAX_TOKENS_CEILING
    }
}

impl PolicyEngine {
    /// The tier in effect for a request that resolved to `requested`.
    pub open spec fn effective_tier(&self, requested: Option<Tier>) -> Tier {
        match requested {
            Some(t) => t,
            None => self.default_tier,
        }
    }

    /// Decides on a request: the requested tier or else the default one,
    /// the requested token budget or else 256, capped at 4096. Every request
    /// is allowed, whatever the cost ceiling.
    pub fn decide(&self, requested_tier: Option<Tier>, max_tokens: Option<u32>) -> (d:
        PolicyDecision)
        ensures
            d.tier == self.effective_tier(requested_tier),
            d.max_tokens == granted_tokens(max_tokens),
            d.allowed,
            d.deny_reason is None,
    {
        let tier = match requested_tier {
            Some(t) => t,
            None => self.default_tier,
        };
        let wanted = match max_tokens {
            Some(n) => n,
            None => DEFAULT_MAX_TOKENS,
        };
        let max_tokens = if wanted <= MAX_TOKENS_CEILING {
            wanted
        } else {
            MAX_TOKENS_CEILING
        };
        PolicyDecision { tier, max_tokens, allowed: true, deny_reason: None }
    }
}

/// The granted budget never exceeds the ceiling, and a request within the
/// ceiling is granted what it asks for.
pub proof fn lemma_granted_tokens_clamped(requested: Option<u32>)
    ensures
        granted_tokens(requested) <= MAX_TOKENS_CEILING,
        match requested {
            Some(n) => n <= MAX_TOKENS_CEILING ==> granted_tokens(requested) == n,
            None => granted_tokens(requested) == DEFAULT_MAX_TOKENS,
        },
{
}

} // verus!
