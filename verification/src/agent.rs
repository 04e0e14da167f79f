//! The orchestrator: the pipeline that takes a chat-completion request to a
//! worker and its reply back to a response.

use crate::config::AppConfig;
use crate::models::{
    is_response_id, message_views, new_id, ChatCompletionRequest, ChatCompletionRequestView,
    ChatCompletionResponse, ChatCompletionResponseView, ChatMessage, ChatMessageView, Choice,
    ChoiceView, Tier, Usage,
};
use crate::node_client::{
    stub_reply, url_parse, NodeClient, NodeError, NodeGenerateRequest, NodeGenerateRequestView,
    NodeGenerateResponse, NodeGenerateResponseView,
};
use crate::policy::{granted_tokens, PolicyDecision, PolicyEngine};
use crate::routing::{NodePool, NodeRouter, RoundRobinRouter};
use crate::text::{
    is_white_space, join_all, joined, lemma_trim_bounds, lemma_trimmed_padding, to_chars,
    trim_range, trimmed,
};
use time::OffsetDateTime;
use vstd::prelude::*;

verus! {

/// Why the agent could not be built or a request not be served.
#[derive(Debug, PartialEq, Eq)]
pub enum AgentError {
    /// Configuration: no worker address is configured.
    NoNodes,
    /// Configuration: the worker address at `index` was refused.
    BadNode { index: usize, error: NodeError },
    /// The policy denied the request, for the reason given.
    PolicyDenied(String),
    /// The worker failed.
    Worker(NodeError),
}

/// Whether `s` holds a colon at `i` and nowhere else.
pub open spec fn sole_colon_at(s: Seq<char>, i: int) -> bool {
    &&& 0 <= i < s.len()
    &&& s[i] == ':'
    &&& forall|j: int| 0 <= j < s.len() && j != i ==> #[trigger] s[j] != ':'
}

/// Whether `s` holds exactly one colon.
pub open spec fn has_sole_colon(s: Seq<char>) -> bool {
    exists|i: int| sole_colon_at(s, i)
}

/// The tier that a model identifier names. Where the trimmed identifier
/// holds exactly one colon, what follows the colon is parsed as a tier and
/// what precedes it, the namespace, is ignored; otherwise the whole
/// identifier is parsed.
pub open spec fn model_tier(model: Seq<char>) -> Option<Tier> {
    let m = trimmed(model);
    if has_sole_colon(m) {
        let i = choose|i: int| sole_colon_at(m, i);
        Tier::spec_parse(m.subrange(i + 1, m.len() as int))
    } else {
        Tier::spec_parse(m)
    }
}

/// Resolves the tier that a model identifier names, if it names one.
pub fn parse_model_tier(model: &str) -> (r: Option<Tier>)
    ensures
        r == model_tier(model@),
{
    let chars = to_chars(model);
    let (a, b) = trim_range(&chars, 0, chars.len());
    assert(chars@.subrange(0, chars.len() as int) =~= model@);
    let ghost m = chars@.subrange(a as int, b as int);
    let mut colons: usize = 0;
    let mut first: usize = b;
    let mut second: usize = b;
    let mut i: usize = a;
    while i < b
        invariant
            a <= i <= b <= chars.len(),
            m == chars@.subrange(a as int, b as int),
            colons <= 2,
            colons == 0 ==> forall|j: int| a <= j < i ==> #[trigger] chars@[j] != ':',
            colons >= 1 ==> a <= first < i && chars@[first as int] == ':',
            colons == 1 ==> forall|j: int| a <= j < i && j != first ==> #[trigger] chars@[j] != ':',
            colons == 2 ==> first < second < i && chars@[second as int] == ':',
        decreases b - i,
    {
        if chars[i] == ':' {
            if colons == 0 {
                first = i;
                colons = 1;
            } else if colons == 1 {
                second = i;
                colons = 2;
            }
        }
        i += 1;
    }
    if colons == 1 {
        proof {
            assert(sole_colon_at(m, first - a)) by {
                assert forall|j: int| 0 <= j < m.len() && j != first - a implies #[trigger] m[j]
                    != ':' by {
                    assert(m[j] == chars@[a + j]);
                }
            }
            let k = choose|k: int| sole_colon_at(m, k);
            assert(k == first - a);
            assert(m.subrange(k + 1, m.len() as int) =~= chars@.subrange(first + 1, b as int));
        }
        Tier::parse_chars(&chars, first + 1, b)
    } else {
        proof {
            assert forall|k: int| !sole_colon_at(m, k) by {
                if colons == 0 {
                    if 0 <= k < m.len() {
                        assert(m[k] == chars@[a + k]);
                    }
                } else {
                    assert(m[first - a] == ':');
                    assert(m[second - a] == ':');
                }
            }
        }
        Tier::parse_chars(&chars, a, b)
    }
}

/// An identifier without a colon names what it names as a tier.
pub proof fn lemma_model_tier_plain(name: Seq<char>)
    requires
        !name.contains(':'),
    ensures
        model_tier(name) == Tier::spec_parse(name),
{
    let (a, b) = lemma_trim_bounds(name);
    let m = name.subrange(a, b);
    assert forall|k: int| !sole_colon_at(m, k) by {
        if 0 <= k < m.len() {
            assert(m[k] == name[a + k]);
        }
    }
    let pre = name.subrange(0, a);
    let post = name.subrange(b, name.len() as int);
    assert(pre + m + post =~= name);
    lemma_trimmed_padding(pre, m, post);
}

/// The namespace is ignored: an identifier made of a namespace, a colon and
/// a name, neither of them with a colon of its own, names what the name
/// names as a tier.
pub proof fn lemma_model_tier_namespace(namespace: Seq<char>, name: Seq<char>)
    requires
        !namespace.contains(':'),
        !name.contains(':'),
    ensures
        model_tier(namespace + seq![':'] + name) == Tier::spec_parse(name),
{
    let x = namespace + seq![':'] + name;
    let n = namespace.len() as int;
    let (a, b) = lemma_trim_bounds(x);
    assert(x[n] == ':');
    assert(!is_white_space(':'));
    assert(a <= n < b);
    let m = x.subrange(a, b);
    assert(sole_colon_at(m, n - a)) by {
        assert forall|j: int| 0 <= j < m.len() && j != n - a implies #[trigger] m[j] != ':' by {
            if a + j < n {
                assert(m[j] == namespace[a + j]);
            } else {
                assert(m[j] == name[a + j - n - 1]);
            }
        }
    }
    let k = choose|k: int| sole_colon_at(m, k);
    assert(k == n - a);
    let kept = name.subrange(0, b - n - 1);
    let post = name.subrange(b - n - 1, name.len() as int);
    assert(m.subrange(k + 1, m.len() as int) =~= kept);
    assert forall|i: int| 0 <= i < post.len() implies is_white_space(#[trigger] post[i]) by {
        assert(post[i] == x[b + i]);
    }
    assert(Seq::<char>::empty() + kept + post =~= name);
    lemma_trimmed_padding(Seq::empty(), kept, post);
}

/// The line that stands for one message in a prompt: role, colon, space,
/// content, line feed.
pub open spec fn prompt_line(message: ChatMessageView) -> Seq<char> {
    message.role + seq![':', ' '] + message.content + seq!['\n']
}

/// The prompt for a conversation: the lines of its messages in order.
pub open spec fn prompt_text(messages: Seq<ChatMessageView>) -> Seq<char>
    decreases messages.len(),
{
    if messages.len() == 0 {
        Seq::empty()
    } else {
        prompt_text(messages.drop_last()) + prompt_line(messages.last())
    }
}

/// The prompt keeps the order of the conversation: the prompt for one run of
/// messages followed by another is the prompt for the first followed by the
/// prompt for the second.
pub proof fn lemma_prompt_in_order(first: Seq<ChatMessageView>, second: Seq<ChatMessageView>)
    ensures
        prompt_text(first + second) == prompt_text(first) + prompt_text(second),
    decreases second.len(),
{
    if second.len() == 0 {
        assert(first + second =~= first);
        assert(prompt_text(first) + prompt_text(second) =~= prompt_text(first));
    } else {
        lemma_prompt_in_order(first, second.drop_last());
        assert((first + second).drop_last() =~= first + second.drop_last());
        assert((first + second).last() == second.last());
        assert(prompt_text(first + second) =~= prompt_text(first) + prompt_text(second));
    }
}

/// Flattens a conversation into one prompt, a line per message.
pub fn messages_to_prompt(msgs: &[ChatMessage]) -> (out: String)
    ensures
        out@ == prompt_text(message_views(msgs@)),
{
    let mut out = String::new();
    let mut i: usize = 0;
    proof {
        reveal_strlit(": ");
        reveal_strlit("\n");
    }
    while i < msgs.len()
        invariant
            i <= msgs.len(),
            out@ == prompt_text(message_views(msgs@.take(i as int))),
            ": "@ =~= seq![':', ' '],
            "\n"@ =~= seq!['\n'],
        decreases msgs.len() - i,
    {
        proof {
            let next = message_views(msgs@.take(i + 1));
            assert(next.drop_last() =~= message_views(msgs@.take(i as int)));
            assert(next.last() == msgs@[i as int]@);
        }
        out.append(msgs[i].role.as_str());
        out.append(": ");
        out.append(msgs[i].content.as_str());
        out.append("\n");
        i += 1;
    }
    assert(msgs@.take(msgs.len() as int) =~= msgs@);
    out
}

/// The reason given where a denying decision names none.
pub open spec fn default_denial() -> Seq<char> {
    "request denied"@
}

/// The reason for which `decision` denies.
pub open spec fn denial_reason(decision: PolicyDecision) -> Seq<char> {
    match decision.deny_reason {
        Some(reason) => reason@,
        None => default_denial(),
    }
}

/// Lets a request pass exactly if the decision allows it, and else fails
/// with the decision's reason.
pub fn enforce(decision: &PolicyDecision) -> (r: Result<(), AgentError>)
    ensures
        decision.allowed ==> r is Ok,
        !decision.allowed ==> (r matches Err(AgentError::PolicyDenied(reason)) && reason@
            == denial_reason(*decision)),
{
    if decision.allowed {
        Ok(())
    } else {
        let reason = match &decision.deny_reason {
            Some(reason) => reason.clone(),
            None => String::from_str("request denied"),
        };
        Err(AgentError::PolicyDenied(reason))
    }
}

/// The role of the message in a response.
pub open spec fn assistant_role() -> Seq<char> {
    "assistant"@
}

/// The reason for which every response ends.
pub open spec fn stop_reason() -> Seq<char> {
    "stop"@
}

/// The response to a request for `model` that a worker answered with
/// `reply`: one choice, with index 0, whose message has the assistant's role
/// and the reply's fragments joined in order, ended by "stop". Of the token
/// counters only the completion is counted, as the worker reported it.
pub open spec fn completion(
    model: Seq<char>,
    reply: NodeGenerateResponseView,
    id: Seq<char>,
    created: i64,
) -> ChatCompletionResponseView {
    ChatCompletionResponseView {
        id,
        created,
        model,
        choices: seq![
            ChoiceView {
                index: 0,
                message: ChatMessageView {
                    role: assistant_role(),
                    content: joined(reply.tokens),
                },
                finish_reason: stop_reason(),
            },
        ],
        usage: Usage {
            prompt_tokens: 0,
            completion_tokens: reply.tokens_generated,
            total_tokens: reply.tokens_generated,
        },
    }
}

/// Ends the pipeline on the outcome of the worker call: a reply becomes the
/// response with the given identifier and time of creation, a failure
/// becomes the failure of the request.
pub fn complete(
    model: String,
    outcome: Result<NodeGenerateResponse, NodeError>,
    id: String,
    created: i64,
) -> (r: Result<ChatCompletionResponse, AgentError>)
    ensures
        match outcome {
            Ok(reply) => r matches Ok(response) && response@ == completion(
                model@,
                reply@,
                id@,
                created,
            ),
            Err(e) => r == Err::<ChatCompletionResponse, AgentError>(AgentError::Worker(e)),
        },
{
    match outcome {
        Ok(reply) => {
            let content = join_all(&reply.tokens);
            let mut choices: Vec<Choice> = Vec::new();
            choices.push(
                Choice {
                    index: 0,
                    message: ChatMessage { role: String::from_str("assistant"), content },
                    finish_reason: String::from_str("stop"),
                },
            );
            let response = ChatCompletionResponse {
                id,
                created,
                model,
                choices,
                usage: Usage {
                    prompt_tokens: 0,
                    completion_tokens: reply.tokens_generated,
                    total_tokens: reply.tokens_generated,
                },
            };
            assert(response@.choices =~= completion(model@, reply@, id@, created).choices);
            Ok(response)
        },
        Err(e) => Err(AgentError::Worker(e)),
    }
}

/// The current time in seconds since the Unix epoch. Calls
/// `time::OffsetDateTime::now_utc` and takes the result's `unix_timestamp`.
/// Nothing is claimed of the value.
#[verifier::external_body]
fn unix_now() -> i64 {
    OffsetDateTime::now_utc().unix_timestamp()
}

/// The agent: configuration, policy, worker pool and routing strategy. All
/// but the router's own state is fixed once the agent is built.
pub struct AuriaAgent<R: NodeRouter> {
    cfg: AppConfig,
    policy: PolicyEngine,
    pool: NodePool,
    router: R,
}

impl<R: NodeRouter> AuriaAgent<R> {
    #[verifier::type_invariant]
    spec fn consistent(self) -> bool {
        &&& self.policy.default_tier == self.cfg.default_tier
        &&& self.policy.max_cost_microusdc == self.cfg.max_cost_microusdc
        &&& AuriaAgent::<R>::pool_of(self.pool@, self.cfg)
    }

    /// Whether `pool` holds one worker for each address of `cfg`, in order.
    pub open spec fn pool_of(pool: Seq<NodeClient>, cfg: AppConfig) -> bool {
        &&& pool.len() == cfg.node_urls@.len()
        &&& pool.len() > 0
        &&& forall|i: int|
            0 <= i < pool.len() ==> url_parse(cfg.node_urls@[i]@) == Some(
                (#[trigger] pool[i]).address(),
            )
    }

    /// The configuration that the agent was built from.
    pub closed spec fn spec_config(&self) -> AppConfig {
        self.cfg
    }

    /// The agent's worker pool.
    pub closed spec fn spec_pool(&self) -> NodePool {
        self.pool
    }

    /// The tier in effect for a model identifier: the one it names, or else
    /// the configured default.
    pub open spec fn tier_for(&self, model: Seq<char>) -> Tier {
        match model_tier(model) {
            Some(tier) => tier,
            None => self.spec_config().default_tier,
        }
    }

    /// What the agent asks of a worker for `request`.
    pub open spec fn worker_request(
        &self,
        request: ChatCompletionRequestView,
    ) -> NodeGenerateRequestView {
        NodeGenerateRequestView {
            tier: self.tier_for(request.model),
            prompt: prompt_text(request.messages),
            max_tokens: granted_tokens(request.max_tokens),
        }
    }

    /// Whether `r` is how start-up from `cfg` ends. It succeeds exactly if
    /// at least one address is configured and every address is a URL; the
    /// agent then keeps `cfg` and holds one worker per address, in order.
    /// Without any address it fails with `NoNodes`; otherwise with the first
    /// address that is no URL.
    pub open spec fn started(cfg: AppConfig, r: Result<AuriaAgent<R>, AgentError>) -> bool {
        &&& (cfg.node_urls@.len() == 0 ==> r == Err::<AuriaAgent<R>, AgentError>(
            AgentError::NoNodes,
        ))
        &&& match r {
            Ok(agent) => agent.spec_config() == cfg && AuriaAgent::<R>::pool_of(
                agent.spec_pool()@,
                cfg,
            ),
            Err(AgentError::NoNodes) => cfg.node_urls@.len() == 0,
            Err(AgentError::BadNode { index, error }) => {
                &&& index < cfg.node_urls@.len()
                &&& url_parse(cfg.node_urls@[index as int]@) is None
                &&& forall|i: int|
                    0 <= i < index ==> url_parse(#[trigger] cfg.node_urls@[i]@) is Some
                &&& error is InvalidUrl
            },
            Err(_) => false,
        }
    }

    /// Builds an agent from `cfg` with `router` as its routing strategy.
    /// Each configured address becomes a worker handle, in order. Fails on
    /// the first address that is no URL, and with `NoNodes` where no address
    /// is configured.
    pub fn with_router(cfg: AppConfig, router: R) -> (r: Result<AuriaAgent<R>, AgentError>)
        ensures
            AuriaAgent::<R>::started(cfg, r),
    {
        let mut nodes: Vec<NodeClient> = Vec::new();
        let mut i: usize = 0;
        while i < cfg.node_urls.len()
            invariant
                i <= cfg.node_urls.len(),
                nodes@.len() == i,
                forall|j: int| 0 <= j < i ==> url_parse(#[trigger] cfg.node_urls@[j]@) is Some,
                forall|j: int|
                    0 <= j < i ==> url_parse(cfg.node_urls@[j]@) == Some(
                        (#[trigger] nodes@[j]).address(),
                    ),
            decreases cfg.node_urls.len() - i,
        {
            match NodeClient::new(cfg.node_urls[i].as_str()) {
                Ok(node) => {
                    nodes.push(node);
                },
                Err(error) => {
                    return Err(AgentError::BadNode { index: i, error });
                },
            }
            i += 1;
        }
        match NodePool::new(nodes) {
            None => Err(AgentError::NoNodes),
            Some(pool) => {
                let policy = PolicyEngine {
                    default_tier: cfg.default_tier,
                    max_cost_microusdc: cfg.max_cost_microusdc,
                };
                Ok(AuriaAgent { cfg, policy, pool, router })
            },
        }
    }

    /// The configuration that the agent was built from.
    pub fn config(&self) -> (cfg: &AppConfig)
        ensures
            *cfg == self.spec_config(),
    {
        &self.cfg
    }

    /// The agent's worker pool, which holds one worker for each configured
    /// address.
    pub fn pool(&self) -> (pool: &NodePool)
        ensures
            *pool == self.spec_pool(),
            AuriaAgent::<R>::pool_of(pool@, self.spec_config()),
    {
        proof {
            use_type_invariant(self);
        }
        &self.pool
    }

    /// The verdict of a connectivity check on the outcomes of its health
    /// probes, one per worker. Probing is best effort: the check succeeds
    /// whatever the probes found.
    pub fn check_nodes(&self, probes: &Vec<Result<(), NodeError>>) -> (r: Result<(), AgentError>)
        ensures
            r is Ok,
    {
        let _ = probes;
        Ok(())
    }

    /// The first steps of the pipeline: resolves the tier, lets the policy
    /// decide, and flattens the conversation. Gives what to ask of a worker,
    /// or the policy's denial.
    pub fn prepare(&self, request: &ChatCompletionRequest) -> (r: Result<
        NodeGenerateRequest,
        AgentError,
    >)
        ensures
            r matches Ok(ask) && ask@ == self.worker_request(request@),
    {
        proof {
            use_type_invariant(self);
        }
        let requested = match parse_model_tier(request.model.as_str()) {
            Some(tier) => Some(tier),
            None => Some(self.cfg.default_tier),
        };
        let decision = self.policy.decide(requested, request.max_tokens);
        match enforce(&decision) {
            Ok(()) => {},
            Err(e) => {
                return Err(e);
            },
        }
        let prompt = messages_to_prompt(request.messages.as_slice());
        Ok(NodeGenerateRequest { tier: decision.tier, prompt, max_tokens: decision.max_tokens })
    }

    /// The worker that the routing strategy selects for `tier`: the raw
    /// index that the router picks, resolved by the pool.
    pub fn select_node(&self, tier: Tier) -> (node: &NodeClient)
        ensures
            self.spec_pool()@.contains(*node),
    {
        let idx = self.router.pick(tier);
        let node = self.pool.get(idx);
        assert(self.pool@[self.pool.slot(idx as int)] == *node);
        node
    }

    /// Serves one chat-completion request in a single attempt: prepares the
    /// worker request, selects a worker, asks it, and assembles the response
    /// under a new identifier and the current time. The response echoes the
    /// model identifier.
    pub fn chat_completions(&self, request: ChatCompletionRequest) -> (r: Result<
        ChatCompletionResponse,
        AgentError,
    >)
        ensures
            r matches Ok(response) && is_response_id(response@.id) && response@ == completion(
                request@.model,
                stub_reply(self.worker_request(request@)),
                response@.id,
                response@.created,
            ),
    {
        let ask = match self.prepare(&request) {
            Ok(ask) => ask,
            Err(e) => {
                return Err(e);
            },
        };
        let node = self.select_node(ask.tier);
        let outcome = node.generate(ask);
        let created = unix_now();
        complete(request.model, outcome, new_id(), created)
    }
}

impl AuriaAgent<RoundRobinRouter> {
    /// Builds an agent from `cfg` that routes round-robin.
    pub fn new(cfg: AppConfig) -> (r: Result<AuriaAgent<RoundRobinRouter>, AgentError>)
        ensures
            AuriaAgent::<RoundRobinRouter>::started(cfg, r),
    {
        AuriaAgent::with_router(cfg, RoundRobinRouter::default())
    }
}

} // verus!
