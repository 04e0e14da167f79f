//! The handle of one worker node and the messages exchanged with it.

use crate::models::Tier;
use crate::text::texts;
use url::{ParseError, Url};
use vstd::prelude::*;

verus! {

/// The error with which the `url` crate refuses a text.
#[verifier::external_type_specification]
#[verifier::external_body]
pub struct ExParseError(url::ParseError);

/// What `url::Url::parse` makes of `input`: the parsed URL in its serialized
/// form, or `None` where it refuses the text.
pub uninterp spec fn url_parse(input: Seq<char>) -> Option<Seq<char>>;

/// What `url::Url::join` makes of `reference` relative to the URL that `base`
/// is parsed to: the resulting URL in its serialized form, or `None` where
/// `base` or the reference is refused.
pub uninterp spec fn url_join(base: Seq<char>, reference: Seq<char>) -> Option<Seq<char>>;

/// Parses `input` as an absolute URL with `url::Url::parse`, and hands the
/// URL back as text (`String::from`). Trusted: that the outcome is a function
/// of `input` alone, named `url_parse`.
#[verifier::external_body]
fn parse_url(input: &str) -> (r: Result<String, ParseError>)
    ensures
        match r {
            Ok(text) => url_parse(input@) == Some(text@),
            Err(_) => url_parse(input@) is None,
        },
{
    Url::parse(input).map(String::from)
}

/// Resolves `reference` against `base` with `url::Url::join`, after turning
/// `base` into a URL with `url::Url::parse`, and hands the URL back as text.
/// Trusted: that the outcome is a function of the two texts alone, named
/// `url_join`.
#[verifier::external_body]
fn join_url(base: &str, reference: &str) -> (r: Result<String, ParseError>)
    ensures
        match r {
            Ok(text) => url_join(base@, reference@) == Some(text@),
            Err(_) => url_join(base@, reference@) is None,
        },
{
    Url::parse(base)?.join(reference).map(String::from)
}

/// Why a worker could not be used.
#[derive(Debug, PartialEq, Eq)]
pub enum NodeError {
    /// A text is no URL.
    InvalidUrl(ParseError),
    /// The worker could not be reached.
    Unreachable(String),
    /// The worker answered with a status that is no success.
    Status(u16),
}

/// A request to a worker.
#[derive(Clone, Debug)]
pub struct NodeGenerateRequest {
    pub tier: Tier,
    pub prompt: String,
    pub max_tokens: u32,
}

/// What a `NodeGenerateRequest` holds.
pub struct NodeGenerateRequestView {
    pub tier: Tier,
    pub prompt: Seq<char>,
    pub max_tokens: u32,
}

impl View for NodeGenerateRequest {
    type V = NodeGenerateRequestView;

    open spec fn view(&self) -> NodeGenerateRequestView {
        NodeGenerateRequestView {
            tier: self.tier,
            prompt: self.prompt@,
            max_tokens: self.max_tokens,
        }
    }
}

/// The reply of a worker: text fragments in order, and their count as the
/// worker reports it.
#[derive(Clone, Debug)]
pub struct NodeGenerateResponse {
    pub tokens: Vec<String>,
    pub tokens_generated: u32,
}

/// What a `NodeGenerateResponse` holds.
pub struct NodeGenerateResponseView {
    pub tokens: Seq<Seq<char>>,
    pub tokens_generated: u32,
}

impl View for NodeGenerateResponse {
    type V = NodeGenerateResponseView;

    open spec fn view(&self) -> NodeGenerateResponseView {
        NodeGenerateResponseView {
            tokens: texts(self.tokens@),
            tokens_generated: self.tokens_generated,
        }
    }
}

/// The path of the health probe, relative to a worker's base address.
pub open spec fn health_path() -> Seq<char> {
    seq!['h', 'e', 'a', 'l', 't', 'h', 'z']
}

/// What ends the placeholder reply.
pub open spec fn stub_suffix() -> Seq<char> {
    seq![' ', '(', 's', 't', 'u', 'b', 'b', 'e', 'd', ')']
}

/// The placeholder reply to `request`: the tier's label in square brackets
/// and a space, the prompt as it came, and a closing remark; reported as
/// three tokens.
pub open spec fn stub_reply(request: NodeGenerateRequestView) -> NodeGenerateResponseView {
    NodeGenerateResponseView {
        tokens: seq![
            seq!['['] + request.tier.label() + seq![']', ' '],
            request.prompt,
            stub_suffix(),
        ],
        tokens_generated: 3,
    }
}

/// Whether a status code stands for success: 200 to 299.
pub open spec fn is_success(status: u16) -> bool {
    200 <= status < 300
}

/// The handle of one worker, identified by its base address. It does not
/// change once made.
#[derive(Clone, Debug)]
pub struct NodeClient {
    base: String,
}

impl NodeClient {
    /// The worker's base address: a URL in serialized form.
    pub closed spec fn address(&self) -> Seq<char> {
        self.base@
    }

    /// A handle for the worker at `base`, which must be an absolute URL.
    pub fn new(base: &str) -> (r: Result<NodeClient, NodeError>)
        ensures
            match r {
                Ok(node) => url_parse(base@) == Some(node.address()),
                Err(e) => url_parse(base@) is None && e is InvalidUrl,
            },
    {
        match parse_url(base) {
            Ok(text) => Ok(NodeClient { base: text }),
            Err(e) => Err(NodeError::InvalidUrl(e)),
        }
    }

    /// The worker's base address.
    pub fn base(&self) -> (r: &str)
        ensures
            r@ == self.address(),
    {
        self.base.as_str()
    }

    /// The address of the worker's health probe: `healthz` relative to the
    /// base address.
    pub fn healthz_url(&self) -> (r: Result<String, NodeError>)
        ensures
            match r {
                Ok(text) => url_join(self.address(), health_path()) == Some(text@),
                Err(e) => url_join(self.address(), health_path()) is None && e is InvalidUrl,
            },
    {
        proof {
            reveal_strlit("healthz");
            assert("healthz"@ =~= health_path());
        }
        match join_url(self.base.as_str(), "healthz") {
            Ok(text) => Ok(text),
            Err(e) => Err(NodeError::InvalidUrl(e)),
        }
    }

    /// Judges the reply to a health probe by its status code: the worker is
    /// healthy exactly if the status is a success.
    pub fn healthz(&self, status: u16) -> (r: Result<(), NodeError>)
        ensures
            is_success(status) ==> r is Ok,
            !is_success(status) ==> r == Err::<(), NodeError>(NodeError::Status(status)),
    {
        if 200 <= status && status < 300 {
            Ok(())
        } else {
            Err(NodeError::Status(status))
        }
    }

    /// Asks the worker to generate for `request`. No exchange with a remote
    /// worker takes place yet: the reply is the local placeholder
    /// `stub_reply`, so the call succeeds for every request.
    pub fn generate(&self, request: NodeGenerateRequest) -> (r: Result<
        NodeGenerateResponse,
        NodeError,
    >)
        ensures
            r matches Ok(reply) && reply@ == stub_reply(request@),
    {
        proof {
            reveal_strlit("[");
            reveal_strlit("] ");
            reveal_strlit(" (stubbed)");
            assert(" (stubbed)"@ =~= stub_suffix());
        }
        let head = String::from_str("[").concat(request.tier.label_str()).concat("] ");
        assert(head@ =~= seq!['['] + request.tier.label() + seq![']', ' ']);
        let mut tokens: Vec<String> = Vec::new();
        tokens.push(head);
        tokens.push(request.prompt);
        tokens.push(String::from_str(" (stubbed)"));
        let reply = NodeGenerateResponse { tokens, tokens_generated: 3 };
        assert(reply@.tokens =~= stub_reply(request@).tokens);
        Ok(reply)
    }
}

} // verus!
