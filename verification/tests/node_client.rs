//! Worker handles: addresses, health verdicts and the placeholder reply.

use auria::models::Tier;
use auria::node_client::{NodeClient, NodeError, NodeGenerateRequest};

fn node() -> NodeClient {
    NodeClient::new("http://127.0.0.1:8080").unwrap()
}

#[test]
fn new_normalises_the_address() {
    assert_eq!(node().base(), "http://127.0.0.1:8080/");
    assert_eq!(NodeClient::new("HTTP://Example.COM/a/../b").unwrap().base(), "http://example.com/b");
    assert_eq!(NodeClient::new("https://example.net:443/x/").unwrap().base(), "https://example.net/x/");
}

#[test]
fn new_refuses_what_is_no_absolute_url() {
    assert_eq!(
        NodeClient::new("not a url").err(),
        Some(NodeError::InvalidUrl(url::ParseError::RelativeUrlWithoutBase))
    );
    assert_eq!(
        NodeClient::new("").err(),
        Some(NodeError::InvalidUrl(url::ParseError::RelativeUrlWithoutBase))
    );
    assert_eq!(NodeClient::new("http://").err(), Some(NodeError::InvalidUrl(url::ParseError::EmptyHost)));
    assert_eq!(
        NodeClient::new("http://host:99999/").err(),
        Some(NodeError::InvalidUrl(url::ParseError::InvalidPort))
    );
}

#[test]
fn new_agrees_with_the_url_crate() {
    for s in ["http://127.0.0.1:8080", "https://a.b/c?d=e#f", "x", "", "ftp://h/p", "//h/p", "http://[::1]:1/"] {
        let expected = url::Url::parse(s).map(String::from);
        match (NodeClient::new(s), expected) {
            (Ok(n), Ok(text)) => assert_eq!(n.base(), text),
            (Err(NodeError::InvalidUrl(e)), Err(x)) => assert_eq!(e, x),
            (got, want) => panic!("{:?}: got {:?}, want {:?}", s, got, want),
        }
    }
}

#[test]
fn healthz_url_is_relative_to_the_base() {
    assert_eq!(node().healthz_url().unwrap(), "http://127.0.0.1:8080/healthz");
    assert_eq!(
        NodeClient::new("http://h/api/").unwrap().healthz_url().unwrap(),
        "http://h/api/healthz"
    );
    assert_eq!(
        NodeClient::new("http://h/api/v1").unwrap().healthz_url().unwrap(),
        "http://h/api/healthz"
    );
}

#[test]
fn healthz_url_fails_where_the_base_cannot_be_a_base() {
    let n = NodeClient::new("mailto:ops@example.com").unwrap();
    assert_eq!(
        n.healthz_url().err(),
        Some(NodeError::InvalidUrl(url::ParseError::RelativeUrlWithCannotBeABaseBase))
    );
}

#[test]
fn healthz_accepts_success_statuses_only() {
    let n = node();
    assert_eq!(n.healthz(200), Ok(()));
    assert_eq!(n.healthz(204), Ok(()));
    assert_eq!(n.healthz(299), Ok(()));
    assert_eq!(n.healthz(199), Err(NodeError::Status(199)));
    assert_eq!(n.healthz(300), Err(NodeError::Status(300)));
    assert_eq!(n.healthz(404), Err(NodeError::Status(404)));
    assert_eq!(n.healthz(500), Err(NodeError::Status(500)));
    assert_eq!(n.healthz(0), Err(NodeError::Status(0)));
    assert_eq!(n.healthz(u16::MAX), Err(NodeError::Status(u16::MAX)));
}

#[test]
fn generate_gives_the_placeholder_reply() {
    let reply = node()
        .generate(NodeGenerateRequest { tier: Tier::Standard, prompt: "user: hi\n".to_string(), max_tokens: 256 })
        .unwrap();
    assert_eq!(
        reply.tokens,
        vec!["[Standard] ".to_string(), "user: hi\n".to_string(), " (stubbed)".to_string()]
    );
    assert_eq!(reply.tokens_generated, 3);
}

#[test]
fn generate_quotes_each_tier_by_its_label() {
    for (tier, head) in [
        (Tier::Nano, "[Nano] "),
        (Tier::Standard, "[Standard] "),
        (Tier::Pro, "[Pro] "),
        (Tier::Max, "[Max] "),
    ] {
        let reply =
            node().generate(NodeGenerateRequest { tier, prompt: String::new(), max_tokens: 1 }).unwrap();
        assert_eq!(reply.tokens, vec![head.to_string(), String::new(), " (stubbed)".to_string()]);
        assert_eq!(reply.tokens_generated, 3);
        assert_eq!(head, format!("[{:?}] ", tier));
    }
}
