use token_meta::numfmt::{parse_usize, u64_to_string};
use token_meta::request::{build_request_body, resolve_api_url};
use token_meta::useragent::{generate_random_user_agent, select_user_agent, user_agent_pool};

#[test]
fn request_body_is_the_json_rpc_shape() {
    assert_eq!(
        build_request_body("abc"),
        "{\"id\":\"abc\",\"jsonrpc\":\"2.0\",\"method\":\"getAsset\",\"params\":{\"id\":\"abc\"}}",
    );
}

#[test]
fn request_body_escapes_quotes_and_backslashes() {
    let body = build_request_body("a\"b\\c");
    assert_eq!(
        body,
        "{\"id\":\"a\\\"b\\\\c\",\"jsonrpc\":\"2.0\",\"method\":\"getAsset\",\"params\":{\"id\":\"a\\\"b\\\\c\"}}",
    );
    let parsed: serde_json::Value = serde_json::from_str(&body).expect("escaped body parses");
    assert_eq!(parsed["id"].as_str(), Some("a\"b\\c"));
    assert_eq!(parsed["params"]["id"].as_str(), Some("a\"b\\c"));
}

#[test]
fn request_body_escapes_control_characters() {
    let body = build_request_body("a\nb\tc");
    let parsed: serde_json::Value = serde_json::from_str(&body).expect("escaped body parses");
    assert_eq!(parsed["id"].as_str(), Some("a\nb\tc"));
}

#[test]
fn api_url_default_and_override() {
    assert_eq!(resolve_api_url(None), "https://explorer-api.mainnet-beta.solana.com/");
    assert_eq!(
        resolve_api_url(Some(String::from("http://localhost:8080"))),
        "http://localhost:8080",
    );
}

#[test]
fn decimal_rendering_is_exact() {
    assert_eq!(u64_to_string(0), "0");
    assert_eq!(u64_to_string(7), "7");
    assert_eq!(u64_to_string(12345), "12345");
    assert_eq!(u64_to_string(u64::MAX), "18446744073709551615");
}

#[test]
fn decimal_parsing_is_exact() {
    assert_eq!(parse_usize("4"), Some(4));
    assert_eq!(parse_usize("0"), Some(0));
    assert_eq!(parse_usize("007"), Some(7));
    assert_eq!(parse_usize(""), None);
    assert_eq!(parse_usize("12x"), None);
    assert_eq!(parse_usize("-3"), None);
    assert_eq!(parse_usize("99999999999999999999999999"), None);
}

#[test]
fn a_draw_selects_its_pool_element() {
    let pool = user_agent_pool();
    assert_eq!(select_user_agent(0), pool[0]);
    assert_eq!(select_user_agent(3), pool[3]);
    assert_eq!(select_user_agent(7), pool[2]);
    assert_eq!(select_user_agent(usize::MAX), pool[usize::MAX % 5]);
}

#[test]
fn user_agents_come_from_the_fixed_pool() {
    let pool = user_agent_pool();
    assert_eq!(pool.len(), 5);
    let mut seen = [false; 5];
    for _ in 0..1000 {
        let ua = generate_random_user_agent();
        let idx = pool.iter().position(|p| *p == ua).expect("agent must be from the pool");
        seen[idx] = true;
    }
    let distinct = seen.iter().filter(|s| **s).count();
    assert!(distinct > 1, "a thousand draws should see more than one agent");
}
