use token_meta::domain::{dns_query_host, extract_domain};
use token_meta::errors::TokenError;

#[test]
fn domain_with_scheme_and_path() {
    assert_eq!(extract_domain("https://example.com/page").unwrap(), "example.com");
}

#[test]
fn domain_without_scheme() {
    assert_eq!(extract_domain("example.org").unwrap(), "example.org");
}

#[test]
fn domain_without_scheme_with_path() {
    assert_eq!(extract_domain("example.org/a/b").unwrap(), "example.org");
}

#[test]
fn domain_with_scheme_no_path() {
    assert_eq!(extract_domain("http://a.b.c").unwrap(), "a.b.c");
}

#[test]
fn domain_empty_input_fails() {
    assert!(matches!(extract_domain(""), Err(TokenError::InvalidUrl)));
}

#[test]
fn domain_scheme_only_fails() {
    assert!(matches!(extract_domain("https://"), Err(TokenError::InvalidUrl)));
}

#[test]
fn domain_scheme_then_slash_fails() {
    assert!(matches!(extract_domain("https:///path"), Err(TokenError::InvalidUrl)));
}

#[test]
fn dns_host_of_valid_url() {
    assert_eq!(dns_query_host("https://solana.com/news"), "solana.com");
}

#[test]
fn dns_host_of_invalid_url_is_empty() {
    assert_eq!(dns_query_host("https://"), "");
}
