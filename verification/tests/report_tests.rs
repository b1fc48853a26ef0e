use token_meta::errors::TokenError;
use token_meta::metadata::TokenMetadata;
use token_meta::report::{
    describe_error, format_token_metadata, render_outcome, render_reports, TokenReport,
};

fn bare_metadata(token: &str) -> TokenMetadata {
    TokenMetadata {
        name: None,
        symbol: None,
        address: Some(String::from(token)),
        supply: None,
        website: None,
        num_dns_records: None,
        dns_records: None,
        update_authority: None,
    }
}

#[test]
fn report_defaults_for_absent_fields() {
    let lines = format_token_metadata(&bare_metadata("tok"));
    assert_eq!(
        lines,
        vec![
            String::from("\nToken Metadata:"),
            String::from("  Name: Unknown"),
            String::from("  Symbol: Unknown"),
            String::from("  Address: tok"),
            String::from("  Supply: 0"),
            String::from("  Website: Not available"),
            String::from("  Update Authority: Not available"),
            String::from("  Number of DNS Records: Not available"),
            String::from("--------------------------"),
        ],
    );
}

#[test]
fn report_lists_dns_records() {
    let mut m = bare_metadata("t");
    m.name = Some(String::from("Foo"));
    m.symbol = Some(String::from("FOO"));
    m.supply = Some(42);
    m.website = Some(String::from("https://foo.example"));
    m.update_authority = Some(String::from("auth"));
    m.num_dns_records = Some(2);
    m.dns_records = Some(vec![String::from("1.2.3.4"), String::from("5.6.7.8")]);
    let lines = format_token_metadata(&m);
    assert_eq!(
        lines,
        vec![
            String::from("\nToken Metadata:"),
            String::from("  Name: Foo"),
            String::from("  Symbol: FOO"),
            String::from("  Address: t"),
            String::from("  Supply: 42"),
            String::from("  Website: https://foo.example"),
            String::from("  Update Authority: auth"),
            String::from("  Number of DNS Records: 2"),
            String::from("  DNS Records:"),
            String::from("    1.2.3.4"),
            String::from("    5.6.7.8"),
            String::from("--------------------------"),
        ],
    );
}

#[test]
fn error_descriptions_name_the_cause() {
    assert_eq!(describe_error(&TokenError::InvalidUrl), "Invalid URL: Domain not found");
    assert_eq!(
        describe_error(&TokenError::Api(503, String::from("busy"))),
        "Request failed with status: 503. Response: busy",
    );
    assert_eq!(describe_error(&TokenError::Parse), "Malformed JSON response");
    assert_eq!(
        describe_error(&TokenError::Transport(String::from("refused"))),
        "Transport error: refused",
    );
    assert_eq!(
        describe_error(&TokenError::Dns(String::from("nxdomain"))),
        "Failed to lookup IP for domain: nxdomain",
    );
    assert_eq!(
        describe_error(&TokenError::Config(String::from("bad proxy"))),
        "Configuration error: bad proxy",
    );
}

#[test]
fn help_text_lists_every_option() {
    let lines = token_meta::args::help_lines();
    assert_eq!(lines.len(), 10);
    assert_eq!(lines[0], "Usage: your_app_name [OPTIONS]");
    assert_eq!(lines[9], "  -h, --help                Display this help message");
}

#[test]
fn failure_report_names_the_token() {
    let outcome: Result<TokenMetadata, TokenError> = Err(TokenError::Parse);
    match render_outcome("tok9", &outcome) {
        TokenReport::Failure(msg) => {
            assert_eq!(msg, "Error fetching metadata for token tok9: Malformed JSON response");
        }
        TokenReport::Success(_) => panic!("an error outcome must render as a failure"),
    }
}

#[test]
fn one_failed_token_leaves_the_rest_of_the_batch_reported() {
    let tokens = vec![String::from("a"), String::from("b"), String::from("c")];
    let outcomes = vec![
        Ok(bare_metadata("a")),
        Err(TokenError::Api(500, String::from("boom"))),
        Ok(bare_metadata("c")),
    ];
    let reports = render_reports(&tokens, &outcomes);
    assert_eq!(reports.len(), 3);
    let successes = reports.iter().filter(|r| matches!(r, TokenReport::Success(_))).count();
    let failures = reports.iter().filter(|r| matches!(r, TokenReport::Failure(_))).count();
    assert_eq!(successes, 2);
    assert_eq!(failures, 1);
    assert!(matches!(&reports[0], TokenReport::Success(_)));
    assert!(matches!(&reports[1], TokenReport::Failure(_)));
    assert!(matches!(&reports[2], TokenReport::Success(_)));
    match &reports[1] {
        TokenReport::Failure(msg) => assert_eq!(
            msg,
            "Error fetching metadata for token b: Request failed with status: 500. Response: boom",
        ),
        TokenReport::Success(_) => unreachable!(),
    }
}

#[test]
fn transport_failure_keeps_the_batch_going() {
    let tokens = vec![String::from("a"), String::from("b")];
    let outcomes = vec![
        Err(TokenError::Transport(String::from("proxy unreachable"))),
        Ok(bare_metadata("b")),
    ];
    let reports = render_reports(&tokens, &outcomes);
    assert_eq!(reports.len(), 2);
    assert!(matches!(&reports[0], TokenReport::Failure(_)));
    assert!(matches!(&reports[1], TokenReport::Success(_)));
}
