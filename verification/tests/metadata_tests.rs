use token_meta::errors::TokenError;
use token_meta::metadata::{
    assemble_token_metadata, extract_metadata_fields, parse_response, MetadataFields,
};

fn fields_of(body: &str) -> MetadataFields {
    let doc = parse_response(200, body).expect("body should parse");
    extract_metadata_fields(&doc)
}

#[test]
fn full_document_extracts_every_field() {
    let body = "{\"result\":{\"content\":{\"metadata\":{\"name\":\"Foo\",\"symbol\":\"FOO\"},\"links\":{\"external_url\":\"https://foo.example/home\"}},\"supply\":{\"print_current_supply\":42},\"authorities\":[{\"address\":\"auth111\"}]}}";
    let f = fields_of(body);
    assert_eq!(f.name.as_deref(), Some("Foo"));
    assert_eq!(f.symbol.as_deref(), Some("FOO"));
    assert_eq!(f.supply, Some(42));
    assert_eq!(f.website.as_deref(), Some("https://foo.example/home"));
    assert_eq!(f.update_authority.as_deref(), Some("auth111"));
}

#[test]
fn fixed_body_with_name_foo_yields_name_foo() {
    let body = "{\"result\":{\"content\":{\"metadata\":{\"name\":\"Foo\"}}}}";
    let doc = parse_response(200, body).expect("success status and valid body");
    let f = extract_metadata_fields(&doc);
    assert_eq!(f.name.as_deref(), Some("Foo"));
}

#[test]
fn omitted_fields_are_absent_not_defaulted() {
    let f = fields_of("{\"result\":{\"content\":{\"metadata\":{\"symbol\":\"S\"}}}}");
    assert_eq!(f.name, None);
    assert_eq!(f.symbol.as_deref(), Some("S"));
    assert_eq!(f.supply, None);
    assert_eq!(f.website, None);
    assert_eq!(f.update_authority, None);
}

#[test]
fn empty_document_extracts_nothing() {
    let f = fields_of("{}");
    assert_eq!(f.name, None);
    assert_eq!(f.symbol, None);
    assert_eq!(f.supply, None);
    assert_eq!(f.website, None);
    assert_eq!(f.update_authority, None);
}

#[test]
fn wrongly_typed_fields_are_absent() {
    let body = "{\"result\":{\"content\":{\"metadata\":{\"name\":7}},\"supply\":{\"print_current_supply\":\"many\"},\"authorities\":[]}}";
    let f = fields_of(body);
    assert_eq!(f.name, None);
    assert_eq!(f.supply, None);
    assert_eq!(f.update_authority, None);
}

#[test]
fn negative_supply_is_absent() {
    let f = fields_of("{\"result\":{\"supply\":{\"print_current_supply\":-3}}}");
    assert_eq!(f.supply, None);
}

#[test]
fn non_success_status_is_api_error_with_status_and_body() {
    match parse_response(503, "overloaded") {
        Err(TokenError::Api(status, body)) => {
            assert_eq!(status, 503);
            assert_eq!(body, "overloaded");
        }
        other => panic!("expected an Api error, got {:?}", other.is_ok()),
    }
}

#[test]
fn malformed_body_is_parse_error() {
    assert!(matches!(parse_response(200, "not json"), Err(TokenError::Parse)));
}

#[test]
fn success_status_with_valid_body_is_ok() {
    assert!(parse_response(204, "[1,2]").is_ok());
    assert!(parse_response(299, "null").is_ok());
    assert!(parse_response(300, "null").is_err());
    assert!(parse_response(199, "null").is_err());
}

#[test]
fn assemble_sets_address_to_input_token() {
    let f = fields_of("{}");
    let m = assemble_token_metadata("tok123", f, None);
    assert_eq!(m.address.as_deref(), Some("tok123"));
    assert_eq!(m.name, None);
    assert_eq!(m.num_dns_records, None);
    assert_eq!(m.dns_records, None);
}

#[test]
fn assemble_fills_both_dns_fields_together() {
    let f = fields_of(
        "{\"result\":{\"content\":{\"links\":{\"external_url\":\"https://x.y\"}}}}",
    );
    let records = vec![String::from("1.2.3.4"), String::from("::1")];
    let m = assemble_token_metadata("t", f, Some(records.clone()));
    assert_eq!(m.num_dns_records, Some(2));
    assert_eq!(m.dns_records, Some(records));
}

#[test]
fn assemble_derives_the_count_from_the_record_list() {
    let f = fields_of(
        "{\"result\":{\"content\":{\"links\":{\"external_url\":\"https://x.y\"}}}}",
    );
    let records = vec![String::from("9.9.9.9")];
    let m = assemble_token_metadata("t", f, Some(records));
    assert_eq!(m.num_dns_records, Some(1));
    assert_eq!(m.dns_records.as_ref().map(|r| r.len()), Some(1));
}

#[test]
fn assemble_without_dns_leaves_both_absent() {
    let f = fields_of("{\"result\":{\"content\":{\"links\":{\"external_url\":\"x.y\"}}}}");
    let m = assemble_token_metadata("t", f, None);
    assert_eq!(m.website.as_deref(), Some("x.y"));
    assert!(m.num_dns_records.is_none() && m.dns_records.is_none());
}
