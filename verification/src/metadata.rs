use vstd::prelude::*;
use crate::errors::TokenError;
use crate::json::{
    get_field, get_key, json_model_of, json_wf, opt_get, opt_index, opt_str, opt_u64, parse_json,
    JsonValue,
};

verus! {

/// The metadata record assembled for one token. Every field but `address` is
/// present only when the upstream response carried it; `address` is the input
/// token whenever the fetch itself succeeded. `num_dns_records` and
/// `dns_records` are present or absent together.
pub struct TokenMetadata {
    pub name: Option<String>,
    pub symbol: Option<String>,
    pub address: Option<String>,
    pub supply: Option<u64>,
    pub website: Option<String>,
    pub num_dns_records: Option<usize>,
    pub dns_records: Option<Vec<String>>,
    pub update_authority: Option<String>,
}

/// The DNS fields are both present or both absent, never one without the
/// other.
pub open spec fn dns_consistent(m: TokenMetadata) -> bool {
    m.num_dns_records is Some <==> m.dns_records is Some
}

/// The fields read defensively out of the response document, before DNS
/// enrichment.
pub struct MetadataFields {
    pub name: Option<String>,
    pub symbol: Option<String>,
    pub supply: Option<u64>,
    pub website: Option<String>,
    pub update_authority: Option<String>,
}

/// An optional borrowed value, seen as an optional value.
pub open spec fn view_opt(o: Option<&JsonValue>) -> Option<JsonValue> {
    match o {
        Some(v) => Some(*v),
        None => None,
    }
}

/// The `result` member of the response document.
pub open spec fn spec_result(doc: JsonValue) -> Option<JsonValue> {
    get_key(doc, "result"@)
}

/// The `result.content` member.
pub open spec fn spec_content(doc: JsonValue) -> Option<JsonValue> {
    opt_get(spec_result(doc), "content"@)
}

/// `result.content.metadata.name`, when the path exists and ends in a string.
pub open spec fn spec_name(doc: JsonValue) -> Option<Seq<char>> {
    opt_str(opt_get(opt_get(spec_content(doc), "metadata"@), "name"@))
}

/// `result.content.metadata.symbol`, when the path exists and ends in a
/// string.
pub open spec fn spec_symbol(doc: JsonValue) -> Option<Seq<char>> {
    opt_str(opt_get(opt_get(spec_content(doc), "metadata"@), "symbol"@))
}

/// `result.supply.print_current_supply`, when the path exists and ends in an
/// unsigned integer.
pub open spec fn spec_supply(doc: JsonValue) -> Option<u64> {
    opt_u64(opt_get(opt_get(spec_result(doc), "supply"@), "print_current_supply"@))
}

/// `result.content.links.external_url`, when the path exists and ends in a
/// string.
pub open spec fn spec_website(doc: JsonValue) -> Option<Seq<char>> {
    opt_str(opt_get(opt_get(spec_content(doc), "links"@), "external_url"@))
}

/// `result.authorities[0].address`, when the path exists and ends in a
/// string.
pub open spec fn spec_update_authority(doc: JsonValue) -> Option<Seq<char>> {
    opt_str(opt_get(opt_index(opt_get(spec_result(doc), "authorities"@), 0), "address"@))
}

fn opt_field<'a>(o: Option<&'a JsonValue>, key: &str) -> (r: Option<&'a JsonValue>)
    ensures
        view_opt(r) == opt_get(view_opt(o), key@),
{
    match o {
        Some(v) => get_field(v, key),
        None => None,
    }
}

fn opt_str_clone(o: Option<&JsonValue>) -> (r: Option<String>)
    ensures
        r.deep_view() == opt_str(view_opt(o)),
{
    match o {
        Some(JsonValue::Str(s)) => Some(s.clone()),
        _ => None,
    }
}

fn opt_u64_read(o: Option<&JsonValue>) -> (r: Option<u64>)
    ensures
        r == opt_u64(view_opt(o)),
{
    match o {
        Some(JsonValue::UInt(n)) => Some(*n),
        _ => None,
    }
}

fn opt_first<'a>(o: Option<&'a JsonValue>) -> (r: Option<&'a JsonValue>)
    ensures
        view_opt(r) == opt_index(view_opt(o), 0),
{
    match o {
        Some(JsonValue::Arr(a)) => if a.len() > 0 {
            Some(&a[0])
        } else {
            None
        },
        _ => None,
    }
}

/// Reads the metadata fields defensively out of a response document: each
/// field is present exactly when its path exists in the document and holds a
/// value of the expected kind. Absence of any field is not an error.
pub fn extract_metadata_fields(doc: &JsonValue) -> (r: MetadataFields)
    ensures
        r.name.deep_view() == spec_name(*doc),
        r.symbol.deep_view() == spec_symbol(*doc),
        r.supply == spec_supply(*doc),
        r.website.deep_view() == spec_website(*doc),
        r.update_authority.deep_view() == spec_update_authority(*doc),
{
    let result = get_field(doc, "result");
    let content = opt_field(result, "content");
    let meta = opt_field(content, "metadata");
    let links = opt_field(content, "links");
    let supply_obj = opt_field(result, "supply");
    let authorities = opt_field(result, "authorities");
    MetadataFields {
        name: opt_str_clone(opt_field(meta, "name")),
        symbol: opt_str_clone(opt_field(meta, "symbol")),
        supply: opt_u64_read(opt_field(supply_obj, "print_current_supply")),
        website: opt_str_clone(opt_field(links, "external_url")),
        update_authority: opt_str_clone(opt_field(opt_first(authorities), "address")),
    }
}

/// True for the HTTP status codes that count as success.
pub open spec fn is_success(status: u16) -> bool {
    200 <= status < 300
}

/// Classifies an HTTP response and parses its body: a non-success status is
/// an `Api` error carrying the status and the raw body; a success status with
/// a malformed JSON body is a `Parse` error; otherwise the parsed document is
/// returned.
pub fn parse_response(status: u16, body: &str) -> (r: Result<JsonValue, TokenError>)
    ensures
        r is Ok <==> (is_success(status) && json_wf(body@)),
        match r {
            Ok(doc) => is_success(status) && json_wf(body@) && doc == json_model_of(body@),
            Err(e) => match e {
                TokenError::Api(s, b) => !is_success(status) && s == status && b@ == body@,
                TokenError::Parse => is_success(status) && !json_wf(body@),
                _ => false,
            },
        },
{
    if !(200 <= status && status < 300) {
        return Err(TokenError::Api(status, body.to_owned()));
    }
    match parse_json(body) {
        Some(doc) => Ok(doc),
        None => Err(TokenError::Parse),
    }
}

/// The DNS record count, when present, is exactly the length of the record
/// list.
pub open spec fn dns_count_exact(m: TokenMetadata) -> bool {
    match m.dns_records {
        Some(rs) => m.num_dns_records matches Some(c) && c == rs@.len(),
        None => m.num_dns_records is None,
    }
}

/// Assembles the metadata record for one token: the extracted fields carry
/// over unchanged, `address` is always the input token, and the DNS pair is
/// filled from the resolved record list, both fields together or neither,
/// with the count taken from the list itself. DNS data is only ever handed in
/// for a discovered website, so a record with DNS data always has one.
pub fn assemble_token_metadata(
    token: &str,
    fields: MetadataFields,
    dns: Option<Vec<String>>,
) -> (m: TokenMetadata)
    requires
        dns is Some ==> fields.website is Some,
    ensures
        m.name == fields.name,
        m.symbol == fields.symbol,
        m.supply == fields.supply,
        m.website == fields.website,
        m.update_authority == fields.update_authority,
        m.address matches Some(a) && a@ == token@,
        match dns {
            Some(rs) => m.dns_records == Some(rs) && (m.num_dns_records matches Some(c) && c
                == rs@.len()),
            None => m.num_dns_records is None && m.dns_records is None,
        },
        dns_consistent(m),
        dns_count_exact(m),
        m.dns_records is Some ==> m.website is Some,
{
    let (num_dns_records, dns_records) = match dns {
        Some(rs) => {
            let c = rs.len();
            (Some(c), Some(rs))
        },
        None => (None, None),
    };
    TokenMetadata {
        name: fields.name,
        symbol: fields.symbol,
        address: Some(token.to_owned()),
        supply: fields.supply,
        website: fields.website,
        num_dns_records,
        dns_records,
        update_authority: fields.update_authority,
    }
}

} // verus!
