use vstd::prelude::*;
use crate::errors::TokenError;
use crate::metadata::TokenMetadata;
use crate::numfmt::{spec_u64_string, u64_to_string};
use crate::strutil::lemma_vec_string_deep_view;

verus! {

/// A string field of the report, or `"Unknown"` when absent.
pub open spec fn or_unknown(o: Option<String>) -> Seq<char> {
    match o {
        Some(s) => s@,
        None => "Unknown"@,
    }
}

/// A string field of the report, or `"Not available"` when absent.
pub open spec fn or_not_available(o: Option<String>) -> Seq<char> {
    match o {
        Some(s) => s@,
        None => "Not available"@,
    }
}

/// The printed report for one metadata record, line by line: the header, one
/// line per field with its default when the field is absent, the DNS record
/// lines when DNS data is present, and the trailing rule.
pub open spec fn spec_report_lines(m: TokenMetadata) -> Seq<Seq<char>> {
    seq![
        "\nToken Metadata:"@,
        "  Name: "@ + or_unknown(m.name),
        "  Symbol: "@ + or_unknown(m.symbol),
        "  Address: "@ + or_unknown(m.address),
        "  Supply: "@ + spec_u64_string(match m.supply {
            Some(n) => n as int,
            None => 0,
        }),
        "  Website: "@ + or_not_available(m.website),
        "  Update Authority: "@ + or_not_available(m.update_authority),
    ] + (match m.num_dns_records {
        Some(c) => seq!["  Number of DNS Records: "@ + spec_u64_string(c as int)] + (
        match m.dns_records {
            Some(rs) => seq!["  DNS Records:"@] + rs@.map(|i: int, rec: String| "    "@ + rec@),
            None => Seq::<Seq<char>>::empty(),
        }),
        None => seq!["  Number of DNS Records: Not available"@],
    }) + seq!["--------------------------"@]
}

fn or_unknown_str<'a>(o: &'a Option<String>) -> (r: &'a str)
    ensures
        r@ == or_unknown(*o),
{
    match o {
        Some(s) => s.as_str(),
        None => "Unknown",
    }
}

fn or_not_available_str<'a>(o: &'a Option<String>) -> (r: &'a str)
    ensures
        r@ == or_not_available(*o),
{
    match o {
        Some(s) => s.as_str(),
        None => "Not available",
    }
}

/// Renders one metadata record as its printed report lines.
pub fn format_token_metadata(m: &TokenMetadata) -> (r: Vec<String>)
    ensures
        r.deep_view() == spec_report_lines(*m),
{
    let ghost target = spec_report_lines(*m);
    let mut lines: Vec<String> = Vec::new();
    lines.push(String::from_str("\nToken Metadata:"));
    lines.push(String::from_str("  Name: ").concat(or_unknown_str(&m.name)));
    lines.push(String::from_str("  Symbol: ").concat(or_unknown_str(&m.symbol)));
    lines.push(String::from_str("  Address: ").concat(or_unknown_str(&m.address)));
    let supply: u64 = match &m.supply {
        Some(n) => *n,
        None => 0,
    };
    lines.push(String::from_str("  Supply: ").concat(u64_to_string(supply).as_str()));
    lines.push(String::from_str("  Website: ").concat(or_not_available_str(&m.website)));
    lines.push(
        String::from_str("  Update Authority: ").concat(or_not_available_str(&m.update_authority)),
    );
    proof {
        assert(forall|j: int| 0 <= j < 7 ==> lines@[j]@ == target[j]);
    }
    match &m.num_dns_records {
        Some(c) => {
            lines.push(
                String::from_str("  Number of DNS Records: ").concat(
                    u64_to_string(*c as u64).as_str(),
                ),
            );
            match &m.dns_records {
                Some(rs) => {
                    lines.push(String::from_str("  DNS Records:"));
                    let n = rs.len();
                    let mut k: usize = 0;
                    while k < n
                        invariant
                            n == rs@.len(),
                            k <= n,
                            target == spec_report_lines(*m),
                            m.num_dns_records is Some,
                            m.dns_records == Some(*rs),
                            lines@.len() == 9 + k,
                            forall|j: int| 0 <= j < lines@.len() ==> lines@[j]@ == target[j],
                        decreases n - k,
                    {
                        lines.push(String::from_str("    ").concat(rs[k].as_str()));
                        proof {
                            assert(target[9 + k as int] == "    "@ + rs@[k as int]@);
                        }
                        k = k + 1;
                    }
                },
                None => {},
            }
        },
        None => {
            lines.push(String::from_str("  Number of DNS Records: Not available"));
        },
    }
    lines.push(String::from_str("--------------------------"));
    proof {
        lemma_vec_string_deep_view(lines);
        assert(lines@.len() == target.len());
        assert(lines.deep_view() =~~= target);
    }
    lines
}

/// The diagnostic text for an error.
pub open spec fn spec_describe(e: TokenError) -> Seq<char> {
    match e {
        TokenError::InvalidUrl => "Invalid URL: Domain not found"@,
        TokenError::Transport(msg) => "Transport error: "@ + msg@,
        TokenError::Api(st, body) => "Request failed with status: "@ + spec_u64_string(st as int)
            + ". Response: "@ + body@,
        TokenError::Parse => "Malformed JSON response"@,
        TokenError::Dns(msg) => "Failed to lookup IP for domain: "@ + msg@,
        TokenError::Config(msg) => "Configuration error: "@ + msg@,
    }
}

/// Renders an error as its diagnostic text.
pub fn describe_error(e: &TokenError) -> (r: String)
    ensures
        r@ == spec_describe(*e),
{
    match e {
        TokenError::InvalidUrl => String::from_str("Invalid URL: Domain not found"),
        TokenError::Transport(msg) => String::from_str("Transport error: ").concat(msg.as_str()),
        TokenError::Api(st, body) => String::from_str("Request failed with status: ").concat(
            u64_to_string(*st as u64).as_str(),
        ).concat(". Response: ").concat(body.as_str()),
        TokenError::Parse => String::from_str("Malformed JSON response"),
        TokenError::Dns(msg) => String::from_str("Failed to lookup IP for domain: ").concat(
            msg.as_str(),
        ),
        TokenError::Config(msg) => String::from_str("Configuration error: ").concat(msg.as_str()),
    }
}

/// The per-token diagnostic naming the token and the error.
pub open spec fn spec_error_line(token: Seq<char>, e: TokenError) -> Seq<char> {
    "Error fetching metadata for token "@ + token + ": "@ + spec_describe(e)
}

/// What the pipeline prints for one token: a success report or one error
/// diagnostic.
pub enum TokenReport {
    Success(Vec<String>),
    Failure(String),
}

/// The pipeline's decision for one token, given the fetch outcome: a success
/// prints the formatted report, a failure prints one diagnostic naming the
/// token, and the batch goes on either way.
pub fn render_outcome(token: &str, outcome: &Result<TokenMetadata, TokenError>) -> (r: TokenReport)
    ensures
        r is Success <==> outcome is Ok,
        match *outcome {
            Ok(m) => r matches TokenReport::Success(ls) && ls.deep_view() == spec_report_lines(m),
            Err(e) => r matches TokenReport::Failure(msg) && msg@ == spec_error_line(token@, e),
        },
{
    match outcome {
        Ok(m) => TokenReport::Success(format_token_metadata(m)),
        Err(e) => TokenReport::Failure(
            String::from_str("Error fetching metadata for token ").concat(token).concat(": ")
                .concat(describe_error(e).as_str()),
        ),
    }
}

/// Number of successful outcomes in a batch.
pub open spec fn count_ok(s: Seq<Result<TokenMetadata, TokenError>>) -> int
    decreases s.len(),
{
    if s.len() == 0 {
        0
    } else {
        count_ok(s.drop_first()) + if s[0] is Ok {
            1int
        } else {
            0int
        }
    }
}

/// Number of success reports in a rendered batch.
pub open spec fn count_success(s: Seq<TokenReport>) -> int
    decreases s.len(),
{
    if s.len() == 0 {
        0
    } else {
        count_success(s.drop_first()) + if s[0] is Success {
            1int
        } else {
            0int
        }
    }
}

/// Number of failure diagnostics in a rendered batch.
pub open spec fn count_failure(s: Seq<TokenReport>) -> int
    decreases s.len(),
{
    if s.len() == 0 {
        0
    } else {
        count_failure(s.drop_first()) + if s[0] is Failure {
            1int
        } else {
            0int
        }
    }
}

/// Every report is a success or a failure, so the two counts partition the
/// batch.
pub proof fn lemma_counts_partition(s: Seq<TokenReport>)
    ensures
        count_success(s) + count_failure(s) == s.len(),
    decreases s.len(),
{
    if s.len() > 0 {
        lemma_counts_partition(s.drop_first());
    }
}

/// A rendered batch has exactly as many success reports as the batch had
/// successful fetches: one report per token, a success report exactly for the
/// successful ones.
pub proof fn lemma_batch_counts(
    outcomes: Seq<Result<TokenMetadata, TokenError>>,
    reports: Seq<TokenReport>,
)
    requires
        reports.len() == outcomes.len(),
        forall|i: int| 0 <= i < outcomes.len() ==> (reports[i] is Success <==> outcomes[i] is Ok),
    ensures
        count_success(reports) == count_ok(outcomes),
    decreases outcomes.len(),
{
    if outcomes.len() > 0 {
        assert forall|i: int| 0 <= i < outcomes.drop_first().len() implies
            (reports.drop_first()[i] is Success <==> outcomes.drop_first()[i] is Ok) by {
            assert(reports.drop_first()[i] == reports[i + 1]);
            assert(outcomes.drop_first()[i] == outcomes[i + 1]);
        }
        lemma_batch_counts(outcomes.drop_first(), reports.drop_first());
    }
}

/// A batch in which every fetch but one succeeded renders to exactly one
/// failure diagnostic and a success report for every other token.
pub proof fn lemma_single_failure(
    outcomes: Seq<Result<TokenMetadata, TokenError>>,
    reports: Seq<TokenReport>,
)
    requires
        reports.len() == outcomes.len(),
        forall|i: int| 0 <= i < outcomes.len() ==> (reports[i] is Success <==> outcomes[i] is Ok),
        count_ok(outcomes) == outcomes.len() - 1,
    ensures
        count_success(reports) == reports.len() - 1,
        count_failure(reports) == 1,
{
    lemma_batch_counts(outcomes, reports);
    lemma_counts_partition(reports);
}

/// The report that a rendered batch holds for one token: the formatted
/// metadata when the fetch succeeded, the diagnostic naming the token when it
/// failed.
pub open spec fn report_matches(
    token: String,
    outcome: Result<TokenMetadata, TokenError>,
    rep: TokenReport,
) -> bool {
    match outcome {
        Ok(m) => rep matches TokenReport::Success(ls) && ls.deep_view() == spec_report_lines(m),
        Err(e) => rep matches TokenReport::Failure(msg) && msg@ == spec_error_line(token@, e),
    }
}

/// Renders a whole batch, one report per token, in input order; a failed
/// token yields its diagnostic and never stops the tokens after it.
pub fn render_reports(
    tokens: &Vec<String>,
    outcomes: &Vec<Result<TokenMetadata, TokenError>>,
) -> (r: Vec<TokenReport>)
    requires
        tokens@.len() == outcomes@.len(),
    ensures
        r@.len() == outcomes@.len(),
        forall|i: int| 0 <= i < r@.len() ==> (r@[i] is Success <==> outcomes@[i] is Ok),
        forall|i: int| 0 <= i < r@.len() ==> #[trigger] report_matches(
            tokens@[i],
            outcomes@[i],
            r@[i],
        ),
{
    let n = tokens.len();
    let mut r: Vec<TokenReport> = Vec::new();
    let mut i: usize = 0;
    while i < n
        invariant
            n == tokens@.len(),
            n == outcomes@.len(),
            i <= n,
            r@.len() == i,
            forall|j: int| 0 <= j < i ==> (r@[j] is Success <==> outcomes@[j] is Ok),
            forall|j: int| 0 <= j < i ==> #[trigger] report_matches(
                tokens@[j],
                outcomes@[j],
                r@[j],
            ),
        decreases n - i,
    {
        r.push(render_outcome(tokens[i].as_str(), &outcomes[i]));
        i = i + 1;
    }
    r
}

} // verus!
