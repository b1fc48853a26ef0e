use vstd::prelude::*;
use crate::strutil::push_char;

verus! {

/// The hexadecimal digit character for a value below sixteen.
pub open spec fn spec_hex_char(d: int) -> char
    recommends
        0 <= d < 16,
{
    if d == 0 {
        '0'
    } else if d == 1 {
        '1'
    } else if d == 2 {
        '2'
    } else if d == 3 {
        '3'
    } else if d == 4 {
        '4'
    } else if d == 5 {
        '5'
    } else if d == 6 {
        '6'
    } else if d == 7 {
        '7'
    } else if d == 8 {
        '8'
    } else if d == 9 {
        '9'
    } else if d == 10 {
        'a'
    } else if d == 11 {
        'b'
    } else if d == 12 {
        'c'
    } else if d == 13 {
        'd'
    } else if d == 14 {
        'e'
    } else {
        'f'
    }
}

/// How one character is written inside a JSON string literal: quote and
/// backslash get a backslash escape, control characters a `\u00XX` escape,
/// and every other character stands as itself.
pub open spec fn spec_escape_char(c: char) -> Seq<char> {
    if c == '"' {
        seq!['\\', '"']
    } else if c == '\\' {
        seq!['\\', '\\']
    } else if (c as int) < 32 {
        seq!['\\', 'u', '0', '0', spec_hex_char((c as int) / 16), spec_hex_char((c as int) % 16)]
    } else {
        seq![c]
    }
}

/// A text written as the contents of a JSON string literal.
pub open spec fn spec_escape(s: Seq<char>) -> Seq<char>
    decreases s.len(),
{
    if s.len() == 0 {
        Seq::<char>::empty()
    } else {
        spec_escape_char(s[0]) + spec_escape(s.drop_first())
    }
}

proof fn lemma_escape_push(s: Seq<char>, c: char)
    ensures
        spec_escape(s.push(c)) == spec_escape(s) + spec_escape_char(c),
    decreases s.len(),
{
    if s.len() == 0 {
        assert(s.push(c)[0] == c);
        assert(s.push(c).drop_first() =~= Seq::<char>::empty());
        assert(spec_escape(Seq::<char>::empty()) == Seq::<char>::empty());
        assert(spec_escape(s.push(c)) =~= spec_escape(s) + spec_escape_char(c));
    } else {
        assert(s.push(c)[0] == s[0]);
        assert(s.push(c).drop_first() =~= s.drop_first().push(c));
        lemma_escape_push(s.drop_first(), c);
        assert(spec_escape(s.push(c)) =~= spec_escape(s) + spec_escape_char(c));
    }
}

fn hex_char(d: u32) -> (r: char)
    requires
        d < 16,
    ensures
        r == spec_hex_char(d as int),
{
    if d == 0 {
        '0'
    } else if d == 1 {
        '1'
    } else if d == 2 {
        '2'
    } else if d == 3 {
        '3'
    } else if d == 4 {
        '4'
    } else if d == 5 {
        '5'
    } else if d == 6 {
        '6'
    } else if d == 7 {
        '7'
    } else if d == 8 {
        '8'
    } else if d == 9 {
        '9'
    } else if d == 10 {
        'a'
    } else if d == 11 {
        'b'
    } else if d == 12 {
        'c'
    } else if d == 13 {
        'd'
    } else if d == 14 {
        'e'
    } else {
        'f'
    }
}

/// Appends `t`, escaped for a JSON string literal, to `out`.
fn escape_into(out: &mut String, t: &str)
    ensures
        final(out)@ == old(out)@ + spec_escape(t@),
{
    let n = t.unicode_len();
    let mut i: usize = 0;
    while i < n
        invariant
            n == t@.len(),
            i <= n,
            out@ == old(out)@ + spec_escape(t@.take(i as int)),
        decreases n - i,
    {
        let c = t.get_char(i);
        proof {
            assert(t@.take(i + 1) =~= t@.take(i as int).push(t@[i as int]));
            lemma_escape_push(t@.take(i as int), t@[i as int]);
        }
        if c == '"' {
            push_char(out, '\\');
            push_char(out, '"');
            proof {
                assert(out@ =~= old(out)@ + spec_escape(t@.take(i + 1)));
            }
        } else if c == '\\' {
            push_char(out, '\\');
            push_char(out, '\\');
            proof {
                assert(out@ =~= old(out)@ + spec_escape(t@.take(i + 1)));
            }
        } else {
            let v = c as u32;
            if v < 32 {
                push_char(out, '\\');
                push_char(out, 'u');
                push_char(out, '0');
                push_char(out, '0');
                push_char(out, hex_char(v / 16));
                push_char(out, hex_char(v % 16));
                proof {
                    assert(out@ =~= old(out)@ + spec_escape(t@.take(i + 1)));
                }
            } else {
                push_char(out, c);
                proof {
                    assert(out@ =~= old(out)@ + spec_escape(t@.take(i + 1)));
                }
            }
        }
        i = i + 1;
    }
    proof {
        assert(t@.take(n as int) =~= t@);
    }
}

/// The JSON-RPC request body asking for one token's asset record.
pub open spec fn spec_request_body(token: Seq<char>) -> Seq<char> {
    "{\"id\":\""@ + spec_escape(token)
        + "\",\"jsonrpc\":\"2.0\",\"method\":\"getAsset\",\"params\":{\"id\":\""@ + spec_escape(
        token,
    ) + "\"}}"@
}

/// Builds the JSON-RPC request body for one token.
pub fn build_request_body(token: &str) -> (r: String)
    ensures
        r@ == spec_request_body(token@),
{
    let mut out = String::new();
    out.append("{\"id\":\"");
    escape_into(&mut out, token);
    out.append("\",\"jsonrpc\":\"2.0\",\"method\":\"getAsset\",\"params\":{\"id\":\"");
    escape_into(&mut out, token);
    out.append("\"}}");
    proof {
        assert(out@ =~= spec_request_body(token@));
    }
    out
}

/// The explorer endpoint used when no override is configured.
pub open spec fn spec_default_api_url() -> Seq<char> {
    "https://explorer-api.mainnet-beta.solana.com/"@
}

/// The target API endpoint: the configured override when one is set, the
/// well-known explorer endpoint otherwise.
pub fn resolve_api_url(override_url: Option<String>) -> (r: String)
    ensures
        match override_url {
            Some(u) => r@ == u@,
            None => r@ == spec_default_api_url(),
        },
{
    match override_url {
        Some(u) => u,
        None => {
            let d: &str = "https://explorer-api.mainnet-beta.solana.com/";
            d.to_owned()
        },
    }
}

} // verus!
