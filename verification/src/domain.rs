use vstd::prelude::*;
use crate::errors::TokenError;

verus! {

/// True when the three characters of a scheme separator `"://"` stand in `s`
/// at position `i`.
pub open spec fn sep_at(s: Seq<char>, i: int) -> bool {
    0 <= i && i + 3 <= s.len() && s[i] == ':' && s[i + 1] == '/' && s[i + 2] == '/'
}

/// Index of the first scheme separator of `s`, if any.
pub open spec fn find_sep(s: Seq<char>) -> Option<int>
    decreases s.len(),
{
    if s.len() < 3 {
        None
    } else if s[0] == ':' && s[1] == '/' && s[2] == '/' {
        Some(0)
    } else {
        match find_sep(s.drop_first()) {
            Some(j) => Some(j + 1),
            None => None,
        }
    }
}

/// Index of the first occurrence of `c` in `s`, if any.
pub open spec fn find_char(s: Seq<char>, c: char) -> Option<int>
    decreases s.len(),
{
    if s.len() == 0 {
        None
    } else if s[0] == c {
        Some(0)
    } else {
        match find_char(s.drop_first(), c) {
            Some(j) => Some(j + 1),
            None => None,
        }
    }
}

/// The URL with a leading `scheme://` part stripped, when one is present.
pub open spec fn after_scheme(s: Seq<char>) -> Seq<char> {
    match find_sep(s) {
        Some(i) => s.subrange(i + 3, s.len() as int),
        None => s,
    }
}

/// The bare hostname of a URL: everything after the scheme separator and
/// before the first path separator.
pub open spec fn domain_of(s: Seq<char>) -> Seq<char> {
    let rest = after_scheme(s);
    match find_char(rest, '/') {
        Some(j) => rest.subrange(0, j),
        None => rest,
    }
}

/// Dropping the first character shifts separator positions by one.
proof fn lemma_sep_shift(s: Seq<char>, j: int)
    requires
        s.len() >= 1,
        0 <= j,
    ensures
        sep_at(s.drop_first(), j) <==> sep_at(s, j + 1),
{
    if j + 3 <= s.len() - 1 {
        assert(s.drop_first()[j] == s[j + 1]);
        assert(s.drop_first()[j + 1] == s[j + 2]);
        assert(s.drop_first()[j + 2] == s[j + 3]);
    }
}

/// `find_sep` finds exactly the first separator position.
proof fn lemma_find_sep_first(s: Seq<char>)
    ensures
        match find_sep(s) {
            Some(i) => sep_at(s, i) && (forall|j: int| 0 <= j < i ==> !sep_at(s, j)),
            None => forall|j: int| !sep_at(s, j),
        },
    decreases s.len(),
{
    if s.len() < 3 {
    } else if s[0] == ':' && s[1] == '/' && s[2] == '/' {
    } else {
        lemma_find_sep_first(s.drop_first());
        match find_sep(s.drop_first()) {
            Some(i) => {
                lemma_sep_shift(s, i);
                assert forall|j: int| 0 <= j < i + 1 implies !sep_at(s, j) by {
                    if j >= 1 {
                        lemma_sep_shift(s, j - 1);
                    }
                }
            },
            None => {
                assert forall|j: int| sep_at(s, j) implies false by {
                    if j >= 1 {
                        lemma_sep_shift(s, j - 1);
                    }
                }
            },
        }
    }
}

/// Dropping the first character shifts occurrences of `c` by one.
proof fn lemma_char_shift(s: Seq<char>, j: int)
    requires
        s.len() >= 1,
        0 <= j < s.len() - 1,
    ensures
        s.drop_first()[j] == s[j + 1],
{
}

/// `find_char` finds exactly the first occurrence of `c`.
proof fn lemma_find_char_first(s: Seq<char>, c: char)
    ensures
        match find_char(s, c) {
            Some(i) => 0 <= i < s.len() && s[i] == c && (forall|j: int| 0 <= j < i ==> s[j] != c),
            None => forall|j: int| 0 <= j < s.len() ==> s[j] != c,
        },
    decreases s.len(),
{
    if s.len() == 0 {
    } else if s[0] == c {
    } else {
        lemma_find_char_first(s.drop_first(), c);
        match find_char(s.drop_first(), c) {
            Some(i) => {
                lemma_char_shift(s, i);
                assert forall|j: int| 0 <= j < i + 1 implies s[j] != c by {
                    if j >= 1 {
                        lemma_char_shift(s, j - 1);
                    }
                }
            },
            None => {
                assert forall|j: int| 0 <= j < s.len() implies s[j] != c by {
                    if j >= 1 {
                        lemma_char_shift(s, j - 1);
                    }
                }
            },
        }
    }
}

/// Extracts the bare hostname from a URL: strips a leading `scheme://` if one
/// is present, then truncates at the first `/`. Fails with `InvalidUrl` when
/// the remaining hostname is empty.
pub fn extract_domain(url: &str) -> (r: Result<String, TokenError>)
    ensures
        match r {
            Ok(d) => domain_of(url@).len() > 0 && d@ == domain_of(url@),
            Err(e) => domain_of(url@).len() == 0 && e == TokenError::InvalidUrl,
        },
{
    proof {
        lemma_find_sep_first(url@);
    }
    let n = url.unicode_len();
    let mut i: usize = 0;
    let mut start: usize = 0;
    let mut found_sep = false;
    while !found_sep && n - i >= 3
        invariant
            n == url@.len(),
            i <= n,
            !found_sep ==> forall|j: int| 0 <= j < i ==> !sep_at(url@, j),
            found_sep ==> sep_at(url@, i as int) && (forall|j: int| 0 <= j < i ==> !sep_at(url@, j))
                && start == i + 3,
            !found_sep ==> start == 0,
        decreases n - i + (if found_sep { 0int } else { 1int }),
    {
        if url.get_char(i) == ':' && url.get_char(i + 1) == '/' && url.get_char(i + 2) == '/' {
            found_sep = true;
            start = i + 3;
        } else {
            i = i + 1;
        }
    }
    proof {
        if found_sep {
            assert(find_sep(url@) == Some(i as int));
        } else {
            assert(forall|j: int| !sep_at(url@, j));
            assert(find_sep(url@) is None);
        }
    }
    let rest = url.substring_char(start, n);
    proof {
        assert(rest@ =~= after_scheme(url@));
        lemma_find_char_first(rest@, '/');
    }
    let m = rest.unicode_len();
    let mut k: usize = 0;
    let mut end: usize = m;
    let mut found_slash = false;
    while !found_slash && k < m
        invariant
            m == rest@.len(),
            k <= m,
            !found_slash ==> forall|j: int| 0 <= j < k ==> rest@[j] != '/',
            found_slash ==> k < m && rest@[k as int] == '/'
                && (forall|j: int| 0 <= j < k ==> rest@[j] != '/') && end == k,
            !found_slash ==> end == m,
        decreases m - k + (if found_slash { 0int } else { 1int }),
    {
        if rest.get_char(k) == '/' {
            found_slash = true;
            end = k;
        } else {
            k = k + 1;
        }
    }
    proof {
        if found_slash {
            assert(find_char(rest@, '/') == Some(k as int));
        } else {
            assert(find_char(rest@, '/') is None);
        }
    }
    let dom = rest.substring_char(0, end);
    proof {
        assert(dom@ =~= domain_of(url@));
    }
    if dom.is_empty() {
        Err(TokenError::InvalidUrl)
    } else {
        Ok(dom.to_owned())
    }
}

/// The hostname handed to DNS enrichment for a website URL: the extracted
/// domain, or the empty string when extraction fails (resolving the empty
/// name then fails, and the caller degrades to absent DNS data).
pub open spec fn spec_dns_host(s: Seq<char>) -> Seq<char> {
    if domain_of(s).len() > 0 {
        domain_of(s)
    } else {
        Seq::empty()
    }
}

/// The hostname to resolve for a website URL; empty when no hostname can be
/// extracted.
pub fn dns_query_host(website: &str) -> (r: String)
    ensures
        r@ == spec_dns_host(website@),
{
    match extract_domain(website) {
        Ok(d) => d,
        Err(_) => String::new(),
    }
}

} // verus!
