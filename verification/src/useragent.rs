use vstd::prelude::*;

verus! {

/// The fixed pool of browser user-agent strings the tool identifies itself
/// with.
pub open spec fn spec_user_agent_pool() -> Seq<Seq<char>> {
    seq![
        "Mozilla/5.0 (Windows NT 10.0; Win64; x64) AppleWebKit/537.36 (KHTML, like Gecko) Chrome/128.0.0.0 Safari/537.36"@,
        "Mozilla/5.0 (Windows NT 10.0; Win64; x64) AppleWebKit/537.36 (KHTML, like Gecko) Chrome/127.0.0.0 Safari/537.36"@,
        "Mozilla/5.0 (Macintosh; Intel Mac OS X 10.15; rv:91.0) Gecko/20100101 Firefox/91.0"@,
        "Mozilla/5.0 (Windows NT 10.0; Win64; x64; rv:93.0) Gecko/20100101 Firefox/93.0"@,
        "Mozilla/5.0 (Macintosh; Intel Mac OS X 10.15; rv:92.0) Gecko/20100101 Firefox/92.0"@,
    ]
}

/// The user-agent pool as plain strings, in pool order.
pub fn user_agent_pool() -> (r: Vec<&'static str>)
    ensures
        r@.len() == spec_user_agent_pool().len(),
        forall|i: int| 0 <= i < r@.len() ==> r@[i]@ == spec_user_agent_pool()[i],
{
    let mut v: Vec<&'static str> = Vec::new();
    v.push("Mozilla/5.0 (Windows NT 10.0; Win64; x64) AppleWebKit/537.36 (KHTML, like Gecko) Chrome/128.0.0.0 Safari/537.36");
    v.push("Mozilla/5.0 (Windows NT 10.0; Win64; x64) AppleWebKit/537.36 (KHTML, like Gecko) Chrome/127.0.0.0 Safari/537.36");
    v.push("Mozilla/5.0 (Macintosh; Intel Mac OS X 10.15; rv:91.0) Gecko/20100101 Firefox/91.0");
    v.push("Mozilla/5.0 (Windows NT 10.0; Win64; x64; rv:93.0) Gecko/20100101 Firefox/93.0");
    v.push("Mozilla/5.0 (Macintosh; Intel Mac OS X 10.15; rv:92.0) Gecko/20100101 Firefox/92.0");
    v
}

/// Relies on `rand::random`: draws a fresh pseudorandom value. Nothing is
/// promised of the result.
#[verifier::external_body]
fn random_usize() -> usize {
    rand::random::<usize>()
}

/// The pool element a given draw selects: the draw taken modulo the pool
/// size, indexing the pool in source order.
pub fn select_user_agent(r: usize) -> (ua: String)
    ensures
        ua@ == spec_user_agent_pool()[(r as int) % (spec_user_agent_pool().len() as int)],
        spec_user_agent_pool().contains(ua@),
{
    let pool = user_agent_pool();
    let idx = r % pool.len();
    let chosen: &str = pool[idx];
    proof {
        assert(spec_user_agent_pool()[idx as int] == chosen@);
        assert(spec_user_agent_pool().contains(chosen@));
    }
    chosen.to_owned()
}

/// Returns one user-agent string from the fixed pool, chosen at random per
/// call: the pool element that the fresh draw selects. Whatever the draw, the
/// result is a member of the pool.
pub fn generate_random_user_agent() -> (r: String)
    ensures
        spec_user_agent_pool().contains(r@),
{
    select_user_agent(random_usize())
}

} // verus!
