//! Expansion of targets into candidate URLs `protocol://target:port`, one for
//! each target and each protocol and port pair, target by target.
use vstd::prelude::*;
use vstd::string::*;
use crate::ports::{ProtoPort, pairs_view};
use crate::text::{decimal, push_decimal, strs_view};

verus! {

/// The candidate URL for one target and one pair.
pub open spec fn url_of(pair: (Seq<char>, u16), target: Seq<char>) -> Seq<char> {
    pair.0 + seq![':', '/', '/'] + target + seq![':'] + decimal(pair.1 as nat)
}

/// The URLs of one target, in the order of the pairs.
pub open spec fn target_urls(pairs: Seq<(Seq<char>, u16)>, target: Seq<char>) -> Seq<Seq<char>> {
    pairs.map_values(|p: (Seq<char>, u16)| url_of(p, target))
}

/// The URLs of every target, all those of one target before those of the next.
pub open spec fn expand_urls(pairs: Seq<(Seq<char>, u16)>, targets: Seq<Seq<char>>) -> Seq<Seq<char>>
    decreases targets.len(),
{
    if targets.len() == 0 {
        seq![]
    } else {
        expand_urls(pairs, targets.drop_last()) + target_urls(pairs, targets.last())
    }
}

/// Writes the candidate URL `protocol://target:port`.
pub fn format_url(pp: &ProtoPort, target: &str) -> (r: String)
    ensures
        r@ == url_of(pp@, target@),
{
    proof {
        reveal_strlit("://");
        reveal_strlit(":");
    }
    let mut r = pp.proto.clone();
    r.append("://");
    r.append(target);
    r.append(":");
    push_decimal(&mut r, pp.port as u64);
    assert(r@ =~= url_of(pp@, target@));
    r
}

/// The URLs of one target, one for each pair, in the order of the pairs.
pub fn urls_for_target(proto_ports: &Vec<ProtoPort>, target: &str) -> (r: Vec<String>)
    ensures
        strs_view(r@) == target_urls(pairs_view(proto_ports@), target@),
{
    let mut r: Vec<String> = Vec::new();
    let mut i: usize = 0;
    while i < proto_ports.len()
        invariant
            i <= proto_ports@.len(),
            r@.len() == i,
            strs_view(r@) =~= target_urls(pairs_view(proto_ports@), target@).subrange(0, i as int),
        decreases proto_ports@.len() - i,
    {
        let u = format_url(&proto_ports[i], target);
        r.push(u);
        assert(strs_view(r@)[i as int] == u@);
        i = i + 1;
    }
    r
}

/// Expands every target into its URLs, target by target.
pub fn gen_urls(proto_ports: &Vec<ProtoPort>, targets: &Vec<String>) -> (r: Vec<String>)
    ensures
        strs_view(r@) == expand_urls(pairs_view(proto_ports@), strs_view(targets@)),
{
    let mut r: Vec<String> = Vec::new();
    let mut i: usize = 0;
    while i < targets.len()
        invariant
            i <= targets@.len(),
            strs_view(r@) == expand_urls(pairs_view(proto_ports@), strs_view(targets@).subrange(0, i as int)),
        decreases targets@.len() - i,
    {
        let us = urls_for_target(proto_ports, targets[i].as_str());
        let ghost before = strs_view(r@);
        assert(strs_view(us@).len() == us@.len());
        assert(target_urls(pairs_view(proto_ports@), targets@[i as int]@).len() == proto_ports@.len());
        let mut j: usize = 0;
        while j < us.len()
            invariant
                j <= us@.len(),
                r@.len() == before.len() + j,
                strs_view(r@) =~= before + strs_view(us@).subrange(0, j as int),
            decreases us@.len() - j,
        {
            let ghost prev = r@;
            r.push(us[j].clone());
            let ghost want = before + strs_view(us@).subrange(0, j + 1);
            assert forall|k: int| 0 <= k < prev.len() implies strs_view(r@)[k] == want[k] by {
                assert(r@[k] == prev[k]);
                assert(strs_view(prev)[k] == (before + strs_view(us@).subrange(0, j as int))[k]);
            }
            assert(strs_view(r@)[before.len() + j] == strs_view(us@)[j as int]);
            assert(strs_view(r@) =~= want);
            j = j + 1;
        }
        assert(strs_view(us@).subrange(0, us@.len() as int) =~= strs_view(us@));
        assert(strs_view(targets@).subrange(0, i + 1).drop_last()
            =~= strs_view(targets@).subrange(0, i as int));
        i = i + 1;
    }
    assert(strs_view(targets@).subrange(0, targets@.len() as int) =~= strs_view(targets@));
    r
}

/// The expansion of `n` targets over `m` pairs holds `n * m` URLs, and the URL
/// of target `i` and pair `j` stands at place `i * m + j`: each pair of a target
/// and a protocol and port appears exactly once, target by target.
pub proof fn law_expansion_shape(pairs: Seq<(Seq<char>, u16)>, targets: Seq<Seq<char>>)
    ensures
        expand_urls(pairs, targets).len() == targets.len() * pairs.len(),
        forall|i: int, j: int|
            0 <= i < targets.len() && 0 <= j < pairs.len() ==> #[trigger] expand_urls(pairs, targets)[i * pairs.len() + j]
                == url_of(pairs[j], targets[i]),
    decreases targets.len(),
{
    if targets.len() > 0 {
        let t = targets.drop_last();
        law_expansion_shape(pairs, t);
        let m = pairs.len() as int;
        let n = targets.len() as int;
        assert(expand_urls(pairs, targets).len() == n * m) by (nonlinear_arith)
            requires expand_urls(pairs, targets).len() == (n - 1) * m + m;
        assert forall|i: int, j: int|
            0 <= i < n && 0 <= j < m implies #[trigger] expand_urls(pairs, targets)[i * m + j]
                == url_of(pairs[j], targets[i]) by {
            if i < n - 1 {
                assert(i * m + j < (n - 1) * m) by (nonlinear_arith)
                    requires 0 <= i < n - 1, 0 <= j < m;
                assert(targets[i] == t[i]);
            } else {
                assert(i * m == (n - 1) * m);
            }
        }
    }
}

/// Whether `u` is the URL of some target and some pair.
pub open spec fn is_url_of_some(u: Seq<char>, pairs: Seq<(Seq<char>, u16)>, targets: Seq<Seq<char>>) -> bool {
    exists|i: int, j: int|
        0 <= i < targets.len() && 0 <= j < pairs.len() && u == #[trigger] url_of(pairs[j], targets[i])
}

/// Every URL of an expansion is the URL of some target and some pair:
/// `protocol://target:port`.
pub proof fn law_expansion_urls_have_shape(pairs: Seq<(Seq<char>, u16)>, targets: Seq<Seq<char>>)
    ensures
        forall|k: int| 0 <= k < expand_urls(pairs, targets).len()
            ==> is_url_of_some(#[trigger] expand_urls(pairs, targets)[k], pairs, targets),
{
    law_expansion_shape(pairs, targets);
    let m = pairs.len() as int;
    let n = targets.len() as int;
    assert forall|k: int| 0 <= k < expand_urls(pairs, targets).len()
        implies is_url_of_some(#[trigger] expand_urls(pairs, targets)[k], pairs, targets) by {
        assert(m > 0) by (nonlinear_arith)
            requires 0 <= k < n * m, n >= 0, m >= 0;
        let i = k / m;
        let j = k % m;
        assert(0 <= i < n && 0 <= j < m && k == i * m + j) by (nonlinear_arith)
            requires 0 <= k < n * m, m > 0, i == k / m, j == k % m;
        assert(expand_urls(pairs, targets)[i * pairs.len() + j] == url_of(pairs[j], targets[i]));
    }
}

/// Two expansions of equal targets over equal pairs, such as the results of
/// two calls of `gen_urls` on equal inputs, give the same URLs in the same
/// order, and so the same multiset of URLs.
pub proof fn law_expansion_repeatable(
    pairs1: Seq<(Seq<char>, u16)>,
    targets1: Seq<Seq<char>>,
    pairs2: Seq<(Seq<char>, u16)>,
    targets2: Seq<Seq<char>>,
    urls1: Seq<Seq<char>>,
    urls2: Seq<Seq<char>>,
)
    requires
        pairs1 == pairs2,
        targets1 == targets2,
        urls1 == expand_urls(pairs1, targets1),
        urls2 == expand_urls(pairs2, targets2),
    ensures
        urls1 == urls2,
        urls1.to_multiset() == urls2.to_multiset(),
{
}

} // verus!
