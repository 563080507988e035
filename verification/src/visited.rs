//! The set of URLs that have been claimed for processing.

use vstd::prelude::*;
use vstd::hash_set::StringHashSet;
use vstd::string::*;

verus! {

/// The claimed URLs. Its value is the set of their texts. A URL enters the
/// set through [`VisitedSet::try_claim`] only, and never leaves it.
pub struct VisitedSet {
    urls: StringHashSet,
}

impl View for VisitedSet {
    type V = Set<Seq<char>>;

    closed spec fn view(&self) -> Set<Seq<char>> {
        self.urls@
    }
}

impl VisitedSet {
    /// The empty set.
    pub fn new() -> (visited: VisitedSet)
        ensures
            visited@ == Set::<Seq<char>>::empty(),
    {
        VisitedSet { urls: StringHashSet::new() }
    }

    /// Whether `url` has been claimed.
    pub fn contains(&self, url: &str) -> (found: bool)
        ensures
            found == self@.contains(url@),
    {
        self.urls.contains(url)
    }

    /// Claims `url`: inserts it if it is absent. Returns whether this call
    /// inserted it.
    pub fn try_claim(&mut self, url: &str) -> (won: bool)
        ensures
            won == !old(self)@.contains(url@),
            final(self)@ == old(self)@.insert(url@),
    {
        self.urls.insert(String::from_str(url))
    }

    /// The number of claimed URLs.
    pub fn len(&self) -> (n: usize)
        ensures
            n == self@.len(),
    {
        self.urls.len()
    }
}

/// What is claimed before the claim at position `i` of `claims`, in a run
/// that starts with `start` claimed.
pub open spec fn claimed_before(start: Set<Seq<char>>, claims: Seq<Seq<char>>, i: int) -> Set<
    Seq<char>,
> {
    start.union(claims.take(i).to_set())
}

/// Whether the claim at position `i` of `claims` wins.
pub open spec fn wins(start: Set<Seq<char>>, claims: Seq<Seq<char>>, i: int) -> bool {
    !claimed_before(start, claims, i).contains(claims[i])
}

/// Each claim adds its URL to what is claimed, as [`VisitedSet::try_claim`]
/// does.
pub proof fn lemma_claim_step(start: Set<Seq<char>>, claims: Seq<Seq<char>>, i: int)
    requires
        0 <= i < claims.len(),
    ensures
        claimed_before(start, claims, i + 1) == claimed_before(start, claims, i).insert(claims[i]),
{
    let before = claimed_before(start, claims, i);
    let after = claimed_before(start, claims, i + 1);
    assert forall|u: Seq<char>| after.contains(u) <==> before.insert(claims[i]).contains(u) by {
        let shorter = claims.take(i);
        let longer = claims.take(i + 1);
        if longer.contains(u) {
            let k = choose|k: int| 0 <= k < longer.len() && longer[k] == u;
            if k < i {
                assert(shorter[k] == u);
            }
        }
        if shorter.contains(u) {
            let k = choose|k: int| 0 <= k < shorter.len() && shorter[k] == u;
            assert(longer[k] == u);
        }
        if u == claims[i] {
            assert(longer[i] == u);
        }
    }
    assert(after =~= before.insert(claims[i]));
}

/// Of two claims of one URL the later one loses.
pub proof fn lemma_later_claim_loses(
    start: Set<Seq<char>>,
    claims: Seq<Seq<char>>,
    i: int,
    j: int,
)
    requires
        0 <= i < j < claims.len(),
        claims[i] == claims[j],
    ensures
        !wins(start, claims, j),
{
    assert(claims.take(j)[i] == claims[j]);
}

/// The position at which `url` is claimed first.
proof fn first_claim(claims: Seq<Seq<char>>, url: Seq<char>) -> (i: int)
    requires
        claims.contains(url),
    ensures
        0 <= i < claims.len(),
        claims[i] == url,
        forall|k: int| 0 <= k < i ==> claims[k] != url,
    decreases claims.len(),
{
    if claims[0] == url {
        0
    } else {
        let w = choose|w: int| 0 <= w < claims.len() && claims[w] == url;
        assert(claims.skip(1)[w - 1] == url);
        let rest = first_claim(claims.skip(1), url);
        assert forall|k: int| 0 <= k < rest + 1 implies claims[k] != url by {
            if k > 0 {
                assert(claims.skip(1)[k - 1] == claims[k]);
            }
        }
        rest + 1
    }
}

/// However many claims race on a URL that was not claimed at the start,
/// exactly one of them wins.
pub proof fn lemma_exactly_one_claim_wins(
    start: Set<Seq<char>>,
    claims: Seq<Seq<char>>,
    url: Seq<char>,
)
    requires
        claims.contains(url),
        !start.contains(url),
    ensures
        exists|i: int|
            {
                &&& 0 <= i < claims.len()
                &&& claims[i] == url
                &&& #[trigger] wins(start, claims, i)
                &&& forall|j: int|
                    0 <= j < claims.len() && j != i && claims[j] == url ==> !#[trigger] wins(
                        start,
                        claims,
                        j,
                    )
            },
{
    let i = first_claim(claims, url);
    assert(wins(start, claims, i)) by {
        let earlier = claims.take(i);
        if earlier.contains(url) {
            let k = choose|k: int| 0 <= k < earlier.len() && earlier[k] == url;
            assert(claims[k] == url);
        }
    }
    assert forall|j: int| 0 <= j < claims.len() && j != i && claims[j] == url implies !#[trigger] wins(
        start,
        claims,
        j,
    ) by {
        lemma_later_claim_loses(start, claims, i, j);
    }
}

} // verus!
