//! Joining contour segments end to end.
//!
//! Two segments meet where their ends have the same quantised coordinates.
//! Each chain starts from the first segment not yet used and grows at its back
//! and then at its front as long as an unused segment meets it there.

use vstd::prelude::*;

verus! {

/// A point in units of the tolerance within which points are one.
#[derive(Clone, Copy, PartialEq, Eq, Structural, Debug)]
pub struct PointKey {
    pub x: i64,
    pub y: i64,
    pub z: i64,
}

/// A segment by its two ends.
#[derive(Clone, Copy, PartialEq, Eq, Structural, Debug)]
pub struct ContourSegment {
    pub a: PointKey,
    pub b: PointKey,
}

/// An end of a segment: the second where `second`, else the first.
#[derive(Clone, Copy, PartialEq, Eq, Structural, Debug)]
pub struct ChainPoint {
    pub segment: usize,
    pub second: bool,
}

/// Where an end of a segment lies.
pub open spec fn key_of(segments: Seq<ContourSegment>, p: ChainPoint) -> PointKey {
    let s = segments[p.segment as int];
    if p.second {
        s.b
    } else {
        s.a
    }
}

/// Where the other end of its segment lies.
pub open spec fn far_key_of(segments: Seq<ContourSegment>, p: ChainPoint) -> PointKey {
    let s = segments[p.segment as int];
    if p.second {
        s.a
    } else {
        s.b
    }
}

/// The segment has an end there.
pub open spec fn touches(s: ContourSegment, key: PointKey) -> bool {
    s.a == key || s.b == key
}

/// The last of the first `n` segments that is unused and has an end there.
pub open spec fn neighbor(segments: Seq<ContourSegment>, used: Seq<bool>, key: PointKey, n: int) -> Option<int>
    decreases n,
{
    if n <= 0 {
        None
    } else if !used[n - 1] && touches(segments[n - 1], key) {
        Some(n - 1)
    } else {
        neighbor(segments, used, key, n - 1)
    }
}

/// How many are unused.
pub open spec fn unused(used: Seq<bool>) -> nat
    decreases used.len(),
{
    if used.len() == 0 {
        0
    } else {
        unused(used.drop_last()) + if used.last() {
            0nat
        } else {
            1nat
        }
    }
}

/// Using one that was unused leaves one less.
pub proof fn lemma_unused_update(used: Seq<bool>, i: int)
    requires
        0 <= i < used.len(),
        !used[i],
    ensures
        unused(used.update(i, true)) + 1 == unused(used),
    decreases used.len(),
{
    let after = used.update(i, true);
    if i == used.len() - 1 {
        assert(after.drop_last() =~= used.drop_last());
    } else {
        assert(after.drop_last() =~= used.drop_last().update(i, true));
        lemma_unused_update(used.drop_last(), i);
    }
}

/// A neighbour is unused and has an end there.
pub proof fn lemma_neighbor(segments: Seq<ContourSegment>, used: Seq<bool>, key: PointKey, n: int)
    requires
        n <= segments.len(),
        used.len() == segments.len(),
    ensures
        match neighbor(segments, used, key, n) {
            Some(i) => 0 <= i < n && !used[i] && touches(segments[i], key),
            None => forall|i: int| 0 <= i < n ==> used[i] || !touches(#[trigger] segments[i], key),
        },
    decreases n,
{
    if n > 0 && !(!used[n - 1] && touches(segments[n - 1], key)) {
        lemma_neighbor(segments, used, key, n - 1);
    }
}

/// The point that a segment which meets a chain adds to it.
pub open spec fn added_point(segments: Seq<ContourSegment>, i: int, key: PointKey) -> ChainPoint {
    ChainPoint { segment: i as usize, second: segments[i].a == key }
}

/// The chain grown at one end as far as it goes, with what is used then.
pub open spec fn grown(segments: Seq<ContourSegment>, used: Seq<bool>, chain: Seq<ChainPoint>, back: bool) -> (Seq<ChainPoint>, Seq<bool>)
    decreases unused(used),
    when used.len() == segments.len()
{
    let tip = key_of(
        segments,
        if back {
            chain.last()
        } else {
            chain[0]
        },
    );
    match neighbor(segments, used, tip, segments.len() as int) {
        Some(i) => {
            proof {
                lemma_neighbor(segments, used, tip, segments.len() as int);
                lemma_unused_update(used, i);
            }
            let p = added_point(segments, i, tip);
            grown(
                segments,
                used.update(i, true),
                if back {
                    chain.push(p)
                } else {
                    seq![p] + chain
                },
                back,
            )
        },
        None => (chain, used),
    }
}

/// The chain from one segment, grown at its back and then at its front.
pub open spec fn chain_from(segments: Seq<ContourSegment>, used: Seq<bool>, seed: int) -> (Seq<ChainPoint>, Seq<bool>) {
    let first = ChainPoint { segment: seed as usize, second: false };
    let second = ChainPoint { segment: seed as usize, second: true };
    let (chain, after) = grown(segments, used.update(seed, true), seq![first, second], true);
    grown(segments, after, chain, false)
}

/// The chains from the segments before `seed`, with what is used then.
pub open spec fn chained(segments: Seq<ContourSegment>, seed: int) -> (Seq<Seq<ChainPoint>>, Seq<bool>)
    decreases seed,
{
    if seed <= 0 {
        (Seq::empty(), Seq::new(segments.len(), |i: int| false))
    } else {
        let (chains, used) = chained(segments, seed - 1);
        if used[seed - 1] {
            (chains, used)
        } else {
            let (chain, after) = chain_from(segments, used, seed - 1);
            (chains.push(chain), after)
        }
    }
}

/// Two points of a chain are the ends of one segment, or of one that meets the
/// other where it lies.
pub open spec fn joined(segments: Seq<ContourSegment>, p: ChainPoint, q: ChainPoint) -> bool {
    far_key_of(segments, q) == key_of(segments, p) || far_key_of(segments, p) == key_of(segments, q)
}

/// Every point of the chain is an end of a segment, joined to the next.
pub open spec fn linked(segments: Seq<ContourSegment>, chain: Seq<ChainPoint>) -> bool {
    &&& forall|k: int| 0 <= k < chain.len() ==> (#[trigger] chain[k]).segment < segments.len()
    &&& forall|k: int, l: int| 0 <= k && l == k + 1 && l < chain.len() ==> joined(segments, #[trigger] chain[k], #[trigger] chain[l])
}

/// Growing keeps a chain linked, and adds a point for each segment used.
proof fn lemma_grown(segments: Seq<ContourSegment>, used: Seq<bool>, chain: Seq<ChainPoint>, back: bool)
    requires
        used.len() == segments.len(),
        segments.len() <= usize::MAX,
        chain.len() >= 2,
        linked(segments, chain),
    ensures
        ({
            let (c, u) = grown(segments, used, chain, back);
            &&& u.len() == segments.len()
            &&& c.len() >= 2
            &&& linked(segments, c)
            &&& c.len() + unused(u) == chain.len() + unused(used)
            &&& forall|i: int| 0 <= i < used.len() && used[i] ==> #[trigger] u[i]
            &&& back ==> neighbor(segments, u, key_of(segments, c.last()), segments.len() as int) is None
            &&& !back ==> neighbor(segments, u, key_of(segments, c[0]), segments.len() as int) is None
        }),
    decreases unused(used),
{
    let n = segments.len() as int;
    let tip = key_of(
        segments,
        if back {
            chain.last()
        } else {
            chain[0]
        },
    );
    lemma_neighbor(segments, used, tip, n);
    match neighbor(segments, used, tip, n) {
        Some(i) => {
            lemma_unused_update(used, i);
            let p = added_point(segments, i, tip);
            let more = if back {
                chain.push(p)
            } else {
                seq![p] + chain
            };
            assert(far_key_of(segments, p) == tip);
            assert(linked(segments, more)) by {
                assert forall|k: int, l: int| 0 <= k && l == k + 1 && l < more.len() implies joined(segments, #[trigger] more[k], #[trigger] more[l]) by {
                    if back {
                        if l < chain.len() {
                            assert(more[k] == chain[k] && more[l] == chain[l]);
                        }
                    } else if k > 0 {
                        assert(more[k] == chain[k - 1] && more[l] == chain[l - 1]);
                    }
                }
                assert forall|k: int| 0 <= k < more.len() implies (#[trigger] more[k]).segment < segments.len() by {
                    if back {
                        if k < chain.len() {
                            assert(more[k] == chain[k]);
                        }
                    } else if k > 0 {
                        assert(more[k] == chain[k - 1]);
                    }
                }
            }
            lemma_grown(segments, used.update(i, true), more, back);
            let (c, u) = grown(segments, used, chain, back);
            assert forall|j: int| 0 <= j < used.len() && used[j] implies #[trigger] u[j] by {
                assert(used.update(i, true)[j]);
            }
        },
        None => {},
    }
}

/// How many links the chains have.
pub open spec fn links(chains: Seq<Seq<ChainPoint>>) -> int
    decreases chains.len(),
{
    if chains.len() == 0 {
        0
    } else {
        links(chains.drop_last()) + chains.last().len() - 1
    }
}

proof fn lemma_chain_from(segments: Seq<ContourSegment>, used: Seq<bool>, seed: int)
    requires
        used.len() == segments.len(),
        segments.len() <= usize::MAX,
        0 <= seed < segments.len(),
        !used[seed],
    ensures
        ({
            let (c, u) = chain_from(segments, used, seed);
            &&& u.len() == segments.len()
            &&& c.len() >= 2
            &&& linked(segments, c)
            &&& c.len() - 1 + unused(u) == unused(used)
            &&& u[seed]
            &&& forall|i: int| 0 <= i < used.len() && used[i] ==> #[trigger] u[i]
        }),
{
    let first = ChainPoint { segment: seed as usize, second: false };
    let second = ChainPoint { segment: seed as usize, second: true };
    let start = used.update(seed, true);
    let pair = seq![first, second];
    lemma_unused_update(used, seed);
    assert(linked(segments, pair)) by {
        assert(joined(segments, pair[0], pair[1]));
    }
    lemma_grown(segments, start, pair, true);
    let (c, u) = grown(segments, start, pair, true);
    lemma_grown(segments, u, c, false);
    let (d, v) = grown(segments, u, c, false);
    assert(start[seed]);
    assert(u[seed]);
    assert forall|i: int| 0 <= i < used.len() && used[i] implies #[trigger] v[i] by {
        assert(start[i]);
        assert(u[i]);
    }
}

proof fn lemma_all_used(used: Seq<bool>)
    ensures
        (forall|i: int| 0 <= i < used.len() ==> used[i]) ==> unused(used) == 0,
    decreases used.len(),
{
    if used.len() > 0 {
        lemma_all_used(used.drop_last());
        if forall|i: int| 0 <= i < used.len() ==> used[i] {
            assert forall|i: int| 0 <= i < used.drop_last().len() implies used.drop_last()[i] by {
                assert(used[i]);
            }
            assert(used[used.len() - 1]);
        }
    }
}

proof fn lemma_none_used(n: nat)
    ensures
        unused(Seq::new(n, |i: int| false)) == n,
    decreases n,
{
    let s = Seq::new(n, |i: int| false);
    if n > 0 {
        lemma_none_used((n - 1) as nat);
        assert(s.drop_last() =~= Seq::new((n - 1) as nat, |i: int| false));
    }
}

/// What holds of the chains from the segments before `seed`.
proof fn lemma_chained(segments: Seq<ContourSegment>, seed: int)
    requires
        0 <= seed <= segments.len(),
        segments.len() <= usize::MAX,
    ensures
        ({
            let (chains, used) = chained(segments, seed);
            &&& used.len() == segments.len()
            &&& forall|i: int| 0 <= i < seed ==> #[trigger] used[i]
            &&& forall|c: int| 0 <= c < chains.len() ==> (#[trigger] chains[c]).len() >= 2 && linked(segments, chains[c])
            &&& links(chains) + unused(used) == segments.len()
        }),
    decreases seed,
{
    if seed > 0 {
        lemma_chained(segments, seed - 1);
        let (chains, used) = chained(segments, seed - 1);
        if !used[seed - 1] {
            lemma_chain_from(segments, used, seed - 1);
            let (chain, after) = chain_from(segments, used, seed - 1);
            let more = chains.push(chain);
            assert(more.drop_last() =~= chains);
            assert forall|i: int| 0 <= i < seed implies #[trigger] after[i] by {
                if i < seed - 1 {
                    assert(used[i]);
                }
            }
            assert forall|c: int| 0 <= c < more.len() implies (#[trigger] more[c]).len() >= 2 && linked(segments, more[c]) by {
                if c < chains.len() {
                    assert(more[c] == chains[c]);
                }
            }
        }
    } else {
        lemma_none_used(segments.len());
    }
}

/// Every segment becomes exactly one link of one chain: the chains have as many
/// links as there are segments, each of two points that a segment joins.
pub proof fn law_chains_use_every_segment(segments: Seq<ContourSegment>)
    requires
        segments.len() <= usize::MAX,
    ensures
        ({
            let (chains, used) = chained(segments, segments.len() as int);
            &&& links(chains) == segments.len()
            &&& forall|i: int| 0 <= i < segments.len() ==> #[trigger] used[i]
            &&& forall|c: int| 0 <= c < chains.len() ==> (#[trigger] chains[c]).len() >= 2 && linked(segments, chains[c])
        }),
{
    lemma_chained(segments, segments.len() as int);
    let (chains, used) = chained(segments, segments.len() as int);
    lemma_all_used(used);
}

/// The last unused segment that has an end there.
fn find_neighbor(segments: &Vec<ContourSegment>, used: &Vec<bool>, key: PointKey) -> (r: Option<usize>)
    requires
        used@.len() == segments@.len(),
    ensures
        match r {
            Some(i) => neighbor(segments@, used@, key, segments@.len() as int) == Some(i as int) && i < segments@.len(),
            None => neighbor(segments@, used@, key, segments@.len() as int) is None,
        },
{
    let mut n: usize = segments.len();
    while n > 0
        invariant
            n <= segments@.len(),
            used@.len() == segments@.len(),
            neighbor(segments@, used@, key, segments@.len() as int) == neighbor(segments@, used@, key, n as int),
        decreases n,
    {
        if !used[n - 1] && (segments[n - 1].a == key || segments[n - 1].b == key) {
            return Some(n - 1);
        }
        n -= 1;
    }
    None
}

/// Grows a chain at one end as far as it goes.
fn grow(segments: &Vec<ContourSegment>, used: &mut Vec<bool>, chain: &mut Vec<ChainPoint>, back: bool)
    requires
        old(used)@.len() == segments@.len(),
        old(chain)@.len() >= 2,
        linked(segments@, old(chain)@),
    ensures
        (final(chain)@, final(used)@) == grown(segments@, old(used)@, old(chain)@, back),
        final(used)@.len() == segments@.len(),
        final(chain)@.len() >= 2,
        linked(segments@, final(chain)@),
{
    let n: usize = segments.len();
    proof {
        assert(n == segments@.len());
        lemma_grown(segments@, used@, chain@, back);
    }
    loop
        invariant_except_break
            grown(segments@, used@, chain@, back) == grown(segments@, old(used)@, old(chain)@, back),
        invariant
            used@.len() == segments@.len(),
            chain@.len() >= 2,
            linked(segments@, chain@),
        ensures
            (chain@, used@) == grown(segments@, old(used)@, old(chain)@, back),
        decreases unused(used@),
    {
        let tip = if back {
            chain[chain.len() - 1]
        } else {
            chain[0]
        };
        let s = segments[tip.segment];
        let key = if tip.second {
            s.b
        } else {
            s.a
        };
        proof {
            lemma_neighbor(segments@, used@, key, segments@.len() as int);
        }
        match find_neighbor(segments, used, key) {
            Some(i) => {
                let p = ChainPoint { segment: i, second: segments[i].a == key };
                let ghost before = chain@;
                proof {
                    lemma_unused_update(used@, i as int);
                }
                used.set(i, true);
                if back {
                    chain.push(p);
                } else {
                    chain.insert(0, p);
                    assert(chain@ =~= seq![p] + before);
                }
                assert(p == added_point(segments@, i as int, key));
                assert(linked(segments@, chain@)) by {
                    let more = chain@;
                    assert(far_key_of(segments@, p) == key);
                    assert forall|k: int, l: int| 0 <= k && l == k + 1 && l < more.len() implies joined(
                        segments@,
                        #[trigger] more[k],
                        #[trigger] more[l],
                    ) by {
                        if back {
                            if l < before.len() {
                                assert(more[k] == before[k] && more[l] == before[l]);
                            }
                        } else if k > 0 {
                            assert(more[k] == before[k - 1] && more[l] == before[l - 1]);
                        }
                    }
                    assert forall|k: int| 0 <= k < more.len() implies (#[trigger] more[k]).segment < segments@.len() by {
                        if back {
                            if k < before.len() {
                                assert(more[k] == before[k]);
                            }
                        } else if k > 0 {
                            assert(more[k] == before[k - 1]);
                        }
                    }
                }
            },
            None => {
                break;
            },
        }
    }
}

/// Joins segments end to end into chains.
pub fn chain_contour_segments(segments: &Vec<ContourSegment>) -> (r: Vec<Vec<ChainPoint>>)
    ensures
        r@.map_values(|c: Vec<ChainPoint>| c@) == chained(segments@, segments@.len() as int).0,
{
    let ghost view = |c: Vec<ChainPoint>| c@;
    let n: usize = segments.len();
    let mut used: Vec<bool> = Vec::new();
    let mut i: usize = 0;
    while i < n
        invariant
            i <= n,
            used@ == Seq::new(i as nat, |k: int| false),
        decreases n - i,
    {
        used.push(false);
        assert(used@ =~= Seq::new((i + 1) as nat, |k: int| false));
        i += 1;
    }
    let mut chains: Vec<Vec<ChainPoint>> = Vec::new();
    let mut seed: usize = 0;
    assert(chains@.map_values(view) =~= Seq::<Seq<ChainPoint>>::empty());
    while seed < n
        invariant
            n == segments@.len(),
            seed <= n,
            view == (|c: Vec<ChainPoint>| c@),
            (chains@.map_values(view), used@) == chained(segments@, seed as int),
            used@.len() == n,
        decreases n - seed,
    {
        if !used[seed] {
            let ghost before = chains@;
            proof {
                lemma_chain_from(segments@, used@, seed as int);
            }
            used.set(seed, true);
            let mut chain: Vec<ChainPoint> = Vec::new();
            chain.push(ChainPoint { segment: seed, second: false });
            chain.push(ChainPoint { segment: seed, second: true });
            proof {
                let pair = seq![ChainPoint { segment: seed, second: false }, ChainPoint { segment: seed, second: true }];
                assert(chain@ =~= pair);
                assert(joined(segments@, pair[0], pair[1]));
                assert(linked(segments@, chain@));
            }
            grow(segments, &mut used, &mut chain, true);
            grow(segments, &mut used, &mut chain, false);
            chains.push(chain);
            assert(chains@.map_values(view) =~= before.map_values(view).push(chain@));
        }
        seed += 1;
    }
    chains
}

} // verus!
