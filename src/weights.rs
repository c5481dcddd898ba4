use vstd::prelude::*;
use vstd::set_lib::{lemma_int_range, lemma_len_subset, set_int_range};

use crate::types::{compare_ids, id_less, lemma_bytes_less_irreflexive, lemma_bytes_less_total,
    lemma_bytes_less_transitive, lemma_id_eq, ExpertId};

verus! {

/// Numeric position of an IEEE-754 binary32 value given by its bit pattern: the
/// sign-magnitude reading of the bits. Finite values and infinities are ordered as
/// numbers, `+0.0` and `-0.0` stand level, and NaNs lie beyond the infinities.
pub open spec fn weight_rank(bits: u32) -> int {
    if bits >= 0x8000_0000 {
        -((bits - 0x8000_0000) as int)
    } else {
        bits as int
    }
}

/// Maps a weight's bit pattern to an unsigned key that orders as `weight_rank`.
pub fn weight_key(bits: u32) -> (r: u32)
    ensures
        r as int == weight_rank(bits) + 0x8000_0000,
{
    if bits >= 0x8000_0000 {
        0x8000_0000 - (bits - 0x8000_0000)
    } else {
        bits + 0x8000_0000
    }
}

/// One weighted expert: its identity and the bit pattern of its `f32` weight.
pub type WeightEntry = (ExpertId, u32);

/// `a` comes before `b` in a ranking: heavier first, ties by ascending identity.
pub open spec fn ranked_before(a: WeightEntry, b: WeightEntry) -> bool {
    weight_rank(a.1) > weight_rank(b.1) || (weight_rank(a.1) == weight_rank(b.1) && id_less(
        a.0,
        b.0,
    ))
}

/// No identity occurs twice.
pub open spec fn ids_unique(s: Seq<WeightEntry>) -> bool {
    forall|i: int, j: int| 0 <= i < j < s.len() ==> s[i].0 != s[j].0
}

/// `picks` indexes the best `min(k, |s|)` entries of `s`, best first.
pub open spec fn top_picks(s: Seq<WeightEntry>, k: nat, picks: Seq<int>) -> bool {
    &&& picks.len() == (if k <= s.len() { k } else { s.len() })
    &&& forall|i: int| 0 <= i < picks.len() ==> 0 <= #[trigger] picks[i] < s.len()
    &&& forall|i: int, j: int|
        0 <= i < j < picks.len() ==> ranked_before(s[#[trigger] picks[i]], s[#[trigger] picks[j]])
    &&& forall|x: int, i: int|
        0 <= x < s.len() && !picks.contains(x) && 0 <= i < picks.len() ==> ranked_before(
            s[#[trigger] picks[i]],
            #[trigger] s[x],
        )
}

/// `ids` are the identities of the best `min(k, |s|)` entries of `s`, best first.
pub open spec fn is_top_k(s: Seq<WeightEntry>, k: nat, ids: Seq<ExpertId>) -> bool {
    exists|picks: Seq<int>|
        #![trigger top_picks(s, k, picks)]
        top_picks(s, k, picks) && ids.len() == picks.len() && forall|i: int|
            0 <= i < ids.len() ==> #[trigger] ids[i] == s[picks[i]].0
}

/// No entry ranks before itself.
pub proof fn lemma_ranked_before_irreflexive(a: WeightEntry)
    ensures
        !ranked_before(a, a),
{
    lemma_bytes_less_irreflexive(a.0.0@);
}

/// The ranking order is transitive.
pub proof fn lemma_ranked_before_transitive(a: WeightEntry, b: WeightEntry, c: WeightEntry)
    requires
        ranked_before(a, b),
        ranked_before(b, c),
    ensures
        ranked_before(a, c),
{
    if weight_rank(a.1) == weight_rank(b.1) && weight_rank(b.1) == weight_rank(c.1) {
        lemma_bytes_less_transitive(a.0.0@, b.0.0@, c.0.0@);
    }
}

/// Of two entries for different experts, one ranks before the other.
pub proof fn lemma_ranked_before_total(a: WeightEntry, b: WeightEntry)
    requires
        a.0 != b.0,
    ensures
        ranked_before(a, b) || ranked_before(b, a),
{
    lemma_id_eq(a.0, b.0);
    lemma_bytes_less_total(a.0.0@, b.0.0@);
}

/// A sequence of distinct indices below `n` has at most `n` items, and exactly `n`
/// when it holds every index below `n`.
proof fn lemma_picks_len(picks: Seq<int>, n: nat)
    requires
        picks.no_duplicates(),
        forall|i: int| 0 <= i < picks.len() ==> 0 <= #[trigger] picks[i] < n,
    ensures
        picks.len() <= n,
        (forall|x: int| 0 <= x < n ==> picks.contains(x)) ==> picks.len() == n,
{
    picks.unique_seq_to_set();
    lemma_int_range(0, n as int);
    assert(picks.to_set().subset_of(set_int_range(0, n as int)));
    lemma_len_subset(picks.to_set(), set_int_range(0, n as int));
    if forall|x: int| 0 <= x < n ==> picks.contains(x) {
        assert(set_int_range(0, n as int).subset_of(picks.to_set()));
        lemma_len_subset(set_int_range(0, n as int), picks.to_set());
    }
}

/// `after` is `before` with `id` weighted `weight`: an existing entry for `id` is
/// overwritten in place, otherwise one is appended.
pub open spec fn inserted(
    before: Seq<WeightEntry>,
    id: ExpertId,
    weight: u32,
    after: Seq<WeightEntry>,
) -> bool {
    &&& forall|j: int|
        0 <= j < before.len() && (#[trigger] before[j]).0 == id ==> after == before.update(
            j,
            (id, weight),
        )
    &&& (forall|j: int| 0 <= j < before.len() ==> (#[trigger] before[j]).0 != id) ==> after
        == before.push((id, weight))
}

/// A map from expert to weight, each expert at most once, kept in order of first insertion.
pub struct WeightMap {
    entries: Vec<WeightEntry>,
}

impl View for WeightMap {
    type V = Seq<WeightEntry>;

    closed spec fn view(&self) -> Seq<WeightEntry> {
        self.entries@
    }
}

impl WeightMap {
    #[verifier::type_invariant]
    spec fn keys_unique(self) -> bool {
        ids_unique(self.entries@)
    }

    /// An empty map.
    pub fn new() -> (m: WeightMap)
        ensures
            m@ == Seq::<WeightEntry>::empty(),
    {
        WeightMap { entries: Vec::new() }
    }

    /// Number of experts in the map.
    pub fn len(&self) -> (n: usize)
        ensures
            n == self@.len(),
    {
        self.entries.len()
    }

    /// Sets the weight of `id`, given as the bit pattern of an `f32`: an existing entry
    /// is overwritten in place, a new one is appended.
    pub fn insert(&mut self, id: ExpertId, weight: u32)
        ensures
            ids_unique(final(self)@),
            inserted(old(self)@, id, weight, final(self)@),
    {
        proof {
            use_type_invariant(&*self);
        }
        let mut v: Vec<WeightEntry> = Vec::new();
        std::mem::swap(&mut self.entries, &mut v);
        let n = v.len();
        let mut j: usize = 0;
        let mut found = false;
        while j < n && !found
            invariant
                0 <= j <= n,
                n == v@.len(),
                v@ == old(self)@,
                ids_unique(v@),
                found ==> j < n && v@[j as int].0 == id,
                forall|x: int| 0 <= x < j ==> v@[x].0 != id,
            decreases n - j + (if found { 0int } else { 1int }),
        {
            if matches!(compare_ids(&v[j].0, &id), std::cmp::Ordering::Equal) {
                found = true;
            } else {
                j = j + 1;
            }
        }
        let ghost before = v@;
        if found {
            v.set(j, (id, weight));
            proof {
                assert forall|x: int, y: int| 0 <= x < y < v@.len() implies v@[x].0 != v@[y].0 by {
                    if x != j && y != j {
                        assert(before[x].0 != before[y].0);
                    } else if x == j {
                        assert(before[j as int].0 != before[y].0);
                    } else {
                        assert(before[x].0 != before[j as int].0);
                    }
                }
                assert forall|k: int| 0 <= k < before.len() && before[k].0 == id implies k == j by {
                    if k < j {
                        assert(before[k].0 != id);
                    } else if k > j {
                        assert(before[j as int].0 != before[k].0);
                    }
                }
            }
        } else {
            v.push((id, weight));
        }
        self.entries = v;
    }
}

/// Compares two entries by rank.
fn ranks_before(a: &WeightEntry, b: &WeightEntry) -> (r: bool)
    ensures
        r == ranked_before(*a, *b),
{
    let ka = weight_key(a.1);
    let kb = weight_key(b.1);
    if ka != kb {
        ka > kb
    } else {
        matches!(compare_ids(&a.0, &b.0), std::cmp::Ordering::Less)
    }
}

/// The identities of the `k` best-ranked entries of `weights`, best first: heavier
/// weights first, equal weights by ascending identity. Fewer than `k` when the map
/// holds fewer entries.
pub fn top_k(weights: &WeightMap, k: usize) -> (ids: Vec<ExpertId>)
    ensures
        is_top_k(weights@, k as nat, ids@),
        ids@.len() == (if k <= weights@.len() { k as nat } else { weights@.len() }),
{
    proof {
        use_type_invariant(weights);
    }
    let s = &weights.entries;
    let n = s.len();
    let mut ids: Vec<ExpertId> = Vec::new();
    let ghost mut picks: Seq<int> = Seq::empty();
    let mut last: usize = 0;
    let mut exhausted = false;
    while ids.len() < k && !exhausted
        invariant
            n == s@.len(),
            s@ == weights@,
            ids_unique(s@),
            ids@.len() == picks.len(),
            ids@.len() <= k,
            forall|i: int| 0 <= i < picks.len() ==> 0 <= #[trigger] picks[i] < n,
            forall|i: int| 0 <= i < ids@.len() ==> #[trigger] ids@[i] == s@[picks[i]].0,
            forall|i: int, j: int|
                0 <= i < j < picks.len() ==> ranked_before(
                    s@[#[trigger] picks[i]],
                    s@[#[trigger] picks[j]],
                ),
            picks.len() > 0 ==> last == picks.last(),
            picks.len() > 0 ==> last < n,
            picks.len() > 0 ==> forall|x: int|
                0 <= x < n && !picks.contains(x) ==> ranked_before(s@[last as int], #[trigger] s@[x]),
            exhausted ==> forall|x: int| 0 <= x < n ==> picks.contains(x),
        decreases k - ids@.len() + (if exhausted { 0int } else { 1int }),
    {
        let mut best: usize = 0;
        let mut found = false;
        let mut j: usize = 0;
        while j < n
            invariant
                0 <= j <= n,
                n == s@.len(),
                ids_unique(s@),
                ids@.len() == picks.len(),
                picks.len() > 0 ==> last < n,
                picks.len() > 0 ==> forall|x: int|
                    0 <= x < n && !picks.contains(x) ==> ranked_before(s@[last as int], #[trigger] s@[x]),
                found ==> best < j,
                found ==> (picks.len() == 0 || ranked_before(s@[last as int], s@[best as int])),
                forall|x: int|
                    0 <= x < j && (picks.len() == 0 || ranked_before(s@[last as int], s@[x]))
                        ==> found && (x == best || ranked_before(s@[best as int], #[trigger] s@[x])),
            decreases n - j,
        {
            let candidate = ids.len() == 0 || ranks_before(&s[last], &s[j]);
            if candidate {
                if !found || ranks_before(&s[j], &s[best]) {
                    proof {
                        assert forall|x: int|
                            0 <= x < j && (picks.len() == 0 || ranked_before(s@[last as int], s@[x]))
                                implies ranked_before(s@[j as int], #[trigger] s@[x]) by {
                            if found && x != best {
                                lemma_ranked_before_transitive(s@[j as int], s@[best as int], s@[x]);
                            }
                        }
                    }
                    best = j;
                    found = true;
                } else {
                    proof {
                        assert(s@[j as int].0 != s@[best as int].0);
                        lemma_ranked_before_total(s@[j as int], s@[best as int]);
                    }
                }
            }
            j = j + 1;
        }
        if found {
            proof {
                let old_picks = picks;
                assert forall|x: int|
                    0 <= x < n && !old_picks.push(best as int).contains(x) implies ranked_before(
                    s@[best as int],
                    #[trigger] s@[x],
                ) by {
                    assert(old_picks.push(best as int)[old_picks.len() as int] == best);
                    if old_picks.contains(x) {
                        let i = choose|i: int| 0 <= i < old_picks.len() && old_picks[i] == x;
                        assert(old_picks.push(best as int)[i] == x);
                    }
                }
                assert forall|i: int| 0 <= i < old_picks.len() implies ranked_before(
                    s@[#[trigger] old_picks[i]],
                    s@[best as int],
                ) by {
                    if i < old_picks.len() - 1 {
                        lemma_ranked_before_transitive(
                            s@[old_picks[i]],
                            s@[last as int],
                            s@[best as int],
                        );
                    }
                }
                picks = old_picks.push(best as int);
                assert forall|x: int|
                    0 <= x < n && !picks.contains(x) implies ranked_before(
                    s@[best as int],
                    #[trigger] s@[x],
                ) by {
                    assert(!old_picks.push(best as int).contains(x));
                }
            }
            ids.push(s[best].0);
            last = best;
        } else {
            proof {
                assert forall|x: int| 0 <= x < n implies picks.contains(x) by {
                    if !picks.contains(x) {
                        if picks.len() > 0 {
                            assert(ranked_before(s@[last as int], s@[x]));
                        } else {
                            assert(s@[x] == s@[x]);
                        }
                        assert(found);
                    }
                }
            }
            exhausted = true;
        }
    }
    proof {
        assert(picks.no_duplicates()) by {
            assert forall|i: int, j: int|
                0 <= i < picks.len() && 0 <= j < picks.len() && i != j implies picks[i]
                != picks[j] by {
                if i < j {
                    lemma_ranked_before_irreflexive(s@[picks[i]]);
                } else {
                    lemma_ranked_before_irreflexive(s@[picks[j]]);
                }
            }
        }
        lemma_picks_len(picks, n as nat);
        assert forall|x: int, i: int|
            0 <= x < n && !picks.contains(x) && 0 <= i < picks.len() implies ranked_before(
            s@[#[trigger] picks[i]],
            #[trigger] s@[x],
        ) by {
            if i < picks.len() - 1 {
                lemma_ranked_before_transitive(s@[picks[i]], s@[last as int], s@[x]);
            }
        }
        assert(top_picks(weights@, k as nat, picks));
    }
    ids
}

} // verus!
