use vstd::prelude::*;

verus! {

/// Identity of one expert: 32 opaque bytes, ordered as a byte string.
#[derive(Clone, Copy, Debug, PartialEq, Eq, Hash, PartialOrd, Ord)]
pub struct ExpertId(pub [u8; 32]);

/// Lexicographic order on byte strings.
pub open spec fn bytes_less(a: Seq<u8>, b: Seq<u8>) -> bool
    decreases a.len(),
{
    if a.len() == 0 || b.len() == 0 {
        false
    } else if a[0] != b[0] {
        a[0] < b[0]
    } else {
        bytes_less(a.drop_first(), b.drop_first())
    }
}

/// The total order on expert identities used to break ties.
pub open spec fn id_less(a: ExpertId, b: ExpertId) -> bool {
    bytes_less(a.0@, b.0@)
}

/// No byte string comes before itself.
pub proof fn lemma_bytes_less_irreflexive(a: Seq<u8>)
    ensures
        !bytes_less(a, a),
    decreases a.len(),
{
    if a.len() > 0 {
        lemma_bytes_less_irreflexive(a.drop_first());
    }
}

/// The byte-string order is transitive.
pub proof fn lemma_bytes_less_transitive(a: Seq<u8>, b: Seq<u8>, c: Seq<u8>)
    requires
        bytes_less(a, b),
        bytes_less(b, c),
    ensures
        bytes_less(a, c),
    decreases a.len(),
{
    if a[0] == b[0] && b[0] == c[0] {
        lemma_bytes_less_transitive(a.drop_first(), b.drop_first(), c.drop_first());
    }
}

/// Of two different byte strings of one length, one comes before the other.
pub proof fn lemma_bytes_less_total(a: Seq<u8>, b: Seq<u8>)
    requires
        a.len() == b.len(),
        a != b,
    ensures
        bytes_less(a, b) || bytes_less(b, a),
    decreases a.len(),
{
    if a.len() == 0 {
        assert(a =~= b);
    } else if a[0] == b[0] {
        if a.drop_first() == b.drop_first() {
            assert(a =~= b) by {
                assert forall|i: int| 0 <= i < a.len() implies a[i] == b[i] by {
                    if i > 0 {
                        assert(a[i] == a.drop_first()[i - 1]);
                        assert(b[i] == b.drop_first()[i - 1]);
                    }
                }
            }
        }
        lemma_bytes_less_total(a.drop_first(), b.drop_first());
    }
}

/// Identities are equal exactly when their bytes are.
pub proof fn lemma_id_eq(a: ExpertId, b: ExpertId)
    ensures
        (a == b) <==> (a.0@ == b.0@),
{
    if a.0@ == b.0@ {
        assert(a.0 =~= b.0) by {
            assert forall|i: int| 0 <= i < 32 implies a.0[i] == b.0[i] by {
                assert(a.0@[i] == b.0@[i]);
            }
        }
    }
}

/// Compares two identities byte by byte.
pub fn compare_ids(a: &ExpertId, b: &ExpertId) -> (r: std::cmp::Ordering)
    ensures
        (r == std::cmp::Ordering::Less) <==> id_less(*a, *b),
        (r == std::cmp::Ordering::Greater) <==> id_less(*b, *a),
        (r == std::cmp::Ordering::Equal) <==> (*a == *b),
{
    let ghost sa = a.0@;
    let ghost sb = b.0@;
    proof {
        lemma_id_eq(*a, *b);
        lemma_bytes_less_irreflexive(sa);
        assert(sa.skip(0) =~= sa);
        assert(sb.skip(0) =~= sb);
    }
    let mut i: usize = 0;
    while i < 32
        invariant
            0 <= i <= 32,
            sa == a.0@,
            sb == b.0@,
            sa.len() == 32,
            sb.len() == 32,
            sa.take(i as int) == sb.take(i as int),
            bytes_less(sa, sb) == bytes_less(sa.skip(i as int), sb.skip(i as int)),
            bytes_less(sb, sa) == bytes_less(sb.skip(i as int), sa.skip(i as int)),
        decreases 32 - i,
    {
        let x = a.0[i];
        let y = b.0[i];
        proof {
            assert(sa.skip(i as int)[0] == x);
            assert(sb.skip(i as int)[0] == y);
            assert(sa.skip(i as int).drop_first() =~= sa.skip(i + 1));
            assert(sb.skip(i as int).drop_first() =~= sb.skip(i + 1));
        }
        if x < y {
            proof {
                assert(sa != sb) by {
                    assert(sa[i as int] != sb[i as int]);
                }
            }
            return std::cmp::Ordering::Less;
        }
        if x > y {
            proof {
                assert(sa != sb) by {
                    assert(sa[i as int] != sb[i as int]);
                }
            }
            return std::cmp::Ordering::Greater;
        }
        proof {
            assert(sa.take(i + 1) =~= sa.take(i as int).push(x));
            assert(sb.take(i + 1) =~= sb.take(i as int).push(y));
        }
        i = i + 1;
    }
    proof {
        assert(sa.take(32) =~= sa);
        assert(sb.take(32) =~= sb);
    }
    std::cmp::Ordering::Equal
}

/// The bytes of the identity numbered `v`: `v` in the first four bytes, little-endian,
/// and zeros after.
pub open spec fn index_bytes(v: nat) -> Seq<u8> {
    seq![
        (v % 256) as u8,
        (v / 256 % 256) as u8,
        (v / 65536 % 256) as u8,
        (v / 16777216 % 256) as u8,
    ] + Seq::new(28, |i: int| 0u8)
}

impl ExpertId {
    /// The identity numbered `v`.
    pub fn from_index(v: u32) -> (id: ExpertId)
        ensures
            id.0@ == index_bytes(v as nat),
    {
        let b0 = (v % 256) as u8;
        let b1 = (v / 256 % 256) as u8;
        let b2 = (v / 65536 % 256) as u8;
        let b3 = (v / 16777216 % 256) as u8;
        let bytes: [u8; 32] = [
            b0, b1, b2, b3, 0, 0, 0, 0, 0, 0, 0, 0, 0, 0, 0, 0,
            0, 0, 0, 0, 0, 0, 0, 0, 0, 0, 0, 0, 0, 0, 0, 0,
        ];
        assert(bytes@ =~= index_bytes(v as nat));
        ExpertId(bytes)
    }
}

/// Service tier of a request; it fixes how many experts are activated.
#[derive(Clone, Copy, Debug, PartialEq, Eq, Hash, PartialOrd, Ord)]
pub enum Tier {
    Nano,
    Standard,
    Pro,
    Max,
}

/// Activation width of a tier.
pub open spec fn width_of(tier: Tier) -> nat {
    match tier {
        Tier::Nano => 2,
        Tier::Standard => 4,
        Tier::Pro => 8,
        Tier::Max => 16,
    }
}

/// Position of a tier in the order of widths, from `Nano` to `Max`.
pub open spec fn tier_rank(tier: Tier) -> nat {
    match tier {
        Tier::Nano => 0,
        Tier::Standard => 1,
        Tier::Pro => 2,
        Tier::Max => 3,
    }
}

impl Tier {
    /// Number of experts activated for this tier.
    pub fn width(&self) -> (k: usize)
        ensures
            k == width_of(*self),
    {
        match self {
            Tier::Nano => 2,
            Tier::Standard => 4,
            Tier::Pro => 8,
            Tier::Max => 16,
        }
    }
}

/// A wider tier never activates fewer experts.
pub proof fn lemma_width_monotone(a: Tier, b: Tier)
    requires
        tier_rank(a) <= tier_rank(b),
    ensures
        width_of(a) <= width_of(b),
{
}

/// The experts to activate for one step, highest priority first.
#[derive(Clone, Debug, PartialEq, Eq)]
pub struct RoutingDecision {
    pub expert_ids: Vec<ExpertId>,
}

} // verus!
