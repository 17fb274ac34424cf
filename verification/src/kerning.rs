use vstd::prelude::*;

verus! {

/// Everything the outside collaborators report about one ordered character
/// pair, before the cache decides which value to keep.
///
/// `gpos_units` is the raw horizontal advance adjustment of the first rule the
/// font's pair-positioning table holds for the pair (font units), or `None`
/// when the table has no rule for it. `gpos_scaled_bits` is the bit pattern of
/// that adjustment scaled to the configured pixel size. `fallback_bits` is the
/// bit pattern of the rasterizer's legacy kerning table entry for the pair, if
/// it has one.
#[derive(Clone, Copy, Debug, PartialEq, Eq, Structural)]
pub struct KernSource {
    pub gpos_units: Option<i16>,
    pub gpos_scaled_bits: u32,
    pub fallback_bits: Option<u32>,
}

impl KernSource {
    /// The resolution order: a pair-positioning rule wins, but a rule whose
    /// adjustment is zero counts as no rule and falls back to the legacy
    /// table; with no rule at all the legacy table decides.
    pub open spec fn spec_resolve(self) -> Option<u32> {
        match self.gpos_units {
            Some(units) => if units != 0i16 {
                Some(self.gpos_scaled_bits)
            } else {
                self.fallback_bits
            },
            None => self.fallback_bits,
        }
    }

    pub fn resolve(&self) -> (r: Option<u32>)
        ensures
            r == self.spec_resolve(),
    {
        match self.gpos_units {
            Some(units) => if units != 0i16 {
                Some(self.gpos_scaled_bits)
            } else {
                self.fallback_bits
            },
            None => self.fallback_bits,
        }
    }

    /// A source that reports no adjustment from either table.
    pub fn none() -> (r: KernSource)
        ensures
            r.spec_resolve() is None,
    {
        KernSource { gpos_units: None, gpos_scaled_bits: 0, fallback_bits: None }
    }
}

/// The kerning inputs of one already-cached character `other` against a newly
/// inserted character `c`: `forward` is the pair (`c`, `other`) in reading
/// order, `backward` the pair (`other`, `c`).
#[derive(Clone, Copy, Debug, PartialEq, Eq, Structural)]
pub struct PairKernSource {
    pub other: u32,
    pub forward: KernSource,
    pub backward: KernSource,
}

/// The key the kerning cache stores an ordered character pair under.
pub open spec fn spec_pair_key(left: u32, right: u32) -> u64 {
    (left * 0x1_0000_0000 + right) as u64
}

pub fn pair_key(left: u32, right: u32) -> (r: u64)
    ensures
        r == spec_pair_key(left, right),
{
    proof {
        lemma_pair_key_bounds(left, right);
    }
    (left as u64) * 0x1_0000_0000u64 + (right as u64)
}

proof fn lemma_pair_key_bounds(left: u32, right: u32)
    by (nonlinear_arith)
    ensures
        0 <= left * 0x1_0000_0000 + right <= 0xFFFF_FFFF_FFFF_FFFF,
{
}

/// Distinct ordered pairs get distinct keys.
pub proof fn lemma_pair_key_injective(l1: u32, r1: u32, l2: u32, r2: u32)
    by (nonlinear_arith)
    requires
        spec_pair_key(l1, r1) == spec_pair_key(l2, r2),
    ensures
        l1 == l2,
        r1 == r2,
{
}


/// The value a kerning source contributes to the cache: the resolved
/// adjustment, or zero when neither table has a rule.
pub open spec fn resolve_or_zero(s: KernSource) -> u32 {
    match s.spec_resolve() {
        Some(v) => v,
        None => 0u32,
    }
}

/// What a kerning-cache lookup answers: the stored value, or zero for an
/// absent pair.
pub open spec fn lookup_or_zero(m: Map<u64, u32>, k: u64) -> u32 {
    if m.contains_key(k) {
        m[k]
    } else {
        0u32
    }
}

/// The kerning cache after the first `n` pair sources for a newly inserted
/// character `c` were resolved and the resolved values stored, in order: for
/// each source, first the pair (`c`, `other`), then (`other`, `c`).
pub open spec fn kern_map_after(
    m: Map<u64, u32>,
    c: u32,
    kern: Seq<PairKernSource>,
    n: int,
) -> Map<u64, u32>
    decreases n,
{
    if n <= 0 {
        m
    } else {
        let prev = kern_map_after(m, c, kern, n - 1);
        let p = kern[n - 1];
        let with_forward = match p.forward.spec_resolve() {
            Some(v) => prev.insert(spec_pair_key(c, p.other), v),
            None => prev,
        };
        match p.backward.spec_resolve() {
            Some(v) => with_forward.insert(spec_pair_key(p.other, c), v),
            None => with_forward,
        }
    }
}

/// A pair whose key none of the first `n` sources writes keeps exactly the
/// entry (or absence) it had before.
pub(crate) proof fn lemma_kern_map_after_untouched(
    m: Map<u64, u32>,
    c: u32,
    kern: Seq<PairKernSource>,
    n: int,
    a: u32,
    b: u32,
)
    requires
        0 <= n <= kern.len(),
        a == c ==> forall|j: int| 0 <= j < n ==> (#[trigger] kern[j].other) != b,
        b == c ==> forall|j: int| 0 <= j < n ==> (#[trigger] kern[j].other) != a,
    ensures
        kern_map_after(m, c, kern, n).contains_key(spec_pair_key(a, b)) == m.contains_key(
            spec_pair_key(a, b),
        ),
        m.contains_key(spec_pair_key(a, b)) ==> kern_map_after(m, c, kern, n)[spec_pair_key(a, b)]
            == m[spec_pair_key(a, b)],
    decreases n,
{
    if n > 0 {
        lemma_kern_map_after_untouched(m, c, kern, n - 1, a, b);
        let p = kern[n - 1];
        if spec_pair_key(c, p.other) == spec_pair_key(a, b) {
            lemma_pair_key_injective(c, p.other, a, b);
            assert(false);
        }
        if spec_pair_key(p.other, c) == spec_pair_key(a, b) {
            lemma_pair_key_injective(p.other, c, a, b);
            assert(false);
        }
    }
}

/// After all `n` sources are stored, the pair (`c`, `other_j`) answers the
/// resolved value of source `j` in reading order, or zero when it resolved to
/// nothing.
pub(crate) proof fn lemma_kern_map_after_forward(
    m: Map<u64, u32>,
    c: u32,
    kern: Seq<PairKernSource>,
    n: int,
    j: int,
)
    requires
        0 <= j < n <= kern.len(),
        forall|j1: int, j2: int|
            0 <= j1 < j2 < kern.len() ==> (#[trigger] kern[j1].other) != (#[trigger] kern[
                j2
            ].other),
        forall|j1: int| 0 <= j1 < kern.len() ==> (#[trigger] kern[j1].other) != c,
        !m.contains_key(spec_pair_key(c, kern[j].other)),
    ensures
        lookup_or_zero(kern_map_after(m, c, kern, n), spec_pair_key(c, kern[j].other))
            == resolve_or_zero(kern[j].forward),
    decreases n,
{
    let key = spec_pair_key(c, kern[j].other);
    let p = kern[n - 1];
    if j == n - 1 {
        lemma_kern_map_after_untouched(m, c, kern, n - 1, c, kern[j].other);
        if spec_pair_key(p.other, c) == key {
            lemma_pair_key_injective(p.other, c, c, p.other);
            assert(false);
        }
    } else {
        lemma_kern_map_after_forward(m, c, kern, n - 1, j);
        if spec_pair_key(c, p.other) == key {
            lemma_pair_key_injective(c, p.other, c, kern[j].other);
            assert(false);
        }
        if spec_pair_key(p.other, c) == key {
            lemma_pair_key_injective(p.other, c, c, kern[j].other);
            assert(false);
        }
    }
}

/// After all `n` sources are stored, the pair (`other_j`, `c`) answers the
/// resolved value of source `j` against the reading order, or zero.
pub(crate) proof fn lemma_kern_map_after_backward(
    m: Map<u64, u32>,
    c: u32,
    kern: Seq<PairKernSource>,
    n: int,
    j: int,
)
    requires
        0 <= j < n <= kern.len(),
        forall|j1: int, j2: int|
            0 <= j1 < j2 < kern.len() ==> (#[trigger] kern[j1].other) != (#[trigger] kern[
                j2
            ].other),
        forall|j1: int| 0 <= j1 < kern.len() ==> (#[trigger] kern[j1].other) != c,
        !m.contains_key(spec_pair_key(kern[j].other, c)),
    ensures
        lookup_or_zero(kern_map_after(m, c, kern, n), spec_pair_key(kern[j].other, c))
            == resolve_or_zero(kern[j].backward),
    decreases n,
{
    let key = spec_pair_key(kern[j].other, c);
    let p = kern[n - 1];
    if j == n - 1 {
        lemma_kern_map_after_untouched(m, c, kern, n - 1, kern[j].other, c);
        if spec_pair_key(c, p.other) == key {
            lemma_pair_key_injective(c, p.other, p.other, c);
            assert(false);
        }
    } else {
        lemma_kern_map_after_backward(m, c, kern, n - 1, j);
        if spec_pair_key(c, p.other) == key {
            lemma_pair_key_injective(c, p.other, kern[j].other, c);
            assert(false);
        }
        if spec_pair_key(p.other, c) == key {
            lemma_pair_key_injective(p.other, c, kern[j].other, c);
            assert(false);
        }
    }
}

/// Every key of the cache after `n` sources were stored was either there
/// before or names one of the written pairs.
pub(crate) proof fn lemma_kern_map_after_domain(
    m: Map<u64, u32>,
    c: u32,
    kern: Seq<PairKernSource>,
    n: int,
    k: u64,
)
    requires
        0 <= n <= kern.len(),
        kern_map_after(m, c, kern, n).contains_key(k),
    ensures
        m.contains_key(k) || exists|j: int|
            0 <= j < n && (k == spec_pair_key(c, (#[trigger] kern[j]).other) || k == spec_pair_key(
                kern[j].other,
                c,
            )),
    decreases n,
{
    if n > 0 {
        let p = kern[n - 1];
        if k == spec_pair_key(c, p.other) || k == spec_pair_key(p.other, c) {
            assert(0 <= n - 1 < n && (k == spec_pair_key(c, kern[n - 1].other) || k
                == spec_pair_key(kern[n - 1].other, c)));
        } else {
            lemma_kern_map_after_domain(m, c, kern, n - 1, k);
        }
    }
}

} // verus!
