use vstd::prelude::*;

verus! {

/// Generator state used in place of a zero seed, which would otherwise keep
/// the xorshift state at zero forever.
pub const ZERO_SEED_STATE: u64 = 0x9E3779B97F4A7C15;

/// Multiplier applied to the xorshift state to produce each draw.
pub const DRAW_MULTIPLIER: u64 = 0x2545F4914F6CDD1D;

/// The state the generator starts from for a given seed.
pub open spec fn initial_state(seed: u64) -> u64 {
    if seed == 0 {
        ZERO_SEED_STATE
    } else {
        seed
    }
}

/// One xorshift64 state update.
pub open spec fn xorshift(s: u64) -> u64 {
    let a = s ^ (s >> 12u64);
    let b = a ^ (a << 25u64);
    b ^ (b >> 27u64)
}

/// The 64-bit value drawn once the state has been updated to `s`.
pub open spec fn draw_of(s: u64) -> u64 {
    s.wrapping_mul(DRAW_MULTIPLIER)
}

pub open spec fn identity_seq(n: nat) -> Seq<u32> {
    Seq::new(n, |i: int| i as u32)
}

pub open spec fn swap_at(p: Seq<u32>, i: int, j: int) -> Seq<u32> {
    p.update(i, p[j]).update(j, p[i])
}

/// The Fisher–Yates steps for slots `i` down to 1, starting from state `s`:
/// each step updates the state, draws `r` below `i + 1`, and swaps slots
/// `i` and `r`.
pub open spec fn shuffle_from(p: Seq<u32>, s: u64, i: nat) -> Seq<u32>
    decreases i,
{
    if i == 0 {
        p
    } else {
        let s2 = xorshift(s);
        let r = draw_of(s2) as int % (i + 1) as int;
        shuffle_from(swap_at(p, i as int, r), s2, (i - 1) as nat)
    }
}

/// The permutation of `0..n` that the seed determines.
pub open spec fn fy_permutation(n: nat, seed: u64) -> Seq<u32> {
    if n == 0 {
        Seq::empty()
    } else {
        shuffle_from(identity_seq(n), initial_state(seed), (n - 1) as nat)
    }
}

/// Some slot of `p` holds `v`.
pub open spec fn holds_value(p: Seq<u32>, v: int) -> bool {
    exists|i: int| 0 <= i < p.len() && p[i] as int == v
}

/// `p` is a bijection from `0..p.len()` onto itself.
pub open spec fn is_permutation(p: Seq<u32>) -> bool {
    &&& forall|i: int| 0 <= i < p.len() ==> (#[trigger] p[i] as int) < p.len()
    &&& forall|i: int, j: int|
        0 <= i < p.len() && 0 <= j < p.len() && i != j ==> #[trigger] p[i] != #[trigger] p[j]
    &&& forall|v: int| 0 <= v < p.len() ==> #[trigger] holds_value(p, v)
}

/// `inv` undoes `perm` on both sides.
pub open spec fn is_inverse(perm: Seq<u32>, inv: Seq<u32>) -> bool {
    &&& inv.len() == perm.len()
    &&& forall|i: int| 0 <= i < perm.len() ==> inv[#[trigger] perm[i] as int] as int == i
    &&& forall|v: int| 0 <= v < inv.len() ==> perm[#[trigger] inv[v] as int] as int == v
}

proof fn lemma_identity_is_permutation(n: nat)
    requires
        n <= u32::MAX as nat + 1,
    ensures
        is_permutation(identity_seq(n)),
{
    let p = identity_seq(n);
    assert forall|v: int| 0 <= v < p.len() implies #[trigger] holds_value(p, v) by {
        assert(p[v] as int == v);
    }
}

proof fn lemma_swap_keeps_permutation(p: Seq<u32>, a: int, b: int)
    requires
        is_permutation(p),
        0 <= a < p.len(),
        0 <= b < p.len(),
    ensures
        is_permutation(swap_at(p, a, b)),
{
    let q = swap_at(p, a, b);
    assert forall|i: int, j: int|
        0 <= i < q.len() && 0 <= j < q.len() && i != j implies #[trigger] q[i] != #[trigger] q[j] by {
        let pi = if i == a { b } else if i == b { a } else { i };
        let pj = if j == a { b } else if j == b { a } else { j };
        assert(q[i] == p[pi]);
        assert(q[j] == p[pj]);
    }
    assert forall|i: int| 0 <= i < q.len() implies (#[trigger] q[i] as int) < q.len() by {
        let pi = if i == a { b } else if i == b { a } else { i };
        assert(q[i] == p[pi]);
    }
    assert forall|v: int| 0 <= v < q.len() implies #[trigger] holds_value(q, v) by {
        assert(holds_value(p, v));
        let i = choose|i: int| 0 <= i < p.len() && p[i] as int == v;
        let qi = if i == a { b } else if i == b { a } else { i };
        assert(q[qi] == p[i]);
    }
}

proof fn lemma_shuffle_keeps_permutation(p: Seq<u32>, s: u64, i: nat)
    requires
        is_permutation(p),
        i < p.len(),
    ensures
        is_permutation(shuffle_from(p, s, i)),
        shuffle_from(p, s, i).len() == p.len(),
    decreases i,
{
    if i > 0 {
        let s2 = xorshift(s);
        let r = draw_of(s2) as int % (i + 1) as int;
        lemma_swap_keeps_permutation(p, i as int, r);
        lemma_shuffle_keeps_permutation(swap_at(p, i as int, r), s2, (i - 1) as nat);
    }
}

/// For every length and seed, the seeded shuffle is a permutation of `0..n`.
pub proof fn lemma_fy_is_permutation(n: nat, seed: u64)
    requires
        n <= u32::MAX as nat + 1,
    ensures
        fy_permutation(n, seed).len() == n,
        is_permutation(fy_permutation(n, seed)),
{
    if n > 0 {
        lemma_identity_is_permutation(n);
        lemma_shuffle_keeps_permutation(identity_seq(n), initial_state(seed), (n - 1) as nat);
    }
}

/// A zero seed shuffles exactly as the fallback state does.
pub proof fn lemma_zero_seed_uses_fallback(n: nat)
    ensures
        fy_permutation(n, 0) == fy_permutation(n, ZERO_SEED_STATE),
{
}

/// The identity sequence `0..n`.
pub fn identity_indices(n: usize) -> (p: Vec<u32>)
    requires
        n <= u32::MAX,
    ensures
        p@ == identity_seq(n as nat),
{
    let mut p: Vec<u32> = Vec::with_capacity(n);
    let mut k: usize = 0;
    while k < n
        invariant
            k <= n <= u32::MAX,
            p@ == identity_seq(k as nat),
        decreases n - k,
    {
        p.push(k as u32);
        k += 1;
        assert(p@ =~= identity_seq(k as nat));
    }
    p
}

/// Builds the seeded Fisher–Yates permutation of `0..n`: entry `k` is the
/// original vertex placed in new slot `k`.
pub fn permutation_fy(n: usize, seed: u64) -> (p: Vec<u32>)
    requires
        n <= u32::MAX,
    ensures
        p@ == fy_permutation(n as nat, seed),
        is_permutation(p@),
        p@.len() == n,
{
    let mut p = identity_indices(n);
    proof {
        lemma_fy_is_permutation(n as nat, seed);
        lemma_identity_is_permutation(n as nat);
    }
    if n == 0 {
        assert(p@ =~= fy_permutation(0, seed));
        return p;
    }
    let mut s: u64 = if seed == 0 {
        ZERO_SEED_STATE
    } else {
        seed
    };
    let mut i: usize = n - 1;
    while i > 0
        invariant
            i < n,
            p@.len() == n,
            is_permutation(p@),
            shuffle_from(p@, s, i as nat) == fy_permutation(n as nat, seed),
        decreases i,
    {
        let ghost s0 = s;
        let ghost before = p@;
        s = s ^ (s >> 12u64);
        s = s ^ (s << 25u64);
        s = s ^ (s >> 27u64);
        assert(s == xorshift(s0));
        let d: u64 = s.wrapping_mul(DRAW_MULTIPLIER);
        let r: usize = (d % ((i as u64) + 1)) as usize;
        proof {
            lemma_swap_keeps_permutation(p@, i as int, r as int);
        }
        let a = p[i];
        let b = p[r];
        p.set(i, b);
        p.set(r, a);
        assert(p@ =~= swap_at(before, i as int, r as int));
        i -= 1;
    }
    p
}

proof fn lemma_left_inverse_is_inverse(perm: Seq<u32>, inv: Seq<u32>)
    requires
        is_permutation(perm),
        inv.len() == perm.len(),
        forall|i: int| 0 <= i < perm.len() ==> inv[#[trigger] perm[i] as int] as int == i,
    ensures
        is_inverse(perm, inv),
        is_permutation(inv),
{
    assert forall|v: int| 0 <= v < inv.len() implies perm[#[trigger] inv[v] as int] as int == v
        && (inv[v] as int) < inv.len() by {
        assert(holds_value(perm, v));
        let i = choose|i: int| 0 <= i < perm.len() && perm[i] as int == v;
        assert(inv[perm[i] as int] as int == i);
    }
    assert forall|a: int, b: int|
        0 <= a < inv.len() && 0 <= b < inv.len() && a != b implies #[trigger] inv[a]
        != #[trigger] inv[b] by {
        assert(perm[inv[a] as int] as int == a);
        assert(perm[inv[b] as int] as int == b);
    }
    assert forall|i: int| 0 <= i < inv.len() implies #[trigger] holds_value(inv, i) by {
        assert(inv[perm[i] as int] as int == i);
    }
}

/// Derives the inverse of a permutation in one pass: entry `old` of the
/// result is the new slot that holds the vertex formerly at `old`.
pub fn inverse_permutation(perm: &[u32]) -> (inv: Vec<u32>)
    requires
        is_permutation(perm@),
        perm@.len() <= u32::MAX as nat + 1,
    ensures
        is_inverse(perm@, inv@),
        is_permutation(inv@),
{
    let n = perm.len();
    let mut inv: Vec<u32> = Vec::with_capacity(n);
    let mut k: usize = 0;
    while k < n
        invariant
            k <= n,
            inv@.len() == k,
        decreases n - k,
    {
        inv.push(0);
        k += 1;
    }
    let mut new_idx: usize = 0;
    while new_idx < n
        invariant
            n == perm@.len(),
            n <= u32::MAX as nat + 1,
            new_idx <= n,
            inv@.len() == n,
            is_permutation(perm@),
            forall|j: int| 0 <= j < new_idx ==> inv@[#[trigger] perm@[j] as int] as int == j,
        decreases n - new_idx,
    {
        let old = perm[new_idx] as usize;
        inv.set(old, new_idx as u32);
        new_idx += 1;
    }
    proof {
        lemma_left_inverse_is_inverse(perm@, inv@);
    }
    inv
}

} // verus!
