use vstd::arithmetic::power2::{
    lemma2_to64, lemma2_to64_rest, lemma_pow2_strictly_increases, lemma_pow2_unfold, pow2,
};
use vstd::prelude::*;

verus! {

/// Number of Fibonacci numbers that the engine keeps: F(0) up to F(51).
pub const FIB_TABLE_LEN: usize = 52;

/// The golden ratio 1.618033988749895, as an integer scaled by `PHI_SCALE`.
pub const PHI_SCALED: u64 = 1618033988749895;

/// The scale of `PHI_SCALED`: fifteen decimal places.
pub const PHI_SCALE: u64 = 1000000000000000;

/// The Fibonacci numbers: F(0) = 0, F(1) = 1, F(n) = F(n - 2) + F(n - 1).
pub open spec fn fib(n: nat) -> nat
    decreases n,
{
    if n == 0 {
        0
    } else if n == 1 {
        1
    } else {
        fib((n - 2) as nat) + fib((n - 1) as nat)
    }
}

/// The integer part of phi * k, for the golden ratio phi as `PHI_SCALED`
/// gives it.
pub open spec fn phi_floor(k: nat) -> nat {
    (PHI_SCALED as nat * k) / (PHI_SCALE as nat)
}

/// The distance between two natural numbers.
pub open spec fn distance(x: nat, y: nat) -> nat {
    if x >= y {
        (x - y) as nat
    } else {
        (y - x) as nat
    }
}

/// Entry `i` of `s` is the first entry of `s` nearest to `target`: no entry
/// is nearer, and every entry before it is farther.
pub open spec fn is_first_nearest(s: Seq<u64>, target: nat, i: int) -> bool {
    &&& 0 <= i < s.len()
    &&& forall|j: int| 0 <= j < s.len() ==> distance(s[i] as nat, target) <= distance(#[trigger] s[j] as nat, target)
    &&& forall|j: int| 0 <= j < i ==> distance(s[i] as nat, target) < distance(#[trigger] s[j] as nat, target)
}

/// At most one entry is the first nearest to a target, so a result described
/// as the first nearest entry is fully determined.
pub proof fn lemma_first_nearest_unique(s: Seq<u64>, target: nat, i: int, j: int)
    requires
        is_first_nearest(s, target, i),
        is_first_nearest(s, target, j),
    ensures
        i == j,
{
    if i < j {
        assert(distance(s[j] as nat, target) < distance(s[i] as nat, target));
    } else if j < i {
        assert(distance(s[i] as nat, target) < distance(s[j] as nat, target));
    }
}

/// F is monotone.
proof fn lemma_fib_monotone(i: nat, j: nat)
    requires
        i <= j,
    ensures
        fib(i) <= fib(j),
    decreases j,
{
    if i < j {
        lemma_fib_monotone(i, (j - 1) as nat);
        if j >= 2 {
            assert(fib(j) == fib((j - 2) as nat) + fib((j - 1) as nat));
        }
    }
}

/// In a table of F(0) to F(51), the first entry nearest to 161 is F(12) = 144.
proof fn lemma_nearest_to_161(s: Seq<u64>, i: int)
    requires
        s.len() == FIB_TABLE_LEN,
        forall|k: int| 0 <= k < FIB_TABLE_LEN ==> #[trigger] s[k] as nat == fib(k as nat),
        is_first_nearest(s, 161, i),
    ensures
        s[i] == 144,
{
    assert(fib(0) == 0);
    assert(fib(1) == 1);
    assert(fib(2) == 1);
    assert(fib(3) == 2);
    assert(fib(4) == 3);
    assert(fib(5) == 5);
    assert(fib(6) == 8);
    assert(fib(7) == 13);
    assert(fib(8) == 21);
    assert(fib(9) == 34);
    assert(fib(10) == 55);
    assert(fib(11) == 89);
    assert(fib(12) == 144);
    assert(fib(13) == 233);
    assert(distance(s[12] as nat, 161) == 17);
    if i <= 11 {
        lemma_fib_monotone(i as nat, 11);
    } else if i >= 13 {
        lemma_fib_monotone(13, i as nat);
    }
}

/// F(n) never exceeds 2^n.
proof fn lemma_fib_below_pow2(n: nat)
    ensures
        fib(n) <= pow2(n),
    decreases n,
{
    if n == 0 {
        lemma2_to64();
    } else if n == 1 {
        lemma2_to64();
    } else {
        lemma_fib_below_pow2((n - 2) as nat);
        lemma_fib_below_pow2((n - 1) as nat);
        lemma_pow2_unfold(n);
        lemma_pow2_unfold((n - 1) as nat);
    }
}

/// The engine of the harmonic-oscillator computations. It holds the table of
/// the first `FIB_TABLE_LEN` Fibonacci numbers, built once at construction.
pub struct QuantumEngineRS {
    fib_cache: Vec<u64>,
}

impl QuantumEngineRS {
    /// The Fibonacci table the engine holds.
    pub closed spec fn table(&self) -> Seq<u64> {
        self.fib_cache@
    }

    /// The table holds F(0) to F(51), in order.
    pub open spec fn wf(&self) -> bool {
        &&& self.table().len() == FIB_TABLE_LEN
        &&& forall|i: int| 0 <= i < FIB_TABLE_LEN ==> #[trigger] self.table()[i] as nat == fib(i as nat)
    }

    /// Builds the engine and its Fibonacci table.
    pub fn new() -> (r: Self)
        ensures
            r.wf(),
    {
        let mut fib_cache: Vec<u64> = vec![0u64, 1u64];
        let mut k: usize = 0;
        while k < FIB_TABLE_LEN - 2
            invariant
                k <= FIB_TABLE_LEN - 2,
                fib_cache@.len() == k + 2,
                forall|i: int| 0 <= i < k + 2 ==> #[trigger] fib_cache@[i] as nat == fib(i as nat),
            decreases FIB_TABLE_LEN - 2 - k,
        {
            let len = fib_cache.len();
            proof {
                lemma_fib_below_pow2(len as nat);
                lemma2_to64_rest();
                if len < 51 {
                    lemma_pow2_strictly_increases(len as nat, 51);
                }
                assert(fib(len as nat) == fib((len - 2) as nat) + fib((len - 1) as nat));
            }
            let next = fib_cache[len - 1] + fib_cache[len - 2];
            fib_cache.push(next);
            k = k + 1;
        }
        QuantumEngineRS { fib_cache }
    }

    /// F(i), read from the table.
    pub fn fib_at(&self, i: usize) -> (r: u64)
        requires
            self.wf(),
            i < FIB_TABLE_LEN,
        ensures
            r as nat == fib(i as nat),
    {
        self.fib_cache[i]
    }

    /// The first Fibonacci number of the table that is nearest to `target`.
    pub fn nearest_fib(&self, target: u64) -> (r: u64)
        requires
            self.wf(),
        ensures
            exists|i: int| is_first_nearest(self.table(), target as nat, i) && r == self.table()[i],
    {
        let mut best: usize = 0;
        let mut best_dist: u64 = abs_diff(self.fib_cache[0], target);
        let mut j: usize = 1;
        while j < self.fib_cache.len()
            invariant
                self.wf(),
                1 <= j <= self.table().len(),
                best < j,
                best_dist as nat == distance(self.table()[best as int] as nat, target as nat),
                forall|k: int| 0 <= k < j ==> best_dist <= distance(#[trigger] self.table()[k] as nat, target as nat),
                forall|k: int| 0 <= k < best ==> best_dist < distance(#[trigger] self.table()[k] as nat, target as nat),
            decreases self.table().len() - j,
        {
            let d = abs_diff(self.fib_cache[j], target);
            if d < best_dist {
                best = j;
                best_dist = d;
            }
            j = j + 1;
        }
        self.fib_cache[best]
    }

    /// The quantization pair: the integer part of phi * 144000, and the first
    /// Fibonacci number of the table nearest to the integer part of phi * 100.
    pub fn phi_quantization(&self) -> (r: (u64, u64))
        requires
            self.wf(),
        ensures
            r.0 as nat == phi_floor(144000),
            exists|i: int| is_first_nearest(self.table(), phi_floor(100), i) && r.1 == self.table()[i],
            r == (232996u64, 144u64),
    {
        let base_144k: u64 = PHI_SCALED * 144 / (PHI_SCALE / 1000);
        let quantum_state: u64 = PHI_SCALED * 100 / PHI_SCALE;
        assert(phi_floor(144000) == 232996 && base_144k == 232996);
        assert(phi_floor(100) == 161 && quantum_state == 161);
        let nearest = self.nearest_fib(quantum_state);
        proof {
            let i = choose|i: int| is_first_nearest(self.table(), 161, i) && nearest == self.table()[i];
            lemma_nearest_to_161(self.table(), i);
        }
        (base_144k, nearest)
    }
}

/// The distance between `x` and `y`.
fn abs_diff(x: u64, y: u64) -> (r: u64)
    ensures
        r as nat == distance(x as nat, y as nat),
{
    if x >= y {
        x - y
    } else {
        y - x
    }
}

} // verus!
