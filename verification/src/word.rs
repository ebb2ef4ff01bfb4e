use vstd::prelude::*;
use vstd::arithmetic::div_mod::*;
use vstd::arithmetic::power2::*;

verus! {

/// Ground facts about the powers of two that weight the limbs: the numeric
/// values of the small ones and the product structure of the large ones.
pub proof fn lemma_pw()
    ensures
        pow2(64) == 0x1_0000_0000_0000_0000,
        pow2(63) == 0x8000_0000_0000_0000,
        pow2(128) == pow2(64) * pow2(64),
        pow2(192) == pow2(64) * pow2(128),
        pow2(256) == pow2(64) * pow2(192),
        pow2(255) == pow2(192) * pow2(63),
        pow2(256) == 2 * pow2(255),
{
    lemma2_to64();
    lemma2_to64_rest();
    lemma_pow2_adds(64, 64);
    lemma_pow2_adds(64, 128);
    lemma_pow2_adds(64, 192);
    lemma_pow2_adds(192, 63);
    lemma_pow2_adds(1, 255);
    lemma_pow2_adds(1, 63);
}

/// A 256-bit unsigned word, the virtual machine's native value type,
/// held as four 64-bit limbs, least significant first.
#[derive(Clone, Copy, PartialEq, Eq, Structural, Debug)]
pub struct Word {
    pub w0: u64,
    pub w1: u64,
    pub w2: u64,
    pub w3: u64,
}

impl Word {
    /// The mathematical value of this word.
    pub open spec fn as_nat(self) -> nat {
        self.w0 as nat + pow2(64) * (self.w1 as nat) + pow2(128) * (self.w2 as nat) + pow2(192) * (
        self.w3 as nat)
    }

    /// Every word's value lies below 2^256.
    pub proof fn lemma_bound(self)
        ensures
            self.as_nat() < pow2(256),
    {
        lemma_pw();
        let q64: int = pow2(64) as int;
        let q128: int = pow2(128) as int;
        let q192: int = pow2(192) as int;
        let q256: int = pow2(256) as int;
        assert(self.w0 + q64 * (self.w1 as int) + q128 * (self.w2 as int) + q192 * (self.w3 as int)
            < q256) by (nonlinear_arith)
            requires
                q64 == 0x1_0000_0000_0000_0000,
                q128 == q64 * q64,
                q192 == q64 * q128,
                q256 == q64 * q192,
                self.w0 < q64 && self.w1 < q64 && self.w2 < q64 && self.w3 < q64,
        ;
    }

    pub fn zero() -> (r: Word)
        ensures
            r.as_nat() == 0,
    {
        Word { w0: 0, w1: 0, w2: 0, w3: 0 }
    }

    pub fn one() -> (r: Word)
        ensures
            r.as_nat() == 1,
    {
        Word { w0: 1, w1: 0, w2: 0, w3: 0 }
    }

    pub fn from_u64(v: u64) -> (r: Word)
        ensures
            r.as_nat() == v,
    {
        Word { w0: v, w1: 0, w2: 0, w3: 0 }
    }

    pub fn from_usize(v: usize) -> (r: Word)
        ensures
            r.as_nat() == v,
    {
        Word { w0: v as u64, w1: 0, w2: 0, w3: 0 }
    }

    pub fn is_zero(&self) -> (r: bool)
        ensures
            r == (self.as_nat() == 0),
    {
        proof {
            lemma_pw();
            let q64: int = pow2(64) as int;
            let q128: int = pow2(128) as int;
            let q192: int = pow2(192) as int;
            assert((self.w0 + q64 * (self.w1 as int) + q128 * (self.w2 as int) + q192 * (
            self.w3 as int) == 0) == (self.w0 == 0 && self.w1 == 0 && self.w2 == 0 && self.w3
                == 0)) by (nonlinear_arith)
                requires
                    q64 == 0x1_0000_0000_0000_0000,
                    q128 == q64 * q64,
                    q192 == q64 * q128,
                    self.w0 < q64 && self.w1 < q64 && self.w2 < q64 && self.w3 < q64,
            ;
        }
        self.w0 == 0 && self.w1 == 0 && self.w2 == 0 && self.w3 == 0
    }

    /// The value reduced modulo 2^64.
    pub fn low_u64(&self) -> (r: u64)
        ensures
            r == self.as_nat() % pow2(64),
    {
        proof {
            lemma_pw();
            let q64: int = pow2(64) as int;
            let q128: int = pow2(128) as int;
            let q192: int = pow2(192) as int;
            let k: int = self.w1 + q64 * (self.w2 as int) + q128 * (self.w3 as int);
            assert(self.as_nat() == q64 * k + self.w0) by (nonlinear_arith)
                requires
                    q128 == q64 * q64,
                    q192 == q64 * q128,
                    self.as_nat() == self.w0 + q64 * (self.w1 as int) + q128 * (self.w2 as int)
                        + q192 * (self.w3 as int),
                    k == self.w1 + q64 * (self.w2 as int) + q128 * (self.w3 as int),
            ;
            lemma_fundamental_div_mod_converse(self.as_nat() as int, q64, k, self.w0 as int);
        }
        self.w0
    }

    /// The value as a usize where it fits, `None` where it does not.
    pub fn to_usize(&self) -> (r: Option<usize>)
        ensures
            match r {
                Some(v) => v == self.as_nat(),
                None => self.as_nat() > usize::MAX,
            },
    {
        proof {
            lemma_pw();
            let q64: int = pow2(64) as int;
            let q128: int = pow2(128) as int;
            let q192: int = pow2(192) as int;
            assert((self.w1 > 0 ==> self.as_nat() >= q64) && (self.w2 > 0 ==> self.as_nat() >= q64)
                && (self.w3 > 0 ==> self.as_nat() >= q64)) by (nonlinear_arith)
                requires
                    q64 == 0x1_0000_0000_0000_0000,
                    q128 == q64 * q64,
                    q192 == q64 * q128,
                    self.as_nat() == self.w0 + q64 * (self.w1 as int) + q128 * (self.w2 as int)
                        + q192 * (self.w3 as int),
            ;
        }
        if self.w1 == 0 && self.w2 == 0 && self.w3 == 0 && self.w0 <= usize::MAX as u64 {
            Some(self.w0 as usize)
        } else {
            None
        }
    }

    /// Unsigned comparison.
    pub fn lt_u(&self, other: &Word) -> (r: bool)
        ensures
            r == (self.as_nat() < other.as_nat()),
    {
        proof {
            lemma_cmp_limbs(*self, *other);
        }
        if self.w3 != other.w3 {
            self.w3 < other.w3
        } else if self.w2 != other.w2 {
            self.w2 < other.w2
        } else if self.w1 != other.w1 {
            self.w1 < other.w1
        } else {
            self.w0 < other.w0
        }
    }

    /// Addition with the carry out of the top limb; the pair encodes the
    /// exact sum.
    pub fn add_with_carry(&self, other: &Word) -> (r: (Word, bool))
        ensures
            r.0.as_nat() + (if r.1 {
                pow2(256) as int
            } else {
                0
            }) == self.as_nat() + other.as_nat(),
    {
        let s0: u128 = self.w0 as u128 + other.w0 as u128;
        let r0: u64 = (s0 % 0x1_0000_0000_0000_0000u128) as u64;
        let c0: u128 = s0 / 0x1_0000_0000_0000_0000u128;
        let s1: u128 = self.w1 as u128 + other.w1 as u128 + c0;
        let r1: u64 = (s1 % 0x1_0000_0000_0000_0000u128) as u64;
        let c1: u128 = s1 / 0x1_0000_0000_0000_0000u128;
        let s2: u128 = self.w2 as u128 + other.w2 as u128 + c1;
        let r2: u64 = (s2 % 0x1_0000_0000_0000_0000u128) as u64;
        let c2: u128 = s2 / 0x1_0000_0000_0000_0000u128;
        let s3: u128 = self.w3 as u128 + other.w3 as u128 + c2;
        let r3: u64 = (s3 % 0x1_0000_0000_0000_0000u128) as u64;
        let c3: u128 = s3 / 0x1_0000_0000_0000_0000u128;
        let out = Word { w0: r0, w1: r1, w2: r2, w3: r3 };
        proof {
            lemma_pw();
            let q64: int = pow2(64) as int;
            let q128: int = pow2(128) as int;
            let q192: int = pow2(192) as int;
            let q256: int = pow2(256) as int;
            lemma_fundamental_div_mod(s0 as int, 0x1_0000_0000_0000_0000);
            lemma_fundamental_div_mod(s1 as int, 0x1_0000_0000_0000_0000);
            lemma_fundamental_div_mod(s2 as int, 0x1_0000_0000_0000_0000);
            lemma_fundamental_div_mod(s3 as int, 0x1_0000_0000_0000_0000);
            assert(r0 + q64 * (r1 as int) + q128 * (r2 as int) + q192 * (r3 as int) + q256 * (
            c3 as int) == self.w0 + other.w0 + q64 * (self.w1 as int + other.w1) + q128 * (
            self.w2 as int + other.w2) + q192 * (self.w3 as int + other.w3) && c3 <= 1)
                by (nonlinear_arith)
                requires
                    q64 == 0x1_0000_0000_0000_0000,
                    q128 == q64 * q64,
                    q192 == q64 * q128,
                    q256 == q64 * q192,
                    s0 == self.w0 + other.w0,
                    s1 == self.w1 + other.w1 + c0,
                    s2 == self.w2 + other.w2 + c1,
                    s3 == self.w3 + other.w3 + c2,
                    s0 == q64 * (c0 as int) + r0,
                    s1 == q64 * (c1 as int) + r1,
                    s2 == q64 * (c2 as int) + r2,
                    s3 == q64 * (c3 as int) + r3,
                    self.w0 < q64 && other.w0 < q64,
                    self.w1 < q64 && other.w1 < q64,
                    self.w2 < q64 && other.w2 < q64,
                    self.w3 < q64 && other.w3 < q64,
                    r0 < q64 && r1 < q64 && r2 < q64 && r3 < q64,
                    c0 >= 0 && c1 >= 0 && c2 >= 0 && c3 >= 0,
            ;
            assert(out.as_nat() == r0 + q64 * (r1 as int) + q128 * (r2 as int) + q192 * (
            r3 as int));
            assert(self.as_nat() + other.as_nat() == self.w0 + other.w0 + q64 * (self.w1 as int
                + other.w1) + q128 * (self.w2 as int + other.w2) + q192 * (self.w3 as int
                + other.w3)) by (nonlinear_arith)
                requires
                    self.as_nat() == self.w0 + q64 * (self.w1 as int) + q128 * (self.w2 as int)
                        + q192 * (self.w3 as int),
                    other.as_nat() == other.w0 + q64 * (other.w1 as int) + q128 * (
                    other.w2 as int) + q192 * (other.w3 as int),
            ;
            if c3 == 1 {
                assert(q256 * (c3 as int) == q256) by (nonlinear_arith)
                    requires
                        c3 == 1,
                ;
            } else {
                assert(q256 * (c3 as int) == 0) by (nonlinear_arith)
                    requires
                        c3 == 0,
                ;
            }
        }
        (out, c3 == 1)
    }

    /// Addition modulo 2^256.
    pub fn wrapping_add(&self, other: &Word) -> (r: Word)
        ensures
            r.as_nat() == (self.as_nat() + other.as_nat()) % pow2(256),
    {
        let (out, carry) = self.add_with_carry(other);
        proof {
            out.lemma_bound();
            lemma_pow2_pos(256);
            if carry {
                lemma_mod_add_multiples_vanish(out.as_nat() as int, pow2(256) as int);
                lemma_small_mod(out.as_nat(), pow2(256));
            } else {
                lemma_small_mod(self.as_nat() + other.as_nat(), pow2(256));
            }
        }
        out
    }

    /// Subtraction modulo 2^256.
    pub fn wrapping_sub(&self, other: &Word) -> (r: Word)
        ensures
            r.as_nat() == (self.as_nat() + pow2(256) - other.as_nat()) % (pow2(256) as int),
            self.as_nat() >= other.as_nat() ==> r.as_nat() == self.as_nat() - other.as_nat(),
    {
        let t0: u128 = 0x1_0000_0000_0000_0000u128 + self.w0 as u128 - other.w0 as u128;
        let r0: u64 = (t0 % 0x1_0000_0000_0000_0000u128) as u64;
        let b0: u128 = 1 - t0 / 0x1_0000_0000_0000_0000u128;
        let t1: u128 = 0x1_0000_0000_0000_0000u128 + self.w1 as u128 - other.w1 as u128 - b0;
        let r1: u64 = (t1 % 0x1_0000_0000_0000_0000u128) as u64;
        let b1: u128 = 1 - t1 / 0x1_0000_0000_0000_0000u128;
        let t2: u128 = 0x1_0000_0000_0000_0000u128 + self.w2 as u128 - other.w2 as u128 - b1;
        let r2: u64 = (t2 % 0x1_0000_0000_0000_0000u128) as u64;
        let b2: u128 = 1 - t2 / 0x1_0000_0000_0000_0000u128;
        let t3: u128 = 0x1_0000_0000_0000_0000u128 + self.w3 as u128 - other.w3 as u128 - b2;
        let r3: u64 = (t3 % 0x1_0000_0000_0000_0000u128) as u64;
        let b3: u128 = 1 - t3 / 0x1_0000_0000_0000_0000u128;
        let out = Word { w0: r0, w1: r1, w2: r2, w3: r3 };
        proof {
            lemma_pw();
            let q64: int = pow2(64) as int;
            let q128: int = pow2(128) as int;
            let q192: int = pow2(192) as int;
            let q256: int = pow2(256) as int;
            lemma_fundamental_div_mod(t0 as int, 0x1_0000_0000_0000_0000);
            lemma_fundamental_div_mod(t1 as int, 0x1_0000_0000_0000_0000);
            lemma_fundamental_div_mod(t2 as int, 0x1_0000_0000_0000_0000);
            lemma_fundamental_div_mod(t3 as int, 0x1_0000_0000_0000_0000);
            assert(r0 + q64 * (r1 as int) + q128 * (r2 as int) + q192 * (r3 as int) == self.w0
                - other.w0 + q64 * (self.w1 as int - other.w1) + q128 * (self.w2 as int - other.w2)
                + q192 * (self.w3 as int - other.w3) + q256 * (b3 as int) && b3 <= 1)
                by (nonlinear_arith)
                requires
                    q64 == 0x1_0000_0000_0000_0000,
                    q128 == q64 * q64,
                    q192 == q64 * q128,
                    q256 == q64 * q192,
                    t0 == q64 + self.w0 - other.w0,
                    t1 == q64 + self.w1 - other.w1 - b0,
                    t2 == q64 + self.w2 - other.w2 - b1,
                    t3 == q64 + self.w3 - other.w3 - b2,
                    b0 == 1 - (t0 as int) / q64,
                    b1 == 1 - (t1 as int) / q64,
                    b2 == 1 - (t2 as int) / q64,
                    b3 == 1 - (t3 as int) / q64,
                    t0 == q64 * ((t0 as int) / q64) + r0,
                    t1 == q64 * ((t1 as int) / q64) + r1,
                    t2 == q64 * ((t2 as int) / q64) + r2,
                    t3 == q64 * ((t3 as int) / q64) + r3,
                    self.w0 < q64 && other.w0 < q64,
                    self.w1 < q64 && other.w1 < q64,
                    self.w2 < q64 && other.w2 < q64,
                    self.w3 < q64 && other.w3 < q64,
                    r0 < q64 && r1 < q64 && r2 < q64 && r3 < q64,
            ;
            assert(out.as_nat() == r0 + q64 * (r1 as int) + q128 * (r2 as int) + q192 * (
            r3 as int));
            assert(self.as_nat() - other.as_nat() == self.w0 - other.w0 + q64 * (self.w1 as int
                - other.w1) + q128 * (self.w2 as int - other.w2) + q192 * (self.w3 as int
                - other.w3)) by (nonlinear_arith)
                requires
                    self.as_nat() == self.w0 + q64 * (self.w1 as int) + q128 * (self.w2 as int)
                        + q192 * (self.w3 as int),
                    other.as_nat() == other.w0 + q64 * (other.w1 as int) + q128 * (
                    other.w2 as int) + q192 * (other.w3 as int),
            ;
            if b3 == 1 {
                assert(q256 * (b3 as int) == q256) by (nonlinear_arith)
                    requires
                        b3 == 1,
                ;
            } else {
                assert(q256 * (b3 as int) == 0) by (nonlinear_arith)
                    requires
                        b3 == 0,
                ;
            }
            out.lemma_bound();
            self.lemma_bound();
            other.lemma_bound();
            lemma_pow2_pos(256);
            if b3 == 0 {
                lemma_mod_add_multiples_vanish(out.as_nat() as int, pow2(256) as int);
                lemma_small_mod(out.as_nat(), pow2(256));
            } else {
                lemma_small_mod(out.as_nat(), pow2(256));
            }
        }
        out
    }
}

/// Lexicographic limb comparison decides the value order.
proof fn lemma_cmp_limbs(a: Word, b: Word)
    ensures
        (a.as_nat() < b.as_nat()) == (if a.w3 != b.w3 {
            a.w3 < b.w3
        } else if a.w2 != b.w2 {
            a.w2 < b.w2
        } else if a.w1 != b.w1 {
            a.w1 < b.w1
        } else {
            a.w0 < b.w0
        }),
{
    lemma_pw();
    let q64: int = pow2(64) as int;
    let q128: int = pow2(128) as int;
    let q192: int = pow2(192) as int;
    assert((a.w0 + q64 * (a.w1 as int) + q128 * (a.w2 as int) + q192 * (a.w3 as int) < b.w0 + q64
        * (b.w1 as int) + q128 * (b.w2 as int) + q192 * (b.w3 as int)) == (if a.w3 != b.w3 {
        a.w3 < b.w3
    } else if a.w2 != b.w2 {
        a.w2 < b.w2
    } else if a.w1 != b.w1 {
        a.w1 < b.w1
    } else {
        a.w0 < b.w0
    })) by (nonlinear_arith)
        requires
            q64 == 0x1_0000_0000_0000_0000,
            q128 == q64 * q64,
            q192 == q64 * q128,
            a.w0 < q64 && a.w1 < q64 && a.w2 < q64 && a.w3 < q64,
            b.w0 < q64 && b.w1 < q64 && b.w2 < q64 && b.w3 < q64,
    ;
}

/// Words with equal values have equal limbs.
pub proof fn lemma_value_injective(a: Word, b: Word)
    ensures
        (a.as_nat() == b.as_nat()) == (a == b),
{
    lemma_cmp_limbs(a, b);
    lemma_cmp_limbs(b, a);
}

/// The lowest limb decides the parity of the value.
pub proof fn lemma_parity(a: Word)
    ensures
        a.as_nat() % 2 == a.w0 % 2,
{
    lemma_pw();
    let q64: int = pow2(64) as int;
    let q128: int = pow2(128) as int;
    let q192: int = pow2(192) as int;
    let k: int = (a.w0 / 2) + (q64 / 2) * (a.w1 as int) + (q128 / 2) * (a.w2 as int) + (q192 / 2)
        * (a.w3 as int);
    assert(a.as_nat() == 2 * k + (a.w0 as int) % 2 && 0 <= (a.w0 as int) % 2 < 2)
        by (nonlinear_arith)
        requires
            q64 == 0x1_0000_0000_0000_0000,
            q128 == q64 * q64,
            q192 == q64 * q128,
            a.as_nat() == a.w0 + q64 * (a.w1 as int) + q128 * (a.w2 as int) + q192 * (a.w3 as int),
            k == (a.w0 / 2) + (q64 / 2) * (a.w1 as int) + (q128 / 2) * (a.w2 as int) + (q192 / 2)
                * (a.w3 as int),
    ;
    lemma_fundamental_div_mod_converse(a.as_nat() as int, 2, k, (a.w0 as int) % 2);
}

impl Word {
    /// Halving: shift right by one bit.
    pub fn shr1(&self) -> (r: Word)
        ensures
            r.as_nat() == self.as_nat() / 2,
    {
        let r0: u64 = self.w0 / 2 + (self.w1 % 2) * 0x8000_0000_0000_0000;
        let r1: u64 = self.w1 / 2 + (self.w2 % 2) * 0x8000_0000_0000_0000;
        let r2: u64 = self.w2 / 2 + (self.w3 % 2) * 0x8000_0000_0000_0000;
        let r3: u64 = self.w3 / 2;
        let out = Word { w0: r0, w1: r1, w2: r2, w3: r3 };
        proof {
            lemma_pw();
            let q64: int = pow2(64) as int;
            let q128: int = pow2(128) as int;
            let q192: int = pow2(192) as int;
            assert(self.as_nat() == 2 * (r0 + q64 * (r1 as int) + q128 * (r2 as int) + q192 * (
            r3 as int)) + (self.w0 as int) % 2 && 0 <= (self.w0 as int) % 2 < 2)
                by (nonlinear_arith)
                requires
                    q64 == 0x1_0000_0000_0000_0000,
                    q128 == q64 * q64,
                    q192 == q64 * q128,
                    self.as_nat() == self.w0 + q64 * (self.w1 as int) + q128 * (self.w2 as int)
                        + q192 * (self.w3 as int),
                    r0 == self.w0 / 2 + (self.w1 % 2) * 0x8000_0000_0000_0000,
                    r1 == self.w1 / 2 + (self.w2 % 2) * 0x8000_0000_0000_0000,
                    r2 == self.w2 / 2 + (self.w3 % 2) * 0x8000_0000_0000_0000,
                    r3 == self.w3 / 2,
                    self.w0 < q64 && self.w1 < q64 && self.w2 < q64 && self.w3 < q64,
            ;
            lemma_fundamental_div_mod_converse(
                self.as_nat() as int,
                2,
                out.as_nat() as int,
                (self.w0 as int) % 2,
            );
        }
        out
    }

    /// The bits of the value, least significant first.
    #[verifier::loop_isolation(false)]
    pub fn bits_le(&self) -> (v: Vec<bool>)
        ensures
            v.len() == 256,
            forall|j: int|
                0 <= j < 256 ==> v[j] == ((self.as_nat() / pow2(j as nat)) % 2 == 1),
    {
        let mut v: Vec<bool> = Vec::new();
        let mut cur: Word = *self;
        let mut i: usize = 0;
        proof {
            lemma2_to64();
        }
        while i < 256
            invariant
                i <= 256,
                v.len() == i,
                cur.as_nat() == self.as_nat() / pow2(i as nat),
                forall|j: int| 0 <= j < i ==> v[j] == ((self.as_nat() / pow2(j as nat)) % 2 == 1),
            decreases 256 - i,
        {
            proof {
                lemma_parity(cur);
            }
            v.push(cur.w0 % 2 == 1);
            let next = cur.shr1();
            proof {
                lemma_pow2_pos(i as nat);
                lemma_div_denominator(self.as_nat() as int, pow2(i as nat) as int, 2);
                lemma_pow2_adds(i as nat, 1);
                lemma2_to64();
            }
            cur = next;
            i += 1;
        }
        v
    }

    /// Multiplication modulo 2^256, by binary decomposition of the second
    /// factor.
    #[verifier::loop_isolation(false)]
    pub fn wrapping_mul(&self, other: &Word) -> (r: Word)
        ensures
            r.as_nat() == (self.as_nat() * other.as_nat()) % pow2(256),
    {
        let ghost an: nat = self.as_nat();
        let ghost bn: nat = other.as_nat();
        let ghost m: nat = pow2(256);
        let mut acc = Word::zero();
        let mut t: Word = *self;
        let mut b: Word = *other;
        let mut i: usize = 0;
        proof {
            lemma_pow2_pos(256);
            lemma2_to64();
            lemma_pow2_strictly_increases(0, 256);
            self.lemma_bound();
            lemma_small_mod(an, m);
            lemma_small_mod(0, m);
            lemma_div_basics(bn as int);
            assert(an * (bn % pow2(0)) == 0 && an * pow2(0) == an) by (nonlinear_arith)
                requires
                    pow2(0) == 1,
                    bn >= 0,
            ;
        }
        while i < 256
            invariant
                i <= 256,
                m == pow2(256),
                an == self.as_nat(),
                bn == other.as_nat(),
                m > 1,
                acc.as_nat() == (an * (bn % pow2(i as nat))) % m,
                t.as_nat() == (an * pow2(i as nat)) % m,
                b.as_nat() == bn / pow2(i as nat),
            decreases 256 - i,
        {
            proof {
                lemma_pow2_pos(i as nat);
                lemma_pow2_adds(i as nat, 1);
                lemma2_to64();
                lemma_parity(b);
                lemma_mod_breakdown(bn as int, pow2(i as nat) as int, 2);
            }
            let ghost bit: nat = (bn / pow2(i as nat)) % 2;
            let ghost lowi: nat = bn % pow2(i as nat);
            let ghost lowi1: nat = bn % pow2((i + 1) as nat);
            proof {
                assert(lowi1 == pow2(i as nat) * bit + lowi);
            }
            if b.w0 % 2 == 1 {
                let next_acc = acc.wrapping_add(&t);
                proof {
                    lemma_add_mod_noop(
                        (an * lowi) as int,
                        (an * pow2(i as nat)) as int,
                        m as int,
                    );
                    assert(an * lowi + an * pow2(i as nat) == an * lowi1) by (nonlinear_arith)
                        requires
                            lowi1 == pow2(i as nat) * bit + lowi,
                            bit == 1,
                    ;
                }
                acc = next_acc;
            } else {
                proof {
                    assert(pow2(i as nat) * bit == 0) by (nonlinear_arith)
                        requires
                            bit == 0,
                    ;
                    assert(lowi1 == lowi);
                }
            }
            let next_t = t.wrapping_add(&t);
            proof {
                lemma_add_mod_noop(
                    (an * pow2(i as nat)) as int,
                    (an * pow2(i as nat)) as int,
                    m as int,
                );
                assert(an * pow2(i as nat) + an * pow2(i as nat) == an * pow2((i + 1) as nat))
                    by (nonlinear_arith)
                    requires
                        pow2((i + 1) as nat) == pow2(i as nat) * 2,
                ;
            }
            t = next_t;
            let next_b = b.shr1();
            proof {
                lemma_div_denominator(bn as int, pow2(i as nat) as int, 2);
            }
            b = next_b;
            i += 1;
        }
        proof {
            other.lemma_bound();
            lemma_small_mod(bn, pow2(256));
        }
        acc
    }

    /// Quotient and remainder of the values, by binary long division.
    #[verifier::loop_isolation(false)]
    pub fn div_rem(&self, other: &Word) -> (r: (Word, Word))
        requires
            other.as_nat() > 0,
        ensures
            r.0.as_nat() == self.as_nat() / other.as_nat(),
            r.1.as_nat() == self.as_nat() % other.as_nat(),
    {
        let ghost an: nat = self.as_nat();
        let ghost dn: nat = other.as_nat();
        let bits = self.bits_le();
        let one = Word::one();
        let mut q = Word::zero();
        let mut rem = Word::zero();
        let mut k: usize = 0;
        proof {
            lemma_pw();
            lemma2_to64();
            self.lemma_bound();
            other.lemma_bound();
            lemma_pow2_pos(256);
            assert(an / pow2(256) == 0) by {
                lemma_basic_div(an as int, pow2(256) as int);
            }
            assert(0nat % dn == 0 && 0nat / dn == 0) by {
                lemma_small_mod(0, dn);
                lemma_basic_div(0, dn as int);
            }
        }
        while k < 256
            invariant
                k <= 256,
                an == self.as_nat(),
                dn == other.as_nat(),
                dn > 0,
                dn < pow2(256),
                an < pow2(256),
                bits.len() == 256,
                forall|j: int| 0 <= j < 256 ==> bits[j] == ((an / pow2(j as nat)) % 2 == 1),
                q.as_nat() == (an / pow2((256 - k) as nat)) / dn,
                rem.as_nat() == (an / pow2((256 - k) as nat)) % dn,
                rem.as_nat() < dn,
                q.as_nat() < pow2(k as nat),
            decreases 256 - k,
        {
            let ghost pk: nat = an / pow2((256 - k) as nat);
            let ghost pk1: nat = an / pow2((255 - k) as nat);
            let ghost bit: nat = pk1 % 2;
            proof {
                lemma_pow2_pos((255 - k) as nat);
                lemma_pow2_adds((255 - k) as nat, 1);
                lemma2_to64();
                lemma_div_denominator(an as int, pow2((255 - k) as nat) as int, 2);
                lemma_fundamental_div_mod(pk1 as int, 2);
                assert(pk1 == 2 * pk + bit);
                // the prefix stays below 2^(k+1)
                lemma_pow2_adds((255 - k) as nat, (k + 1) as nat);
                lemma_multiply_divide_lt(
                    an as int,
                    pow2((255 - k) as nat) as int,
                    pow2((k + 1) as nat) as int,
                );
                assert(pk1 < pow2((k + 1) as nat));
                // product form of the old invariant
                lemma_fundamental_div_mod(pk as int, dn as int);
            }
            let bit_set = bits[255 - k];
            proof {
                assert(bit_set == (bit == 1));
            }
            let (rr, c) = rem.add_with_carry(&rem);
            let rr2 = if bit_set {
                proof {
                    rr.lemma_bound();
                    if !c {
                        lemma_small_mod((rr.as_nat() + 1) as nat, pow2(256));
                    } else {
                        lemma_small_mod((rr.as_nat() + 1) as nat, pow2(256));
                    }
                }
                rr.wrapping_add(&one)
            } else {
                rr
            };
            // exact value of the doubled remainder plus the incoming bit
            let ghost v: nat = 2 * rem.as_nat() + bit;
            proof {
                assert(rr2.as_nat() + (if c {
                    pow2(256) as int
                } else {
                    0
                }) == v);
                assert(v < 2 * dn);
            }
            let (qd, _qc) = q.add_with_carry(&q);
            proof {
                // doubling the quotient cannot carry
                lemma_pow2_adds(k as nat, 1);
                lemma2_to64();
                lemma_pow2_strictly_increases((k + 1) as nat, 257);
                lemma_pow2_adds(256, 1);
                assert(2 * q.as_nat() + 1 < pow2(256)) by {
                    assert(q.as_nat() < pow2(k as nat));
                    assert(2 * q.as_nat() + 1 < 2 * pow2(k as nat));
                    assert(2 * pow2(k as nat) == pow2((k + 1) as nat));
                    if (k + 1) < 256 {
                        lemma_pow2_strictly_increases((k + 1) as nat, 256);
                    }
                }
            }
            let subtract = c || !rr2.lt_u(other);
            let (new_rem, new_q) = if subtract {
                let nr = rr2.wrapping_sub(other);
                let nq = qd.wrapping_add(&one);
                proof {
                    rr2.lemma_bound();
                    other.lemma_bound();
                    if c {
                        assert(v >= pow2(256));
                        assert(v - dn < dn <= pow2(256));
                        assert(rr2.as_nat() as int == v - pow2(256));
                        assert((rr2.as_nat() + pow2(256) - dn) as int % (pow2(256) as int) == v
                            - dn) by {
                            lemma_small_mod((v - dn) as nat, pow2(256));
                        }
                    } else {
                        assert(rr2.as_nat() == v);
                        assert(v >= dn);
                    }
                    lemma_small_mod((2 * q.as_nat() + 1) as nat, pow2(256));
                }
                (nr, nq)
            } else {
                proof {
                    assert(!c && rr2.as_nat() < dn);
                    lemma_small_mod((2 * q.as_nat()) as nat, pow2(256));
                }
                (rr2, qd)
            };
            proof {
                // new_q * dn + new_rem == pk1, 0 <= new_rem < dn
                let nq: int = new_q.as_nat() as int;
                let nr: int = new_rem.as_nat() as int;
                let oq: int = q.as_nat() as int;
                let orr: int = rem.as_nat() as int;
                assert(nq * dn + nr == pk1 && 0 <= nr < dn) by (nonlinear_arith)
                    requires
                        oq * dn + orr == pk,
                        0 <= orr < dn,
                        pk1 == 2 * pk + bit,
                        bit < 2,
                        (subtract && nq == 2 * oq + 1 && nr == 2 * orr + bit - dn) || (!subtract
                            && nq == 2 * oq && nr == 2 * orr + bit),
                        subtract ==> 2 * orr + bit >= dn,
                        !subtract ==> 2 * orr + bit < dn,
                ;
                lemma_fundamental_div_mod_converse(pk1 as int, dn as int, nq, nr);
                if nq > 0 {
                    vstd::arithmetic::mul::lemma_mul_left_inequality(nq, 1, dn as int);
                    vstd::arithmetic::mul::lemma_mul_basics(nq);
                }
                assert(new_q.as_nat() < pow2((k + 1) as nat));
            }
            q = new_q;
            rem = new_rem;
            k += 1;
        }
        proof {
            lemma2_to64();
            lemma_div_basics(an as int);
        }
        (q, rem)
    }
}


impl Word {
    /// The value interpreted in two's complement: words at or above 2^255
    /// stand for their value minus 2^256.
    pub open spec fn sign_val(self) -> int {
        if self.as_nat() < pow2(255) {
            self.as_nat() as int
        } else {
            self.as_nat() - pow2(256)
        }
    }

    /// True exactly of the words whose signed interpretation is negative.
    pub fn is_neg(&self) -> (r: bool)
        ensures
            r == (self.sign_val() < 0),
            r == (self.as_nat() >= pow2(255)),
    {
        proof {
            lemma_pw();
            let q64: int = pow2(64) as int;
            let q128: int = pow2(128) as int;
            let q192: int = pow2(192) as int;
            let q255: int = pow2(255) as int;
            let q63: int = pow2(63) as int;
            assert((self.w0 + q64 * (self.w1 as int) + q128 * (self.w2 as int) + q192 * (
            self.w3 as int) >= q255) == (self.w3 >= q63)) by (nonlinear_arith)
                requires
                    q64 == 0x1_0000_0000_0000_0000,
                    q63 == 0x8000_0000_0000_0000,
                    q128 == q64 * q64,
                    q192 == q64 * q128,
                    q255 == q192 * q63,
                    self.w0 < q64 && self.w1 < q64 && self.w2 < q64 && self.w3 < q64,
            ;
            self.lemma_bound();
            lemma_pow2_strictly_increases(255, 256);
        }
        self.w3 >= 0x8000_0000_0000_0000
    }

    /// A value below 2^64 lives entirely in the lowest limb.
    pub proof fn lemma_small(self)
        requires
            self.as_nat() < pow2(64),
        ensures
            self.w0 == self.as_nat(),
            self.w1 == 0 && self.w2 == 0 && self.w3 == 0,
    {
        lemma_pw();
        let q64: int = pow2(64) as int;
        let q128: int = pow2(128) as int;
        let q192: int = pow2(192) as int;
        assert(self.w0 + q64 * (self.w1 as int) + q128 * (self.w2 as int) + q192 * (self.w3 as int)
            < q64 ==> self.w1 == 0 && self.w2 == 0 && self.w3 == 0) by (nonlinear_arith)
            requires
                q64 == 0x1_0000_0000_0000_0000,
                q128 == q64 * q64,
                q192 == q64 * q128,
                self.w0 < q64 && self.w1 < q64 && self.w2 < q64 && self.w3 < q64,
        ;
    }

    /// Bitwise complement; the result is 2^256 - 1 - value.
    pub fn bit_not(&self) -> (r: Word)
        ensures
            r.as_nat() == pow2(256) - 1 - self.as_nat(),
    {
        let r0 = !self.w0;
        let r1 = !self.w1;
        let r2 = !self.w2;
        let r3 = !self.w3;
        let out = Word { w0: r0, w1: r1, w2: r2, w3: r3 };
        proof {
            lemma_pw();
            let w0 = self.w0;
            let w1 = self.w1;
            let w2 = self.w2;
            let w3 = self.w3;
            assert(!w0 == 0xffff_ffff_ffff_ffffu64 - w0) by (bit_vector);
            assert(!w1 == 0xffff_ffff_ffff_ffffu64 - w1) by (bit_vector);
            assert(!w2 == 0xffff_ffff_ffff_ffffu64 - w2) by (bit_vector);
            assert(!w3 == 0xffff_ffff_ffff_ffffu64 - w3) by (bit_vector);
            let q64: int = pow2(64) as int;
            let q128: int = pow2(128) as int;
            let q192: int = pow2(192) as int;
            let q256: int = pow2(256) as int;
            assert((q64 - 1 - w0) + q64 * (q64 - 1 - w1) + q128 * (q64 - 1 - w2) + q192 * (q64 - 1
                - w3) == q256 - 1 - (w0 + q64 * (w1 as int) + q128 * (w2 as int) + q192 * (
            w3 as int))) by (nonlinear_arith)
                requires
                    q64 == 0x1_0000_0000_0000_0000,
                    q128 == q64 * q64,
                    q192 == q64 * q128,
                    q256 == q64 * q192,
            ;
        }
        out
    }

    /// Bitwise conjunction, limb by limb.
    pub fn bit_and(&self, other: &Word) -> (r: Word)
        ensures
            r.w0 == self.w0 & other.w0,
            r.w1 == self.w1 & other.w1,
            r.w2 == self.w2 & other.w2,
            r.w3 == self.w3 & other.w3,
    {
        Word {
            w0: self.w0 & other.w0,
            w1: self.w1 & other.w1,
            w2: self.w2 & other.w2,
            w3: self.w3 & other.w3,
        }
    }

    /// Bitwise disjunction, limb by limb.
    pub fn bit_or(&self, other: &Word) -> (r: Word)
        ensures
            r.w0 == self.w0 | other.w0,
            r.w1 == self.w1 | other.w1,
            r.w2 == self.w2 | other.w2,
            r.w3 == self.w3 | other.w3,
    {
        Word {
            w0: self.w0 | other.w0,
            w1: self.w1 | other.w1,
            w2: self.w2 | other.w2,
            w3: self.w3 | other.w3,
        }
    }

    /// Bitwise exclusive or, limb by limb.
    pub fn bit_xor(&self, other: &Word) -> (r: Word)
        ensures
            r.w0 == self.w0 ^ other.w0,
            r.w1 == self.w1 ^ other.w1,
            r.w2 == self.w2 ^ other.w2,
            r.w3 == self.w3 ^ other.w3,
    {
        Word {
            w0: self.w0 ^ other.w0,
            w1: self.w1 ^ other.w1,
            w2: self.w2 ^ other.w2,
            w3: self.w3 ^ other.w3,
        }
    }

    /// Left shift by `k` bits, modulo 2^256.
    #[verifier::loop_isolation(false)]
    pub fn shl_k(&self, k: usize) -> (r: Word)
        ensures
            r.as_nat() == (self.as_nat() * pow2(k as nat)) % pow2(256),
    {
        let ghost an: nat = self.as_nat();
        let mut cur: Word = *self;
        let mut i: usize = 0;
        proof {
            lemma_pow2_pos(256);
            lemma2_to64();
            self.lemma_bound();
            lemma_small_mod(an, pow2(256));
            assert(an * pow2(0) == an) by (nonlinear_arith)
                requires
                    pow2(0) == 1,
            ;
        }
        while i < k
            invariant
                i <= k,
                cur.as_nat() == (an * pow2(i as nat)) % pow2(256),
            decreases k - i,
        {
            let next = cur.wrapping_add(&cur);
            proof {
                lemma_pow2_adds(i as nat, 1);
                lemma_add_mod_noop(
                    (an * pow2(i as nat)) as int,
                    (an * pow2(i as nat)) as int,
                    pow2(256) as int,
                );
                assert(an * pow2(i as nat) + an * pow2(i as nat) == an * pow2((i + 1) as nat))
                    by (nonlinear_arith)
                    requires
                        pow2((i + 1) as nat) == pow2(i as nat) * 2,
                ;
            }
            cur = next;
            i += 1;
        }
        cur
    }

    /// Logical right shift by `k` bits.
    #[verifier::loop_isolation(false)]
    pub fn shr_k(&self, k: usize) -> (r: Word)
        ensures
            r.as_nat() == self.as_nat() / pow2(k as nat),
    {
        let ghost an: nat = self.as_nat();
        let mut cur: Word = *self;
        let mut i: usize = 0;
        proof {
            lemma2_to64();
            lemma_div_basics(an as int);
        }
        while i < k
            invariant
                i <= k,
                cur.as_nat() == an / pow2(i as nat),
            decreases k - i,
        {
            let next = cur.shr1();
            proof {
                lemma_pow2_pos(i as nat);
                lemma_pow2_adds(i as nat, 1);
                lemma2_to64();
                lemma_div_denominator(an as int, pow2(i as nat) as int, 2);
            }
            cur = next;
            i += 1;
        }
        cur
    }

    /// Arithmetic right shift by `k` bits: the sign bit is replicated.
    pub fn sar_k(&self, k: usize) -> (r: Word)
        ensures
            self.as_nat() < pow2(255) ==> r.as_nat() == self.as_nat() / pow2(k as nat),
            self.as_nat() >= pow2(255) ==> r.as_nat() == pow2(256) - 1 - ((pow2(256) - 1
                - self.as_nat()) / (pow2(k as nat) as int)),
    {
        proof {
            lemma_pw();
        }
        if self.is_neg() {
            let flipped = self.bit_not();
            let shifted = flipped.shr_k(k);
            proof {
                lemma_pow2_pos(k as nat);
                flipped.lemma_bound();
                lemma_div_nonincreasing(flipped.as_nat() as int, pow2(k as nat) as int);
            }
            shifted.bit_not()
        } else {
            self.shr_k(k)
        }
    }
}


/// Absolute value of a mathematical integer.
pub open spec fn iabs(x: int) -> nat {
    if x < 0 {
        (-x) as nat
    } else {
        x as nat
    }
}

impl Word {
    /// Two's-complement negation: 2^256 - value, modulo 2^256.
    pub fn neg256(&self) -> (r: Word)
        ensures
            r.as_nat() == (pow2(256) - self.as_nat()) % (pow2(256) as int),
            self.as_nat() > 0 ==> r.as_nat() == pow2(256) - self.as_nat(),
            self.as_nat() == 0 ==> r.as_nat() == 0,
    {
        let z = Word::zero();
        let out = z.wrapping_sub(self);
        proof {
            self.lemma_bound();
            lemma_pow2_pos(256);
            if self.as_nat() == 0 {
                lemma_mod_self_0(pow2(256) as int);
            } else {
                lemma_small_mod((pow2(256) - self.as_nat()) as nat, pow2(256));
            }
        }
        out
    }

    /// Sum of two residues below `n`, reduced modulo `n`.
    fn add_mod_bounded(&self, other: &Word, n: &Word) -> (r: Word)
        requires
            self.as_nat() < n.as_nat(),
            other.as_nat() < n.as_nat(),
        ensures
            r.as_nat() == (self.as_nat() + other.as_nat()) % n.as_nat(),
            r.as_nat() < n.as_nat(),
    {
        let ghost v: nat = self.as_nat() + other.as_nat();
        let ghost nn: nat = n.as_nat();
        let (s, c) = self.add_with_carry(other);
        proof {
            n.lemma_bound();
            s.lemma_bound();
        }
        let out = if c || !s.lt_u(n) {
            let d = s.wrapping_sub(n);
            proof {
                if c {
                    assert(s.as_nat() as int == v - pow2(256));
                    lemma_small_mod((v - nn) as nat, pow2(256));
                } else {
                    assert(s.as_nat() == v);
                }
                assert(d.as_nat() as int == v - nn);
                lemma_fundamental_div_mod_converse(v as int, nn as int, 1, v - nn);
            }
            d
        } else {
            proof {
                assert(s.as_nat() == v && v < nn);
                lemma_small_mod(v, nn);
            }
            s
        };
        out
    }

    /// Addition reduced by a third operand; a zero modulus yields zero.
    pub fn add_mod(&self, other: &Word, n: &Word) -> (r: Word)
        ensures
            n.as_nat() == 0 ==> r.as_nat() == 0,
            n.as_nat() > 0 ==> r.as_nat() == (self.as_nat() + other.as_nat()) % n.as_nat(),
    {
        if n.is_zero() {
            Word::zero()
        } else {
            let (_qa, ra) = self.div_rem(n);
            let (_qb, rb) = other.div_rem(n);
            proof {
                lemma_mod_bound(self.as_nat() as int, n.as_nat() as int);
                lemma_mod_bound(other.as_nat() as int, n.as_nat() as int);
            }
            let out = ra.add_mod_bounded(&rb, n);
            proof {
                lemma_add_mod_noop(
                    self.as_nat() as int,
                    other.as_nat() as int,
                    n.as_nat() as int,
                );
            }
            out
        }
    }

    /// Multiplication reduced by a third operand, computed by binary
    /// decomposition so the full product is never truncated; a zero modulus
    /// yields zero.
    #[verifier::loop_isolation(false)]
    pub fn mul_mod(&self, other: &Word, n: &Word) -> (r: Word)
        ensures
            n.as_nat() == 0 ==> r.as_nat() == 0,
            n.as_nat() > 0 ==> r.as_nat() == (self.as_nat() * other.as_nat()) % n.as_nat(),
    {
        if n.is_zero() {
            return Word::zero();
        }
        let ghost an: nat = self.as_nat();
        let ghost bn: nat = other.as_nat();
        let ghost nn: nat = n.as_nat();
        let mut acc = Word::zero();
        let (_q0, mut t) = self.div_rem(n);
        let mut b: Word = *other;
        let mut i: usize = 0;
        proof {
            lemma2_to64();
            lemma_mod_bound(an as int, nn as int);
            lemma_small_mod(0, nn);
            lemma_div_basics(bn as int);
            assert(an * pow2(0) == an && an * (bn % pow2(0)) == 0) by (nonlinear_arith)
                requires
                    pow2(0) == 1,
                    bn % pow2(0) == 0,
            ;
        }
        while i < 256
            invariant
                i <= 256,
                acc.as_nat() == (an * (bn % pow2(i as nat))) % nn,
                t.as_nat() == (an * pow2(i as nat)) % nn,
                b.as_nat() == bn / pow2(i as nat),
                acc.as_nat() < nn,
                t.as_nat() < nn,
            decreases 256 - i,
        {
            proof {
                lemma_pow2_pos(i as nat);
                lemma_pow2_adds(i as nat, 1);
                lemma2_to64();
                lemma_parity(b);
                lemma_mod_breakdown(bn as int, pow2(i as nat) as int, 2);
            }
            let ghost bit: nat = (bn / pow2(i as nat)) % 2;
            let ghost lowi: nat = bn % pow2(i as nat);
            let ghost lowi1: nat = bn % pow2((i + 1) as nat);
            proof {
                assert(lowi1 == pow2(i as nat) * bit + lowi);
            }
            if b.w0 % 2 == 1 {
                let next_acc = acc.add_mod_bounded(&t, n);
                proof {
                    lemma_add_mod_noop(
                        (an * lowi) as int,
                        (an * pow2(i as nat)) as int,
                        nn as int,
                    );
                    assert(an * lowi + an * pow2(i as nat) == an * lowi1) by (nonlinear_arith)
                        requires
                            lowi1 == pow2(i as nat) * bit + lowi,
                            bit == 1,
                    ;
                }
                acc = next_acc;
            } else {
                proof {
                    assert(pow2(i as nat) * bit == 0) by (nonlinear_arith)
                        requires
                            bit == 0,
                    ;
                    assert(lowi1 == lowi);
                }
            }
            let next_t = t.add_mod_bounded(&t, n);
            proof {
                lemma_add_mod_noop(
                    (an * pow2(i as nat)) as int,
                    (an * pow2(i as nat)) as int,
                    nn as int,
                );
                assert(an * pow2(i as nat) + an * pow2(i as nat) == an * pow2((i + 1) as nat))
                    by (nonlinear_arith)
                    requires
                        pow2((i + 1) as nat) == pow2(i as nat) * 2,
                ;
            }
            t = next_t;
            let next_b = b.shr1();
            proof {
                lemma_div_denominator(bn as int, pow2(i as nat) as int, 2);
            }
            b = next_b;
            i += 1;
        }
        proof {
            other.lemma_bound();
            lemma_small_mod(bn, pow2(256));
        }
        acc
    }

    /// Signed division: two's-complement reinterpretation, truncation toward
    /// zero, and a zero divisor yields zero.
    pub fn sdiv_w(&self, other: &Word) -> (r: Word)
        ensures
            r.as_nat() == sdiv_spec(*self, *other),
    {
        proof {
            lemma_pw();
            self.lemma_bound();
            other.lemma_bound();
        }
        if other.is_zero() {
            return Word::zero();
        }
        let a_neg = self.is_neg();
        let b_neg = other.is_neg();
        let abs_a = if a_neg {
            self.neg256()
        } else {
            *self
        };
        let abs_b = if b_neg {
            other.neg256()
        } else {
            *other
        };
        proof {
            assert(abs_a.as_nat() == iabs(self.sign_val()));
            assert(abs_b.as_nat() == iabs(other.sign_val()));
        }
        let (q, _rem) = abs_a.div_rem(&abs_b);
        if a_neg != b_neg {
            q.neg256()
        } else {
            q
        }
    }

    /// Signed remainder: the result carries the dividend's sign, and a zero
    /// divisor yields zero.
    pub fn smod_w(&self, other: &Word) -> (r: Word)
        ensures
            r.as_nat() == smod_spec(*self, *other),
    {
        proof {
            lemma_pw();
            self.lemma_bound();
            other.lemma_bound();
        }
        if other.is_zero() {
            return Word::zero();
        }
        let a_neg = self.is_neg();
        let b_neg = other.is_neg();
        let abs_a = if a_neg {
            self.neg256()
        } else {
            *self
        };
        let abs_b = if b_neg {
            other.neg256()
        } else {
            *other
        };
        proof {
            assert(abs_a.as_nat() == iabs(self.sign_val()));
            assert(abs_b.as_nat() == iabs(other.sign_val()));
        }
        let (_q, rem) = abs_a.div_rem(&abs_b);
        if a_neg {
            rem.neg256()
        } else {
            rem
        }
    }
}

/// The quotient the signed division opcode pushes: magnitudes divide,
/// the sign follows the rule of signs, and the result wraps to 2^256.
pub open spec fn sdiv_spec(a: Word, b: Word) -> nat {
    if b.sign_val() == 0 {
        0
    } else {
        let q = iabs(a.sign_val()) / iabs(b.sign_val());
        if (a.sign_val() < 0) != (b.sign_val() < 0) {
            ((pow2(256) - q) % (pow2(256) as int)) as nat
        } else {
            q
        }
    }
}

/// The remainder the signed modulus opcode pushes: magnitudes divide and
/// the result carries the dividend's sign.
pub open spec fn smod_spec(a: Word, b: Word) -> nat {
    if b.sign_val() == 0 {
        0
    } else {
        let m = iabs(a.sign_val()) % iabs(b.sign_val());
        if a.sign_val() < 0 {
            ((pow2(256) - m) % (pow2(256) as int)) as nat
        } else {
            m
        }
    }
}


/// The lowest limb decides the value's residue modulo 256.
pub proof fn lemma_low_byte(a: Word)
    ensures
        a.as_nat() % 256 == a.w0 % 256,
{
    lemma_pw();
    let q64: int = pow2(64) as int;
    let q128: int = pow2(128) as int;
    let q192: int = pow2(192) as int;
    let k: int = (a.w0 / 256) + (q64 / 256) * (a.w1 as int) + (q128 / 256) * (a.w2 as int) + (q192
        / 256) * (a.w3 as int);
    assert(a.as_nat() == 256 * k + (a.w0 as int) % 256 && 0 <= (a.w0 as int) % 256 < 256)
        by (nonlinear_arith)
        requires
            q64 == 0x1_0000_0000_0000_0000,
            q128 == q64 * q64,
            q192 == q64 * q128,
            a.as_nat() == a.w0 + q64 * (a.w1 as int) + q128 * (a.w2 as int) + q192 * (a.w3 as int),
            k == (a.w0 / 256) + (q64 / 256) * (a.w1 as int) + (q128 / 256) * (a.w2 as int) + (q192
                / 256) * (a.w3 as int),
    ;
    lemma_fundamental_div_mod_converse(a.as_nat() as int, 256, k, (a.w0 as int) % 256);
}

impl Word {
    /// Exponentiation modulo 2^256, by squaring.
    #[verifier::loop_isolation(false)]
    pub fn wrapping_exp(&self, e: &Word) -> (r: Word)
        ensures
            r.as_nat() == vstd::arithmetic::power::pow(self.as_nat() as int, e.as_nat()) % (pow2(
                256,
            ) as int),
    {
        let ghost b0: int = self.as_nat() as int;
        let ghost e0: nat = e.as_nat();
        let ghost m: int = pow2(256) as int;
        let mut result = Word::one();
        let mut base: Word = *self;
        let mut cur: Word = *e;
        proof {
            lemma_pow2_pos(256);
            lemma_pow2_strictly_increases(0, 256);
            lemma2_to64();
            self.lemma_bound();
            lemma_small_mod(1, pow2(256));
            lemma_small_mod(self.as_nat(), pow2(256));
            vstd::arithmetic::power::lemma_pow0(b0);
        }
        while !cur.is_zero()
            invariant
                m == pow2(256) as int,
                m > 1,
                (result.as_nat() * vstd::arithmetic::power::pow(
                    base.as_nat() as int,
                    cur.as_nat(),
                )) % m == vstd::arithmetic::power::pow(b0, e0) % m,
            decreases cur.as_nat(),
        {
            let ghost rn: int = result.as_nat() as int;
            let ghost bn: int = base.as_nat() as int;
            let ghost cn: nat = cur.as_nat();
            let ghost half: nat = cn / 2;
            let ghost target: int = vstd::arithmetic::power::pow(b0, e0) % m;
            let ghost pb2h: int = vstd::arithmetic::power::pow(bn * bn, half);
            proof {
                lemma_parity(cur);
                lemma_fundamental_div_mod(cn as int, 2);
                vstd::arithmetic::power::lemma_square_is_pow2(bn);
                vstd::arithmetic::power::lemma_pow_multiplies(bn, 2, half);
                assert(vstd::arithmetic::power::pow(bn, (2 * half) as nat) == pb2h);
            }
            let next_result = if cur.w0 % 2 == 1 {
                let nr = result.wrapping_mul(&base);
                proof {
                    assert(cn == 2 * half + 1);
                    assert(vstd::arithmetic::power::pow(bn, cn) == bn * vstd::arithmetic::power::pow(
                        bn,
                        (2 * half) as nat,
                    )) by {
                        vstd::arithmetic::power::lemma_pow_adds(bn, 1, (2 * half) as nat);
                        vstd::arithmetic::power::lemma_pow1(bn);
                    }
                    lemma_mul_mod_noop_left(rn * bn, pb2h, m);
                    assert((rn * bn) * pb2h == rn * (bn * pb2h)) by (nonlinear_arith);
                    assert((nr.as_nat() * pb2h) % m == (rn * vstd::arithmetic::power::pow(bn, cn))
                        % m);
                }
                nr
            } else {
                proof {
                    assert(cn == 2 * half);
                    assert((result.as_nat() * pb2h) % m == (rn * vstd::arithmetic::power::pow(
                        bn,
                        cn,
                    )) % m);
                }
                result
            };
            let next_base = base.wrapping_mul(&base);
            let next_cur = cur.shr1();
            proof {
                let nr: int = next_result.as_nat() as int;
                let nb: int = next_base.as_nat() as int;
                vstd::arithmetic::power::lemma_pow_mod_noop(bn * bn, half, m);
                lemma_mul_mod_noop_right(nr, vstd::arithmetic::power::pow(nb, half), m);
                lemma_mul_mod_noop_right(nr, pb2h, m);
                assert((nr * vstd::arithmetic::power::pow(nb, half)) % m == (nr * pb2h) % m);
            }
            result = next_result;
            base = next_base;
            cur = next_cur;
        }
        proof {
            vstd::arithmetic::power::lemma_pow0(base.as_nat() as int);
            vstd::arithmetic::mul::lemma_mul_basics(result.as_nat() as int);
            result.lemma_bound();
            lemma_small_mod(result.as_nat(), pow2(256));
        }
        result
    }

    /// The `i`-th most significant byte of the 32-byte big-endian form.
    pub fn byte_msb(&self, i: usize) -> (r: Word)
        requires
            i < 32,
        ensures
            r.as_nat() == (self.as_nat() / pow2((8 * (31 - i)) as nat)) % 256,
    {
        let sh = self.shr_k(8 * (31 - i));
        proof {
            lemma_low_byte(sh);
        }
        Word::from_u64(sh.w0 % 256)
    }
}


/// The number encoded by a byte sequence read big-endian.
pub open spec fn be_val(s: Seq<u8>) -> nat
    decreases s.len(),
{
    if s.len() == 0 {
        0
    } else {
        256 * be_val(s.drop_last()) + s.last() as nat
    }
}

/// Prepending a byte adds its value at the top weight.
pub proof fn lemma_be_val_prepend(s: Seq<u8>, b: u8)
    ensures
        be_val(s.insert(0, b)) == b * pow2((8 * s.len()) as nat) + be_val(s),
    decreases s.len(),
{
    lemma2_to64();
    let t = s.insert(0, b);
    if s.len() == 0 {
        assert(t.len() == 1);
        assert(t.drop_last() =~= Seq::<u8>::empty());
        assert(t.last() == b);
        assert(be_val(Seq::<u8>::empty()) == 0);
        assert(be_val(t) == 256 * be_val(t.drop_last()) + t.last() as nat);
        assert(b * pow2(0) == b) by (nonlinear_arith)
            requires
                pow2(0) == 1,
        ;
        assert(be_val(t) == b * pow2((8 * s.len()) as nat) + be_val(s));
    } else {
        assert(t.drop_last() =~= s.drop_last().insert(0, b));
        assert(t.last() == s.last());
        lemma_be_val_prepend(s.drop_last(), b);
        lemma_pow2_adds((8 * (s.len() - 1)) as nat, 8);
        let bb: nat = b as nat;
        let p1: nat = pow2((8 * (s.len() - 1)) as nat);
        let p: nat = pow2((8 * s.len()) as nat);
        let d: nat = be_val(s.drop_last());
        let tl: nat = s.last() as nat;
        assert(be_val(t) == 256 * be_val(s.drop_last().insert(0, b)) + tl);
        assert(be_val(s.drop_last().insert(0, b)) == bb * p1 + d);
        assert(be_val(s) == 256 * d + tl);
        assert(256 * (bb * p1 + d) + tl == bb * p + (256 * d + tl)) by (nonlinear_arith)
            requires
                p == p1 * 256,
        ;
        assert(be_val(t) == bb * p + be_val(s));
    }
}

impl Word {
    /// The word encoded by at most 32 bytes read big-endian.
    #[verifier::loop_isolation(false)]
    pub fn from_be_slice(bytes: &[u8]) -> (r: Word)
        requires
            bytes@.len() <= 32,
        ensures
            r.as_nat() == be_val(bytes@),
    {
        let n = bytes.len();
        let mut acc = Word::zero();
        let mut i: usize = 0;
        proof {
            lemma2_to64();
            assert(bytes@.subrange(0, 0) =~= Seq::<u8>::empty());
        }
        while i < n
            invariant
                i <= n,
                acc.as_nat() == be_val(bytes@.subrange(0, i as int)),
                acc.as_nat() < pow2((8 * i) as nat),
            decreases n - i,
        {
            let shifted = acc.shl_k(8);
            proof {
                lemma2_to64();
                lemma_pow2_adds((8 * i) as nat, 8);
                lemma_pow2_pos((8 * i) as nat);
                if 8 * i + 8 < 256 {
                    lemma_pow2_strictly_increases((8 * i + 8) as nat, 256);
                }
                assert(acc.as_nat() * pow2(8) < pow2((8 * i + 8) as nat)) by (nonlinear_arith)
                    requires
                        acc.as_nat() < pow2((8 * i) as nat),
                        pow2((8 * i + 8) as nat) == pow2((8 * i) as nat) * pow2(8),
                        pow2(8) == 256,
                ;
                lemma_small_mod((acc.as_nat() * pow2(8)) as nat, pow2(256));
            }
            let b = bytes[i];
            let next = shifted.wrapping_add(&Word::from_u64(b as u64));
            proof {
                lemma_small_mod((shifted.as_nat() + b) as nat, pow2(256));
                assert(bytes@.subrange(0, i + 1).drop_last() =~= bytes@.subrange(0, i as int));
                assert(bytes@.subrange(0, i + 1).last() == bytes@[i as int]);
            }
            acc = next;
            i += 1;
        }
        proof {
            assert(bytes@.subrange(0, n as int) =~= bytes@);
        }
        acc
    }

    /// The 32-byte big-endian form of the word.
    #[verifier::loop_isolation(false)]
    pub fn to_be_bytes(&self) -> (r: Vec<u8>)
        ensures
            r@.len() == 32,
            be_val(r@) == self.as_nat(),
    {
        let d = Word::from_u64(256);
        let mut cur: Word = *self;
        let mut out: Vec<u8> = Vec::new();
        let mut k: usize = 0;
        proof {
            lemma2_to64();
            self.lemma_bound();
            assert(self.as_nat() * pow2(0) == self.as_nat()) by (nonlinear_arith)
                requires
                    pow2(0) == 1,
            ;
        }
        while k < 32
            invariant
                k <= 32,
                out@.len() == k,
                self.as_nat() == cur.as_nat() * pow2((8 * k) as nat) + be_val(out@),
            decreases 32 - k,
        {
            let (q, rem) = cur.div_rem(&d);
            proof {
                lemma_mod_bound(cur.as_nat() as int, 256);
                lemma_pow2_strictly_increases(8, 64);
                lemma2_to64();
                rem.lemma_small();
            }
            let byte: u8 = rem.w0 as u8;
            proof {
                lemma_be_val_prepend(out@, byte);
                lemma_fundamental_div_mod(cur.as_nat() as int, 256);
                lemma_pow2_adds((8 * k) as nat, 8);
                assert((q.as_nat() * 256 + rem.as_nat()) * pow2((8 * k) as nat) == q.as_nat()
                    * pow2((8 * (k + 1)) as nat) + rem.as_nat() * pow2((8 * k) as nat))
                    by (nonlinear_arith)
                    requires
                        pow2((8 * (k + 1)) as nat) == pow2((8 * k) as nat) * pow2(8),
                        pow2(8) == 256,
                ;
            }
            out.insert(0, byte);
            cur = q;
            k += 1;
        }
        proof {
            self.lemma_bound();
            if cur.as_nat() > 0 {
                vstd::arithmetic::mul::lemma_mul_inequality(1, cur.as_nat() as int, pow2(256) as int);
                vstd::arithmetic::mul::lemma_mul_basics(pow2(256) as int);
            }
            assert(cur.as_nat() == 0);
            vstd::arithmetic::mul::lemma_mul_basics(pow2((8 * 32) as nat) as int);
        }
        out
    }
}


impl Word {
    /// Signed comparison under two's-complement reinterpretation.
    pub fn lt_s(&self, other: &Word) -> (r: bool)
        ensures
            r == (self.sign_val() < other.sign_val()),
    {
        let sn = self.is_neg();
        let on = other.is_neg();
        if sn != on {
            sn
        } else {
            self.lt_u(other)
        }
    }
}

/// The value the sign-extension opcode pushes: bytes above the chosen one
/// are filled with its top bit; an index of 32 or more leaves the word as
/// it is.
pub open spec fn sext_spec(num: Word, b: Word) -> nat {
    if b.as_nat() >= 32 {
        num.as_nat()
    } else {
        let t = (8 * b.as_nat() + 7) as nat;
        if (num.as_nat() / pow2(t)) % 2 == 1 {
            (num.as_nat() % pow2((t + 1) as nat) + (pow2(256) - pow2((t + 1) as nat))) as nat
        } else {
            num.as_nat() % pow2((t + 1) as nat)
        }
    }
}

/// Sign extension from the byte at the given index, as the matching opcode
/// performs it.
pub fn extend_sign(num: Word, b: Word) -> (r: Word)
    ensures
        r.as_nat() == sext_spec(num, b),
{
    proof {
        lemma_pw();
        num.lemma_bound();
    }
    let k = match b.to_usize() {
        Some(v) => v,
        None => {
            return num;
        },
    };
    if k >= 31 {
        proof {
            if b.as_nat() < 32 {
                // the chosen byte is the top one, so nothing changes
                lemma_small_mod(num.as_nat(), pow2(256));
            }
        }
        return num;
    }
    let t: usize = 8 * k + 7;
    let ghost np: nat = num.as_nat();
    let ghost pt1: nat = pow2((t + 1) as nat);
    let shifted = num.shr_k(t + 1);
    let back = shifted.shl_k(t + 1);
    proof {
        lemma_pow2_pos((t + 1) as nat);
        lemma_fundamental_div_mod(np as int, pt1 as int);
        lemma_mod_bound(np as int, pt1 as int);
        vstd::arithmetic::mul::lemma_mul_is_commutative((np / pt1) as int, pt1 as int);
        lemma_pow2_strictly_increases((t + 1) as nat, 256);
        lemma_small_mod((shifted.as_nat() * pt1) as nat, pow2(256));
    }
    let low = num.wrapping_sub(&back);
    proof {
        assert(low.as_nat() == np % pt1);
    }
    let probe = num.shr_k(t);
    proof {
        lemma_parity(probe);
    }
    if probe.w0 % 2 == 1 {
        let one = Word::one();
        let m1 = one.shl_k(t + 1);
        proof {
            lemma_small_mod(pt1, pow2(256));
            vstd::arithmetic::mul::lemma_mul_basics(pt1 as int);
        }
        let low_mask = m1.wrapping_sub(&one);
        let ones = low_mask.bit_not();
        proof {
            assert(ones.as_nat() == pow2(256) - pt1);
            lemma_small_mod((low.as_nat() + ones.as_nat()) as nat, pow2(256));
        }
        low.wrapping_add(&ones)
    } else {
        low
    }
}


/// Adding a word and then subtracting the same word restores the first
/// operand: over the wrapping arithmetic, for all words `a` and `b`,
/// `(a + b) - b` is `a` again, modulo 2^256.
pub proof fn lemma_add_sub_roundtrip(a: Word, b: Word)
    ensures
        ((a.as_nat() + b.as_nat()) % pow2(256) + pow2(256) - b.as_nat()) % (pow2(256) as int)
            == a.as_nat(),
{
    lemma_pow2_pos(256);
    a.lemma_bound();
    b.lemma_bound();
    let m = pow2(256) as int;
    let s = ((a.as_nat() + b.as_nat()) as int) % m;
    lemma_mod_bound((a.as_nat() + b.as_nat()) as int, m);
    lemma_fundamental_div_mod((a.as_nat() + b.as_nat()) as int, m);
    let q = (a.as_nat() + b.as_nat()) as int / m;
    // s + m - b == a + m - q * m == a + (1 - q) * m
    assert(s + m - b.as_nat() == a.as_nat() + (1 - q) * m) by (nonlinear_arith)
        requires
            a.as_nat() + b.as_nat() == m * q + s,
    ;
    lemma_mod_multiples_vanish(1 - q, a.as_nat() as int, m);
    lemma_small_mod(a.as_nat(), pow2(256));
}

} // verus!
