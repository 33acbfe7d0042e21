//! Plain-value building blocks shared by the whole library: fixed-size byte
//! strings (hashes, addresses) and a 256-bit unsigned integer.
use vstd::prelude::*;
use vstd::arithmetic::power2::{pow2, lemma2_to64, lemma2_to64_rest, lemma_pow2_adds, lemma_pow2_pos};
use vstd::arithmetic::div_mod::{
    lemma_div_denominator, lemma_div_multiples_vanish_fancy, lemma_fundamental_div_mod,
    lemma_hoist_over_denominator, lemma_mod_multiples_vanish,
};
use vstd::bits::lemma_u128_shr_is_div;

verus! {

/// A 32-byte hash (a `B256`).
pub type B256 = [u8; 32];

/// A 20-byte account address.
pub type Address = [u8; 20];

/// Byte-wise equality of two byte strings.
pub fn bytes_eq(a: &[u8], b: &[u8]) -> (r: bool)
    ensures
        r == (a@ == b@),
{
    if a.len() != b.len() {
        return false;
    }
    let mut i: usize = 0;
    while i < a.len()
        invariant
            a@.len() == b@.len(),
            0 <= i <= a@.len(),
            forall|j: int| 0 <= j < i ==> a@[j] == b@[j],
        decreases a@.len() - i,
    {
        if a[i] != b[i] {
            return false;
        }
        i = i + 1;
    }
    assert(a@ =~= b@);
    true
}

/// Equality of two 32-byte hashes.
pub fn b256_eq(a: &B256, b: &B256) -> (r: bool)
    ensures
        r == (*a == *b),
        r == (a@ == b@),
{
    let r = bytes_eq(a.as_slice(), b.as_slice());
    proof {
        if r {
            assert(a@ == b@);
            assert(*a =~= *b);
        }
    }
    r
}

/// Equality of two addresses.
pub fn address_eq(a: &Address, b: &Address) -> (r: bool)
    ensures
        r == (*a == *b),
{
    let r = bytes_eq(a.as_slice(), b.as_slice());
    proof {
        if r {
            assert(a@ == b@);
            assert(*a =~= *b);
        }
    }
    r
}

/// `2^128` as a number.
pub open spec fn two_128() -> nat {
    pow2(128)
}

/// The bit at position `i` of the number `v`.
pub open spec fn nat_bit(v: nat, i: nat) -> bool {
    (v / pow2(i)) % 2 == 1
}

/// An unsigned 256-bit integer, held as its high and low 128-bit halves.
#[derive(Clone, Copy, Debug, PartialEq, Eq, Structural)]
pub struct U256 {
    /// The high 128 bits.
    pub hi: u128,
    /// The low 128 bits.
    pub lo: u128,
}

impl U256 {
    /// The number this integer denotes.
    pub open spec fn value(self) -> nat {
        self.hi as nat * two_128() + self.lo as nat
    }

    /// The integer zero.
    pub fn zero() -> (r: U256)
        ensures
            r.value() == 0,
    {
        U256 { hi: 0, lo: 0 }
    }

    /// The integer `x`.
    pub fn from_u64(x: u64) -> (r: U256)
        ensures
            r.value() == x,
    {
        U256 { hi: 0, lo: x as u128 }
    }

    /// The integer `x`.
    pub fn from_u128(x: u128) -> (r: U256)
        ensures
            r.value() == x,
    {
        U256 { hi: 0, lo: x }
    }

    /// The largest 256-bit integer.
    pub fn max() -> (r: U256)
        ensures
            r.value() == two_128() * two_128() - 1,
    {
        let r = U256 { hi: u128::MAX, lo: u128::MAX };
        proof {
            lemma_two_128();
            assert(r.value() == two_128() * two_128() - 1) by (nonlinear_arith)
                requires
                    r.hi == two_128() - 1,
                    r.lo == two_128() - 1,
                    r.value() == r.hi as nat * two_128() + r.lo as nat,
            ;
        }
        r
    }

    /// True if `self < other`.
    pub fn lt(&self, other: &U256) -> (r: bool)
        ensures
            r == (self.value() < other.value()),
    {
        proof {
            lemma_value_order(*self, *other);
        }
        self.hi < other.hi || (self.hi == other.hi && self.lo < other.lo)
    }

    /// True if `self == other` as numbers.
    pub fn eq(&self, other: &U256) -> (r: bool)
        ensures
            r == (self.value() == other.value()),
    {
        proof {
            lemma_value_order(*self, *other);
            lemma_value_order(*other, *self);
        }
        self.hi == other.hi && self.lo == other.lo
    }

    /// The sum `self + other`, which must fit in 256 bits.
    pub fn add(&self, other: &U256) -> (r: U256)
        requires
            self.value() + other.value() < two_128() * two_128(),
        ensures
            r.value() == self.value() + other.value(),
    {
        proof {
            lemma_two_128();
        }
        let ghost t: int = two_128() as int;
        if self.lo > u128::MAX - other.lo {
            let lo = self.lo - (u128::MAX - other.lo) - 1;
            proof {
                assert((self.hi as int) + (other.hi as int) + 1 < t) by (nonlinear_arith)
                    requires
                        (self.hi as int) * t + (self.lo as int) + (other.hi as int) * t + (other.lo as int) < t * t,
                        (self.lo as int) + (other.lo as int) >= t,
                        0 <= self.lo < t,
                        0 <= other.lo < t,
                ;
            }
            let hi = self.hi + other.hi + 1;
            let r = U256 { hi, lo };
            proof {
                assert(r.value() == self.value() + other.value()) by (nonlinear_arith)
                    requires
                        r.value() == (hi as int) * t + (lo as int),
                        self.value() == (self.hi as int) * t + (self.lo as int),
                        other.value() == (other.hi as int) * t + (other.lo as int),
                        hi == self.hi + other.hi + 1,
                        lo == self.lo + other.lo - t,
                ;
            }
            r
        } else {
            let lo = self.lo + other.lo;
            proof {
                assert((self.hi as int) + (other.hi as int) < t) by (nonlinear_arith)
                    requires
                        (self.hi as int) * t + (self.lo as int) + (other.hi as int) * t + (other.lo as int) < t * t,
                        0 <= self.lo,
                        0 <= other.lo,
                        t > 0,
                ;
            }
            let hi = self.hi + other.hi;
            let r = U256 { hi, lo };
            proof {
                assert(r.value() == self.value() + other.value()) by (nonlinear_arith)
                    requires
                        r.value() == (hi as int) * t + (lo as int),
                        self.value() == (self.hi as int) * t + (self.lo as int),
                        other.value() == (other.hi as int) * t + (other.lo as int),
                        hi == self.hi + other.hi,
                        lo == self.lo + other.lo,
                ;
            }
            r
        }
    }

    /// The low 8 bits: `self & 0xff`.
    pub fn low_byte(&self) -> (r: u8)
        ensures
            r == self.value() % 256,
    {
        let lo = self.lo;
        let r = (lo & 0xff) as u8;
        assert(lo & 0xff == lo % 256) by (bit_vector);
        proof {
            lemma_two_128();
            lemma_mod_multiples_vanish(self.hi as int * pow2(120) as int, lo as int, 256);
            assert(self.value() == 256 * (self.hi as int * pow2(120) as int) + lo as int)
                by (nonlinear_arith)
                requires
                    two_128() == 256 * pow2(120),
                    self.value() == self.hi as nat * two_128() + lo as nat,
            ;
        }
        r
    }

    /// The integer shifted right by one byte: `self >> 8`.
    pub fn shr8(&self) -> (r: U256)
        ensures
            r.value() == self.value() / 256,
    {
        let hi = self.hi;
        let lo = self.lo;
        let new_hi = hi >> 8u32;
        let new_lo = (lo >> 8u32) | (hi << 120u32);
        assert(hi >> 8u32 == hi / 256) by (bit_vector);
        assert(lo >> 8u32 == lo / 256) by (bit_vector);
        assert((lo >> 8u32) | (hi << 120u32) == lo / 256 + (hi % 256) * 0x1000000000000000000000000000000u128)
            by (bit_vector);
        proof {
            lemma_two_128();
            let p120 = pow2(120) as int;
            assert(p120 == 0x1000000000000000000000000000000int);
            lemma_fundamental_div_mod(hi as int, 256);
            lemma_hoist_over_denominator(lo as int, hi as int * p120, 256);
            assert(self.value() == lo as int + (hi as int * p120) * 256) by (nonlinear_arith)
                requires
                    two_128() == 256 * p120,
                    self.value() == hi as nat * two_128() + lo as nat,
            ;
            assert(hi as int * p120 == (hi as int / 256) * two_128() + (hi as int % 256) * p120)
                by (nonlinear_arith)
                requires
                    two_128() == 256 * p120,
                    hi as int == 256 * (hi as int / 256) + hi as int % 256,
            ;
        }
        U256 { hi: new_hi, lo: new_lo }
    }

    /// Bit `i` of the integer: `(self >> i) & 1 == 1`.
    pub fn bit(&self, i: u8) -> (r: bool)
        ensures
            r == nat_bit(self.value(), i as nat),
    {
        proof {
            lemma_bit_split(*self, i as nat);
        }
        if i < 128 {
            let s = self.lo >> (i as u128);
            proof {
                lemma_u128_shr_is_div(self.lo, i as u128);
            }
            assert(s & 1 == s % 2) by (bit_vector);
            s & 1 == 1
        } else {
            let s = self.hi >> ((i - 128) as u128);
            proof {
                lemma_u128_shr_is_div(self.hi, (i - 128) as u128);
            }
            assert(s & 1 == s % 2) by (bit_vector);
            s & 1 == 1
        }
    }

    /// The integer as a `u64`, saturating at `u64::MAX`.
    pub fn saturating_to_u64(&self) -> (r: u64)
        ensures
            r == (if self.value() > u64::MAX { u64::MAX as nat } else { self.value() }),
    {
        proof {
            lemma_two_128();
        }
        if self.hi != 0 || self.lo > u64::MAX as u128 {
            u64::MAX
        } else {
            self.lo as u64
        }
    }
}

/// `2^128` and its relation to `2^120` and `2^8`.
pub proof fn lemma_two_128()
    ensures
        two_128() == 0x1_0000_0000_0000_0000_0000_0000_0000_0000,
        pow2(120) == 0x1000000000000000000000000000000,
        pow2(8) == 256,
        two_128() == 256 * pow2(120),
{
    lemma2_to64();
    lemma2_to64_rest();
    lemma_pow2_adds(64, 56);
    lemma_pow2_adds(120, 8);
    assert(pow2(56) == 0x100000000000000);
    assert(pow2(64) == 0x10000000000000000);
}

/// Comparison of two integers follows their halves lexicographically.
pub proof fn lemma_value_order(a: U256, b: U256)
    ensures
        (a.value() < b.value()) == (a.hi < b.hi || (a.hi == b.hi && a.lo < b.lo)),
        (a.value() == b.value()) == (a.hi == b.hi && a.lo == b.lo),
{
    lemma_two_128();
    let ghost t: int = two_128() as int;
    assert(((a.hi as int) * t + (a.lo as int) < (b.hi as int) * t + (b.lo as int)) == (a.hi < b.hi || (
    a.hi == b.hi && a.lo < b.lo))) by (nonlinear_arith)
        requires
            t == 0x1_0000_0000_0000_0000_0000_0000_0000_0000int,
            0 <= a.lo < t,
            0 <= b.lo < t,
            0 <= a.hi,
            0 <= b.hi,
    ;
    assert(((a.hi as int) * t + (a.lo as int) == (b.hi as int) * t + (b.lo as int)) == (a.hi == b.hi
        && a.lo == b.lo)) by (nonlinear_arith)
        requires
            t == 0x1_0000_0000_0000_0000_0000_0000_0000_0000int,
            0 <= a.lo < t,
            0 <= b.lo < t,
            0 <= a.hi,
            0 <= b.hi,
    ;
}

/// Bit `i` of the integer lies in the low half for `i < 128`, else in the
/// high half.
pub proof fn lemma_bit_split(x: U256, i: nat)
    requires
        i < 256,
    ensures
        i < 128 ==> nat_bit(x.value(), i) == ((x.lo as nat / pow2(i)) % 2 == 1),
        i >= 128 ==> nat_bit(x.value(), i) == ((x.hi as nat / pow2((i - 128) as nat)) % 2 == 1),
{
    lemma_two_128();
    let ghost t: int = two_128() as int;
    let v = x.value() as int;
    if i < 128 {
        let k = (128 - i) as nat;
        lemma_pow2_adds(i, k);
        lemma_pow2_pos(i);
        lemma_pow2_pos(k);
        let p = pow2(i) as int;
        let q = pow2(k) as int;
        assert(t == p * q);
        // v / p == hi * q + lo / p
        lemma_hoist_over_denominator(x.lo as int, x.hi as int * q, pow2(i));
        assert(v == x.lo as int + (x.hi as int * q) * p) by (nonlinear_arith)
            requires
                t == p * q,
                v == x.hi as int * t + x.lo as int,
        ;
        // hi * q is even since q is a positive power of two
        lemma_pow2_adds(1, (k - 1) as nat);
        lemma2_to64();
        let r = pow2((k - 1) as nat) as int;
        assert(q == 2 * r);
        lemma_mod_multiples_vanish(x.hi as int * r, x.lo as int / p, 2);
        assert(x.hi as int * q + x.lo as int / p == 2 * (x.hi as int * r) + x.lo as int / p)
            by (nonlinear_arith)
            requires
                q == 2 * r,
        ;
    } else {
        let k = (i - 128) as nat;
        lemma_pow2_adds(128, k);
        lemma_pow2_pos(k);
        let q = pow2(k) as int;
        lemma_div_denominator(v, t, q);
        lemma_div_multiples_vanish_fancy(x.hi as int, x.lo as int, t);
        assert(v == t * x.hi as int + x.lo as int) by (nonlinear_arith)
            requires
                v == x.hi as int * t + x.lo as int,
        ;
    }
}

/// The decimal digit `d` (below ten) as a character.
pub open spec fn digit_char(d: nat) -> char {
    if d == 0 { '0' }
    else if d == 1 { '1' }
    else if d == 2 { '2' }
    else if d == 3 { '3' }
    else if d == 4 { '4' }
    else if d == 5 { '5' }
    else if d == 6 { '6' }
    else if d == 7 { '7' }
    else if d == 8 { '8' }
    else { '9' }
}

/// The decimal representation of `n`, without leading zeros.
pub open spec fn decimal(n: nat) -> Seq<char>
    decreases n,
{
    if n < 10 {
        seq![digit_char(n)]
    } else {
        decimal(n / 10).push(digit_char(n % 10))
    }
}

/// Formats `v` in decimal with `alloy`'s `U256` (`Display`). The contract
/// claims that the text is the number's decimal digits, without leading
/// zeros, as that `Display` documents.
#[verifier::external_body]
fn u256_decimal(v: &U256) -> (r: String)
    ensures
        r@ == decimal(v.value()),
{
    let bytes: Vec<u8> = [v.hi.to_be_bytes(), v.lo.to_be_bytes()].concat();
    format!("{}", alloy::primitives::U256::from_be_slice(&bytes))
}

/// The lowercase hexadecimal digit `d` (below sixteen) as a character.
pub open spec fn hex_char(d: nat) -> char {
    if d < 10 {
        digit_char(d)
    } else if d == 10 { 'a' }
    else if d == 11 { 'b' }
    else if d == 12 { 'c' }
    else if d == 13 { 'd' }
    else if d == 14 { 'e' }
    else { 'f' }
}

/// The bytes `b` in lowercase hexadecimal, two digits per byte.
pub open spec fn hex_lower(b: Seq<u8>) -> Seq<char>
    decreases b.len(),
{
    if b.len() == 0 {
        Seq::empty()
    } else {
        hex_lower(b.drop_last()) + seq![hex_char((b.last() / 16) as nat), hex_char((b.last() % 16) as nat)]
    }
}

/// Formats a hash with `alloy`'s `FixedBytes` (`Display`). The contract
/// claims that the text is `0x` followed by the bytes in lowercase
/// hexadecimal, as that `Display` writes it without the alternate flag.
#[verifier::external_body]
fn b256_hex(b: &B256) -> (r: String)
    ensures
        r@ == "0x"@ + hex_lower(b@),
{
    format!("{}", alloy::primitives::B256::from(*b))
}

/// A hash as `0x` followed by its bytes in lowercase hexadecimal.
pub fn b256_to_string(b: &B256) -> (r: String)
    ensures
        r@ == "0x"@ + hex_lower(b@),
{
    b256_hex(b)
}

/// A `u64` in decimal.
pub fn u64_to_string(x: u64) -> (r: String)
    ensures
        r@ == decimal(x as nat),
{
    U256::from_u64(x).to_string()
}

impl U256 {
    /// The number in decimal.
    pub fn to_string(&self) -> (r: String)
        ensures
            r@ == decimal(self.value()),
    {
        u256_decimal(self)
    }
}

} // verus!
