use vstd::prelude::*;
use vstd::arithmetic::div_mod::{
    lemma_fundamental_div_mod, lemma_mod_multiples_basic, lemma_truncate_middle,
};

verus! {

// ---------------------------------------------------------------------------
// Greatest common divisor
// ---------------------------------------------------------------------------

/// Euclid's greatest common divisor: `gcd(a, 0) = a`, `gcd(a, b) = gcd(b, a mod b)`.
pub open spec fn gcd_spec(a: nat, b: nat) -> nat
    decreases b,
{
    if b == 0 {
        a
    } else {
        gcd_spec(b, a % b)
    }
}

/// Greatest common divisor of two integers, by Euclid's algorithm.
pub fn gcd(a: u32, b: u32) -> (r: u32)
    ensures
        r == gcd_spec(a as nat, b as nat),
{
    let ghost (a0, b0) = (a, b);
    let mut a = a;
    let mut b = b;
    while b != 0
        invariant
            gcd_spec(a as nat, b as nat) == gcd_spec(a0 as nat, b0 as nat),
        decreases b,
    {
        a = a % b;
        std::mem::swap(&mut a, &mut b);
    }
    a
}

/// The gcd of two numbers divides both of them, and is positive unless both are zero.
pub proof fn lemma_gcd_divides(a: nat, b: nat)
    ensures
        (a > 0 || b > 0) ==> gcd_spec(a, b) > 0,
        gcd_spec(a, b) > 0 ==> a % gcd_spec(a, b) == 0 && b % gcd_spec(a, b) == 0,
    decreases b,
{
    if b == 0 {
        if a > 0 {
            lemma_mod_multiples_basic(1, a as int);
            lemma_mod_multiples_basic(0, a as int);
        }
    } else {
        let r = a % b;
        let g = gcd_spec(a, b);
        lemma_gcd_divides(b, r);
        if g > 0 {
            lemma_fundamental_div_mod(a as int, b as int);
            lemma_fundamental_div_mod(b as int, g as int);
            lemma_fundamental_div_mod(r as int, g as int);
            let q = a / b;
            let qb = b / g;
            let qr = r / g;
            assert(a == (qb * q + qr) * g) by (nonlinear_arith)
                requires
                    a == b * q + r,
                    b == g * qb,
                    r == g * qr,
            ;
            lemma_mod_multiples_basic((qb * q + qr) as int, g as int);
        }
    }
}

/// Every common divisor of `a` and `b` divides their gcd.
pub proof fn lemma_gcd_greatest(a: nat, b: nat, d: nat)
    requires
        d > 0,
        a % d == 0,
        b % d == 0,
    ensures
        gcd_spec(a, b) % d == 0,
    decreases b,
{
    if b > 0 {
        let r = a % b;
        lemma_fundamental_div_mod(a as int, b as int);
        lemma_fundamental_div_mod(a as int, d as int);
        lemma_fundamental_div_mod(b as int, d as int);
        let q = a / b;
        let qa = a / d;
        let qb = b / d;
        assert(r == (qa - qb * q) * d) by (nonlinear_arith)
            requires
                a == b * q + r,
                a == d * qa,
                b == d * qb,
        ;
        lemma_mod_multiples_basic(qa - qb * q, d as int);
        lemma_gcd_greatest(b, r, d);
    }
}

/// Scaling both arguments scales the gcd: `gcd(k·a, k·b) = k·gcd(a, b)`.
pub proof fn lemma_gcd_scale(a: nat, b: nat, k: nat)
    requires
        k > 0,
    ensures
        gcd_spec(k * a, k * b) == k * gcd_spec(a, b),
    decreases b,
{
    if b == 0 {
        assert(k * b == 0);
    } else {
        assert(k * b > 0) by (nonlinear_arith)
            requires
                k > 0,
                b > 0,
        ;
        lemma_truncate_middle(a as int, k as int, b as int);
        assert((k * a) % (k * b) == k * (a % b));
        lemma_gcd_scale(b, a % b, k);
    }
}

/// Dividing two numbers, not both zero, by their gcd leaves coprime numbers.
pub proof fn lemma_gcd_quotients_coprime(a: nat, b: nat)
    requires
        a > 0 || b > 0,
    ensures
        gcd_spec(a / gcd_spec(a, b), b / gcd_spec(a, b)) == 1,
{
    let g = gcd_spec(a, b);
    lemma_gcd_divides(a, b);
    lemma_fundamental_div_mod(a as int, g as int);
    lemma_fundamental_div_mod(b as int, g as int);
    let x = a / g;
    let y = b / g;
    assert(g * x == a && g * y == b);
    lemma_gcd_scale(x, y, g);
    let h = gcd_spec(x, y);
    assert(h == 1) by (nonlinear_arith)
        requires
            g > 0,
            g * h == g,
    ;
}

// ---------------------------------------------------------------------------
// Fraction
// ---------------------------------------------------------------------------

/// A fraction `num / denom` of two unsigned integers.
#[derive(Clone, Debug, PartialEq, Eq, Structural)]
pub struct Fraction {
    num: u32,
    denom: u32,
}

impl View for Fraction {
    type V = (u32, u32);

    /// `(numerator, denominator)`.
    closed spec fn view(&self) -> (u32, u32) {
        (self.num, self.denom)
    }
}

/// `a/b − c/d = (a·d − c·b) / (b·d)`, each part truncated to 32 bits.
pub open spec fn fraction_sub_spec(x: (u32, u32), y: (u32, u32)) -> (u32, u32) {
    ((x.0 * y.1 - y.0 * x.1) as u32, (x.1 * y.1) as u32)
}

/// The fraction that `simplify` leaves: `0/1` for a zero numerator, else both
/// parts divided by their gcd.
pub open spec fn simplified_spec(x: (u32, u32)) -> (u32, u32) {
    if x.0 == 0 {
        (0u32, 1u32)
    } else {
        let g = gcd_spec(x.0 as nat, x.1 as nat);
        ((x.0 as nat / g) as u32, (x.1 as nat / g) as u32)
    }
}

impl Fraction {
    /// The fraction `num / denom`.
    pub fn new(num: u32, denom: u32) -> (r: Self)
        ensures
            r@ == (num, denom),
    {
        Self { num, denom }
    }

    /// The numerator.
    pub fn num(&self) -> (r: u32)
        ensures
            r == self@.0,
    {
        self.num
    }

    /// The denominator.
    pub fn denom(&self) -> (r: u32)
        ensures
            r == self@.1,
    {
        self.denom
    }

    /// Replace the numerator.
    pub fn set_num(&mut self, num: u32)
        ensures
            final(self)@ == (num, old(self)@.1),
    {
        self.num = num;
    }

    /// Replace the denominator.
    pub fn set_denom(&mut self, denom: u32)
        ensures
            final(self)@ == (old(self)@.0, denom),
    {
        self.denom = denom;
    }

    /// Reduce to lowest terms in place. A zero numerator gives `0/1`.
    ///
    /// The reduced fraction has the same value (cross products agree) and
    /// coprime parts.
    pub fn simplify(&mut self)
        ensures
            final(self)@ == simplified_spec(old(self)@),
            final(self)@.0 * old(self)@.1 == old(self)@.0 * final(self)@.1,
            gcd_spec(final(self)@.0 as nat, final(self)@.1 as nat) == 1,
    {
        if self.num == 0 {
            let ghost d0 = self.denom as int;
            assert(0 * d0 == 0) by (nonlinear_arith);
            self.denom = 1;
            assert(gcd_spec(0, 1) == 1) by {
                assert(gcd_spec(1, 0) == 1);
            }
            return;
        }
        let common = gcd(self.num, self.denom);
        let ghost (n, d) = (self.num as nat, self.denom as nat);
        proof {
            lemma_gcd_divides(n, d);
            lemma_gcd_quotients_coprime(n, d);
            lemma_fundamental_div_mod(n as int, common as int);
            lemma_fundamental_div_mod(d as int, common as int);
            let (x, y) = (n / common as nat, d / common as nat);
            assert(x * d == n * y) by (nonlinear_arith)
                requires
                    n == common * x,
                    d == common * y,
            ;
        }
        self.num = self.num / common;
        self.denom = self.denom / common;
    }
}

/// Simplifying is idempotent: a simplified fraction is left as it is.
pub proof fn lemma_simplify_idempotent(x: (u32, u32))
    ensures
        simplified_spec(simplified_spec(x)) == simplified_spec(x),
{
    let y = simplified_spec(x);
    if x.0 == 0 {
        assert(gcd_spec(0, 1) == 1) by {
            assert(gcd_spec(1, 0) == 1);
        }
    } else {
        let g = gcd_spec(x.0 as nat, x.1 as nat);
        lemma_gcd_divides(x.0 as nat, x.1 as nat);
        lemma_gcd_quotients_coprime(x.0 as nat, x.1 as nat);
        lemma_fundamental_div_mod(x.0 as int, g as int);
        assert(y.0 != 0) by (nonlinear_arith)
            requires
                x.0 == g * (x.0 as nat / g),
                x.0 != 0,
                y.0 == x.0 as nat / g,
        ;
        assert(gcd_spec(y.0 as nat, y.1 as nat) == 1);
    }
}

/// A fraction minus itself has a zero numerator and keeps the product of the
/// denominators.
pub proof fn lemma_sub_self(x: (u32, u32))
    ensures
        fraction_sub_spec(x, x) == (0u32, (x.1 * x.1) as u32),
{
}

impl core::ops::Sub for Fraction {
    type Output = Fraction;

    /// `a/b − c/d = (a·d − c·b) / (b·d)`. The products are taken in 64 bits and
    /// truncated to 32 bits; a negative difference is refused by `sub_req`.
    fn sub(self, rhs: Fraction) -> (r: Fraction)
        ensures
            r@ == fraction_sub_spec(self@, rhs@),
    {
        proof {
            assert(self.num * rhs.denom <= 0xffff_ffff * 0xffff_ffff) by (nonlinear_arith)
                requires
                    self.num <= 0xffff_ffff,
                    rhs.denom <= 0xffff_ffff,
            ;
            assert(rhs.num * self.denom <= 0xffff_ffff * 0xffff_ffff) by (nonlinear_arith)
                requires
                    rhs.num <= 0xffff_ffff,
                    self.denom <= 0xffff_ffff,
            ;
            assert(self.denom * rhs.denom <= 0xffff_ffff * 0xffff_ffff) by (nonlinear_arith)
                requires
                    self.denom <= 0xffff_ffff,
                    rhs.denom <= 0xffff_ffff,
            ;
        }
        let l: u64 = self.num as u64 * rhs.denom as u64;
        let r: u64 = rhs.num as u64 * self.denom as u64;
        Self { num: (l - r) as u32, denom: (self.denom as u64 * rhs.denom as u64) as u32 }
    }
}

impl vstd::std_specs::ops::SubSpecImpl for Fraction {
    open spec fn obeys_sub_spec() -> bool {
        true
    }

    /// The difference must not be negative.
    open spec fn sub_req(self, rhs: Fraction) -> bool {
        self@.0 * rhs@.1 >= rhs@.0 * self@.1
    }

    closed spec fn sub_spec(self, rhs: Fraction) -> Fraction {
        Fraction {
            num: fraction_sub_spec(self@, rhs@).0,
            denom: fraction_sub_spec(self@, rhs@).1,
        }
    }
}

// ---------------------------------------------------------------------------
// Ratio
// ---------------------------------------------------------------------------

/// Sum of a sequence of parts.
pub open spec fn parts_sum(s: Seq<u32>) -> nat
    decreases s.len(),
{
    if s.len() == 0 {
        0
    } else {
        parts_sum(s.drop_last()) + s.last() as nat
    }
}

/// A prefix never sums to more than the whole sequence.
pub proof fn lemma_parts_sum_prefix(s: Seq<u32>, i: int)
    requires
        0 <= i <= s.len(),
    ensures
        parts_sum(s.subrange(0, i)) <= parts_sum(s),
    decreases s.len(),
{
    if i < s.len() {
        assert(s.drop_last().subrange(0, i) == s.subrange(0, i));
        lemma_parts_sum_prefix(s.drop_last(), i);
    } else {
        assert(s.subrange(0, i) == s);
    }
}

/// A ratio `a : b : c : ...` of unsigned parts, with their total.
#[derive(Debug, PartialEq, Eq)]
pub struct Ratio {
    parts: Vec<u32>,
    total: u32,
}

impl View for Ratio {
    type V = Seq<u32>;

    /// The parts, in order.
    closed spec fn view(&self) -> Seq<u32> {
        self.parts@
    }
}

impl Ratio {
    /// The total is always the sum of the parts.
    #[verifier::type_invariant]
    closed spec fn total_is_sum(self) -> bool {
        self.total == parts_sum(self.parts@)
    }

    /// A ratio with the given parts; the parts must sum to at most `u32::MAX`.
    pub fn new(parts: Vec<u32>) -> (r: Self)
        requires
            parts_sum(parts@) <= u32::MAX,
        ensures
            r@ == parts@,
    {
        let n = parts.len();
        let mut total: u32 = 0;
        for i in 0..n
            invariant
                n == parts@.len(),
                parts_sum(parts@) <= u32::MAX,
                total == parts_sum(parts@.subrange(0, i as int)),
        {
            proof {
                assert(parts@.subrange(0, i + 1).drop_last() == parts@.subrange(0, i as int));
                lemma_parts_sum_prefix(parts@, i + 1);
            }
            total = total + parts[i];
        }
        assert(parts@.subrange(0, n as int) == parts@);
        Self { parts, total }
    }

    /// Number of parts.
    pub fn len(&self) -> (r: usize)
        ensures
            r == self@.len(),
    {
        self.parts.len()
    }

    /// Whether the ratio has no part.
    pub fn is_empty(&self) -> (r: bool)
        ensures
            r == (self@.len() == 0),
    {
        self.parts.len() == 0
    }

    /// The sum of all parts.
    pub fn total(&self) -> (r: u32)
        ensures
            r == parts_sum(self@),
    {
        proof {
            use_type_invariant(self);
        }
        self.total
    }

    /// The part at `index` as a fraction of the total, or `None` past the end.
    pub fn part(&self, index: usize) -> (r: Option<Fraction>)
        ensures
            index < self@.len() ==> (r matches Some(f) && f@ == (self@[index as int], parts_sum(self@) as u32)),
            index >= self@.len() ==> r is None,
    {
        proof {
            use_type_invariant(self);
        }
        if index < self.parts.len() {
            Some(Fraction { num: self.parts[index], denom: self.total })
        } else {
            None
        }
    }

    /// Every part as a fraction of the total, in order.
    pub fn iter(&self) -> (r: Vec<Fraction>)
        ensures
            r@.len() == self@.len(),
            forall|i: int| 0 <= i < r@.len() ==> #[trigger] r@[i]@ == (self@[i], parts_sum(self@) as u32),
    {
        proof {
            use_type_invariant(self);
        }
        let n = self.parts.len();
        let mut out: Vec<Fraction> = Vec::new();
        for i in 0..n
            invariant
                n == self@.len(),
                self.total == parts_sum(self@),
                out@.len() == i,
                forall|j: int| 0 <= j < i ==> #[trigger] out@[j]@ == (self@[j], parts_sum(self@) as u32),
        {
            out.push(Fraction { num: self.parts[i], denom: self.total });
        }
        out
    }
}

impl Clone for Ratio {
    fn clone(&self) -> (r: Self)
        ensures
            r@ == self@,
    {
        proof {
            use_type_invariant(self);
        }
        let n = self.parts.len();
        let mut parts: Vec<u32> = Vec::new();
        for i in 0..n
            invariant
                n == self@.len(),
                parts@ == self@.subrange(0, i as int),
        {
            parts.push(self.parts[i]);
        }
        assert(parts@ == self@);
        Ratio { parts, total: self.total }
    }
}

impl core::ops::Index<usize> for Ratio {
    type Output = u32;

    fn index(&self, index: usize) -> (r: &u32)
        ensures
            *r == self@[index as int],
    {
        &self.parts[index]
    }
}

impl vstd::std_specs::core::IndexSpecImpl<usize> for Ratio {
    /// The index must name a part.
    open spec fn index_req(&self, index: &usize) -> bool {
        *index < self@.len()
    }
}

// ---------------------------------------------------------------------------
// Bookkeeping entries
// ---------------------------------------------------------------------------

/// Debits and credits in double-entry bookkeeping are entries made in account
/// ledgers to record changes in value resulting from business transactions. A
/// debit entry in an account represents a transfer of value to that account,
/// and a credit entry represents a transfer from the account.
#[derive(Debug, Clone, Copy, PartialEq, Eq, Structural, PartialOrd, Ord, Hash)]
pub enum EntryType {
    /// repr Debit entry
    Debit,
    /// repr Credit entry
    Credit,
}

/// repr Debit entry; alias for `EntryType::Debit`.
pub const DEBIT: EntryType = EntryType::Debit;

/// repr Credit entry; alias for `EntryType::Credit`.
pub const CREDIT: EntryType = EntryType::Credit;

/// The five kinds of ledger account.
#[derive(Debug, Clone, Copy, PartialEq, Eq, Structural)]
pub enum AccountType {
    Asset,
    Liability,
    Capital,
    Expense,
    Revenue,
}

impl AccountType {
    /// The side on which an account of this kind normally carries its balance:
    /// assets and expenses on the debit side, liabilities, capital and revenue
    /// on the credit side.
    pub fn balance(&self) -> (r: EntryType)
        ensures
            r == (match *self {
                AccountType::Asset | AccountType::Expense => EntryType::Debit,
                AccountType::Liability | AccountType::Capital | AccountType::Revenue => EntryType::Credit,
            }),
    {
        match self {
            AccountType::Liability | AccountType::Capital | AccountType::Revenue => CREDIT,
            AccountType::Expense | AccountType::Asset => DEBIT,
        }
    }
}

} // verus!
