use vstd::prelude::*;

verus! {

/// A fraction viewed as a pair (numerator, denominator) of naturals.
pub type Frac = (nat, nat);

/// The product of two fractions, without reduction.
pub open spec fn frac_mul(a: Frac, b: Frac) -> Frac {
    ((a.0 * b.0) as nat, (a.1 * b.1) as nat)
}

/// The quotient `a / b` of two fractions, without reduction.
pub open spec fn frac_div(a: Frac, b: Frac) -> Frac {
    ((a.0 * b.1) as nat, (a.1 * b.0) as nat)
}

/// Two fractions denote the same rational number.
pub open spec fn frac_eq(a: Frac, b: Frac) -> bool {
    a.0 * b.1 == b.0 * a.1
}

/// Both parts of the fraction fit in a `u64`.
pub open spec fn frac_fits(a: Frac) -> bool {
    a.0 <= u64::MAX && a.1 <= u64::MAX
}

proof fn lemma_u64_product_fits(a: u64, b: u64)
    ensures
        a * b <= u128::MAX,
{
    assert(a * b <= u64::MAX * u64::MAX) by (nonlinear_arith)
        requires
            a <= u64::MAX,
            b <= u64::MAX,
    ;
}

/// A non-negative rational number `num / den`.
///
/// The representation is not reduced: `1/2` and `2/4` are different values
/// of this type that denote the same number (see `same_value`).
#[derive(Clone, Copy, Debug, PartialEq, Eq, Structural)]
pub struct Ratio {
    pub num: u64,
    pub den: u64,
}

impl Ratio {
    /// A well-formed ratio has a non-zero denominator.
    pub open spec fn wf(&self) -> bool {
        self.den > 0
    }

    pub open spec fn view(&self) -> Frac {
        (self.num as nat, self.den as nat)
    }

    /// The spec-level ratio with the given parts (which must fit in `u64`).
    pub open spec fn from_frac(f: Frac) -> Ratio {
        Ratio { num: f.0 as u64, den: f.1 as u64 }
    }

    /// Builds `num / den`; `None` when `den` is zero.
    pub fn new(num: u64, den: u64) -> (r: Option<Ratio>)
        ensures
            den == 0 <==> r is None,
            r matches Some(q) ==> q.wf() && q.num == num && q.den == den,
    {
        if den == 0 {
            None
        } else {
            Some(Ratio { num, den })
        }
    }

    pub fn numerator(&self) -> (r: u64)
        ensures
            r == self.num,
    {
        self.num
    }

    pub fn denominator(&self) -> (r: u64)
        ensures
            r == self.den,
    {
        self.den
    }

    /// Whether `self` and `other` denote the same rational number.
    pub fn same_value(&self, other: &Ratio) -> (r: bool)
        ensures
            r == frac_eq(self@, other@),
    {
        proof {
            lemma_u64_product_fits(self.num, other.den);
            lemma_u64_product_fits(other.num, self.den);
        }
        let lhs: u128 = (self.num as u128) * (other.den as u128);
        let rhs: u128 = (other.num as u128) * (self.den as u128);
        lhs == rhs
    }
}

} // verus!
