use vstd::prelude::*;

verus! {

/// Number of attos (the smallest unit) in one whole unit: amounts carry
/// eighteen decimal places.
pub const ONE_ATTOS: i128 = 1_000_000_000_000_000_000;

/// A fixed-point amount with eighteen decimal places, held as a whole
/// number of attos. Health and attack values of fighters are amounts.
#[derive(Clone, Copy, Debug, PartialEq, Eq, Structural)]
pub struct Decimal {
    pub attos: i128,
}

/// True when `v` attos can be held by a `Decimal`.
pub open spec fn in_range(v: int) -> bool {
    i128::MIN <= v <= i128::MAX
}

impl Decimal {
    /// The amount one (one whole unit).
    pub fn one() -> (r: Decimal)
        ensures
            r.attos == ONE_ATTOS,
    {
        Decimal { attos: ONE_ATTOS }
    }

    /// The amount made of `attos` attos.
    pub fn from_attos(attos: i128) -> (r: Decimal)
        ensures
            r.attos == attos,
    {
        Decimal { attos }
    }

    /// The whole amount `n`.
    pub fn from_u8(n: u8) -> (r: Decimal)
        ensures
            r.attos == n * ONE_ATTOS,
    {
        let wide: i128 = n as i128;
        assert(wide * ONE_ATTOS <= 255 * ONE_ATTOS) by (nonlinear_arith)
            requires
                0 <= wide <= 255,
        ;
        Decimal { attos: wide * ONE_ATTOS }
    }

    /// The sum of two amounts; the sum must be representable.
    pub fn plus(self, other: Decimal) -> (r: Decimal)
        requires
            in_range(self.attos + other.attos),
        ensures
            r.attos == self.attos + other.attos,
    {
        Decimal { attos: self.attos + other.attos }
    }

    /// The difference of two amounts; it must be representable.
    pub fn minus(self, other: Decimal) -> (r: Decimal)
        requires
            in_range(self.attos - other.attos),
        ensures
            r.attos == self.attos - other.attos,
    {
        Decimal { attos: self.attos - other.attos }
    }

    /// The difference of two amounts, or `None` when it is not
    /// representable.
    pub fn checked_minus(self, other: Decimal) -> (r: Option<Decimal>)
        ensures
            r is Some <==> in_range(self.attos - other.attos),
            r matches Some(d) ==> d.attos == self.attos - other.attos,
    {
        match self.attos.checked_sub(other.attos) {
            Some(v) => Some(Decimal { attos: v }),
            None => None,
        }
    }

    /// Whether this amount is zero or below.
    pub fn is_not_positive(&self) -> (r: bool)
        ensures
            r == (self.attos <= 0),
    {
        self.attos <= 0
    }
}

} // verus!
