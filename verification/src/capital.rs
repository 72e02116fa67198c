use vstd::prelude::*;

verus! {

/// Whether a capital instrument is redeemed at maturity.
#[derive(Debug, Clone, Copy, PartialEq, Eq, Structural)]
pub enum Type {
    /// Redeemable at maturity. Irredeemable preference shares cannot be issued
    /// in India, and this type is meant for preference capital, so this is the
    /// default.
    Redeemable,
    /// Irredeemable or Perpetual
    Irredeemable,
}

impl Default for Type {
    fn default() -> (r: Self)
        ensures
            r == Type::Redeemable,
    {
        Type::Redeemable
    }
}

} // verus!
