use vstd::prelude::*;
use crate::order::{TotalOrder, sort_in_place, sorted};
use crate::text::{decimal, law_radix_roundtrip, numeral, parse_radix, u64_to_decimal, u64_to_radix};

verus! {

#[verifier::external_type_specification]
#[verifier::external_body]
pub struct ExParseIntError(std::num::ParseIntError);

/// The identifier of a cluster member or of a cluster.
#[derive(Clone, Copy, PartialEq, Eq, Structural, PartialOrd, Ord, Debug)]
pub struct ID(u64);

impl ID {
    pub closed spec fn value(self) -> u64 {
        self.0
    }

    pub fn new(v: u64) -> (r: ID)
        ensures
            r.value() == v,
    {
        ID(v)
    }

    pub fn get(&self) -> (r: u64)
        ensures
            r == self.value(),
    {
        self.0
    }

    /// The identifier in decimal.
    pub fn to_string(&self) -> (s: String)
        ensures
            s@ == decimal(self.value() as nat),
    {
        u64_to_decimal(self.0)
    }

    /// The identifier in lower-case hexadecimal, as `{:x}` writes it.
    pub fn to_lower_hex(&self) -> (s: String)
        ensures
            s@ == numeral(self.value() as nat, 16),
    {
        u64_to_radix(self.0, 16)
    }
}

/// Calls `u64::from_str_radix(s, 16)`: an optional `+` and at least one hexadecimal
/// digit of either case, with a value that fits in 64 bits; anything else is an error.
#[verifier::external_body]
fn u64_from_hex(s: &str) -> (r: Result<u64, std::num::ParseIntError>)
    ensures
        r matches Ok(v) ==> parse_radix(s@, 16) == Some(v),
        r is Err ==> parse_radix(s@, 16) is None,
{
    u64::from_str_radix(s, 16)
}

impl ID {
    /// Reads an identifier written in hexadecimal, as `from_str` does.
    pub fn from_hex(s: &str) -> (r: Result<ID, std::num::ParseIntError>)
        ensures
            r is Ok <==> parse_radix(s@, 16) is Some,
            r matches Ok(id) ==> parse_radix(s@, 16) == Some(id.value()),
    {
        let i = u64_from_hex(s)?;
        Ok(ID(i))
    }
}

impl std::str::FromStr for ID {
    type Err = std::num::ParseIntError;

    /// Reads an identifier written in hexadecimal.
    fn from_str(s: &str) -> (r: Result<ID, std::num::ParseIntError>)
        ensures
            r is Ok <==> parse_radix(s@, 16) is Some,
            r matches Ok(id) ==> parse_radix(s@, 16) == Some(id.value()),
    {
        ID::from_hex(s)
    }
}

/// Reading an identifier back from its hexadecimal form gives the identifier.
pub proof fn law_hex_roundtrip(id: ID)
    ensures
        parse_radix(numeral(id.value() as nat, 16), 16) == Some(id.value()),
{
    law_radix_roundtrip(id.value(), 16);
}

impl TotalOrder for ID {
    open spec fn le(self, other: Self) -> bool {
        self.value() <= other.value()
    }

    proof fn lemma_total(a: Self, b: Self) {
    }

    proof fn lemma_trans(a: Self, b: Self, c: Self) {
    }

    fn is_le(&self, other: &Self) -> (r: bool) {
        self.0 <= other.0
    }
}

/// A list of identifiers.
pub struct IDSlice(pub Vec<ID>);

impl IDSlice {
    /// Puts the identifiers in ascending order.
    pub fn sort(&mut self)
        ensures
            sorted(final(self).0@),
            final(self).0@.to_multiset() == old(self).0@.to_multiset(),
    {
        sort_in_place(&mut self.0);
    }
}

} // verus!
