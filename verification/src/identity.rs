//! Party identities and the comparison of 32-byte strings.
use vstd::prelude::*;
use crate::digest::Hash32;
use crate::search::distinct;

verus! {

/// Tells whether two 32-byte strings are equal. Every byte is read whatever
/// the outcome, so the time taken does not show where the strings differ.
pub fn bytes32_eq(a: &Hash32, b: &Hash32) -> (r: bool)
    ensures
        r == (*a == *b),
{
    let mut diff: u8 = 0;
    let mut i: usize = 0;
    while i < 32
        invariant
            i <= 32,
            (diff == 0) == (forall|j: int| 0 <= j < i ==> a[j] == b[j]),
        decreases 32 - i,
    {
        let x: u8 = a[i];
        let y: u8 = b[i];
        let d: u8 = diff;
        assert(((d | (x ^ y)) == 0) == (d == 0 && x == y)) by (bit_vector);
        diff = d | (x ^ y);
        i += 1;
    }
    proof {
        if diff == 0 {
            assert(*a =~= *b);
        }
    }
    diff == 0
}

/// A party: an account, named by its public key, or a contract, named by its
/// hash.
#[derive(Clone, Copy, Debug, PartialEq, Eq)]
pub enum Address {
    Account(Hash32),
    Contract(Hash32),
}

impl Address {
    /// The 32 bytes that name the party.
    pub open spec fn key(self) -> Hash32 {
        match self {
            Address::Account(k) => k,
            Address::Contract(k) => k,
        }
    }

    /// Tells whether two addresses name the same party.
    pub fn same(&self, other: &Address) -> (r: bool)
        ensures
            r == (*self == *other),
    {
        match (self, other) {
            (Address::Account(a), Address::Account(b)) => bytes32_eq(a, b),
            (Address::Contract(a), Address::Contract(b)) => bytes32_eq(a, b),
            _ => false,
        }
    }
}


/// Tells whether no identifier occurs twice in the list.
pub fn hashes_distinct(list: &Vec<Hash32>) -> (r: bool)
    ensures
        r == distinct(list@),
{
    let mut j: usize = 0;
    while j < list.len()
        invariant
            j <= list@.len(),
            forall|a: int, b: int| 0 <= a < b < j ==> list@[a] != list@[b],
        decreases list@.len() - j,
    {
        let mut i: usize = 0;
        while i < j
            invariant
                i <= j,
                j < list@.len(),
                forall|a: int| 0 <= a < i ==> list@[a] != list@[j as int],
            decreases j - i,
        {
            if bytes32_eq(&list[i], &list[j]) {
                return false;
            }
            i += 1;
        }
        j += 1;
    }
    true
}

/// Tells whether no address occurs twice in the list.
pub fn addresses_distinct(list: &Vec<Address>) -> (r: bool)
    ensures
        r == distinct(list@),
{
    let mut j: usize = 0;
    while j < list.len()
        invariant
            j <= list@.len(),
            forall|a: int, b: int| 0 <= a < b < j ==> list@[a] != list@[b],
        decreases list@.len() - j,
    {
        let mut i: usize = 0;
        while i < j
            invariant
                i <= j,
                j < list@.len(),
                forall|a: int| 0 <= a < i ==> list@[a] != list@[j as int],
            decreases j - i,
        {
            if list[i].same(&list[j]) {
                return false;
            }
            i += 1;
        }
        j += 1;
    }
    true
}

} // verus!
