use vstd::prelude::*;

verus! {

/// Whether two 32-byte strings hold the same bytes.
pub fn same_bytes(a: &[u8; 32], b: &[u8; 32]) -> (r: bool)
    ensures
        r == (*a == *b),
{
    let mut i: usize = 0;
    while i < 32
        invariant
            i <= 32,
            forall|j: int| 0 <= j < i ==> a[j] == b[j],
        decreases 32 - i,
    {
        if a[i] != b[i] {
            return false;
        }
        i += 1;
    }
    assert(*a =~= *b);
    true
}

/// An identity: a user or an administrator, known by 32 bytes.
#[derive(Clone, Copy, Debug, PartialEq, Eq)]
pub struct Address {
    pub id: [u8; 32],
}

impl Address {
    pub fn new(id: [u8; 32]) -> (a: Address)
        ensures
            a.id == id,
    {
        Address { id }
    }

    /// Whether `self` and `other` are one identity.
    pub fn same(&self, other: &Address) -> (r: bool)
        ensures
            r == (*self == *other),
    {
        same_bytes(&self.id, &other.id)
    }
}

} // verus!
