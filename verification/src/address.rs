use vstd::prelude::*;

verus! {

/// A 32-byte address: the identity of a user, of an asset, of a program or of
/// a derived account. Its view is the sequence of its bytes, and two addresses
/// are the same exactly when their views are.
#[derive(Clone, Copy, Debug)]
pub struct Address {
    pub bytes: [u8; 32],
}

impl View for Address {
    type V = Seq<u8>;

    open spec fn view(&self) -> Seq<u8> {
        self.bytes@
    }
}

/// The identifier of the native asset: 32 zero bytes.
pub open spec fn native_id() -> Seq<u8> {
    Seq::new(32, |i: int| 0u8)
}

/// A value that can key a registry: its view identifies it, and `same`
/// decides whether two keys have one view.
pub trait Key: View + Copy {
    fn same(&self, other: &Self) -> (r: bool)
        ensures
            r == (self@ == other@),
    ;
}

impl Address {
    /// The address made of the given bytes.
    pub fn new(bytes: [u8; 32]) -> (a: Address)
        ensures
            a.bytes == bytes,
            a@ == bytes@,
    {
        Address { bytes }
    }

    /// The identifier of the native asset.
    pub fn native() -> (a: Address)
        ensures
            a@ == native_id(),
    {
        let a = Address { bytes: [0u8; 32] };
        assert(a@ =~= native_id());
        a
    }

    /// The bytes of the address, in order.
    pub fn to_vec(&self) -> (v: Vec<u8>)
        ensures
            v@ == self@,
            v@.len() == 32,
    {
        let mut v: Vec<u8> = Vec::new();
        let mut i: usize = 0;
        while i < 32
            invariant
                i <= 32,
                v@.len() == i,
                forall|j: int| 0 <= j < i ==> v@[j] == self.bytes@[j],
            decreases 32 - i,
        {
            v.push(self.bytes[i]);
            i += 1;
        }
        assert(v@ =~= self@);
        v
    }

    /// Every view of an address has 32 bytes, and addresses with one view are
    /// equal.
    pub proof fn lemma_view(self)
        ensures
            self@.len() == 32,
            forall|other: Address| other@ == self@ ==> other == self,
    {
        assert forall|other: Address| other@ == self@ implies other == self by {
            assert forall|i: int| 0 <= i < 32 implies other.bytes[i] == self.bytes[i] by {
                assert(other@[i] == self@[i]);
            }
            assert(other.bytes =~= self.bytes);
        }
    }
}

impl Key for Address {
    fn same(&self, other: &Address) -> (r: bool) {
        let mut i: usize = 0;
        while i < 32
            invariant
                i <= 32,
                forall|j: int| 0 <= j < i ==> self.bytes@[j] == other.bytes@[j],
            decreases 32 - i,
        {
            if self.bytes[i] != other.bytes[i] {
                return false;
            }
            i += 1;
        }
        assert(self@ =~= other@);
        true
    }
}

impl PartialEq for Address {
    fn eq(&self, other: &Address) -> (r: bool) {
        self.same(other)
    }
}

impl vstd::std_specs::cmp::PartialEqSpecImpl for Address {
    open spec fn obeys_eq_spec() -> bool {
        true
    }

    open spec fn eq_spec(&self, other: &Address) -> bool {
        self@ == other@
    }
}

impl Eq for Address {}

} // verus!
