use vstd::prelude::*;
use std::hash::BuildHasher;
use crate::text::{decimal_chars, push_decimal, push_str};

verus! {

/// Number of bytes in an object identifier.
pub const OBJECT_ID_SIZE: usize = 32;

/// A 32-byte identifier of a UNITS object.
#[derive(Clone, Copy, Debug, Hash)]
pub struct UnitsObjectId {
    pub bytes: [u8; 32],
}

/// Whether two 32-byte arrays hold the same bytes.
pub(crate) fn same_bytes32(a: &[u8; 32], b: &[u8; 32]) -> (r: bool)
    ensures
        r == (*a == *b),
{
    let mut i: usize = 0;
    while i < 32
        invariant
            i <= 32,
            forall|j: int| 0 <= j < i ==> a@[j] == b@[j],
        decreases 32 - i,
    {
        if a[i] != b[i] {
            proof {
                assert(a@[i as int] != b@[i as int]);
            }
            return false;
        }
        i = i + 1;
    }
    proof {
        broadcast use vstd::array::group_array_axioms;

        assert(*a =~= *b);
    }
    true
}

impl PartialEq for UnitsObjectId {
    fn eq(&self, other: &Self) -> (r: bool) {
        let r = same_bytes32(&self.bytes, &other.bytes);
        proof {
            if r {
                assert(*self == *other);
            } else {
                assert(*self != *other);
            }
        }
        r
    }
}

impl vstd::std_specs::cmp::PartialEqSpecImpl for UnitsObjectId {
    open spec fn obeys_eq_spec() -> bool {
        true
    }

    open spec fn eq_spec(&self, other: &Self) -> bool {
        *self == *other
    }
}

impl Eq for UnitsObjectId {}

impl UnitsObjectId {
    /// Creates an identifier from its 32 bytes.
    pub fn new(bytes: [u8; 32]) -> (id: Self)
        ensures
            id.bytes == bytes,
    {
        UnitsObjectId { bytes }
    }

    /// Creates an identifier from its 32 bytes.
    pub fn from_bytes(bytes: [u8; 32]) -> (id: Self)
        ensures
            id.bytes == bytes,
    {
        UnitsObjectId { bytes }
    }

    /// The 32 bytes of this identifier.
    pub fn bytes(&self) -> (b: &[u8; 32])
        ensures
            *b == self.bytes,
    {
        &self.bytes
    }

    /// An identifier whose bytes are all `b`.
    pub fn uniform(b: u8) -> (id: Self)
        ensures
            id == uniform_id(b),
    {
        let bytes = [b; 32];
        proof {
            assert(bytes@ =~= uniform_id(b).bytes@);
            assert(bytes =~= uniform_id(b).bytes);
        }
        UnitsObjectId { bytes }
    }

    /// A fresh identifier drawn from a process-local random source.
    pub fn random() -> (id: Self) {
        let mut bytes = [0u8; 32];
        let mut k: usize = 0;
        while k < 4
            invariant
                k <= 4,
            decreases 4 - k,
        {
            let word = random_word();
            let mut j: usize = 0;
            while j < 8
                invariant
                    j <= 8,
                    k < 4,
                decreases 8 - j,
            {
                bytes[k * 8 + j] = ((word >> ((j * 8) as u64)) & 0xff) as u8;
                j = j + 1;
            }
            k = k + 1;
        }
        UnitsObjectId { bytes }
    }

    /// A fresh identifier for use in tests.
    pub fn unique_id_for_tests() -> (id: Self) {
        Self::random()
    }
}

/// The identifier whose 32 bytes all equal `b`.
pub open spec fn uniform_id(b: u8) -> UnitsObjectId {
    UnitsObjectId { bytes: vstd::array::spec_array_fill_for_copy_type::<u8, 32>(b) }
}

/// A word from `RandomState`, whose keys differ on every construction
/// within a thread. Nothing is promised of the value.
#[verifier::external_body]
fn random_word() -> (w: u64) {
    std::collections::hash_map::RandomState::new().hash_one(0u64)
}

/// Identifier of the system loader.
pub fn system_loader_id() -> (id: UnitsObjectId)
    ensures
        id == uniform_id(0),
{
    UnitsObjectId::uniform(0)
}

/// Identifier of the token controller.
pub fn token_controller_id() -> (id: UnitsObjectId)
    ensures
        id == uniform_id(1),
{
    UnitsObjectId::uniform(1)
}

/// Identifier of the account controller.
pub fn account_controller_id() -> (id: UnitsObjectId)
    ensures
        id == uniform_id(2),
{
    UnitsObjectId::uniform(2)
}

/// Identifier of the module manager.
pub fn module_manager_id() -> (id: UnitsObjectId)
    ensures
        id == uniform_id(3),
{
    UnitsObjectId::uniform(3)
}

/// Whether `id` is one of the four hard-coded system controllers.
pub open spec fn spec_is_system_controller(id: UnitsObjectId) -> bool {
    id == uniform_id(0) || id == uniform_id(1) || id == uniform_id(2) || id == uniform_id(3)
}

/// Validate that an object ID is a system controller.
pub fn is_system_controller(id: &UnitsObjectId) -> (r: bool)
    ensures
        r == spec_is_system_controller(*id),
{
    *id == system_loader_id() || *id == token_controller_id() || *id == account_controller_id()
        || *id == module_manager_id()
}

/// The four system controller identifiers are pairwise distinct.
pub proof fn lemma_system_controllers_distinct()
    ensures
        uniform_id(0) != uniform_id(1),
        uniform_id(0) != uniform_id(2),
        uniform_id(0) != uniform_id(3),
        uniform_id(1) != uniform_id(2),
        uniform_id(1) != uniform_id(3),
        uniform_id(2) != uniform_id(3),
{
    broadcast use vstd::array::axiom_spec_array_fill_for_copy_type;
    assert(uniform_id(0).bytes@[0] == 0u8);
    assert(uniform_id(1).bytes@[0] == 1u8);
    assert(uniform_id(2).bytes@[0] == 2u8);
    assert(uniform_id(3).bytes@[0] == 3u8);
}

/// The bytes of `s` in decimal, separated by a comma and a space.
pub open spec fn byte_list(s: Seq<u8>) -> Seq<char>
    decreases s.len(),
{
    if s.len() == 0 {
        Seq::empty()
    } else if s.len() == 1 {
        decimal_chars(s[0] as nat)
    } else {
        byte_list(s.drop_last()) + ", "@ + decimal_chars(s.last() as nat)
    }
}

/// Append the bytes of `b` in decimal, separated by a comma and a space.
pub fn push_byte_list(s: &mut String, b: &[u8])
    ensures
        final(s)@ == old(s)@ + byte_list(b@),
{
    let ghost start = s@;
    let mut i: usize = 0;
    while i < b.len()
        invariant
            i <= b@.len(),
            s@ == start + byte_list(b@.take(i as int)),
        decreases b@.len() - i,
    {
        if i > 0 {
            push_str(s, ", ");
        }
        push_decimal(s, b[i] as u64);
        proof {
            let t = b@.take(i + 1);
            assert(t.drop_last() =~= b@.take(i as int));
            if i == 0 {
                assert(b@.take(0) =~= Seq::<u8>::empty());
                assert(start + Seq::<char>::empty() =~= start);
            }
        }
        i = i + 1;
    }
    proof {
        assert(b@.take(b@.len() as int) =~= b@);
    }
}

/// The debug form of an identifier: `UnitsObjectId([b0, b1, ...])`.
pub open spec fn id_debug(id: UnitsObjectId) -> Seq<char> {
    "UnitsObjectId(["@ + byte_list(id.bytes@) + "])"@
}

impl UnitsObjectId {
    /// The debug form of this identifier: `UnitsObjectId([b0, b1, ...])`.
    pub fn debug_string(&self) -> (s: String)
        ensures
            s@ == id_debug(*self),
    {
        let mut s = "UnitsObjectId([".to_owned();
        let ghost start = s@;
        let mut i: usize = 0;
        while i < 32
            invariant
                i <= 32,
                self.bytes@.len() == 32,
                s@ == start + byte_list(self.bytes@.take(i as int)),
            decreases 32 - i,
        {
            if i > 0 {
                push_str(&mut s, ", ");
            }
            push_decimal(&mut s, self.bytes[i] as u64);
            proof {
                let t = self.bytes@.take(i + 1);
                assert(t.drop_last() =~= self.bytes@.take(i as int));
                if i == 0 {
                    assert(self.bytes@.take(0) =~= Seq::<u8>::empty());
                    assert(start + Seq::<char>::empty() =~= start);
                }
            }
            i = i + 1;
        }
        push_str(&mut s, "])");
        proof {
            assert(self.bytes@.take(32) =~= self.bytes@);
        }
        s
    }
}

/// Identifiers with the same bytes are the same identifier.
pub proof fn lemma_id_bytes_eq(a: UnitsObjectId, b: UnitsObjectId)
    requires
        a.bytes@ == b.bytes@,
    ensures
        a == b,
{
    assert(a.bytes =~= b.bytes);
}

} // verus!
