use vstd::prelude::*;
use crate::id::UnitsObjectId;

verus! {

/// VM types for executable objects.
#[derive(Debug, Clone, Copy, PartialEq, Eq, Structural)]
#[non_exhaustive]
pub enum VMType {
    /// RISC-V ELF shared objects (primary implementation)
    RiscV,
}

/// Object type distinguishing data from executable objects.
#[derive(Debug, Clone, Copy, PartialEq, Eq, Structural)]
pub enum ObjectType {
    /// Data object - not executable
    Data,
    /// Executable object with specific VM type
    Executable(VMType),
}

/// Unified object structure for all UNITS entities.
#[derive(Debug, Clone)]
pub struct UnitsObject {
    /// Unique identifier - how the object is indexed in storage
    pub id: UnitsObjectId,
    /// Immutable controller - defines mutation rules for this object
    pub controller_id: UnitsObjectId,
    /// Object type - data or executable with VM specification
    pub object_type: ObjectType,
    /// Object payload: bytecode or arbitrary data
    pub data: Vec<u8>,
}

/// Two objects are the same when every field, the payload taken by content, agrees.
pub open spec fn same_object(a: UnitsObject, b: UnitsObject) -> bool {
    &&& a.id == b.id
    &&& a.controller_id == b.controller_id
    &&& a.object_type == b.object_type
    &&& a.data@ == b.data@
}

/// Byte-wise equality of two byte vectors.
pub fn bytes_equal(a: &Vec<u8>, b: &Vec<u8>) -> (r: bool)
    ensures
        r == (a@ == b@),
{
    if a.len() != b.len() {
        return false;
    }
    let mut i: usize = 0;
    while i < a.len()
        invariant
            a.len() == b.len(),
            i <= a.len(),
            forall|j: int| 0 <= j < i ==> a@[j] == b@[j],
        decreases a.len() - i,
    {
        if a[i] != b[i] {
            return false;
        }
        i = i + 1;
    }
    proof {
        assert(a@ =~= b@);
    }
    true
}

impl PartialEq for UnitsObject {
    fn eq(&self, other: &Self) -> (r: bool) {
        self.id == other.id && self.controller_id == other.controller_id && self.object_type
            == other.object_type && bytes_equal(&self.data, &other.data)
    }
}

impl vstd::std_specs::cmp::PartialEqSpecImpl for UnitsObject {
    open spec fn obeys_eq_spec() -> bool {
        true
    }

    open spec fn eq_spec(&self, other: &Self) -> bool {
        same_object(*self, *other)
    }
}

impl UnitsObject {
    /// Create a new data object.
    pub fn new_data(id: UnitsObjectId, controller_id: UnitsObjectId, data: Vec<u8>) -> (o: Self)
        ensures
            o.id == id,
            o.controller_id == controller_id,
            o.object_type == ObjectType::Data,
            o.data == data,
    {
        UnitsObject { id, controller_id, object_type: ObjectType::Data, data }
    }

    /// Create a new executable object (kernel module).
    pub fn new_executable(
        id: UnitsObjectId,
        controller_id: UnitsObjectId,
        vm_type: VMType,
        bytecode: Vec<u8>,
    ) -> (o: Self)
        ensures
            o.id == id,
            o.controller_id == controller_id,
            o.object_type == ObjectType::Executable(vm_type),
            o.data == bytecode,
    {
        UnitsObject { id, controller_id, object_type: ObjectType::Executable(vm_type), data: bytecode }
    }

    /// Get the object ID.
    pub fn id(&self) -> (r: &UnitsObjectId)
        ensures
            *r == self.id,
    {
        &self.id
    }

    /// Get the controller ID.
    pub fn controller_id(&self) -> (r: &UnitsObjectId)
        ensures
            *r == self.controller_id,
    {
        &self.controller_id
    }

    /// Get the object data.
    pub fn data(&self) -> (r: &[u8])
        ensures
            r@ == self.data@,
    {
        self.data.as_slice()
    }

    /// Check if this is a data object.
    pub fn is_data(&self) -> (r: bool)
        ensures
            r == (self.object_type is Data),
    {
        match self.object_type {
            ObjectType::Data => true,
            _ => false,
        }
    }

    /// Check if this is an executable object.
    pub fn is_executable(&self) -> (r: bool)
        ensures
            r == (self.object_type is Executable),
    {
        match self.object_type {
            ObjectType::Executable(_) => true,
            _ => false,
        }
    }

    /// Get VM type if this is an executable object.
    pub fn vm_type(&self) -> (r: Option<VMType>)
        ensures
            r == spec_vm_type(self.object_type),
    {
        match &self.object_type {
            ObjectType::Executable(vm_type) => Some(*vm_type),
            _ => None,
        }
    }
}

/// The VM type an object type carries, if it is executable.
pub open spec fn spec_vm_type(t: ObjectType) -> Option<VMType> {
    match t {
        ObjectType::Executable(vm) => Some(vm),
        ObjectType::Data => None,
    }
}

/// An object is either data or executable, never both; an executable one has a VM type.
pub proof fn lemma_object_kind_exclusive(o: UnitsObject)
    ensures
        (o.object_type is Data) != (o.object_type is Executable),
        (o.object_type is Executable) <==> spec_vm_type(o.object_type) is Some,
{
}

} // verus!
