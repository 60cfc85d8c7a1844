//! What kernel modules share: their error codes, the objects an instruction
//! targets, and the effects they return.
use vstd::prelude::*;
use crate::id::UnitsObjectId;
use crate::objects::{same_object, ObjectType, UnitsObject};
use crate::vm_executor::{ExecutionContext, ObjectEffect};

verus! {

/// Errors a kernel module reports.
#[derive(Debug, Clone, Copy, PartialEq, Eq, Structural)]
pub enum KernelError {
    InvalidFunction,
    InvalidParams,
    InvalidData,
    ObjectNotFound,
    Unauthorized,
    TokenFrozen,
    InsufficientBalance,
    Overflow,
    IOError,
    Panic,
}

/// The object with the `i`-th target identifier, if the context holds it.
pub open spec fn target_object(ctx: ExecutionContext, i: int) -> Option<UnitsObject> {
    let id = ctx.instruction.target_objects@[i];
    if ctx.objects@.dom().contains(id) {
        Some(ctx.objects@[id])
    } else {
        None
    }
}

/// `e` changes `before` into the same object with payload `data`.
pub open spec fn modifies(e: ObjectEffect, before: UnitsObject, data: Seq<u8>) -> bool {
    &&& e.object_id == before.id
    &&& e.before_image matches Some(b) && same_object(b, before)
    &&& e.after_image matches Some(a) && {
        &&& a.id == before.id
        &&& a.controller_id == before.controller_id
        &&& a.object_type == before.object_type
        &&& a.data@ == data
    }
}

/// `e` creates a data object `id`, controlled by `controller`, with payload `data`.
pub open spec fn creates(e: ObjectEffect, id: UnitsObjectId, controller: UnitsObjectId, data: Seq<u8>) -> bool {
    &&& e.object_id == id
    &&& e.before_image is None
    &&& e.after_image matches Some(a) && {
        &&& a.id == id
        &&& a.controller_id == controller
        &&& a.object_type == ObjectType::Data
        &&& a.data@ == data
    }
}

/// A copy of an object.
pub fn copy_object(o: &UnitsObject) -> (r: UnitsObject)
    ensures
        same_object(r, *o),
{
    let data = o.data.clone();
    proof {
        assert forall|i: int| 0 <= i < data@.len() implies data@[i] == o.data@[i] by {
            assert(cloned(o.data@[i], data@[i]));
        }
        assert(data@ =~= o.data@);
    }
    UnitsObject { id: o.id, controller_id: o.controller_id, object_type: o.object_type, data }
}

/// The object with the `i`-th target identifier, if the context holds it.
pub fn get_target<'a>(ctx: &'a ExecutionContext, i: usize) -> (r: Option<&'a UnitsObject>)
    requires
        i < ctx.instruction.target_objects@.len(),
    ensures
        match target_object(*ctx, i as int) {
            Some(o) => r matches Some(x) && *x == o,
            None => r is None,
        },
{
    ctx.objects.get(&ctx.instruction.target_objects[i])
}

/// The effect changing `before` into the same object with payload `data`.
pub fn modification_with(before: &UnitsObject, data: Vec<u8>) -> (e: ObjectEffect)
    ensures
        modifies(e, *before, data@),
{
    let after = UnitsObject {
        id: before.id,
        controller_id: before.controller_id,
        object_type: before.object_type,
        data,
    };
    ObjectEffect::modification(copy_object(before), after)
}

/// The effect creating a data object `id`, controlled by `controller`, with payload `data`.
pub fn creation_with(id: UnitsObjectId, controller: UnitsObjectId, data: Vec<u8>) -> (e: ObjectEffect)
    ensures
        creates(e, id, controller, data@),
{
    ObjectEffect::creation(
        UnitsObject { id, controller_id: controller, object_type: ObjectType::Data, data },
    )
}

/// Whether `s` names the function `name`.
pub fn names(s: &String, name: &str) -> (r: bool)
    ensures
        r == (s@ == name@),
{
    *s == name.to_owned()
}

/// `r` is the outcome of changing two objects as `o` describes.
pub open spec fn two_changes(
    r: Result<Vec<ObjectEffect>, KernelError>,
    o: Result<(UnitsObject, Seq<u8>, UnitsObject, Seq<u8>), KernelError>,
) -> bool {
    match o {
        Err(e) => r == Err::<Vec<ObjectEffect>, KernelError>(e),
        Ok((a, da, b, db)) => r matches Ok(v) && v@.len() == 2 && modifies(v@[0], a, da) && modifies(
            v@[1],
            b,
            db,
        ),
    }
}

/// `r` is the outcome of changing one object as `o` describes.
pub open spec fn one_change(
    r: Result<Vec<ObjectEffect>, KernelError>,
    o: Result<(UnitsObject, Seq<u8>), KernelError>,
) -> bool {
    match o {
        Err(e) => r == Err::<Vec<ObjectEffect>, KernelError>(e),
        Ok((a, da)) => r matches Ok(v) && v@.len() == 1 && modifies(v@[0], a, da),
    }
}

} // verus!
