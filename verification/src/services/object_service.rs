//! What the object service decides when an object is created or updated:
//! the object it builds and whether it may be stored.
use vstd::prelude::*;
use crate::id::UnitsObjectId;
use crate::objects::{ObjectType, UnitsObject};
use crate::services::{validation_error, ObjectValidator, ServiceError};
use crate::text::{hex_chars, hex_encode, push_str};

verus! {

/// The object that creation builds: its controller is the one given, else
/// the object itself.
pub open spec fn created_object(
    id: UnitsObjectId,
    object_type: ObjectType,
    data: Vec<u8>,
    controller: Option<UnitsObjectId>,
) -> UnitsObject {
    UnitsObject {
        id,
        controller_id: match controller {
            Some(c) => c,
            None => id,
        },
        object_type,
        data,
    }
}

/// Build the object that creation makes, its controller the one given, else
/// the object itself.
pub fn build_object(
    id: UnitsObjectId,
    object_type: ObjectType,
    data: Vec<u8>,
    controller: Option<UnitsObjectId>,
) -> (o: UnitsObject)
    ensures
        o == created_object(id, object_type, data, controller),
{
    let controller_id = match controller {
        Some(c) => c,
        None => id,
    };
    match object_type {
        ObjectType::Data => UnitsObject::new_data(id, controller_id, data),
        ObjectType::Executable(vm_type) => UnitsObject::new_executable(id, controller_id, vm_type, data),
    }
}

/// Build the object to create and check it: an object that exists already
/// is refused, as is one that breaks the validator's limits.
pub fn prepare_create(
    validator: &ObjectValidator,
    exists: bool,
    id: UnitsObjectId,
    object_type: ObjectType,
    data: Vec<u8>,
    controller: Option<UnitsObjectId>,
) -> (r: Result<UnitsObject, ServiceError>)
    ensures
        exists ==> (r matches Err(ServiceError::InvalidRequest { message }) && message@ == "Object "@
            + hex_chars(id.bytes@) + " already exists"@),
        !exists ==> match validation_error(
            validator.limits().0,
            validator.limits().1,
            created_object(id, object_type, data, controller),
        ) {
            Some(m) => r matches Err(ServiceError::InvalidRequest { message }) && message@ == m,
            None => r == Ok::<UnitsObject, ServiceError>(created_object(id, object_type, data, controller)),
        },
{
    if exists {
        let mut message = "Object ".to_owned();
        let h = hex_encode(&id.bytes);
        push_str(&mut message, h.as_str());
        push_str(&mut message, " already exists");
        return Err(ServiceError::invalid_request(message));
    }
    let object = build_object(id, object_type, data, controller);
    match validator.validate(&object) {
        Ok(_) => Ok(object),
        Err(e) => Err(e),
    }
}

/// The object that an update builds from `existing`: the new data if given,
/// and the new controller if one is given.
pub open spec fn updated_fields(
    existing: UnitsObject,
    data: Option<Vec<u8>>,
    controller: Option<Option<UnitsObjectId>>,
) -> (UnitsObjectId, UnitsObjectId, ObjectType, Seq<u8>) {
    (
        existing.id,
        match controller {
            Some(Some(c)) => c,
            _ => existing.controller_id,
        },
        existing.object_type,
        match data {
            Some(d) => d@,
            None => existing.data@,
        },
    )
}

/// The fields of an object, its data by content.
pub open spec fn object_fields(o: UnitsObject) -> (UnitsObjectId, UnitsObjectId, ObjectType, Seq<u8>) {
    (o.id, o.controller_id, o.object_type, o.data@)
}

/// Build the updated object and check it against the validator's limits.
pub fn prepare_update(
    validator: &ObjectValidator,
    existing: &UnitsObject,
    data: Option<Vec<u8>>,
    controller: Option<Option<UnitsObjectId>>,
) -> (r: Result<UnitsObject, ServiceError>)
    ensures
        match r {
            Ok(o) => object_fields(o) == updated_fields(*existing, data, controller) && validation_error(
                validator.limits().0,
                validator.limits().1,
                o,
            ) is None,
            Err(e) => exists|o: UnitsObject|
                #![trigger object_fields(o)]
                object_fields(o) == updated_fields(*existing, data, controller) && (validation_error(
                    validator.limits().0,
                    validator.limits().1,
                    o,
                ) matches Some(m) && (e matches ServiceError::InvalidRequest { message } && message@ == m)),
        },
{
    let updated_data = match data {
        Some(d) => d,
        None => {
            let d = existing.data.clone();
            proof {
                assert forall|i: int| 0 <= i < d@.len() implies d@[i] == existing.data@[i] by {
                    assert(cloned(existing.data@[i], d@[i]));
                }
                assert(d@ =~= existing.data@);
            }
            d
        },
    };
    let updated_controller = match controller {
        Some(Some(c)) => c,
        _ => existing.controller_id,
    };
    let object = match existing.object_type {
        ObjectType::Data => UnitsObject::new_data(existing.id, updated_controller, updated_data),
        ObjectType::Executable(vm_type) => UnitsObject::new_executable(
            existing.id,
            updated_controller,
            vm_type,
            updated_data,
        ),
    };
    match validator.validate(&object) {
        Ok(_) => Ok(object),
        Err(e) => {
            assert(object_fields(object) == updated_fields(*existing, data, controller));
            Err(e)
        },
    }
}

} // verus!
