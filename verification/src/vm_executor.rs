use vstd::prelude::*;
use crate::id::UnitsObjectId;
use crate::id_map::IdMap;
use crate::objects::{same_object, UnitsObject, VMType};
use crate::transaction::Instruction;

verus! {

/// Complete context provided to a controller during execution.
pub struct ExecutionContext {
    /// The instruction being executed
    pub instruction: Instruction,
    /// Objects the controller can read (pre-loaded from storage); it may only
    /// modify those it controls
    pub objects: IdMap<UnitsObject>,
    /// Current slot number
    pub slot: u64,
    /// Current timestamp
    pub timestamp: u64,
}

impl ExecutionContext {
    /// Create a new execution context.
    pub fn new(instruction: Instruction, objects: IdMap<UnitsObject>, slot: u64, timestamp: u64) -> (c: Self)
        ensures
            c.instruction == instruction,
            c.objects@ == objects@,
            c.slot == slot,
            c.timestamp == timestamp,
    {
        ExecutionContext { instruction, objects, slot, timestamp }
    }

    /// The objects that this instruction's controller controls, each once.
    pub fn writable_objects(&self) -> (r: Vec<(UnitsObjectId, &UnitsObject)>)
        ensures
            forall|i: int|
                0 <= i < r@.len() ==> {
                    &&& self.objects@.dom().contains(#[trigger] r@[i].0)
                    &&& *r@[i].1 == self.objects@[r@[i].0]
                    &&& r@[i].1.controller_id == self.instruction.controller_id
                },
            forall|k: UnitsObjectId|
                #[trigger] self.objects@.dom().contains(k) && self.objects@[k].controller_id
                    == self.instruction.controller_id ==> exists|i: int|
                    0 <= i < r@.len() && r@[i].0 == k,
            forall|i: int, j: int| 0 <= i < j < r@.len() ==> r@[i].0 != r@[j].0,
    {
        proof {
            use_type_invariant(&self.objects);
            self.objects.lemma_inv();
        }
        let mut out: Vec<(UnitsObjectId, &UnitsObject)> = Vec::new();
        let ghost es = self.objects.entries();
        let mut i: usize = 0;
        let n = self.objects.len();
        while i < n
            invariant
                n == es.len(),
                es == self.objects.entries(),
                crate::id_map::keys_distinct(es),
                i <= n,
                forall|t: int|
                    0 <= t < out@.len() ==> exists|u: int|
                        0 <= u < i && #[trigger] out@[t].0 == es[u].0 && *out@[t].1 == es[u].1
                            && out@[t].1.controller_id == self.instruction.controller_id,
                forall|u: int|
                    0 <= u < i && #[trigger] es[u].1.controller_id == self.instruction.controller_id
                        ==> exists|t: int| 0 <= t < out@.len() && out@[t].0 == es[u].0,
                forall|a: int, b: int| 0 <= a < b < out@.len() ==> out@[a].0 != out@[b].0,
            decreases n - i,
        {
            let e = self.objects.entry(i);
            if e.1.controller_id == self.instruction.controller_id {
                let ghost before = out@;
                out.push((e.0, &e.1));
                proof {
                    assert forall|t: int| 0 <= t < out@.len() implies exists|u: int|
                        0 <= u < i + 1 && #[trigger] out@[t].0 == es[u].0 && *out@[t].1 == es[u].1
                            && out@[t].1.controller_id == self.instruction.controller_id by {
                        if t < before.len() {
                            assert(out@[t] == before[t]);
                        } else {
                            assert(out@[t].0 == es[i as int].0);
                        }
                    }
                    assert forall|a: int, b: int| 0 <= a < b < out@.len() implies out@[a].0
                        != out@[b].0 by {
                        if b < before.len() {
                            assert(out@[a] == before[a] && out@[b] == before[b]);
                        } else {
                            assert(out@[a] == before[a]);
                            let ua = choose|u: int| 0 <= u < i && #[trigger] before[a].0 == es[u].0
                                && *before[a].1 == es[u].1
                                && before[a].1.controller_id == self.instruction.controller_id;
                            assert(out@[b].0 == es[i as int].0);
                        }
                    }
                    assert forall|u: int| 0 <= u < i + 1 && #[trigger] es[u].1.controller_id
                        == self.instruction.controller_id implies exists|t: int|
                        0 <= t < out@.len() && out@[t].0 == es[u].0 by {
                        if u < i {
                            let t = choose|t: int| 0 <= t < before.len() && before[t].0 == es[u].0;
                            assert(out@[t] == before[t]);
                        } else {
                            assert(out@[before.len() as int].0 == es[u].0);
                        }
                    }
                }
            }
            i = i + 1;
        }
        proof {
            assert forall|t: int| 0 <= t < out@.len() implies {
                &&& self.objects@.dom().contains(#[trigger] out@[t].0)
                &&& *out@[t].1 == self.objects@[out@[t].0]
                &&& out@[t].1.controller_id == self.instruction.controller_id
            } by {
                let u = choose|u: int| 0 <= u < n && #[trigger] out@[t].0 == es[u].0 && *out@[t].1 == es[u].1
                    && out@[t].1.controller_id == self.instruction.controller_id;
                crate::id_map::lemma_map_of_index(es, u);
            }
            assert forall|k: UnitsObjectId| #[trigger] self.objects@.dom().contains(k)
                && self.objects@[k].controller_id == self.instruction.controller_id implies exists|t: int|
                0 <= t < out@.len() && out@[t].0 == k by {
                crate::id_map::lemma_map_of_dom(es, k);
                let u = choose|u: int| 0 <= u < es.len() && es[u].0 == k;
                crate::id_map::lemma_map_of_index(es, u);
                assert(es[u].1.controller_id == self.instruction.controller_id);
            }
        }
        out
    }

    /// All objects (read-only and writable).
    pub fn all_objects(&self) -> (r: &IdMap<UnitsObject>)
        ensures
            r@ == self.objects@,
    {
        &self.objects
    }
}

/// Effect of controller execution on a single object.
#[derive(Debug, Clone)]
pub struct ObjectEffect {
    /// The object that was modified
    pub object_id: UnitsObjectId,
    /// State before execution (None if the object was created)
    pub before_image: Option<UnitsObject>,
    /// State after execution (None if the object was deleted)
    pub after_image: Option<UnitsObject>,
}

impl ObjectEffect {
    /// An effect creating `object`.
    pub fn creation(object: UnitsObject) -> (e: Self)
        ensures
            e.object_id == object.id,
            e.before_image is None,
            e.after_image == Some(object),
    {
        ObjectEffect { object_id: object.id, before_image: None, after_image: Some(object) }
    }

    /// An effect changing `before` into `after`, filed under `after`'s id.
    pub fn modification(before: UnitsObject, after: UnitsObject) -> (e: Self)
        ensures
            e.object_id == after.id,
            e.before_image == Some(before),
            e.after_image == Some(after),
    {
        ObjectEffect { object_id: after.id, before_image: Some(before), after_image: Some(after) }
    }

    /// An effect deleting `object`.
    pub fn deletion(object: UnitsObject) -> (e: Self)
        ensures
            e.object_id == object.id,
            e.before_image == Some(object),
            e.after_image is None,
    {
        ObjectEffect { object_id: object.id, before_image: Some(object), after_image: None }
    }
}

/// Execution error types.
#[derive(Debug)]
pub enum VMExecutionError {
    ExecutionFailed(String),
    InvalidBytecode(String),
    MemoryLimitExceeded,
    InstructionLimitExceeded,
    TimeoutExceeded,
    SerializationError(String),
    ControllerValidationFailed(String),
    UnsupportedVMType(String),
}

/// Interface of a VM that runs controller bytecode.
pub trait VMExecutor {
    /// The VM type this executor handles.
    fn vm_type(&self) -> VMType;

    /// Load bytecode and execute it with the given context.
    fn load_and_execute(&self, bytecode: &[u8], context: &ExecutionContext) -> Result<
        Vec<ObjectEffect>,
        VMExecutionError,
    >;
}

/// Two optional images are the same: both absent, or both present and the same object.
pub open spec fn same_image(a: Option<UnitsObject>, b: Option<UnitsObject>) -> bool {
    match (a, b) {
        (None, None) => true,
        (Some(x), Some(y)) => same_object(x, y),
        _ => false,
    }
}

/// An optional image is absent or controlled by `controller`.
pub open spec fn image_controlled_by(image: Option<UnitsObject>, controller: UnitsObjectId) -> bool {
    match image {
        Some(o) => o.controller_id == controller,
        None => true,
    }
}

/// An effect respects `controller`: it changes nothing, or the object before
/// and after it (where there is one) is controlled by `controller`.
pub open spec fn effect_respects_controller(e: ObjectEffect, controller: UnitsObjectId) -> bool {
    same_image(e.before_image, e.after_image) || (image_controlled_by(e.before_image, controller)
        && image_controlled_by(e.after_image, controller))
}

/// Validate that a controller only modifies objects it controls.
pub fn validate_object_effects(effects: &[ObjectEffect], controller_id: UnitsObjectId) -> (r: Result<
    (),
    VMExecutionError,
>)
    ensures
        r is Ok <==> forall|i: int|
            0 <= i < effects@.len() ==> effect_respects_controller(#[trigger] effects@[i], controller_id),
        r matches Err(e) ==> e is ControllerValidationFailed,
{
    let mut i: usize = 0;
    while i < effects.len()
        invariant
            i <= effects@.len(),
            forall|j: int| 0 <= j < i ==> effect_respects_controller(#[trigger] effects@[j], controller_id),
        decreases effects@.len() - i,
    {
        let effect = &effects[i];
        if effect.before_image != effect.after_image {
            let before_ok = match &effect.before_image {
                Some(before_obj) => before_obj.controller_id == controller_id,
                None => true,
            };
            let after_ok = match &effect.after_image {
                Some(after_obj) => after_obj.controller_id == controller_id,
                None => true,
            };
            if !before_ok || !after_ok {
                return Err(
                    VMExecutionError::ControllerValidationFailed(
                        "Controller cannot modify objects it doesn't control".to_owned(),
                    ),
                );
            }
        }
        i = i + 1;
    }
    Ok(())
}

} // verus!
