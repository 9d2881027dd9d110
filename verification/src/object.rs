//! Heap objects. Strings are the only object kind in this dialect; they are
//! shared by reference counting, so copies on the stack and in the globals
//! table share one allocation.

use vstd::prelude::*;

verus! {

/// Tags the kind of a heap object.
#[derive(Debug, PartialEq, Eq, Copy, Clone, Structural)]
pub enum ObjType {
    ObjString,
}

/// Behaviour common to all heap objects.
pub trait Obj {
    /// The kind this object carries at the specification level.
    spec fn spec_obj_type(&self) -> ObjType;

    /// The kind of this object.
    fn obj_type(&self) -> (r: ObjType)
        ensures
            r == self.spec_obj_type(),
    ;
}

/// A string object: the text is a byte sequence.
pub struct ObjString {
    pub obj_type: ObjType,
    pub string: Vec<u8>,
}

impl ObjString {
    /// Wraps text as a string object.
    pub fn new(text: Vec<u8>) -> (r: Self)
        ensures
            r.string@ == text@,
            r.obj_type == ObjType::ObjString,
    {
        ObjString { obj_type: ObjType::ObjString, string: text }
    }
}

impl Obj for ObjString {
    open spec fn spec_obj_type(&self) -> ObjType {
        self.obj_type
    }

    fn obj_type(&self) -> (r: ObjType)
        ensures
            r == self.spec_obj_type(),
    {
        self.obj_type
    }
}

} // verus!
