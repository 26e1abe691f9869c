//! The runtime's error kinds.

use crate::value::{Tag, spec_tag_name, tag_name};
use vstd::prelude::*;
use vstd::string::StringExecFns;

verus! {

/// Everything that can go wrong while building or calling a segment.
#[derive(Debug, PartialEq)]
pub enum SegError {
    /// At build time, a shadow stack entry does not match the kind an
    /// operation consumes, or a call names the wrong result kind; carries
    /// the expected and the actual kind.
    StackTypeMismatch(Tag, Tag),
    /// At build time, the shadow stack holds fewer entries than an operation
    /// consumes.
    StackUnderflow,
    /// A call was made with a different number of arguments than the segment
    /// declares.
    ArityMismatch,
    /// A call argument's kind differs from the declared one; carries the
    /// declared and the actual kind.
    ArgumentTypeMismatch(Tag, Tag),
    /// A call would finish with more than one value left on the stack.
    UnconsumedStack,
    /// A conditional join's fragments were not argument-less single-result
    /// fragments of one result kind built at the join point.
    JoinShape,
    /// A fallible operation failed; carries the operation's message
    /// verbatim.
    User(String),
}

impl SegError {
    /// A human-readable description, fixed per kind and naming the expected
    /// and actual kinds where there are two; for a user error, the user's
    /// message verbatim.
    pub fn message(&self) -> (r: String)
        ensures
            *self matches SegError::StackTypeMismatch(expected, actual) ==> r@
                == "stack type ids do not match: expected "@ + spec_tag_name(expected)
                + ", got "@ + spec_tag_name(actual),
            *self == SegError::StackUnderflow ==> r@ == "too few values on the shadow stack"@,
            *self == SegError::ArityMismatch ==> r@
                == "wrong number of arguments for this segment"@,
            *self matches SegError::ArgumentTypeMismatch(declared, actual) ==> r@
                == "argument type mismatch: expected "@ + spec_tag_name(declared) + ", got "@
                + spec_tag_name(actual),
            *self == SegError::UnconsumedStack ==> r@ == "values left on execution stack"@,
            *self == SegError::JoinShape ==> r@
                == "fragments must be argument-less and produce one matching result"@,
            forall|m: String| *self == SegError::User(m) ==> r@ == m@,
    {
        match self {
            SegError::StackTypeMismatch(expected, actual) => {
                let mut m = "stack type ids do not match: expected ".to_string();
                m.append(tag_name(*expected));
                m.append(", got ");
                m.append(tag_name(*actual));
                m
            },
            SegError::StackUnderflow => "too few values on the shadow stack".to_string(),
            SegError::ArityMismatch => "wrong number of arguments for this segment".to_string(),
            SegError::ArgumentTypeMismatch(declared, actual) => {
                let mut m = "argument type mismatch: expected ".to_string();
                m.append(tag_name(*declared));
                m.append(", got ");
                m.append(tag_name(*actual));
                m
            },
            SegError::UnconsumedStack => "values left on execution stack".to_string(),
            SegError::JoinShape => "fragments must be argument-less and produce one matching result".to_string(),
            SegError::User(m) => m.clone(),
        }
    }
}

} // verus!
