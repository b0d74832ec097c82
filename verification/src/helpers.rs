//! Small helpers over raw payload bytes.

use vstd::prelude::*;

verus! {

/// Whether a byte sequence looks like a structured document: it starts with
/// an opening brace and ends with a closing one.
pub open spec fn spec_json_shaped(bs: Seq<u8>) -> bool {
    bs.len() > 0 && bs[0] == 123 && bs[bs.len() - 1] == 125
}

/// The quick shape test the ingestion path uses to decide between the
/// structured and the degraded statement builders.
pub trait IsJson {
    /// Whether this payload looks like a structured document.
    spec fn spec_is_json(&self) -> bool;

    /// Tests the payload's shape.
    fn is_json(&self) -> (r: bool)
        ensures
            r == self.spec_is_json(),
    ;
}

impl IsJson for Vec<u8> {
    open spec fn spec_is_json(&self) -> bool {
        spec_json_shaped(self@)
    }

    fn is_json(&self) -> (r: bool) {
        self.len() > 0 && self[0] == 123 && self[self.len() - 1] == 125
    }
}

} // verus!
