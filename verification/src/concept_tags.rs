//! The tag names of the concept markup that the model is asked to produce.

use crate::text::bytes_equal;
use vstd::prelude::*;

verus! {

/// The tags the concept parsers react to.
pub enum TagName {
    Concepts,
    Concept,
    Core,
    Clarification,
    Other,
}

/// `concepts` in ASCII.
pub open spec fn concepts_bytes() -> Seq<u8> {
    seq![99u8, 111u8, 110u8, 99u8, 101u8, 112u8, 116u8, 115u8]
}

/// `concept` in ASCII.
pub open spec fn concept_bytes() -> Seq<u8> {
    seq![99u8, 111u8, 110u8, 99u8, 101u8, 112u8, 116u8]
}

/// `core` in ASCII.
pub open spec fn core_bytes() -> Seq<u8> {
    seq![99u8, 111u8, 114u8, 101u8]
}

/// `clarification` in ASCII.
pub open spec fn clarification_bytes() -> Seq<u8> {
    seq![
        99u8,
        108u8,
        97u8,
        114u8,
        105u8,
        102u8,
        105u8,
        99u8,
        97u8,
        116u8,
        105u8,
        111u8,
        110u8,
    ]
}

/// Which of the concept tags a tag name is.
pub open spec fn tag_name(name: Seq<u8>) -> TagName {
    if name == concepts_bytes() {
        TagName::Concepts
    } else if name == concept_bytes() {
        TagName::Concept
    } else if name == core_bytes() {
        TagName::Core
    } else if name == clarification_bytes() {
        TagName::Clarification
    } else {
        TagName::Other
    }
}

/// Classifies a tag name.
pub fn classify_tag(name: &Vec<u8>) -> (t: TagName)
    ensures
        t == tag_name(name@),
{
    let concepts: Vec<u8> = vec![99, 111, 110, 99, 101, 112, 116, 115];
    let concept: Vec<u8> = vec![99, 111, 110, 99, 101, 112, 116];
    let core: Vec<u8> = vec![99, 111, 114, 101];
    let clarification: Vec<u8> = vec![99, 108, 97, 114, 105, 102, 105, 99, 97, 116, 105, 111, 110];
    assert(concepts@ =~= concepts_bytes());
    assert(concept@ =~= concept_bytes());
    assert(core@ =~= core_bytes());
    assert(clarification@ =~= clarification_bytes());
    if bytes_equal(name, &concepts) {
        TagName::Concepts
    } else if bytes_equal(name, &concept) {
        TagName::Concept
    } else if bytes_equal(name, &core) {
        TagName::Core
    } else if bytes_equal(name, &clarification) {
        TagName::Clarification
    } else {
        TagName::Other
    }
}

} // verus!
