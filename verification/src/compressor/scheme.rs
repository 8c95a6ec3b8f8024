//! What compression schemes say of themselves.
use vstd::prelude::*;

use crate::compressor::ctx::{GenerateStatsOptions, SchemeId};
use crate::primitive::PrimitiveArray;

verus! {

/// Integers to compress, with the statistics that are generated for them.
#[derive(Debug, PartialEq, Eq)]
pub struct ArrayAndStats {
    pub array: PrimitiveArray,
    pub options: GenerateStatsOptions,
}

/// How well a scheme is expected to compress.
#[derive(Clone, Copy, Debug, PartialEq, Eq, Structural)]
pub enum CompressionEstimate {
    /// Known at once.
    Verdict(EstimateVerdict),
    /// To be found out.
    Deferred(DeferredEstimate),
}

/// An estimate that is known at once.
#[derive(Clone, Copy, Debug, PartialEq, Eq, Structural)]
pub enum EstimateVerdict {
    /// Do not use the scheme.
    Skip,
    /// Use the scheme, whatever the others say.
    AlwaysUse,
    /// The size before over the size after, in bits per value.
    Ratio { full_width: u32, compressed_width: u32 },
}

/// An estimate that is to be found out.
#[derive(Clone, Copy, Debug, PartialEq, Eq, Structural)]
pub enum DeferredEstimate {
    /// By compressing a sample.
    Sample,
}

/// Some children of a scheme.
#[derive(Clone, Copy, Debug, PartialEq, Eq, Structural)]
pub enum ChildSelection {
    All,
    One(usize),
}

/// A scheme is not tried on these children of an ancestor.
#[derive(Clone, Copy, Debug)]
pub struct AncestorExclusion {
    pub ancestor: SchemeId,
    pub children: ChildSelection,
}

/// Below these children of a scheme another is not tried.
#[derive(Clone, Copy, Debug)]
pub struct DescendantExclusion {
    pub excluded: SchemeId,
    pub children: ChildSelection,
}

/// The dictionary schemes whose codes are child 1.
pub open spec fn is_dict_codes(exclusions: Seq<AncestorExclusion>) -> bool {
    &&& exclusions.len() == 4
    &&& exclusions[0].ancestor@ == "vortex.int.dict"@
    &&& exclusions[1].ancestor@ == "vortex.float.dict"@
    &&& exclusions[2].ancestor@ == "vortex.string.dict"@
    &&& exclusions[3].ancestor@ == "vortex.binary.dict"@
    &&& forall|i: int|
        0 <= i < 4 ==> (#[trigger] exclusions[i]).children == ChildSelection::One(1)
}

/// The id of the scheme that builds dictionaries of integers.
pub fn int_dict_id() -> (id: SchemeId)
    ensures
        id@ == "vortex.int.dict"@,
{
    SchemeId { name: "vortex.int.dict" }
}

/// The exclusion of dictionary codes of every type.
pub fn dict_codes_exclusions() -> (v: Vec<AncestorExclusion>)
    ensures
        is_dict_codes(v@),
{
    let mut v: Vec<AncestorExclusion> = Vec::new();
    v.push(AncestorExclusion { ancestor: int_dict_id(), children: ChildSelection::One(1) });
    v.push(
        AncestorExclusion {
            ancestor: SchemeId { name: "vortex.float.dict" },
            children: ChildSelection::One(1),
        },
    );
    v.push(
        AncestorExclusion {
            ancestor: SchemeId { name: "vortex.string.dict" },
            children: ChildSelection::One(1),
        },
    );
    v.push(
        AncestorExclusion {
            ancestor: SchemeId { name: "vortex.binary.dict" },
            children: ChildSelection::One(1),
        },
    );
    v
}

/// The codes of every dictionary are excluded, whatever it is a dictionary of, and nothing else of
/// a dictionary is.
pub proof fn codes_of_every_dictionary_are_excluded(
    exclusions: Seq<AncestorExclusion>,
    name: Seq<char>,
)
    requires
        is_dict_codes(exclusions),
    ensures
        (exists|i: int|
            0 <= i < exclusions.len() && (#[trigger] exclusions[i]).ancestor.name@ == name) <==> {
            ||| name == "vortex.int.dict"@
            ||| name == "vortex.float.dict"@
            ||| name == "vortex.string.dict"@
            ||| name == "vortex.binary.dict"@
        },
        forall|i: int|
            0 <= i < exclusions.len() ==> (#[trigger] exclusions[i]).children
                == ChildSelection::One(1),
{
    assert(exclusions[0].ancestor.name@ == "vortex.int.dict"@);
    assert(exclusions[1].ancestor.name@ == "vortex.float.dict"@);
    assert(exclusions[2].ancestor.name@ == "vortex.string.dict"@);
    assert(exclusions[3].ancestor.name@ == "vortex.binary.dict"@);
}

} // verus!
