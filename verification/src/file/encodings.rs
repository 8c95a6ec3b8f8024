//! The array encodings that a file may hold.
use vstd::prelude::*;

verus! {

/// An array encoding.
#[derive(Clone, Copy, Debug, PartialEq, Eq, Structural)]
pub enum ArrayId {
    Null,
    Bool,
    Primitive,
    Decimal,
    VarBin,
    VarBinView,
    List,
    ListView,
    FixedSizeList,
    Struct,
    Extension,
    Chunked,
    Constant,
    Masked,
    Dict,
    Variant,
    Patched,
    Alp,
    AlpRd,
    BitPacked,
    ByteBool,
    DateTimeParts,
    DecimalByteParts,
    Delta,
    FoR,
    Fsst,
    OnPair,
    Pco,
    Rle,
    RunEnd,
    Sequence,
    Sparse,
    ZigZag,
    Zstd,
    ZstdBuffers,
    /// An encoding from elsewhere.
    Other(u64),
}

/// What a build and its configuration switch on.
#[derive(Clone, Copy, Debug, PartialEq, Eq, Structural)]
pub struct EncodingFeatures {
    pub unstable_encodings: bool,
    pub zstd: bool,
    pub experimental_patches: bool,
}

/// Whether an encoding may be written to a file by default: every canonical encoding and every
/// stable compressed one, and the others where they are switched on.
pub open spec fn allowed(features: EncodingFeatures, id: ArrayId) -> bool {
    match id {
        ArrayId::OnPair => features.unstable_encodings,
        ArrayId::Patched => features.experimental_patches,
        ArrayId::Zstd => features.zstd,
        ArrayId::ZstdBuffers => features.zstd && features.unstable_encodings,
        ArrayId::Other(_) => false,
        _ => true,
    }
}

/// Adds an encoding.
fn allow(v: &mut Vec<ArrayId>, id: ArrayId)
    requires
        !old(v)@.contains(id),
        old(v)@.no_duplicates(),
    ensures
        forall|x: ArrayId| #[trigger]
            final(v)@.contains(x) <==> old(v)@.contains(x) || x == id,
        final(v)@.no_duplicates(),
{
    v.push(id);
    proof {
        let before = old(v)@;
        assert(v@[before.len() as int] == id);
        assert forall|x: ArrayId| #[trigger] v@.contains(x) <==> before.contains(x) || x == id by {
            if before.contains(x) {
                let k = choose|k: int| 0 <= k < before.len() && before[k] == x;
                assert(v@[k] == x);
            }
            if v@.contains(x) && x != id {
                let k = choose|k: int| 0 <= k < v@.len() && v@[k] == x;
                assert(before[k] == x);
            }
        }
    }
}

/// The encodings that may be written to a file by default, each once.
pub fn allowed_encodings(features: EncodingFeatures) -> (v: Vec<ArrayId>)
    ensures
        forall|id: ArrayId| #[trigger] v@.contains(id) <==> allowed(features, id),
        v@.no_duplicates(),
{
    let mut v: Vec<ArrayId> = Vec::new();
    allow(&mut v, ArrayId::Null);
    allow(&mut v, ArrayId::Bool);
    allow(&mut v, ArrayId::Primitive);
    allow(&mut v, ArrayId::Decimal);
    allow(&mut v, ArrayId::VarBin);
    allow(&mut v, ArrayId::VarBinView);
    allow(&mut v, ArrayId::List);
    allow(&mut v, ArrayId::ListView);
    allow(&mut v, ArrayId::FixedSizeList);
    allow(&mut v, ArrayId::Struct);
    allow(&mut v, ArrayId::Extension);
    allow(&mut v, ArrayId::Chunked);
    allow(&mut v, ArrayId::Constant);
    allow(&mut v, ArrayId::Masked);
    allow(&mut v, ArrayId::Dict);
    allow(&mut v, ArrayId::Variant);
    allow(&mut v, ArrayId::Alp);
    allow(&mut v, ArrayId::AlpRd);
    allow(&mut v, ArrayId::BitPacked);
    allow(&mut v, ArrayId::ByteBool);
    allow(&mut v, ArrayId::DateTimeParts);
    allow(&mut v, ArrayId::DecimalByteParts);
    allow(&mut v, ArrayId::Delta);
    allow(&mut v, ArrayId::FoR);
    allow(&mut v, ArrayId::Fsst);
    allow(&mut v, ArrayId::Pco);
    allow(&mut v, ArrayId::Rle);
    allow(&mut v, ArrayId::RunEnd);
    allow(&mut v, ArrayId::Sequence);
    allow(&mut v, ArrayId::Sparse);
    allow(&mut v, ArrayId::ZigZag);
    if features.unstable_encodings {
        allow(&mut v, ArrayId::OnPair);
    }
    if features.experimental_patches {
        allow(&mut v, ArrayId::Patched);
    }
    if features.zstd {
        allow(&mut v, ArrayId::Zstd);
        if features.unstable_encodings {
            allow(&mut v, ArrayId::ZstdBuffers);
        }
    }
    v
}

/// With every feature on, every encoding of the project's own is allowed, and none from elsewhere.
/// Each feature adds the encodings that need it and takes none away: of those that are not always
/// allowed, `OnPair` needs the unstable encodings, `Patched` the patches, `Zstd` Zstandard, and
/// `ZstdBuffers` both Zstandard and the unstable encodings.
pub proof fn features_only_add(fewer: EncodingFeatures, more: EncodingFeatures, id: ArrayId)
    requires
        fewer.unstable_encodings ==> more.unstable_encodings,
        fewer.zstd ==> more.zstd,
        fewer.experimental_patches ==> more.experimental_patches,
    ensures
        allowed(fewer, id) ==> allowed(more, id),
        more.unstable_encodings && more.zstd && more.experimental_patches ==> (allowed(more, id)
            <==> !(id is Other)),
        allowed(more, id) && !allowed(fewer, id) ==> {
            ||| id is OnPair && more.unstable_encodings && !fewer.unstable_encodings
            ||| id is Patched && more.experimental_patches && !fewer.experimental_patches
            ||| id is Zstd && more.zstd && !fewer.zstd
            ||| id is ZstdBuffers && more.zstd && more.unstable_encodings && !(fewer.zstd
                && fewer.unstable_encodings)
        },
        id is OnPair && !fewer.unstable_encodings ==> !allowed(fewer, id),
        id is Patched && !fewer.experimental_patches ==> !allowed(fewer, id),
        id is Zstd && !fewer.zstd ==> !allowed(fewer, id),
        id is ZstdBuffers && !(fewer.zstd && fewer.unstable_encodings) ==> !allowed(fewer, id),
{
}

} // verus!
