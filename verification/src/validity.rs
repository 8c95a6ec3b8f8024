//! Which entries of an array are null.
use vstd::prelude::*;

use crate::bits::BitBuffer;
use crate::dtype::Nullability;
use crate::error::{VortexError, VortexResult};

verus! {

/// The validity of an array's entries. Every variant but `NonNullable` makes the array nullable.
#[derive(Debug, PartialEq, Eq)]
pub enum Validity {
    NonNullable,
    AllValid,
    AllInvalid,
    Array(BitBuffer),
}

/// A boolean per entry.
#[derive(Debug, PartialEq, Eq)]
pub enum Mask {
    AllTrue(usize),
    AllFalse(usize),
    Values(BitBuffer),
}

impl View for Mask {
    type V = Seq<bool>;

    open spec fn view(&self) -> Seq<bool> {
        match self {
            Mask::AllTrue(n) => Seq::new(*n as nat, |i: int| true),
            Mask::AllFalse(n) => Seq::new(*n as nat, |i: int| false),
            Mask::Values(bits) => bits@,
        }
    }
}

impl Mask {
    /// The bits of an explicit mask lie within its bytes.
    pub open spec fn wf(&self) -> bool {
        self matches Mask::Values(bits) ==> bits.wf()
    }

    /// The entry at position `i`.
    pub fn value(&self, i: usize) -> (b: bool)
        requires
            self.wf(),
            i < self@.len(),
        ensures
            b == self@[i as int],
    {
        match self {
            Mask::AllTrue(_) => true,
            Mask::AllFalse(_) => false,
            Mask::Values(bits) => bits.value(i),
        }
    }

    /// The number of entries.
    pub fn len(&self) -> (n: usize)
        ensures
            n == self@.len(),
    {
        match self {
            Mask::AllTrue(n) => *n,
            Mask::AllFalse(n) => *n,
            Mask::Values(bits) => bits.len,
        }
    }

    /// The number of `false` entries.
    pub fn false_count(&self) -> (n: usize)
        requires
            self.wf(),
        ensures
            n == self@.len() - crate::bits::count_true(self@),
    {
        proof {
            crate::bits::all_counted_is_all_true(self@);
        }
        match self {
            Mask::AllTrue(n) => {
                proof {
                    crate::bits::constant_count(*n as nat, true);
                }
                0
            },
            Mask::AllFalse(n) => {
                proof {
                    crate::bits::constant_count(*n as nat, false);
                }
                *n
            },
            Mask::Values(bits) => bits.len - bits.true_count(),
        }
    }

    /// Whether every entry is `true`.
    pub fn all_true(&self) -> (b: bool)
        requires
            self.wf(),
        ensures
            b == (forall|i: int| 0 <= i < self@.len() ==> self@[i]),
    {
        let n: usize = self.len();
        let mut i: usize = 0;
        while i < n
            invariant
                self.wf(),
                n == self@.len(),
                i <= n,
                forall|j: int| 0 <= j < i ==> self@[j],
            decreases n - i,
        {
            if !self.value(i) {
                return false;
            }
            i = i + 1;
        }
        true
    }
}

impl Validity {
    /// An explicit validity covers exactly `len` entries.
    pub open spec fn wf(&self, len: nat) -> bool {
        self matches Validity::Array(bits) ==> bits.wf() && bits.len == len
    }

    /// Whether entry `i` is valid.
    pub open spec fn valid_at(&self, i: int) -> bool {
        match self {
            Validity::NonNullable => true,
            Validity::AllValid => true,
            Validity::AllInvalid => false,
            Validity::Array(bits) => bits@[i],
        }
    }

    /// The validity of `len` entries, entry by entry.
    pub open spec fn entries(&self, len: nat) -> Seq<bool> {
        Seq::new(len, |i: int| self.valid_at(i))
    }

    /// Whether the array may hold nulls.
    pub open spec fn nullable(&self) -> bool {
        self !is NonNullable
    }

    /// Whether the array may hold nulls.
    pub fn is_nullable(&self) -> (b: bool)
        ensures
            b == self.nullable(),
    {
        !matches!(self, Validity::NonNullable)
    }

    /// Whether entry `i` is valid.
    pub fn is_valid(&self, i: usize) -> (b: bool)
        requires
            exists|len: nat| i < len && #[trigger] self.wf(len),
        ensures
            b == self.valid_at(i as int),
    {
        match self {
            Validity::NonNullable => true,
            Validity::AllValid => true,
            Validity::AllInvalid => false,
            Validity::Array(bits) => bits.value(i),
        }
    }

    /// The mask of the valid entries among `len`. It is explicit only where some entry is valid
    /// and some is not; an explicit mask keeps the bytes and bit offset of the validity.
    pub fn execute_mask(&self, len: usize) -> (mask: Mask)
        requires
            self.wf(len as nat),
        ensures
            mask.wf(),
            mask@ == self.entries(len as nat),
            self.masked_by(len as nat, mask),
    {
        match self {
            Validity::NonNullable | Validity::AllValid => {
                assert(Mask::AllTrue(len)@ =~= self.entries(len as nat));
                Mask::AllTrue(len)
            },
            Validity::AllInvalid => {
                assert(Mask::AllFalse(len)@ =~= self.entries(len as nat));
                Mask::AllFalse(len)
            },
            Validity::Array(bits) => {
                let true_count: usize = bits.true_count();
                proof {
                    crate::bits::all_counted_is_all_true(bits@);
                    assert(bits@ =~= self.entries(len as nat));
                }
                if true_count == 0 {
                    proof {
                        crate::bits::none_counted_is_all_false(bits@);
                        assert(Mask::AllFalse(len)@ =~= bits@);
                    }
                    Mask::AllFalse(len)
                } else if true_count == len {
                    assert(Mask::AllTrue(len)@ =~= bits@);
                    Mask::AllTrue(len)
                } else {
                    let copy = BitBuffer {
                        bytes: copy_bytes(&bits.bytes),
                        offset: bits.offset,
                        len: bits.len,
                    };
                    assert(copy@ =~= bits@);
                    Mask::Values(copy)
                }
            },
        }
    }

    /// Which form the mask of `len` entries takes.
    pub open spec fn masked_by(&self, len: nat, mask: Mask) -> bool {
        match self {
            Validity::NonNullable => mask is AllTrue,
            Validity::AllValid => mask is AllTrue,
            Validity::AllInvalid => mask is AllFalse,
            Validity::Array(bits) => {
                let valid = crate::bits::count_true(bits@);
                if valid == 0 {
                    mask is AllFalse
                } else if valid == len {
                    mask is AllTrue
                } else {
                    mask matches Mask::Values(m) && m.bytes@ == bits.bytes@ && m.offset
                        == bits.offset
                }
            },
        }
    }

    /// The number of nulls among `len` entries.
    pub open spec fn null_count(&self, len: nat) -> int {
        len - crate::bits::count_true(self.entries(len))
    }

    /// Whether two validities are the same variant over the same bits at the same offset.
    pub open spec fn same(&self, other: &Validity) -> bool {
        match (self, other) {
            (Validity::NonNullable, Validity::NonNullable) => true,
            (Validity::AllValid, Validity::AllValid) => true,
            (Validity::AllInvalid, Validity::AllInvalid) => true,
            (Validity::Array(a), Validity::Array(b)) => a.bytes@ == b.bytes@ && a.offset == b.offset
                && a.len == b.len,
            _ => false,
        }
    }

    /// The same validity in a value of its own.
    pub fn duplicate(&self) -> (v: Validity)
        ensures
            v.same(self),
            v.nullable() == self.nullable(),
            forall|len: nat| self.wf(len) ==> #[trigger] v.wf(len),
            forall|len: nat| self.wf(len) ==> #[trigger] v.entries(len) == self.entries(len),
    {
        proof {
            assert forall|len: nat, v: Validity| self.wf(len) && v.same(self) implies #[trigger] v.entries(len)
                == self.entries(len) by {
                assert(v.entries(len) =~= self.entries(len));
            }
        }
        match self {
            Validity::NonNullable => Validity::NonNullable,
            Validity::AllValid => Validity::AllValid,
            Validity::AllInvalid => Validity::AllInvalid,
            Validity::Array(bits) => Validity::Array(
                BitBuffer { bytes: copy_bytes(&bits.bytes), offset: bits.offset, len: bits.len },
            ),
        }
    }
}

/// Whether some entry among `len` is null.
pub open spec fn has_null(validity: &Validity, len: nat) -> bool {
    exists|i: int| 0 <= i < len && !#[trigger] validity.valid_at(i)
}

/// Whether `out` is what `validity` becomes under `nullability`: a nullable target keeps the bits,
/// and a non-nullable target has none.
pub open spec fn nullability_applied(
    validity: &Validity,
    nullability: Nullability,
    out: &Validity,
) -> bool {
    match nullability {
        Nullability::NonNullable => out is NonNullable,
        Nullability::Nullable => if validity is NonNullable {
            out is AllValid
        } else {
            out.same(validity)
        },
    }
}

impl Validity {
    /// The validity under another nullability, computed from its bits. An array with a null
    /// cannot become non-nullable.
    pub fn cast_nullability(&self, nullability: Nullability, len: usize) -> (r: VortexResult<Validity>)
        requires
            self.wf(len as nat),
        ensures
            match r {
                Ok(out) => {
                    &&& nullability_applied(self, nullability, &out)
                    &&& nullability is NonNullable ==> !has_null(self, len as nat)
                    &&& out.wf(len as nat)
                    &&& out.entries(len as nat) == self.entries(len as nat)
                },
                Err(e) => {
                    &&& e == VortexError::InvalidValuesToNonNullable
                    &&& nullability is NonNullable
                    &&& has_null(self, len as nat)
                },
            },
    {
        match nullability {
            Nullability::NonNullable => {
                let mask = self.execute_mask(len);
                if mask.all_true() {
                    proof {
                        assert forall|i: int| 0 <= i < len implies #[trigger] self.valid_at(i) by {
                            assert(mask@[i]);
                        }
                        assert(Validity::NonNullable.entries(len as nat) =~= self.entries(len as nat));
                    }
                    Ok(Validity::NonNullable)
                } else {
                    proof {
                        let i = choose|i: int| 0 <= i < mask@.len() && !mask@[i];
                        assert(!self.valid_at(i));
                    }
                    Err(VortexError::InvalidValuesToNonNullable)
                }
            },
            Nullability::Nullable => {
                match self {
                    Validity::NonNullable => {
                        assert(Validity::AllValid.entries(len as nat) =~= self.entries(len as nat));
                        Ok(Validity::AllValid)
                    },
                    _ => Ok(self.duplicate()),
                }
            },
        }
    }

    /// The validity under another nullability where that needs no look at its bits, else `None`.
    pub fn trivially_cast_nullability(&self, nullability: Nullability, len: usize) -> (r:
        VortexResult<Option<Validity>>)
        requires
            self.wf(len as nat),
        ensures
            match r {
                Ok(Some(out)) => {
                    &&& nullability_applied(self, nullability, &out)
                    &&& nullability is NonNullable ==> len == 0 || !(self is AllInvalid || self is Array)
                    &&& out.wf(len as nat)
                    &&& out.entries(len as nat) == self.entries(len as nat)
                },
                Ok(None) => nullability is NonNullable && len > 0 && self is Array,
                Err(e) => {
                    &&& e == VortexError::InvalidValuesToNonNullable
                    &&& nullability is NonNullable
                    &&& len > 0
                    &&& self is AllInvalid
                },
            },
    {
        match nullability {
            Nullability::NonNullable => {
                if len == 0 {
                    assert(Validity::NonNullable.entries(len as nat) =~= self.entries(len as nat));
                    return Ok(Some(Validity::NonNullable));
                }
                match self {
                    Validity::NonNullable | Validity::AllValid => {
                        assert(Validity::NonNullable.entries(len as nat) =~= self.entries(len as nat));
                        Ok(Some(Validity::NonNullable))
                    },
                    Validity::AllInvalid => Err(VortexError::InvalidValuesToNonNullable),
                    Validity::Array(_) => Ok(None),
                }
            },
            Nullability::Nullable => {
                match self {
                    Validity::NonNullable => {
                        assert(Validity::AllValid.entries(len as nat) =~= self.entries(len as nat));
                        Ok(Some(Validity::AllValid))
                    },
                    _ => Ok(Some(self.duplicate())),
                }
            },
        }
    }
}

/// The same bytes in a vector of their own.
pub fn copy_bytes(bytes: &Vec<u8>) -> (copy: Vec<u8>)
    ensures
        copy@ == bytes@,
{
    let copy = bytes.clone();
    assert(copy@ =~= bytes@);
    copy
}

} // verus!
