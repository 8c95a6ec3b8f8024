//! Arrays of fixed-width numbers.
use vstd::prelude::*;

use crate::dtype::PType;
use crate::validity::Validity;

verus! {

/// Values of one physical type. Floating-point values are kept as their bit patterns.
#[derive(Debug, PartialEq, Eq)]
pub enum PrimitiveBuffer {
    U8(Vec<u8>),
    U16(Vec<u16>),
    U32(Vec<u32>),
    U64(Vec<u64>),
    I8(Vec<i8>),
    I16(Vec<i16>),
    I32(Vec<i32>),
    I64(Vec<i64>),
    F16(Vec<u16>),
    F32(Vec<u32>),
    F64(Vec<u64>),
}

/// Numbers of one physical type with their validity.
#[derive(Debug, PartialEq, Eq)]
pub struct PrimitiveArray {
    pub buffer: PrimitiveBuffer,
    pub validity: Validity,
}

impl PrimitiveBuffer {
    /// The number of values.
    pub open spec fn spec_len(&self) -> nat {
        match self {
            PrimitiveBuffer::U8(v) => v@.len(),
            PrimitiveBuffer::U16(v) => v@.len(),
            PrimitiveBuffer::U32(v) => v@.len(),
            PrimitiveBuffer::U64(v) => v@.len(),
            PrimitiveBuffer::I8(v) => v@.len(),
            PrimitiveBuffer::I16(v) => v@.len(),
            PrimitiveBuffer::I32(v) => v@.len(),
            PrimitiveBuffer::I64(v) => v@.len(),
            PrimitiveBuffer::F16(v) => v@.len(),
            PrimitiveBuffer::F32(v) => v@.len(),
            PrimitiveBuffer::F64(v) => v@.len(),
        }
    }

    /// Whether the values are integers.
    pub open spec fn integer(&self) -> bool {
        !(self is F16 || self is F32 || self is F64)
    }

    /// The integer at position `i`.
    pub open spec fn int_at(&self, i: int) -> int {
        match self {
            PrimitiveBuffer::U8(v) => v@[i] as int,
            PrimitiveBuffer::U16(v) => v@[i] as int,
            PrimitiveBuffer::U32(v) => v@[i] as int,
            PrimitiveBuffer::U64(v) => v@[i] as int,
            PrimitiveBuffer::I8(v) => v@[i] as int,
            PrimitiveBuffer::I16(v) => v@[i] as int,
            PrimitiveBuffer::I32(v) => v@[i] as int,
            PrimitiveBuffer::I64(v) => v@[i] as int,
            PrimitiveBuffer::F16(v) => v@[i] as int,
            PrimitiveBuffer::F32(v) => v@[i] as int,
            PrimitiveBuffer::F64(v) => v@[i] as int,
        }
    }

    /// The values as numbers; floating-point values as their bit patterns.
    pub open spec fn ints(&self) -> Seq<int> {
        Seq::new(self.spec_len(), |i: int| self.int_at(i))
    }

    /// The physical type.
    pub open spec fn spec_ptype(&self) -> PType {
        match self {
            PrimitiveBuffer::U8(_) => PType::U8,
            PrimitiveBuffer::U16(_) => PType::U16,
            PrimitiveBuffer::U32(_) => PType::U32,
            PrimitiveBuffer::U64(_) => PType::U64,
            PrimitiveBuffer::I8(_) => PType::I8,
            PrimitiveBuffer::I16(_) => PType::I16,
            PrimitiveBuffer::I32(_) => PType::I32,
            PrimitiveBuffer::I64(_) => PType::I64,
            PrimitiveBuffer::F16(_) => PType::F16,
            PrimitiveBuffer::F32(_) => PType::F32,
            PrimitiveBuffer::F64(_) => PType::F64,
        }
    }

    /// The integer at position `i` cast to `usize`: a value that does not fit wraps around.
    pub open spec fn usize_at(&self, i: int) -> usize {
        match self {
            PrimitiveBuffer::U8(v) => v@[i] as usize,
            PrimitiveBuffer::U16(v) => v@[i] as usize,
            PrimitiveBuffer::U32(v) => v@[i] as usize,
            PrimitiveBuffer::U64(v) => v@[i] as usize,
            PrimitiveBuffer::I8(v) => v@[i] as usize,
            PrimitiveBuffer::I16(v) => v@[i] as usize,
            PrimitiveBuffer::I32(v) => v@[i] as usize,
            PrimitiveBuffer::I64(v) => v@[i] as usize,
            PrimitiveBuffer::F16(v) => v@[i] as usize,
            PrimitiveBuffer::F32(v) => v@[i] as usize,
            PrimitiveBuffer::F64(v) => v@[i] as usize,
        }
    }

    /// The number of values.
    pub fn len(&self) -> (n: usize)
        ensures
            n == self.spec_len(),
    {
        match self {
            PrimitiveBuffer::U8(v) => v.len(),
            PrimitiveBuffer::U16(v) => v.len(),
            PrimitiveBuffer::U32(v) => v.len(),
            PrimitiveBuffer::U64(v) => v.len(),
            PrimitiveBuffer::I8(v) => v.len(),
            PrimitiveBuffer::I16(v) => v.len(),
            PrimitiveBuffer::I32(v) => v.len(),
            PrimitiveBuffer::I64(v) => v.len(),
            PrimitiveBuffer::F16(v) => v.len(),
            PrimitiveBuffer::F32(v) => v.len(),
            PrimitiveBuffer::F64(v) => v.len(),
        }
    }

    /// The physical type.
    pub fn ptype(&self) -> (p: PType)
        ensures
            p == self.spec_ptype(),
    {
        match self {
            PrimitiveBuffer::U8(_) => PType::U8,
            PrimitiveBuffer::U16(_) => PType::U16,
            PrimitiveBuffer::U32(_) => PType::U32,
            PrimitiveBuffer::U64(_) => PType::U64,
            PrimitiveBuffer::I8(_) => PType::I8,
            PrimitiveBuffer::I16(_) => PType::I16,
            PrimitiveBuffer::I32(_) => PType::I32,
            PrimitiveBuffer::I64(_) => PType::I64,
            PrimitiveBuffer::F16(_) => PType::F16,
            PrimitiveBuffer::F32(_) => PType::F32,
            PrimitiveBuffer::F64(_) => PType::F64,
        }
    }

    /// The integer at position `i`.
    pub fn as_i128(&self, i: usize) -> (n: i128)
        requires
            i < self.spec_len(),
        ensures
            n == self.int_at(i as int),
    {
        match self {
            PrimitiveBuffer::U8(v) => v[i] as i128,
            PrimitiveBuffer::U16(v) => v[i] as i128,
            PrimitiveBuffer::U32(v) => v[i] as i128,
            PrimitiveBuffer::U64(v) => v[i] as i128,
            PrimitiveBuffer::I8(v) => v[i] as i128,
            PrimitiveBuffer::I16(v) => v[i] as i128,
            PrimitiveBuffer::I32(v) => v[i] as i128,
            PrimitiveBuffer::I64(v) => v[i] as i128,
            PrimitiveBuffer::F16(v) => v[i] as i128,
            PrimitiveBuffer::F32(v) => v[i] as i128,
            PrimitiveBuffer::F64(v) => v[i] as i128,
        }
    }

    /// The integer at position `i` cast to `usize`.
    pub fn as_usize(&self, i: usize) -> (n: usize)
        requires
            i < self.spec_len(),
        ensures
            n == self.usize_at(i as int),
    {
        match self {
            PrimitiveBuffer::U8(v) => v[i] as usize,
            PrimitiveBuffer::U16(v) => v[i] as usize,
            PrimitiveBuffer::U32(v) => v[i] as usize,
            PrimitiveBuffer::U64(v) => v[i] as usize,
            PrimitiveBuffer::I8(v) => v[i] as usize,
            PrimitiveBuffer::I16(v) => v[i] as usize,
            PrimitiveBuffer::I32(v) => v[i] as usize,
            PrimitiveBuffer::I64(v) => v[i] as usize,
            PrimitiveBuffer::F16(v) => v[i] as usize,
            PrimitiveBuffer::F32(v) => v[i] as usize,
            PrimitiveBuffer::F64(v) => v[i] as usize,
        }
    }
}

impl PrimitiveBuffer {
    /// Every value is one of the physical type.
    pub proof fn in_range(&self, i: int)
        ensures
            self.spec_ptype().holds(self.int_at(i)),
    {
    }

    /// Values of one physical type, from numbers that it holds.
    pub fn from_ints(ptype: PType, values: &Vec<i128>) -> (b: PrimitiveBuffer)
        requires
            forall|j: int| 0 <= j < values@.len() ==> ptype.holds(#[trigger] values@[j] as int),
        ensures
            b.spec_ptype() == ptype,
            b.ints() == Seq::new(values@.len(), |i: int| values@[i] as int),
    {
        let b = match ptype {
            PType::U8 => {
                let mut out: Vec<u8> = Vec::new();
                for i in 0..values.len()
                    invariant
                        ptype == PType::U8,
                        out@.len() == i,
                        forall|j: int|
                            0 <= j < values@.len() ==> ptype.holds(#[trigger] values@[j] as int),
                        forall|j: int| 0 <= j < i ==> #[trigger] out@[j] == values@[j],
                {
                    let v: i128 = values[i];
                    assert(ptype.holds(values@[i as int] as int));
                    out.push(v as u8);
                }
                PrimitiveBuffer::U8(out)
            },
            PType::U16 => {
                let mut out: Vec<u16> = Vec::new();
                for i in 0..values.len()
                    invariant
                        ptype == PType::U16,
                        out@.len() == i,
                        forall|j: int|
                            0 <= j < values@.len() ==> ptype.holds(#[trigger] values@[j] as int),
                        forall|j: int| 0 <= j < i ==> #[trigger] out@[j] == values@[j],
                {
                    let v: i128 = values[i];
                    assert(ptype.holds(values@[i as int] as int));
                    out.push(v as u16);
                }
                PrimitiveBuffer::U16(out)
            },
            PType::U32 => {
                let mut out: Vec<u32> = Vec::new();
                for i in 0..values.len()
                    invariant
                        ptype == PType::U32,
                        out@.len() == i,
                        forall|j: int|
                            0 <= j < values@.len() ==> ptype.holds(#[trigger] values@[j] as int),
                        forall|j: int| 0 <= j < i ==> #[trigger] out@[j] == values@[j],
                {
                    let v: i128 = values[i];
                    assert(ptype.holds(values@[i as int] as int));
                    out.push(v as u32);
                }
                PrimitiveBuffer::U32(out)
            },
            PType::U64 => {
                let mut out: Vec<u64> = Vec::new();
                for i in 0..values.len()
                    invariant
                        ptype == PType::U64,
                        out@.len() == i,
                        forall|j: int|
                            0 <= j < values@.len() ==> ptype.holds(#[trigger] values@[j] as int),
                        forall|j: int| 0 <= j < i ==> #[trigger] out@[j] == values@[j],
                {
                    let v: i128 = values[i];
                    assert(ptype.holds(values@[i as int] as int));
                    out.push(v as u64);
                }
                PrimitiveBuffer::U64(out)
            },
            PType::I8 => {
                let mut out: Vec<i8> = Vec::new();
                for i in 0..values.len()
                    invariant
                        ptype == PType::I8,
                        out@.len() == i,
                        forall|j: int|
                            0 <= j < values@.len() ==> ptype.holds(#[trigger] values@[j] as int),
                        forall|j: int| 0 <= j < i ==> #[trigger] out@[j] == values@[j],
                {
                    let v: i128 = values[i];
                    assert(ptype.holds(values@[i as int] as int));
                    out.push(v as i8);
                }
                PrimitiveBuffer::I8(out)
            },
            PType::I16 => {
                let mut out: Vec<i16> = Vec::new();
                for i in 0..values.len()
                    invariant
                        ptype == PType::I16,
                        out@.len() == i,
                        forall|j: int|
                            0 <= j < values@.len() ==> ptype.holds(#[trigger] values@[j] as int),
                        forall|j: int| 0 <= j < i ==> #[trigger] out@[j] == values@[j],
                {
                    let v: i128 = values[i];
                    assert(ptype.holds(values@[i as int] as int));
                    out.push(v as i16);
                }
                PrimitiveBuffer::I16(out)
            },
            PType::I32 => {
                let mut out: Vec<i32> = Vec::new();
                for i in 0..values.len()
                    invariant
                        ptype == PType::I32,
                        out@.len() == i,
                        forall|j: int|
                            0 <= j < values@.len() ==> ptype.holds(#[trigger] values@[j] as int),
                        forall|j: int| 0 <= j < i ==> #[trigger] out@[j] == values@[j],
                {
                    let v: i128 = values[i];
                    assert(ptype.holds(values@[i as int] as int));
                    out.push(v as i32);
                }
                PrimitiveBuffer::I32(out)
            },
            PType::I64 => {
                let mut out: Vec<i64> = Vec::new();
                for i in 0..values.len()
                    invariant
                        ptype == PType::I64,
                        out@.len() == i,
                        forall|j: int|
                            0 <= j < values@.len() ==> ptype.holds(#[trigger] values@[j] as int),
                        forall|j: int| 0 <= j < i ==> #[trigger] out@[j] == values@[j],
                {
                    let v: i128 = values[i];
                    assert(ptype.holds(values@[i as int] as int));
                    out.push(v as i64);
                }
                PrimitiveBuffer::I64(out)
            },
            PType::F16 => {
                let mut out: Vec<u16> = Vec::new();
                for i in 0..values.len()
                    invariant
                        ptype == PType::F16,
                        out@.len() == i,
                        forall|j: int|
                            0 <= j < values@.len() ==> ptype.holds(#[trigger] values@[j] as int),
                        forall|j: int| 0 <= j < i ==> #[trigger] out@[j] == values@[j],
                {
                    let v: i128 = values[i];
                    assert(ptype.holds(values@[i as int] as int));
                    out.push(v as u16);
                }
                PrimitiveBuffer::F16(out)
            },
            PType::F32 => {
                let mut out: Vec<u32> = Vec::new();
                for i in 0..values.len()
                    invariant
                        ptype == PType::F32,
                        out@.len() == i,
                        forall|j: int|
                            0 <= j < values@.len() ==> ptype.holds(#[trigger] values@[j] as int),
                        forall|j: int| 0 <= j < i ==> #[trigger] out@[j] == values@[j],
                {
                    let v: i128 = values[i];
                    assert(ptype.holds(values@[i as int] as int));
                    out.push(v as u32);
                }
                PrimitiveBuffer::F32(out)
            },
            PType::F64 => {
                let mut out: Vec<u64> = Vec::new();
                for i in 0..values.len()
                    invariant
                        ptype == PType::F64,
                        out@.len() == i,
                        forall|j: int|
                            0 <= j < values@.len() ==> ptype.holds(#[trigger] values@[j] as int),
                        forall|j: int| 0 <= j < i ==> #[trigger] out@[j] == values@[j],
                {
                    let v: i128 = values[i];
                    assert(ptype.holds(values@[i as int] as int));
                    out.push(v as u64);
                }
                PrimitiveBuffer::F64(out)
            },
        };
        assert(b.ints() =~= Seq::new(values@.len(), |i: int| values@[i] as int));
        b
    }
}

/// The smallest valid value among the first `n`, if there is one.
pub open spec fn min_valid(a: &PrimitiveArray, n: nat) -> Option<int>
    decreases n,
{
    if n == 0 {
        None
    } else {
        let before = min_valid(a, (n - 1) as nat);
        if !a.validity.valid_at(n - 1) {
            before
        } else {
            match before {
                Some(m) if m <= a.buffer.int_at(n - 1) => Some(m),
                _ => Some(a.buffer.int_at(n - 1)),
            }
        }
    }
}

/// The largest valid value among the first `n`, if there is one.
pub open spec fn max_valid(a: &PrimitiveArray, n: nat) -> Option<int>
    decreases n,
{
    if n == 0 {
        None
    } else {
        let before = max_valid(a, (n - 1) as nat);
        if !a.validity.valid_at(n - 1) {
            before
        } else {
            match before {
                Some(m) if m >= a.buffer.int_at(n - 1) => Some(m),
                _ => Some(a.buffer.int_at(n - 1)),
            }
        }
    }
}

/// Whether value `i` lies between the smallest and the largest valid value among the first `n`.
pub open spec fn within_extremes(a: &PrimitiveArray, n: nat, i: int) -> bool {
    &&& min_valid(a, n) is Some
    &&& min_valid(a, n)->Some_0 <= a.buffer.int_at(i)
    &&& a.buffer.int_at(i) <= max_valid(a, n)->Some_0
}

/// The smallest and the largest valid value bound every valid value, and are of the physical type.
pub proof fn extremes_bound_values(a: &PrimitiveArray, n: nat)
    ensures
        min_valid(a, n) is Some == max_valid(a, n) is Some,
        forall|i: int| 0 <= i < n && a.validity.valid_at(i) ==> #[trigger] within_extremes(a, n, i),
        min_valid(a, n) matches Some(m) ==> a.buffer.spec_ptype().holds(m) && m <= max_valid(
            a,
            n,
        )->Some_0,
        max_valid(a, n) matches Some(m) ==> a.buffer.spec_ptype().holds(m),
    decreases n,
{
    if n > 0 {
        extremes_bound_values(a, (n - 1) as nat);
        a.buffer.in_range(n - 1);
        assert forall|i: int| 0 <= i < n && a.validity.valid_at(i) implies #[trigger] within_extremes(
            a,
            n,
            i,
        ) by {
            if i < n - 1 {
                assert(within_extremes(a, (n - 1) as nat, i));
            }
        }
    }
}

impl PrimitiveArray {
    /// The validity covers exactly the values.
    pub open spec fn wf(&self) -> bool {
        self.validity.wf(self.buffer.spec_len())
    }

    /// The smallest valid value, if there is one.
    pub open spec fn spec_min(&self) -> Option<int> {
        min_valid(self, self.buffer.spec_len())
    }

    /// The largest valid value, if there is one.
    pub open spec fn spec_max(&self) -> Option<int> {
        max_valid(self, self.buffer.spec_len())
    }

    /// The smallest valid value, if there is one.
    pub fn compute_min(&self) -> (r: Option<i128>)
        requires
            self.wf(),
        ensures
            match r {
                Some(m) => self.spec_min() == Some(m as int),
                None => self.spec_min() is None,
            },
    {
        let n: usize = self.buffer.len();
        let mut min: Option<i128> = None;
        let mut i: usize = 0;
        while i < n
            invariant
                self.wf(),
                n == self.buffer.spec_len(),
                i <= n,
                match min {
                    Some(m) => min_valid(self, i as nat) == Some(m as int),
                    None => min_valid(self, i as nat) is None,
                },
            decreases n - i,
        {
            if self.validity.is_valid(i) {
                let v: i128 = self.buffer.as_i128(i);
                min = match min {
                    Some(m) => if m <= v {
                        Some(m)
                    } else {
                        Some(v)
                    },
                    None => Some(v),
                };
            }
            i = i + 1;
        }
        min
    }

    /// The largest valid value, if there is one.
    pub fn compute_max(&self) -> (r: Option<i128>)
        requires
            self.wf(),
        ensures
            match r {
                Some(m) => self.spec_max() == Some(m as int),
                None => self.spec_max() is None,
            },
    {
        let n: usize = self.buffer.len();
        let mut max: Option<i128> = None;
        let mut i: usize = 0;
        while i < n
            invariant
                self.wf(),
                n == self.buffer.spec_len(),
                i <= n,
                match max {
                    Some(m) => max_valid(self, i as nat) == Some(m as int),
                    None => max_valid(self, i as nat) is None,
                },
            decreases n - i,
        {
            if self.validity.is_valid(i) {
                let v: i128 = self.buffer.as_i128(i);
                max = match max {
                    Some(m) => if m >= v {
                        Some(m)
                    } else {
                        Some(v)
                    },
                    None => Some(v),
                };
            }
            i = i + 1;
        }
        max
    }
}

/// The narrowest physical type for integers between `min` and `max`: unsigned unless one of them is
/// negative. Without a valid value it is the narrowest of all; where nothing narrower than 64 bits
/// fits, it is the array's own.
pub open spec fn narrowed_ptype(own: PType, min: Option<int>, max: Option<int>) -> PType {
    match (min, max) {
        (Some(min), Some(max)) => if max > i64::MAX {
            own
        } else if min < 0 || max < 0 {
            if i8::MIN <= min && max <= i8::MAX {
                PType::I8
            } else if i16::MIN <= min && max <= i16::MAX {
                PType::I16
            } else if i32::MIN <= min && max <= i32::MAX {
                PType::I32
            } else {
                own
            }
        } else {
            if max <= u8::MAX {
                PType::U8
            } else if max <= u16::MAX {
                PType::U16
            } else if max <= u32::MAX {
                PType::U32
            } else {
                own
            }
        },
        _ => PType::U8,
    }
}

/// Whether `out` is `a` narrowed.
pub open spec fn is_narrowing(a: &PrimitiveArray, out: &PrimitiveArray) -> bool {
    &&& out.wf()
    &&& out.buffer.spec_len() == a.buffer.spec_len()
    &&& out.buffer.spec_ptype() == narrowed_ptype(a.buffer.spec_ptype(), a.spec_min(), a.spec_max())
    &&& out.validity.same(&a.validity)
    &&& forall|i: int|
        0 <= i < a.buffer.spec_len() && a.validity.valid_at(i) ==> #[trigger] out.buffer.int_at(i)
            == a.buffer.int_at(i)
}

impl PrimitiveArray {
    /// The same integers in the narrowest physical type that holds the valid ones. Null slots
    /// that it does not hold become 0.
    pub fn narrow(&self) -> (out: PrimitiveArray)
        requires
            self.wf(),
            self.buffer.integer(),
        ensures
            is_narrowing(self, &out),
    {
        let own = self.buffer.ptype();
        let min = self.compute_min();
        let max = self.compute_max();
        let n: usize = self.buffer.len();
        proof {
            extremes_bound_values(self, n as nat);
        }
        let target = match (min, max) {
            (Some(min), Some(max)) => {
                if max > 0x7fff_ffff_ffff_ffff {
                    own
                } else if min < 0 || max < 0 {
                    if -0x80 <= min && max <= 0x7f {
                        PType::I8
                    } else if -0x8000 <= min && max <= 0x7fff {
                        PType::I16
                    } else if -0x8000_0000 <= min && max <= 0x7fff_ffff {
                        PType::I32
                    } else {
                        own
                    }
                } else {
                    if max <= 0xff {
                        PType::U8
                    } else if max <= 0xffff {
                        PType::U16
                    } else if max <= 0xffff_ffff {
                        PType::U32
                    } else {
                        own
                    }
                }
            },
            _ => PType::U8,
        };
        let limits = target.limits();
        let mut values: Vec<i128> = Vec::new();
        let mut i: usize = 0;
        while i < n
            invariant
                self.wf(),
                n == self.buffer.spec_len(),
                limits.0 == target.min_int(),
                limits.1 == target.max_int(),
                target == narrowed_ptype(self.buffer.spec_ptype(), self.spec_min(), self.spec_max()),
                forall|j: int|
                    0 <= j < n && self.validity.valid_at(j) ==> #[trigger] within_extremes(
                        self,
                        n as nat,
                        j,
                    ),
                self.spec_min() is Some == self.spec_max() is Some,
                i <= n,
                values@.len() == i,
                forall|j: int| 0 <= j < i ==> target.holds(#[trigger] values@[j] as int),
                forall|j: int|
                    0 <= j < i && self.validity.valid_at(j) ==> #[trigger] values@[j]
                        == self.buffer.int_at(j),
            decreases n - i,
        {
            let v: i128 = self.buffer.as_i128(i);
            proof {
                self.buffer.in_range(i as int);
                if self.validity.valid_at(i as int) {
                    assert(within_extremes(self, n as nat, i as int));
                    assert(target.holds(v as int));
                }
            }
            if limits.0 <= v && v <= limits.1 {
                values.push(v);
            } else {
                values.push(0);
            }
            i = i + 1;
        }
        let buffer = PrimitiveBuffer::from_ints(target, &values);
        proof {
            assert(buffer.ints().len() == n);
            assert forall|i: int| 0 <= i < n && self.validity.valid_at(i) implies #[trigger] buffer.int_at(
                i,
            ) == self.buffer.int_at(i) by {
                assert(buffer.ints()[i] == values@[i]);
            }
        }
        PrimitiveArray { buffer, validity: self.validity.duplicate() }
    }
}

/// Entries of any copyable type, `None` for a null.
#[derive(Debug, PartialEq, Eq)]
pub struct ValueArray<V> {
    pub entries: Vec<Option<V>>,
    pub nullable: bool,
}

impl<V: Copy> View for ValueArray<V> {
    type V = Seq<Option<V>>;

    open spec fn view(&self) -> Seq<Option<V>> {
        self.entries@
    }
}

impl<V: Copy> ValueArray<V> {
    /// An array that is not nullable holds no null.
    pub open spec fn wf(&self) -> bool {
        !self.nullable ==> forall|i: int| 0 <= i < self@.len() ==> #[trigger] self@[i] is Some
    }
}

/// The smallest and the largest valid value are valid values.
pub proof fn extremes_are_values(a: &PrimitiveArray, n: nat)
    ensures
        min_valid(a, n) matches Some(m) ==> exists|i: int|
            0 <= i < n && a.validity.valid_at(i) && #[trigger] a.buffer.int_at(i) == m,
        max_valid(a, n) matches Some(m) ==> exists|i: int|
            0 <= i < n && a.validity.valid_at(i) && #[trigger] a.buffer.int_at(i) == m,
    decreases n,
{
    if n > 0 {
        extremes_are_values(a, (n - 1) as nat);
        if let Some(m) = min_valid(a, n) {
            if a.validity.valid_at(n - 1) && a.buffer.int_at(n - 1) == m {
            } else {
                let i = choose|i: int|
                    0 <= i < n - 1 && a.validity.valid_at(i) && #[trigger] a.buffer.int_at(i) == m;
                assert(a.buffer.int_at(i) == m);
            }
        }
        if let Some(m) = max_valid(a, n) {
            if a.validity.valid_at(n - 1) && a.buffer.int_at(n - 1) == m {
            } else {
                let i = choose|i: int|
                    0 <= i < n - 1 && a.validity.valid_at(i) && #[trigger] a.buffer.int_at(i) == m;
                assert(a.buffer.int_at(i) == m);
            }
        }
    }
}

/// Whether `min` and `max` are the smallest and the largest valid value: both are valid values, and
/// no valid value lies beyond them.
pub open spec fn spans(a: &PrimitiveArray, min: int, max: int) -> bool {
    &&& exists|i: int|
        0 <= i < a.buffer.spec_len() && a.validity.valid_at(i) && #[trigger] a.buffer.int_at(i)
            == min
    &&& exists|i: int|
        0 <= i < a.buffer.spec_len() && a.validity.valid_at(i) && #[trigger] a.buffer.int_at(i)
            == max
    &&& forall|i: int|
        0 <= i < a.buffer.spec_len() && a.validity.valid_at(i) ==> min
            <= #[trigger] a.buffer.int_at(i) <= max
}

/// The extremes of an array are a valid value that no other is below and one that no other is
/// above. An array has extremes exactly where some value is valid.
pub proof fn extremes_span_the_array(a: &PrimitiveArray, min: int, max: int)
    ensures
        spans(a, min, max) <==> a.spec_min() == Some(min) && a.spec_max() == Some(max),
        a.spec_min() is None <==> forall|i: int|
            0 <= i < a.buffer.spec_len() ==> !#[trigger] a.validity.valid_at(i),
        a.spec_max() is None <==> a.spec_min() is None,
{
    let n = a.buffer.spec_len();
    extremes_bound_values(a, n);
    extremes_are_values(a, n);
    if spans(a, min, max) {
        let i = choose|i: int|
            0 <= i < n && a.validity.valid_at(i) && #[trigger] a.buffer.int_at(i) == min;
        let j = choose|j: int|
            0 <= j < n && a.validity.valid_at(j) && #[trigger] a.buffer.int_at(j) == max;
        assert(within_extremes(a, n, i));
        assert(within_extremes(a, n, j));
    }
    if a.spec_min() == Some(min) && a.spec_max() == Some(max) {
        assert forall|i: int| 0 <= i < n && a.validity.valid_at(i) implies min
            <= #[trigger] a.buffer.int_at(i) <= max by {
            assert(within_extremes(a, n, i));
        }
    }
    if a.spec_min() is None {
        assert forall|i: int| 0 <= i < n implies !#[trigger] a.validity.valid_at(i) by {
            if a.validity.valid_at(i) {
                assert(within_extremes(a, n, i));
            }
        }
    }
}

/// The type that values from `min` to `max` are narrowed to holds them, and no type of fewer bits
/// does. Below 64 bits it is unsigned unless a value is negative, and at 64 bits the array's own.
pub proof fn narrowed_type_is_narrowest(own: PType, min: int, max: int, other: PType)
    requires
        own.int_type(),
        own.holds(min),
        own.holds(max),
        min <= max,
        other.int_type(),
    ensures
        ({
            let t = narrowed_ptype(own, Some(min), Some(max));
            &&& t.int_type()
            &&& t.holds(min) && t.holds(max)
            &&& other.holds(min) && other.holds(max) ==> t.bits() <= other.bits()
            &&& t.bits() < 64 ==> (t.min_int() < 0 <==> min < 0)
            &&& t.bits() == 64 ==> t == own
        }),
        narrowed_ptype(own, None, None) == PType::U8,
{
}

/// Narrowing keeps every valid value and every null, and no integer type of fewer bits holds the
/// valid values.
pub proof fn narrowing_keeps_valid_values(a: &PrimitiveArray, out: &PrimitiveArray, other: PType)
    requires
        a.wf(),
        a.buffer.integer(),
        is_narrowing(a, out),
        other.int_type(),
        forall|i: int|
            0 <= i < a.buffer.spec_len() && a.validity.valid_at(i) ==> other.holds(
                #[trigger] a.buffer.int_at(i),
            ),
    ensures
        out.buffer.spec_len() == a.buffer.spec_len(),
        out.buffer.integer(),
        out.buffer.spec_ptype().bits() <= other.bits(),
        forall|i: int|
            0 <= i < a.buffer.spec_len() ==> #[trigger] out.validity.valid_at(i)
                == a.validity.valid_at(i),
        forall|i: int|
            0 <= i < a.buffer.spec_len() && a.validity.valid_at(i) ==> #[trigger] out.buffer.int_at(
                i,
            ) == a.buffer.int_at(i),
{
    let n = a.buffer.spec_len();
    extremes_are_values(a, n);
    extremes_bound_values(a, n);
    if a.spec_min() is Some {
        narrowed_type_is_narrowest(
            a.buffer.spec_ptype(),
            a.spec_min()->Some_0,
            a.spec_max()->Some_0,
            other,
        );
    }
}

} // verus!
