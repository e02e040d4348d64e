use vstd::prelude::*;

verus! {

/// Body encoding declared by the `DATA` line of a header.
#[derive(Debug, Clone, Copy, PartialEq, Eq, Structural)]
pub enum DataFormat {
    Ascii,
    Binary,
    BinaryCompressed,
}

impl Default for DataFormat {
    fn default() -> (r: Self)
        ensures
            r == DataFormat::Ascii,
    {
        DataFormat::Ascii
    }
}

impl DataFormat {
    /// The token by which this encoding is named on the `DATA` line.
    pub open spec fn token_spec(self) -> Seq<u8> {
        match self {
            DataFormat::Ascii => "ascii"@.map_values(|c: char| c as u8),
            DataFormat::Binary => "binary"@.map_values(|c: char| c as u8),
            DataFormat::BinaryCompressed => "binary_compressed"@.map_values(|c: char| c as u8),
        }
    }
}

/// Tag for one of the eight supported element types of a point field.
#[derive(Debug, Clone, Copy, PartialEq, Eq, Structural)]
pub enum ValueType {
    U8,
    U16,
    U32,
    I8,
    I16,
    I32,
    F32,
    F64,
}

impl ValueType {
    /// Intrinsic byte size of one element of this type.
    pub open spec fn size_spec(self) -> nat {
        match self {
            ValueType::U8 | ValueType::I8 => 1,
            ValueType::U16 | ValueType::I16 => 2,
            ValueType::U32 | ValueType::I32 | ValueType::F32 => 4,
            ValueType::F64 => 8,
        }
    }

    pub fn size(&self) -> (s: usize)
        ensures
            s == self.size_spec(),
    {
        match self {
            ValueType::U8 | ValueType::I8 => 1,
            ValueType::U16 | ValueType::I16 => 2,
            ValueType::U32 | ValueType::I32 | ValueType::F32 => 4,
            ValueType::F64 => 8,
        }
    }
}

/// The header record of a point-cloud file.
///
/// Floating-point quantities (the 7-component viewpoint pose) are carried as
/// IEEE 754 bit patterns in `u64` values; the text codecs translate between
/// bit patterns and decimal tokens at the boundary.
#[derive(Debug, Clone, Default)]
pub struct PcdHeader {
    pub version: String,
    pub fields: Vec<String>,
    pub sizes: Vec<usize>,
    pub types: Vec<char>,
    pub counts: Vec<usize>,
    pub width: u32,
    pub height: u32,
    /// Pose as bit patterns of tx, ty, tz, qw, qx, qy, qz.
    pub viewpoint: Vec<u64>,
    pub points: usize,
    pub data: DataFormat,
}

/// Bit pattern of the 64-bit float 1.0, the `qw` entry of the identity pose.
pub const F64_ONE_BITS: u64 = 0x3FF0_0000_0000_0000;

impl PcdHeader {
    /// The field-name, size, type and count lists all describe the same
    /// fields, and the pose has its 7 components.
    pub open spec fn wf(self) -> bool {
        &&& self.fields.len() == self.sizes.len()
        &&& self.fields.len() == self.types.len()
        &&& self.fields.len() == self.counts.len()
        &&& self.viewpoint.len() == 7
    }

    pub fn is_organized(&self) -> (r: bool)
        ensures
            r == (self.height > 1),
    {
        self.height > 1
    }

    /// Sum of the declared per-element byte sizes alone, repeat counts ignored.
    pub open spec fn point_step_spec(self) -> int {
        sum_usizes(self.sizes@)
    }

    pub fn point_step(&self) -> (r: usize)
        requires
            self.point_step_spec() <= usize::MAX,
        ensures
            r == self.point_step_spec(),
    {
        let mut total: usize = 0;
        let mut i: usize = 0;
        while i < self.sizes.len()
            invariant
                i <= self.sizes.len(),
                total == sum_usizes(self.sizes@.take(i as int)),
                sum_usizes(self.sizes@) <= usize::MAX,
            decreases self.sizes.len() - i,
        {
            proof {
                lemma_sum_usizes_take_step(self.sizes@, i as int);
                lemma_sum_usizes_take_bound(self.sizes@, i + 1);
            }
            total = total + self.sizes[i];
            i = i + 1;
        }
        proof {
            assert(self.sizes@.take(i as int) =~= self.sizes@);
        }
        total
    }

    /// Per-point record stride: the sum over fields of element size times
    /// repeat count.
    pub open spec fn total_point_step_spec(self) -> int {
        sum_size_count(self.sizes@, self.counts@)
    }

    pub fn total_point_step(&self) -> (r: usize)
        requires
            self.sizes.len() == self.counts.len(),
            self.total_point_step_spec() <= usize::MAX,
            forall|i: int|
                0 <= i < self.sizes.len() ==> self.sizes@[i] * self.counts@[i] <= usize::MAX,
        ensures
            r == self.total_point_step_spec(),
    {
        let mut total: usize = 0;
        let mut i: usize = 0;
        while i < self.sizes.len()
            invariant
                i <= self.sizes.len(),
                self.sizes.len() == self.counts.len(),
                total == sum_size_count(self.sizes@.take(i as int), self.counts@.take(i as int)),
                sum_size_count(self.sizes@, self.counts@) <= usize::MAX,
                forall|j: int|
                    0 <= j < self.sizes.len() ==> self.sizes@[j] * self.counts@[j] <= usize::MAX,
            decreases self.sizes.len() - i,
        {
            proof {
                lemma_sum_size_count_take_step(self.sizes@, self.counts@, i as int);
                lemma_sum_size_count_take_bound(self.sizes@, self.counts@, i + 1);
            }
            total = total + self.sizes[i] * self.counts[i];
            i = i + 1;
        }
        proof {
            assert(self.sizes@.take(i as int) =~= self.sizes@);
            assert(self.counts@.take(i as int) =~= self.counts@);
        }
        total
    }
}

/// Sum of a sequence of sizes.
pub open spec fn sum_usizes(s: Seq<usize>) -> int
    decreases s.len(),
{
    if s.len() == 0 {
        0
    } else {
        sum_usizes(s.drop_last()) + s.last()
    }
}

/// Sum over fields of element size times repeat count.
pub open spec fn sum_size_count(sizes: Seq<usize>, counts: Seq<usize>) -> int
    decreases sizes.len(),
{
    if sizes.len() == 0 || counts.len() == 0 {
        0
    } else {
        sum_size_count(sizes.drop_last(), counts.drop_last()) + sizes.last() * counts.last()
    }
}

pub proof fn lemma_sum_usizes_take_step(s: Seq<usize>, i: int)
    requires
        0 <= i < s.len(),
    ensures
        sum_usizes(s.take(i + 1)) == sum_usizes(s.take(i)) + s[i],
{
    assert(s.take(i + 1).drop_last() =~= s.take(i));
    assert(s.take(i + 1).last() == s[i]);
}

/// Every prefix sum of nonnegative terms is at most the total sum.
pub proof fn lemma_sum_usizes_take_bound(s: Seq<usize>, i: int)
    requires
        0 <= i <= s.len(),
    ensures
        sum_usizes(s.take(i)) <= sum_usizes(s),
    decreases s.len() - i,
{
    if i < s.len() {
        lemma_sum_usizes_take_step(s, i);
        lemma_sum_usizes_take_bound(s, i + 1);
    } else {
        assert(s.take(i) =~= s);
    }
}

pub proof fn lemma_sum_size_count_take_step(sizes: Seq<usize>, counts: Seq<usize>, i: int)
    requires
        0 <= i < sizes.len(),
        sizes.len() == counts.len(),
    ensures
        sum_size_count(sizes.take(i + 1), counts.take(i + 1)) == sum_size_count(
            sizes.take(i),
            counts.take(i),
        ) + sizes[i] * counts[i],
{
    assert(sizes.take(i + 1).drop_last() =~= sizes.take(i));
    assert(counts.take(i + 1).drop_last() =~= counts.take(i));
}

pub proof fn lemma_sum_size_count_take_bound(sizes: Seq<usize>, counts: Seq<usize>, i: int)
    requires
        0 <= i <= sizes.len(),
        sizes.len() == counts.len(),
    ensures
        sum_size_count(sizes.take(i), counts.take(i)) <= sum_size_count(sizes, counts),
    decreases sizes.len() - i,
{
    if i < sizes.len() {
        lemma_sum_size_count_take_step(sizes, counts, i);
        lemma_sum_size_count_take_bound(sizes, counts, i + 1);
    } else {
        assert(sizes.take(i) =~= sizes);
        assert(counts.take(i) =~= counts);
    }
}

} // verus!
