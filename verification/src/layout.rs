use vstd::prelude::*;
use vstd::string::StringExecFns;

use crate::error::PcdError;
use crate::header::{PcdHeader, ValueType};

verus! {

/// The canonical element type for a declared type character and per-element
/// byte size, or `None` for a combination outside the supported set.
pub open spec fn resolve_type(tc: char, size: int) -> Option<ValueType> {
    if tc == 'I' {
        if size == 1 {
            Some(ValueType::I8)
        } else if size == 2 {
            Some(ValueType::I16)
        } else if size == 4 {
            Some(ValueType::I32)
        } else {
            None
        }
    } else if tc == 'U' {
        if size == 1 {
            Some(ValueType::U8)
        } else if size == 2 {
            Some(ValueType::U16)
        } else if size == 4 {
            Some(ValueType::U32)
        } else {
            None
        }
    } else if tc == 'F' {
        if size == 4 {
            Some(ValueType::F32)
        } else if size == 8 {
            Some(ValueType::F64)
        } else {
            None
        }
    } else {
        None
    }
}

/// The repeat count of field `j`, defaulting to 1 where the count list is
/// shorter than the field list.
pub open spec fn count_at(h: &PcdHeader, j: int) -> int {
    if j < h.counts@.len() {
        h.counts@[j] as int
    } else {
        1
    }
}

/// Total byte width of field `j` in one flat record.
pub open spec fn field_width(h: &PcdHeader, j: int) -> int {
    resolve_type(h.types@[j], h.sizes@[j] as int)->Some_0.size_spec() * count_at(h, j)
}

/// Byte offset of field `i` in one flat record: the sum of the widths of
/// the fields before it.
pub open spec fn offset_of(h: &PcdHeader, i: int) -> int
    decreases i,
{
    if i <= 0 {
        0
    } else {
        offset_of(h, i - 1) + field_width(h, i - 1)
    }
}

/// Every field has a type and size entry, and they resolve to a canonical
/// element type.
pub open spec fn fields_resolvable(h: &PcdHeader) -> bool {
    &&& h.types@.len() >= h.fields@.len()
    &&& h.sizes@.len() >= h.fields@.len()
    &&& forall|j: int|
        0 <= j < h.fields@.len() ==> resolve_type(h.types@[j], #[trigger] h.sizes@[j] as int)
            is Some
}

/// The resolved binary placement of one field inside a flat record.
#[derive(Debug, Clone, PartialEq)]
pub struct FieldLayout {
    pub name: String,
    pub offset: usize,
    /// Total field byte size: element size times repeat count.
    pub size: usize,
    /// Byte size of a single element.
    pub element_size: usize,
    pub count: usize,
    pub type_: ValueType,
}

impl FieldLayout {
    /// Internal size consistency of one field entry.
    pub open spec fn wf(&self) -> bool {
        &&& self.element_size == self.type_.size_spec()
        &&& self.size == self.element_size * self.count
    }
}

/// The resolved, immutable per-field layout of one flat-binary record.
#[derive(Debug, Clone, PartialEq)]
pub struct PcdLayout {
    pub fields: Vec<FieldLayout>,
    /// Per-record stride: the sum of all field byte sizes.
    pub total_size: usize,
}

impl PcdLayout {
    /// Fields are consistent and packed back to back: each field's offset is
    /// the running sum of the preceding widths, and the stride is the total.
    pub open spec fn wf(&self) -> bool {
        &&& forall|j: int| 0 <= j < self.fields@.len() ==> (#[trigger] self.fields@[j]).wf()
        &&& forall|j: int|
            0 <= j < self.fields@.len() ==> (#[trigger] self.fields@[j]).offset == (
            if j == 0 {
                0
            } else {
                self.fields@[j - 1].offset + self.fields@[j - 1].size
            })
        &&& self.total_size == (if self.fields@.len() == 0 {
            0
        } else {
            self.fields@.last().offset + self.fields@.last().size
        })
    }

    /// Every field lies within the record: offset + size <= stride.
    pub proof fn lemma_field_in_record(&self, j: int)
        requires
            self.wf(),
            0 <= j < self.fields@.len(),
        ensures
            self.fields@[j].offset + self.fields@[j].size <= self.total_size,
        decreases self.fields@.len() - j,
    {
        if j + 1 == self.fields@.len() {
            assert(self.fields@.last() == self.fields@[j]);
        } else {
            self.lemma_field_in_record(j + 1);
            assert(self.fields@[j + 1].offset == self.fields@[j].offset + self.fields@[j].size);
        }
    }

    /// Earlier fields end at or before later fields begin.
    #[verifier::rlimit(100)]
    pub proof fn lemma_offsets_ordered(&self, j: int, f: int)
        requires
            self.wf(),
            0 <= j < f < self.fields@.len(),
        ensures
            self.fields@[j].offset + self.fields@[j].size <= self.fields@[f].offset,
        decreases f - j,
    {
        assert(self.fields@[j + 1].offset == self.fields@[j].offset + self.fields@[j].size);
        if j + 1 < f {
            self.lemma_offsets_ordered(j + 1, f);
            assert(self.fields@[j + 1].size >= 0);
        }
    }

    /// Derive the layout from a header: resolve each field's canonical type,
    /// default missing repeat counts to 1, and accumulate offsets.
    pub fn from_header(header: &PcdHeader) -> (r: Result<PcdLayout, PcdError>)
        ensures
            r is Ok <==> fields_resolvable(header) && offset_of(header, header.fields@.len() as int)
                <= usize::MAX,
            r matches Err(e) ==> match e {
                PcdError::LayoutMismatch { .. } => header.types@.len()
                    < header.fields@.len() || header.sizes@.len() < header.fields@.len(),
                PcdError::UnsupportedType(_) => exists|j: int|
                    0 <= j < header.fields@.len() && j < header.types@.len() && j
                        < header.sizes@.len() && resolve_type(
                        header.types@[j],
                        #[trigger] header.sizes@[j] as int,
                    ) is None,
                PcdError::Other(_) => offset_of(header, header.fields@.len() as int) > usize::MAX,
                _ => false,
            },
            r matches Ok(l) ==> {
                &&& l.wf()
                &&& l.fields@.len() == header.fields@.len()
                &&& forall|j: int|
                    0 <= j < header.fields@.len() ==> {
                        &&& (#[trigger] l.fields@[j]).name@ == header.fields@[j]@
                        &&& l.fields@[j].type_ == resolve_type(
                            header.types@[j],
                            header.sizes@[j] as int,
                        )->Some_0
                        &&& l.fields@[j].count == count_at(header, j)
                        &&& l.fields@[j].offset == offset_of(header, j)
                    }
                &&& l.total_size == offset_of(header, header.fields@.len() as int)
            },
    {
        let n = header.fields.len();
        let mut fields: Vec<FieldLayout> = Vec::new();
        let mut offset: usize = 0;
        let mut i: usize = 0;
        while i < n
            invariant
                n == header.fields@.len(),
                i <= n,
                fields@.len() == i,
                offset == offset_of(header, i as int),
                header.types@.len() >= i,
                header.sizes@.len() >= i,
                forall|j: int|
                    0 <= j < i ==> resolve_type(header.types@[j], #[trigger] header.sizes@[j] as int)
                        is Some,
                forall|j: int|
                    0 <= j < i ==> {
                        &&& (#[trigger] fields@[j]).name@ == header.fields@[j]@
                        &&& fields@[j].type_ == resolve_type(
                            header.types@[j],
                            header.sizes@[j] as int,
                        )->Some_0
                        &&& fields@[j].count == count_at(header, j)
                        &&& fields@[j].offset == offset_of(header, j)
                        &&& fields@[j].wf()
                    },
            decreases n - i,
        {
            if i >= header.types.len() {
                proof {
                    lemma_offset_nonneg(header, header.fields@.len() as int);
                }
                return Err(PcdError::LayoutMismatch { expected: n, got: i });
            }
            if i >= header.sizes.len() {
                proof {
                    lemma_offset_nonneg(header, header.fields@.len() as int);
                }
                return Err(PcdError::LayoutMismatch { expected: n, got: i });
            }
            let type_char = header.types[i];
            let size_in_header = header.sizes[i];
            let count: usize = if i < header.counts.len() {
                header.counts[i]
            } else {
                1
            };

            let value_type: ValueType = match resolve_type_exec(type_char, size_in_header) {
                Some(t) => t,
                None => {
                    proof {
                        assert(resolve_type(
                            header.types@[i as int],
                            header.sizes@[i as int] as int,
                        ) is None);
                    }
                    return Err(PcdError::UnsupportedType(describe_type(type_char, size_in_header)));
                },
            };

            let element_size = value_type.size();
            let field_size: usize = match element_size.checked_mul(count) {
                Some(s) => s,
                None => {
                    proof {
                        lemma_offset_step(header, i as int);
                        lemma_offset_mono(header, i as int + 1, header.fields@.len() as int);
                        assert(offset_of(header, header.fields@.len() as int) > usize::MAX);
                    }
                    return Err(PcdError::Other("field size overflows the address space".to_owned()));
                },
            };
            let new_offset: usize = match offset.checked_add(field_size) {
                Some(o) => o,
                None => {
                    proof {
                        lemma_offset_step(header, i as int);
                        lemma_offset_mono(header, i as int + 1, header.fields@.len() as int);
                        assert(offset_of(header, header.fields@.len() as int) > usize::MAX);
                    }
                    return Err(PcdError::Other("record stride overflows the address space".to_owned()));
                },
            };

            fields.push(
                FieldLayout {
                    name: header.fields[i].clone(),
                    offset,
                    size: field_size,
                    element_size,
                    count,
                    type_: value_type,
                },
            );
            proof {
                lemma_offset_step(header, i as int);
            }
            offset = new_offset;
            i = i + 1;
        }
        Ok(PcdLayout { fields, total_size: offset })
    }

    /// The first field carrying `name`, if any.
    pub fn get_field(&self, name: &str) -> (r: Option<&FieldLayout>)
        ensures
            r is Some <==> exists|j: int|
                0 <= j < self.fields@.len() && (#[trigger] self.fields@[j]).name@ == name@,
            r matches Some(f) ==> exists|j: int|
                {
                    &&& 0 <= j < self.fields@.len()
                    &&& *f == self.fields@[j]
                    &&& (#[trigger] self.fields@[j]).name@ == name@
                    &&& forall|k: int| 0 <= k < j ==> self.fields@[k].name@ != name@
                },
    {
        let name_string: String = name.to_owned();
        let n = self.fields.len();
        let mut j: usize = 0;
        while j < n
            invariant
                n == self.fields@.len(),
                j <= n,
                name_string@ == name@,
                forall|k: int| 0 <= k < j ==> (#[trigger] self.fields@[k]).name@ != name@,
            decreases n - j,
        {
            if self.fields[j].name == name_string {
                proof {
                    assert((self.fields@[j as int]).name@ == name@);
                }
                return Some(&self.fields[j]);
            }
            j = j + 1;
        }
        None
    }
}

/// Exec mirror of [`resolve_type`].
fn resolve_type_exec(tc: char, size: usize) -> (r: Option<ValueType>)
    ensures
        r == resolve_type(tc, size as int),
{
    if tc == 'I' {
        if size == 1 {
            Some(ValueType::I8)
        } else if size == 2 {
            Some(ValueType::I16)
        } else if size == 4 {
            Some(ValueType::I32)
        } else {
            None
        }
    } else if tc == 'U' {
        if size == 1 {
            Some(ValueType::U8)
        } else if size == 2 {
            Some(ValueType::U16)
        } else if size == 4 {
            Some(ValueType::U32)
        } else {
            None
        }
    } else if tc == 'F' {
        if size == 4 {
            Some(ValueType::F32)
        } else if size == 8 {
            Some(ValueType::F64)
        } else {
            None
        }
    } else {
        None
    }
}

/// Names an unsupported type/size combination for error messages, as the
/// type character followed by the declared size.
fn describe_type(tc: char, size: usize) -> (r: String) {
    let mut s = tc.to_string();
    let digits = size.to_string();
    s.append(digits.as_str());
    s
}

/// Field widths are nonnegative, so offsets only grow.
pub proof fn lemma_offset_step(h: &PcdHeader, i: int)
    requires
        0 <= i,
    ensures
        offset_of(h, i + 1) == offset_of(h, i) + field_width(h, i),
{
}

pub proof fn lemma_offset_nonneg(h: &PcdHeader, i: int)
    ensures
        offset_of(h, i) >= 0,
    decreases
            if i >= 0 {
                i
            } else {
                0
            },
{
    if i > 0 {
        lemma_offset_nonneg(h, i - 1);
        assert(field_width(h, i - 1) >= 0) by {
            assert(count_at(h, i - 1) >= 0);
            assert(resolve_type(h.types@[i - 1], h.sizes@[i - 1] as int)->Some_0.size_spec() >= 0);
        }
    }
}

pub proof fn lemma_offset_mono(h: &PcdHeader, i: int, j: int)
    requires
        0 <= i <= j,
    ensures
        offset_of(h, i) <= offset_of(h, j),
    decreases j - i,
{
    if i < j {
        lemma_offset_mono(h, i, j - 1);
        lemma_offset_step(h, j - 1);
        assert(field_width(h, j - 1) >= 0) by {
            assert(count_at(h, j - 1) >= 0);
        }
    }
}

} // verus!
