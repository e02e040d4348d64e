use vstd::prelude::*;

use crate::header::ValueType;
use crate::lebytes::{
    elem_fits, exec_i16_of_u16, exec_i32_of_u32, exec_i8_of_u8, exec_u16_of_i16, exec_u32_of_i32,
    exec_u8_of_i8, i16_of_u16, i32_of_u32, i8_of_u8, u16_of_i16, u32_of_i32, u8_of_i8,
};

verus! {

/// One contiguous typed array holding every point's value for a single field.
///
/// Float elements are stored as their IEEE 754 bit patterns (`u32` for
/// 4-byte floats, `u64` for 8-byte floats); the adapters around the library
/// reinterpret the patterns where plain float views are wanted.
#[derive(Debug, Clone)]
pub enum Column {
    U8(Vec<u8>),
    U16(Vec<u16>),
    U32(Vec<u32>),
    I8(Vec<i8>),
    I16(Vec<i16>),
    I32(Vec<i32>),
    F32(Vec<u32>),
    F64(Vec<u64>),
}

impl Column {
    /// The element type this column holds.
    #[verifier::opaque]
    pub open spec fn value_type(&self) -> ValueType {
        match self {
            Column::U8(_) => ValueType::U8,
            Column::U16(_) => ValueType::U16,
            Column::U32(_) => ValueType::U32,
            Column::I8(_) => ValueType::I8,
            Column::I16(_) => ValueType::I16,
            Column::I32(_) => ValueType::I32,
            Column::F32(_) => ValueType::F32,
            Column::F64(_) => ValueType::F64,
        }
    }

    /// The column's contents as element bit patterns, signed values mapped
    /// to their two's-complement patterns.
    #[verifier::opaque]
    pub open spec fn data(&self) -> Seq<u64> {
        match self {
            Column::U8(v) => v@.map_values(|x: u8| x as u64),
            Column::U16(v) => v@.map_values(|x: u16| x as u64),
            Column::U32(v) => v@.map_values(|x: u32| x as u64),
            Column::I8(v) => v@.map_values(|x: i8| u8_of_i8(x) as u64),
            Column::I16(v) => v@.map_values(|x: i16| u16_of_i16(x) as u64),
            Column::I32(v) => v@.map_values(|x: i32| u32_of_i32(x) as u64),
            Column::F32(v) => v@.map_values(|x: u32| x as u64),
            Column::F64(v) => v@,
        }
    }

    /// Every stored bit pattern fits its element type.
    pub proof fn lemma_data_fits(&self)
        ensures
            forall|i: int|
                0 <= i < self.data().len() ==> elem_fits(
                    self.value_type(),
                    #[trigger] self.data()[i],
                ),
    {
        reveal(Column::value_type);
        reveal(Column::data);
    }

    /// A fresh zero-filled column of the given type and length.
    pub fn new(value_type: ValueType, capacity: usize) -> (c: Column)
        ensures
            c.value_type() == value_type,
            c.data() =~= Seq::new(capacity as nat, |i: int| 0u64),
    {
        proof {
            reveal(Column::value_type);
            reveal(Column::data);
        }
        match value_type {
            ValueType::U8 => {
                let mut v: Vec<u8> = Vec::new();
                v.resize(capacity, 0);
                Column::U8(v)
            },
            ValueType::U16 => {
                let mut v: Vec<u16> = Vec::new();
                v.resize(capacity, 0);
                Column::U16(v)
            },
            ValueType::U32 => {
                let mut v: Vec<u32> = Vec::new();
                v.resize(capacity, 0);
                Column::U32(v)
            },
            ValueType::I8 => {
                let mut v: Vec<i8> = Vec::new();
                v.resize(capacity, 0);
                Column::I8(v)
            },
            ValueType::I16 => {
                let mut v: Vec<i16> = Vec::new();
                v.resize(capacity, 0);
                Column::I16(v)
            },
            ValueType::I32 => {
                let mut v: Vec<i32> = Vec::new();
                v.resize(capacity, 0);
                Column::I32(v)
            },
            ValueType::F32 => {
                let mut v: Vec<u32> = Vec::new();
                v.resize(capacity, 0);
                Column::F32(v)
            },
            ValueType::F64 => {
                let mut v: Vec<u64> = Vec::new();
                v.resize(capacity, 0);
                Column::F64(v)
            },
        }
    }

    /// Resize to the new length, zero-extending or truncating.
    pub fn resize(&mut self, new_len: usize)
        ensures
            final(self).value_type() == old(self).value_type(),
            new_len <= old(self).data().len() ==> final(self).data() =~= old(self).data().take(
                new_len as int,
            ),
            new_len > old(self).data().len() ==> final(self).data() =~= old(self).data()
                + Seq::new((new_len - old(self).data().len()) as nat, |i: int| 0u64),
    {
        proof {
            reveal(Column::value_type);
            reveal(Column::data);
        }
        match self {
            Column::U8(v) => v.resize(new_len, 0),
            Column::U16(v) => v.resize(new_len, 0),
            Column::U32(v) => v.resize(new_len, 0),
            Column::I8(v) => v.resize(new_len, 0),
            Column::I16(v) => v.resize(new_len, 0),
            Column::I32(v) => v.resize(new_len, 0),
            Column::F32(v) => v.resize(new_len, 0),
            Column::F64(v) => v.resize(new_len, 0),
        }
    }

    pub fn len(&self) -> (n: usize)
        ensures
            n == self.data().len(),
    {
        proof {
            reveal(Column::data);
        }
        match self {
            Column::U8(v) => v.len(),
            Column::U16(v) => v.len(),
            Column::U32(v) => v.len(),
            Column::I8(v) => v.len(),
            Column::I16(v) => v.len(),
            Column::I32(v) => v.len(),
            Column::F32(v) => v.len(),
            Column::F64(v) => v.len(),
        }
    }

    /// Exec mirror of [`Column::value_type`].
    pub fn element_type(&self) -> (t: ValueType)
        ensures
            t == self.value_type(),
    {
        proof {
            reveal(Column::value_type);
        }
        match self {
            Column::U8(_) => ValueType::U8,
            Column::U16(_) => ValueType::U16,
            Column::U32(_) => ValueType::U32,
            Column::I8(_) => ValueType::I8,
            Column::I16(_) => ValueType::I16,
            Column::I32(_) => ValueType::I32,
            Column::F32(_) => ValueType::F32,
            Column::F64(_) => ValueType::F64,
        }
    }

    pub fn is_empty(&self) -> (r: bool)
        ensures
            r == (self.data().len() == 0),
    {
        self.len() == 0
    }

    /// The bit pattern stored at row `i`.
    pub fn get_bits(&self, i: usize) -> (r: u64)
        requires
            i < self.data().len(),
        ensures
            r == self.data()[i as int],
            elem_fits(self.value_type(), r),
    {
        proof {
            reveal(Column::value_type);
            reveal(Column::data);
        }
        match self {
            Column::U8(v) => v[i] as u64,
            Column::U16(v) => v[i] as u64,
            Column::U32(v) => v[i] as u64,
            Column::I8(v) => exec_u8_of_i8(v[i]) as u64,
            Column::I16(v) => exec_u16_of_i16(v[i]) as u64,
            Column::I32(v) => exec_u32_of_i32(v[i]) as u64,
            Column::F32(v) => v[i] as u64,
            Column::F64(v) => v[i],
        }
    }

    /// Store the bit pattern `bits` at row `i`.
    pub fn set_bits(&mut self, i: usize, bits: u64)
        requires
            i < old(self).data().len(),
            elem_fits(old(self).value_type(), bits),
        ensures
            final(self).value_type() == old(self).value_type(),
            final(self).data() =~= old(self).data().update(i as int, bits),
    {
        proof {
            reveal(Column::value_type);
            reveal(Column::data);
        }
        match self {
            Column::U8(v) => {
                v[i] = bits as u8;
            },
            Column::U16(v) => {
                v[i] = bits as u16;
            },
            Column::U32(v) => {
                v[i] = bits as u32;
            },
            Column::I8(v) => {
                v[i] = exec_i8_of_u8(bits as u8);
            },
            Column::I16(v) => {
                v[i] = exec_i16_of_u16(bits as u16);
            },
            Column::I32(v) => {
                v[i] = exec_i32_of_u32(bits as u32);
            },
            Column::F32(v) => {
                v[i] = bits as u32;
            },
            Column::F64(v) => {
                v[i] = bits;
            },
        }
    }

    pub fn as_u8(&self) -> (r: Option<&Vec<u8>>)
        ensures
            r is Some <==> self.value_type() == ValueType::U8,
            r matches Some(v) ==> v@.map_values(|x: u8| x as u64) == self.data(),
    {
        proof {
            reveal(Column::value_type);
            reveal(Column::data);
        }
        if let Column::U8(v) = self {
            Some(v)
        } else {
            None
        }
    }

    pub fn as_u16(&self) -> (r: Option<&Vec<u16>>)
        ensures
            r is Some <==> self.value_type() == ValueType::U16,
            r matches Some(v) ==> v@.map_values(|x: u16| x as u64) == self.data(),
    {
        proof {
            reveal(Column::value_type);
            reveal(Column::data);
        }
        if let Column::U16(v) = self {
            Some(v)
        } else {
            None
        }
    }

    pub fn as_u32(&self) -> (r: Option<&Vec<u32>>)
        ensures
            r is Some <==> self.value_type() == ValueType::U32,
            r matches Some(v) ==> v@.map_values(|x: u32| x as u64) == self.data(),
    {
        proof {
            reveal(Column::value_type);
            reveal(Column::data);
        }
        if let Column::U32(v) = self {
            Some(v)
        } else {
            None
        }
    }

    pub fn as_i8(&self) -> (r: Option<&Vec<i8>>)
        ensures
            r is Some <==> self.value_type() == ValueType::I8,
            r matches Some(v) ==> v@.map_values(|x: i8| u8_of_i8(x) as u64) == self.data(),
    {
        proof {
            reveal(Column::value_type);
            reveal(Column::data);
        }
        if let Column::I8(v) = self {
            Some(v)
        } else {
            None
        }
    }

    pub fn as_i16(&self) -> (r: Option<&Vec<i16>>)
        ensures
            r is Some <==> self.value_type() == ValueType::I16,
            r matches Some(v) ==> v@.map_values(|x: i16| u16_of_i16(x) as u64) == self.data(),
    {
        proof {
            reveal(Column::value_type);
            reveal(Column::data);
        }
        if let Column::I16(v) = self {
            Some(v)
        } else {
            None
        }
    }

    pub fn as_i32(&self) -> (r: Option<&Vec<i32>>)
        ensures
            r is Some <==> self.value_type() == ValueType::I32,
            r matches Some(v) ==> v@.map_values(|x: i32| u32_of_i32(x) as u64) == self.data(),
    {
        proof {
            reveal(Column::value_type);
            reveal(Column::data);
        }
        if let Column::I32(v) = self {
            Some(v)
        } else {
            None
        }
    }

    /// Bit patterns of a column of 4-byte floats.
    pub fn as_f32(&self) -> (r: Option<&Vec<u32>>)
        ensures
            r is Some <==> self.value_type() == ValueType::F32,
            r matches Some(v) ==> v@.map_values(|x: u32| x as u64) == self.data(),
    {
        proof {
            reveal(Column::value_type);
            reveal(Column::data);
        }
        if let Column::F32(v) = self {
            Some(v)
        } else {
            None
        }
    }

    /// Bit patterns of a column of 8-byte floats.
    pub fn as_f64(&self) -> (r: Option<&Vec<u64>>)
        ensures
            r is Some <==> self.value_type() == ValueType::F64,
            r matches Some(v) ==> v@ == self.data(),
    {
        proof {
            reveal(Column::value_type);
            reveal(Column::data);
        }
        if let Column::F64(v) = self {
            Some(v)
        } else {
            None
        }
    }

    /// Bit patterns of a column of 4-byte floats, under the historical name.
    pub fn as_f32_slice(&self) -> (r: Option<&Vec<u32>>)
        ensures
            r is Some <==> self.value_type() == ValueType::F32,
            r matches Some(v) ==> v@.map_values(|x: u32| x as u64) == self.data(),
    {
        self.as_f32()
    }
}

/// Structure-of-arrays storage: one column per field, all sharing one
/// logical length, addressable by name or by stable index.
#[derive(Debug)]
pub struct PointBlock {
    pub columns: Vec<Column>,
    pub schema: Vec<String>,
    pub len: usize,
}

impl PointBlock {
    /// One column per schema entry, and every column's length equals `len`.
    pub open spec fn wf(&self) -> bool {
        &&& self.columns@.len() == self.schema@.len()
        &&& forall|c: int|
            0 <= c < self.columns@.len() ==> (#[trigger] self.columns@[c]).data().len() == self.len
    }

    pub open spec fn num_cols(&self) -> int {
        self.columns@.len() as int
    }

    pub open spec fn col_type(&self, c: int) -> ValueType {
        self.columns@[c].value_type()
    }

    pub open spec fn col_data(&self, c: int) -> Seq<u64> {
        self.columns@[c].data()
    }

    pub open spec fn name_at(&self, c: int) -> Seq<char> {
        self.schema@[c]@
    }

    /// The first schema index carrying `name`, if any.
    pub open spec fn found_index(&self, name: Seq<char>, c: int) -> bool {
        &&& 0 <= c < self.schema@.len()
        &&& self.name_at(c) == name
        &&& forall|j: int| 0 <= j < c ==> self.name_at(j) != name
    }

    pub open spec fn has_name(&self, name: Seq<char>) -> bool {
        exists|c: int| 0 <= c < self.schema@.len() && self.name_at(c) == name
    }

    /// The first index of `name` in the schema, or -1 when absent, as a
    /// total function.
    pub open spec fn first_index(&self, name: Seq<char>) -> int {
        first_index_of(self.schema@, name)
    }

    /// `found_index` and `first_index` agree.
    pub proof fn lemma_first_index(&self, name: Seq<char>)
        ensures
            self.has_name(name) ==> self.found_index(name, self.first_index(name)),
            !self.has_name(name) ==> self.first_index(name) == -1,
    {
        lemma_first_index_of(self.schema@, name);
        if self.has_name(name) {
            assert(exists|c: int| 0 <= c < self.schema@.len() && self.schema@[c]@ == name);
        } else {
            if first_index_of(self.schema@, name) >= 0 {
                let c = first_index_of(self.schema@, name);
                assert(0 <= c < self.schema@.len() && self.name_at(c) == name);
            }
        }
    }

    /// An empty store with no columns.
    pub fn empty() -> (r: PointBlock)
        ensures
            r.wf(),
            r.num_cols() == 0,
            r.len == 0,
    {
        PointBlock { columns: Vec::new(), schema: Vec::new(), len: 0 }
    }

    /// A store with one zero-filled column of length `capacity` per schema
    /// entry, in schema order.
    pub fn new(schema: &Vec<(String, ValueType)>, capacity: usize) -> (r: PointBlock)
        ensures
            r.wf(),
            r.len == capacity,
            r.num_cols() == schema@.len(),
            forall|c: int| 0 <= c < schema@.len() ==> r.name_at(c) == schema@[c].0@,
            forall|c: int| 0 <= c < schema@.len() ==> r.col_type(c) == schema@[c].1,
            forall|c: int|
                0 <= c < schema@.len() ==> r.col_data(c) =~= Seq::new(
                    capacity as nat,
                    |i: int| 0u64,
                ),
    {
        let mut columns: Vec<Column> = Vec::new();
        let mut names: Vec<String> = Vec::new();
        let mut k: usize = 0;
        while k < schema.len()
            invariant
                k <= schema@.len(),
                columns@.len() == k,
                names@.len() == k,
                forall|c: int| 0 <= c < k ==> names@[c]@ == schema@[c].0@,
                forall|c: int|
                    0 <= c < k ==> (#[trigger] columns@[c]).value_type() == schema@[c].1,
                forall|c: int|
                    0 <= c < k ==> (#[trigger] columns@[c]).data() =~= Seq::new(
                        capacity as nat,
                        |i: int| 0u64,
                    ),
            decreases schema@.len() - k,
        {
            let (name, vtype) = &schema[k];
            columns.push(Column::new(*vtype, capacity));
            names.push(name.clone());
            k = k + 1;
        }
        PointBlock { columns, schema: names, len: capacity }
    }

    /// Resize every column to `new_len` in lockstep, zero-filling new rows.
    pub fn resize(&mut self, new_len: usize)
        requires
            old(self).wf(),
        ensures
            final(self).wf(),
            final(self).len == new_len,
            final(self).num_cols() == old(self).num_cols(),
            forall|c: int|
                0 <= c < old(self).num_cols() ==> final(self).name_at(c) == old(self).name_at(c),
            forall|c: int|
                0 <= c < old(self).num_cols() ==> final(self).col_type(c) == old(self).col_type(c),
            forall|c: int|
                0 <= c < old(self).num_cols() ==> final(self).col_data(c) =~= (
                if new_len <= old(self).len {
                    old(self).col_data(c).take(new_len as int)
                } else {
                    old(self).col_data(c) + Seq::new((new_len - old(self).len) as nat, |i: int| 0u64)
                }),
    {
        let n = self.columns.len();
        let mut c: usize = 0;
        while c < n
            invariant
                n == self.columns@.len(),
                self.schema@ == old(self).schema@,
                self.len == old(self).len,
                old(self).wf(),
                c <= n,
                n == old(self).columns@.len(),
                forall|j: int|
                    c <= j < n ==> (#[trigger] self.columns@[j]) == old(self).columns@[j],
                forall|j: int|
                    0 <= j < c ==> (#[trigger] self.columns@[j]).value_type() == old(
                        self,
                    ).columns@[j].value_type(),
                forall|j: int|
                    0 <= j < c ==> (#[trigger] self.columns@[j]).data() =~= (
                    if new_len <= old(self).len {
                        old(self).columns@[j].data().take(new_len as int)
                    } else {
                        old(self).columns@[j].data() + Seq::new(
                            (new_len - old(self).len) as nat,
                            |i: int| 0u64,
                        )
                    }),
            decreases n - c,
        {
            let col = &mut self.columns[c];
            col.resize(new_len);
            c = c + 1;
        }
        self.len = new_len;
    }

    /// Read-only column lookup by name: the first schema entry with that
    /// name, or `None` when the name is absent.
    pub fn get_column(&self, name: &str) -> (r: Option<&Column>)
        requires
            self.wf(),
        ensures
            r is Some <==> self.has_name(name@),
            r matches Some(col) ==> exists|c: int|
                self.found_index(name@, c) && *col == self.columns@[c],
    {
        match self.get_column_index(name) {
            Some(idx) => Some(&self.columns[idx]),
            None => None,
        }
    }

    /// O(1) indexed access to a column.
    pub fn get_column_by_index(&self, index: usize) -> (r: Option<&Column>)
        ensures
            r is Some <==> index < self.num_cols(),
            r matches Some(col) ==> *col == self.columns@[index as int],
    {
        if index < self.columns.len() {
            Some(&self.columns[index])
        } else {
            None
        }
    }

    /// The index of the first schema entry carrying `name`.
    pub fn get_column_index(&self, name: &str) -> (r: Option<usize>)
        ensures
            r is Some <==> self.has_name(name@),
            r matches Some(c) ==> self.found_index(name@, c as int),
    {
        let name_string: String = name.to_owned();
        let n = self.schema.len();
        let mut c: usize = 0;
        while c < n
            invariant
                n == self.schema@.len(),
                c <= n,
                name_string@ == name@,
                forall|j: int| 0 <= j < c ==> self.schema@[j]@ != name@,
            decreases n - c,
        {
            if self.schema[c] == name_string {
                proof {
                    assert(0 <= c < self.schema@.len() && self.name_at(c as int) == name@);
                }
                return Some(c);
            }
            c = c + 1;
        }
        proof {
            assert forall|j: int| 0 <= j < self.schema@.len() implies self.name_at(j) != name@ by {
                assert(self.schema@[j]@ != name@);
            }
        }
        None
    }

    /// Field names in schema order.
    pub fn schema(&self) -> (r: &Vec<String>)
        ensures
            r@ == self.schema@,
    {
        &self.schema
    }

    pub fn num_columns(&self) -> (r: usize)
        ensures
            r == self.num_cols(),
    {
        self.columns.len()
    }

    /// The element type of column `c`.
    pub fn col_type_at(&self, c: usize) -> (t: ValueType)
        requires
            c < self.num_cols(),
        ensures
            t == self.col_type(c as int),
    {
        self.columns[c].element_type()
    }

    /// The bit pattern of row `i` of column `c`.
    pub fn get_bits_at(&self, c: usize, i: usize) -> (r: u64)
        requires
            c < self.num_cols(),
            i < self.col_data(c as int).len(),
        ensures
            r == self.col_data(c as int)[i as int],
            elem_fits(self.col_type(c as int), r),
    {
        self.columns[c].get_bits(i)
    }

    /// Store the bit pattern `bits` in row `i` of column `c`.
    pub fn set_bits_at(&mut self, c: usize, i: usize, bits: u64)
        requires
            c < old(self).num_cols(),
            i < old(self).col_data(c as int).len(),
            elem_fits(old(self).col_type(c as int), bits),
        ensures
            final(self).len == old(self).len,
            final(self).num_cols() == old(self).num_cols(),
            final(self).schema@ == old(self).schema@,
            final(self).col_type(c as int) == old(self).col_type(c as int),
            final(self).col_data(c as int) =~= old(self).col_data(c as int).update(
                i as int,
                bits,
            ),
            forall|j: int|
                0 <= j < old(self).num_cols() && j != c ==> final(self).columns@[j] == old(
                    self,
                ).columns@[j],
            old(self).wf() ==> final(self).wf(),
    {
        let col = &mut self.columns[c];
        col.set_bits(i, bits);
    }

    /// Verified-disjoint multi-column access: maps each requested name to
    /// its column index, after checking that the names are pairwise
    /// distinct and all present in the schema.
    ///
    /// The returned indices are pairwise distinct, so the columns they
    /// address occupy disjoint storage slots; a duplicated or unknown name
    /// yields `None` and no indices at all.
    pub fn get_columns_mut(&self, names: &[String]) -> (r: Option<Vec<usize>>)
        ensures
            r is Some <==> ((forall|a: int, b: int|
                0 <= a < b < names@.len() ==> names@[a]@ != names@[b]@) && (forall|a: int|
                0 <= a < names@.len() ==> self.has_name(#[trigger] names@[a]@))),
            r matches Some(idxs) ==> {
                &&& idxs@.len() == names@.len()
                &&& forall|a: int|
                    0 <= a < names@.len() ==> self.found_index(
                        names@[a]@,
                        #[trigger] idxs@[a] as int,
                    )
                &&& forall|a: int, b: int| 0 <= a < b < idxs@.len() ==> idxs@[a] != idxs@[b]
            },
    {
        let n = names.len();
        let mut a: usize = 0;
        while a < n
            invariant
                n == names@.len(),
                a <= n,
                forall|x: int, y: int| 0 <= x < y < n && x < a ==> names@[x]@ != names@[y]@,
            decreases n - a,
        {
            let mut b = a + 1;
            while b < n
                invariant
                    n == names@.len(),
                    a < n || a == n,
                    a < b || b == a + 1,
                    b <= n,
                    a + 1 <= b,
                    forall|x: int, y: int| 0 <= x < y < n && x < a ==> names@[x]@ != names@[y]@,
                    forall|y: int| a < y < b ==> names@[a as int]@ != names@[y]@,
                decreases n - b,
            {
                if names[a] == names[b] {
                    proof {
                        assert(names@[a as int]@ == names@[b as int]@);
                    }
                    return None;
                }
                b = b + 1;
            }
            a = a + 1;
        }
        let mut idxs: Vec<usize> = Vec::new();
        let mut a: usize = 0;
        while a < n
            invariant
                n == names@.len(),
                a <= n,
                idxs@.len() == a,
                forall|x: int, y: int| 0 <= x < y < n ==> names@[x]@ != names@[y]@,
                forall|x: int|
                    0 <= x < a ==> self.found_index(names@[x]@, #[trigger] idxs@[x] as int),
            decreases n - a,
        {
            match self.get_column_index(names[a].as_str()) {
                Some(idx) => idxs.push(idx),
                None => {
                    return None;
                },
            }
            a = a + 1;
        }
        proof {
            assert forall|x: int, y: int| 0 <= x < y < idxs@.len() implies idxs@[x]
                != idxs@[y] by {
                assert(self.name_at(idxs@[x] as int) == names@[x]@);
                assert(self.name_at(idxs@[y] as int) == names@[y]@);
            }
            assert forall|x: int| 0 <= x < names@.len() implies self.has_name(
                #[trigger] names@[x]@,
            ) by {
                assert(self.found_index(names@[x]@, idxs@[x] as int));
                assert(0 <= (idxs@[x] as int) < self.schema@.len());
                assert(self.name_at(idxs@[x] as int) == names@[x]@);
            }
        }
        Some(idxs)
    }
}

/// A sequence resized to `n` entries, zero bit patterns filling new rows.
pub open spec fn resized(d: Seq<u64>, n: int) -> Seq<u64> {
    if n <= d.len() {
        d.take(n)
    } else {
        d + Seq::new((n - d.len()) as nat, |i: int| 0u64)
    }
}

/// The first index of `name` in `names`, or -1 when absent.
pub open spec fn first_index_of(names: Seq<String>, name: Seq<char>) -> int
    decreases names.len(),
{
    if names.len() == 0 {
        -1
    } else if names[0]@ == name {
        0
    } else {
        let r = first_index_of(names.drop_first(), name);
        if r < 0 {
            -1
        } else {
            r + 1
        }
    }
}

pub proof fn lemma_first_index_of(names: Seq<String>, name: Seq<char>)
    ensures
        (exists|c: int| 0 <= c < names.len() && names[c]@ == name) ==> {
            let r = first_index_of(names, name);
            &&& 0 <= r < names.len()
            &&& names[r]@ == name
            &&& forall|j: int| 0 <= j < r ==> names[j]@ != name
        },
        !(exists|c: int| 0 <= c < names.len() && names[c]@ == name) ==> first_index_of(names, name)
            == -1,
    decreases names.len(),
{
    if names.len() > 0 {
        lemma_first_index_of(names.drop_first(), name);
        if names[0]@ != name {
            if exists|c: int| 0 <= c < names.len() && names[c]@ == name {
                let c = choose|c: int| 0 <= c < names.len() && names[c]@ == name;
                assert(names.drop_first()[c - 1]@ == name);
                let r2 = first_index_of(names.drop_first(), name);
                assert(0 <= r2 < names.drop_first().len());
                assert(names.drop_first()[r2] == names[r2 + 1]);
                assert forall|j: int| 0 <= j < r2 + 1 implies names[j]@ != name by {
                    if j >= 1 {
                        assert(names.drop_first()[j - 1]@ != name);
                    }
                }
            } else {
                assert forall|c: int|
                    0 <= c < names.drop_first().len() implies names.drop_first()[c]@ != name by {
                    assert(names[c + 1]@ != name);
                }
            }
        }
    }
}

impl Default for PointBlock {
    fn default() -> (r: Self)
        ensures
            r.wf(),
            r.num_cols() == 0,
            r.len == 0,
    {
        PointBlock::empty()
    }
}

} // verus!
