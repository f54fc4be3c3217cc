//! Tensor descriptors, the data section, and loaded tensors.

use vstd::prelude::*;
use vstd::slice::{slice_subrange, slice_to_vec};
use vstd::utf8::decode_utf8_encode_utf8;
use crate::metadata::{read_string, read_u32_le, read_u64_le, GgufError, TensorType};
use crate::reader::ByteReader;
use crate::strmap::StringMap;
use crate::wire::{
    decode_tensor_info, decode_tensor_infos, le_u16_at, le_u32_at, le_u64_at,
    lemma_tensor_infos_fault, MAX_TENSOR_NAME_LEN,
};

verus! {

/// What the file says about one tensor.
#[derive(Debug, PartialEq)]
pub struct TensorInfo {
    /// The name of the tensor, such as `blk.0.attn_norm.weight`.
    pub name: String,
    /// The number of dimensions.
    pub n_dims: u32,
    /// The size of each dimension.
    pub dims: Vec<u64>,
    /// The encoding of the elements.
    pub tensor_type: TensorType,
    /// Where the data starts, counted from the start of the data section.
    pub offset: u64,
}

/// What a [`TensorInfo`] holds, as mathematics.
pub struct TensorInfoView {
    pub name: Seq<char>,
    pub n_dims: u32,
    pub dims: Seq<u64>,
    pub tensor_type: TensorType,
    pub offset: u64,
}

impl View for TensorInfo {
    type V = TensorInfoView;

    open spec fn view(&self) -> TensorInfoView {
        TensorInfoView {
            name: self.name@,
            n_dims: self.n_dims,
            dims: self.dims@,
            tensor_type: self.tensor_type,
            offset: self.offset,
        }
    }
}

impl Clone for TensorInfo {
    fn clone(&self) -> (r: Self)
        ensures
            r@ == self@,
    {
        TensorInfo {
            name: self.name.clone(),
            n_dims: self.n_dims,
            dims: self.dims.clone(),
            tensor_type: self.tensor_type,
            offset: self.offset,
        }
    }
}

/// The product of the sizes: the number of elements of a tensor with these
/// dimensions. A tensor without dimensions is a scalar and has one element.
pub open spec fn product(dims: Seq<u64>) -> nat
    decreases dims.len(),
{
    if dims.len() == 0 {
        1
    } else {
        product(dims.drop_last()) * (dims.last() as nat)
    }
}

/// A dimension of size zero makes the product zero.
pub proof fn lemma_product_zero(dims: Seq<u64>, i: int)
    requires
        0 <= i < dims.len(),
        dims[i] == 0,
    ensures
        product(dims) == 0,
    decreases dims.len(),
{
    if i < dims.len() - 1 {
        lemma_product_zero(dims.drop_last(), i);
        assert(product(dims) == 0 * (dims.last() as nat));
    } else {
        assert(product(dims) == product(dims.drop_last()) * 0);
    }
}

/// With no dimension of size zero, the product over the first `i`
/// dimensions is at least one and no more than the product over all.
pub proof fn lemma_product_prefix(dims: Seq<u64>, i: int)
    requires
        0 <= i <= dims.len(),
        forall|j: int| 0 <= j < dims.len() ==> dims[j] != 0,
    ensures
        1 <= product(dims.take(i)) <= product(dims),
    decreases dims.len() - i,
{
    if i == dims.len() {
        assert(dims.take(i) =~= dims);
        lemma_product_positive(dims);
    } else {
        lemma_product_prefix(dims, i + 1);
        lemma_product_step(dims, i);
        let shorter = product(dims.take(i));
        let factor = dims[i] as nat;
        lemma_product_positive(dims.take(i));
        assert(shorter <= shorter * factor) by (nonlinear_arith)
            requires
                factor >= 1,
        ;
    }
}

/// The product over one more dimension.
pub proof fn lemma_product_step(dims: Seq<u64>, i: int)
    requires
        0 <= i < dims.len(),
    ensures
        product(dims.take(i + 1)) == product(dims.take(i)) * (dims[i] as nat),
{
    assert(dims.take(i + 1).drop_last() =~= dims.take(i));
}

proof fn lemma_product_positive(dims: Seq<u64>)
    requires
        forall|j: int| 0 <= j < dims.len() ==> dims[j] != 0,
    ensures
        product(dims) >= 1,
    decreases dims.len(),
{
    if dims.len() > 0 {
        lemma_product_positive(dims.drop_last());
        let shorter = product(dims.drop_last());
        let factor = dims.last() as nat;
        assert(shorter * factor >= 1) by (nonlinear_arith)
            requires
                shorter >= 1,
                factor >= 1,
        ;
    }
}

impl TensorInfo {
    /// The number of elements, where it fits in 64 bits.
    pub fn checked_element_count(&self) -> (r: Option<u64>)
        ensures
            r == if product(self.dims@) <= u64::MAX {
                Some(product(self.dims@) as u64)
            } else {
                None
            },
    {
        let mut i: usize = 0;
        while i < self.dims.len()
            invariant
                i <= self.dims@.len(),
                forall|j: int| 0 <= j < i ==> self.dims@[j] != 0,
            decreases self.dims@.len() - i,
        {
            if self.dims[i] == 0 {
                proof {
                    lemma_product_zero(self.dims@, i as int);
                }
                return Some(0);
            }
            i = i + 1;
        }
        let mut count: u64 = 1;
        let mut i: usize = 0;
        while i < self.dims.len()
            invariant
                i <= self.dims@.len(),
                forall|j: int| 0 <= j < self.dims@.len() ==> self.dims@[j] != 0,
                count == product(self.dims@.take(i as int)),
            decreases self.dims@.len() - i,
        {
            proof {
                lemma_product_step(self.dims@, i as int);
                lemma_product_prefix(self.dims@, i + 1);
            }
            match count.checked_mul(self.dims[i]) {
                None => {
                    return None;
                },
                Some(longer) => {
                    count = longer;
                },
            }
            i = i + 1;
        }
        assert(self.dims@.take(i as int) =~= self.dims@);
        Some(count)
    }

    /// The number of elements: the product of the dimensions.
    pub fn element_count(&self) -> (r: u64)
        requires
            product(self.dims@) <= u64::MAX,
        ensures
            r == product(self.dims@),
    {
        match self.checked_element_count() {
            Some(count) => count,
            None => 0,
        }
    }

    /// The size of the data in bytes.
    pub open spec fn spec_byte_size(&self) -> Option<u64> {
        match self.tensor_type.element_size() {
            None => None,
            Some(size) => if product(self.dims@) * size <= u64::MAX {
                Some((product(self.dims@) * size) as u64)
            } else {
                None
            },
        }
    }

    /// The size of the data in bytes: the number of elements times the size
    /// of one. It is `None` where the element size is indeterminate, as for
    /// every quantized type, and where the size does not fit in 64 bits.
    #[verifier::when_used_as_spec(spec_byte_size)]
    pub fn byte_size(&self) -> (r: Option<u64>)
        ensures
            r == self.spec_byte_size(),
    {
        let size = match self.tensor_type.element_size() {
            None => {
                return None;
            },
            Some(size) => size,
        };
        match self.checked_element_count() {
            None => {
                assert(product(self.dims@) * size >= product(self.dims@)) by (nonlinear_arith)
                    requires
                        size >= 1,
                ;
                None
            },
            Some(count) => count.checked_mul(size),
        }
    }

    /// Whether the tensor can be loaded directly.
    pub open spec fn spec_is_supported(&self) -> bool {
        self.tensor_type.is_supported()
    }

    /// Whether the tensor can be loaded directly: whether its element type
    /// has a known element size.
    #[verifier::when_used_as_spec(spec_is_supported)]
    pub fn is_supported(&self) -> (r: bool)
        ensures
            r == self.tensor_type.is_supported(),
    {
        self.tensor_type.is_supported()
    }
}

/// A tensor with its bytes.
#[derive(Debug, Clone)]
pub struct Tensor {
    /// What the file says about the tensor.
    pub info: TensorInfo,
    /// The bytes of the elements, as stored.
    pub data: Vec<u8>,
}

/// What a [`Tensor`] holds, as mathematics.
pub struct TensorView {
    pub info: TensorInfoView,
    pub data: Seq<u8>,
}

impl View for Tensor {
    type V = TensorView;

    open spec fn view(&self) -> TensorView {
        TensorView { info: self.info@, data: self.data@ }
    }
}

/// The elements of a tensor of floats, each as the bits it is stored in.
#[derive(Debug, PartialEq, Eq, Clone)]
pub enum FloatWords {
    /// Single-precision floats, 32 bits each.
    Single(Vec<u32>),
    /// Half-precision floats, 16 bits each.
    Half(Vec<u16>),
}

/// The 32-bit words that `data` is made of, in order.
pub open spec fn words32(data: Seq<u8>) -> Seq<u32> {
    Seq::new(data.len() / 4, |i: int| le_u32_at(data, 4 * i))
}

/// The 16-bit words that `data` is made of, in order.
pub open spec fn words16(data: Seq<u8>) -> Seq<u16> {
    Seq::new(data.len() / 2, |i: int| le_u16_at(data, 2 * i))
}

impl Tensor {
    /// The elements of a tensor of single-precision or half-precision
    /// floats, as their bits, in stored order.
    ///
    /// Data that is not a whole number of elements is refused with
    /// `InvalidDataLength`, and a tensor of any other type with
    /// `Unsupported`.
    pub fn float_words(&self) -> (r: Result<FloatWords, GgufError>)
        ensures
            match self.info.tensor_type {
                TensorType::F32 => if self.data@.len() % 4 == 0 {
                    r matches Ok(FloatWords::Single(words)) && words@ == words32(self.data@)
                } else {
                    r == Err::<FloatWords, GgufError>(
                        GgufError::InvalidDataLength(self.data@.len() as u64),
                    )
                },
                TensorType::F16 => if self.data@.len() % 2 == 0 {
                    r matches Ok(FloatWords::Half(words)) && words@ == words16(self.data@)
                } else {
                    r == Err::<FloatWords, GgufError>(
                        GgufError::InvalidDataLength(self.data@.len() as u64),
                    )
                },
                other => r == Err::<FloatWords, GgufError>(GgufError::Unsupported(other)),
            },
    {
        let len = self.data.len();
        match self.info.tensor_type {
            TensorType::F32 => {
                if len % 4 != 0 {
                    return Err(GgufError::InvalidDataLength(len as u64));
                }
                let mut words: Vec<u32> = Vec::new();
                let mut i: usize = 0;
                while i < len / 4
                    invariant
                        len == self.data@.len(),
                        len % 4 == 0,
                        i <= len / 4,
                        words@ =~= Seq::new(i as nat, |j: int| le_u32_at(self.data@, 4 * j)),
                    decreases len / 4 - i,
                {
                    let at = 4 * i;
                    let word = self.data[at] as u32 + self.data[at + 1] as u32 * 0x100
                        + self.data[at + 2] as u32 * 0x1_0000 + self.data[at + 3] as u32
                        * 0x100_0000;
                    words.push(word);
                    i = i + 1;
                }
                Ok(FloatWords::Single(words))
            },
            TensorType::F16 => {
                if len % 2 != 0 {
                    return Err(GgufError::InvalidDataLength(len as u64));
                }
                let mut words: Vec<u16> = Vec::new();
                let mut i: usize = 0;
                while i < len / 2
                    invariant
                        len == self.data@.len(),
                        len % 2 == 0,
                        i <= len / 2,
                        words@ =~= Seq::new(i as nat, |j: int| le_u16_at(self.data@, 2 * j)),
                    decreases len / 2 - i,
                {
                    let at = 2 * i;
                    let word = self.data[at] as u16 + self.data[at + 1] as u16 * 0x100;
                    words.push(word);
                    i = i + 1;
                }
                Ok(FloatWords::Half(words))
            },
            other => Err(GgufError::Unsupported(other)),
        }
    }
}

/// Where the bytes of a tensor lie in a file of `file_len` bytes whose data
/// section starts at `data_start`: the first byte and the number of bytes.
/// The range starts `offset` bytes into the data section and holds one
/// element size for each element; it must lie inside the file.
pub open spec fn tensor_range(info: TensorInfoView, data_start: u64, file_len: nat) -> Result<
    (int, int),
    GgufError,
> {
    match info.tensor_type.element_size() {
        None => Err(GgufError::Unsupported(info.tensor_type)),
        Some(size) => {
            let begin = data_start + info.offset;
            let length = product(info.dims) * size;
            if begin + length > file_len {
                Err(GgufError::OutOfBounds)
            } else {
                Ok((begin, length))
            }
        },
    }
}

/// What a mapping of tensors holds, as mathematics.
pub open spec fn tensors_model(tensors: StringMap<Tensor>) -> Map<Seq<char>, TensorView> {
    tensors@.map_values(|tensor: Tensor| tensor@)
}

/// The tensors that can be loaded from `file`, by name. A descriptor whose
/// range cannot be had is passed over; of two descriptors with one name
/// that can both be loaded, the later one stays.
pub open spec fn loaded_tensors(infos: Seq<TensorInfoView>, data_start: u64, file: Seq<u8>) -> Map<
    Seq<char>,
    TensorView,
>
    decreases infos.len(),
{
    if infos.len() == 0 {
        Map::empty()
    } else {
        let earlier = loaded_tensors(infos.drop_last(), data_start, file);
        match tensor_range(infos.last(), data_start, file.len()) {
            Ok((begin, length)) => earlier.insert(
                infos.last().name,
                TensorView { info: infos.last(), data: file.subrange(begin, begin + length) },
            ),
            Err(_) => earlier,
        }
    }
}

/// The descriptors that cannot be loaded from a file of `file_len` bytes,
/// in order: the place of each in the list, and why it is passed over.
pub open spec fn skipped(infos: Seq<TensorInfoView>, data_start: u64, file_len: nat) -> Seq<
    (usize, GgufError),
>
    decreases infos.len(),
{
    if infos.len() == 0 {
        Seq::empty()
    } else {
        let earlier = skipped(infos.drop_last(), data_start, file_len);
        match tensor_range(infos.last(), data_start, file_len) {
            Ok(_) => earlier,
            Err(fault) => earlier.push(((infos.len() - 1) as usize, fault)),
        }
    }
}

/// A descriptor is listed as skipped exactly when its range cannot be had,
/// and it is then listed with the fault of its range.
pub proof fn lemma_skipped(infos: Seq<TensorInfoView>, data_start: u64, file_len: nat, i: int)
    requires
        0 <= i < infos.len() <= usize::MAX,
    ensures
        tensor_range(infos[i], data_start, file_len) is Err <==> exists|k: int|
            0 <= k < skipped(infos, data_start, file_len).len() && (#[trigger] skipped(
                infos,
                data_start,
                file_len,
            )[k]).0 == i,
        forall|k: int|
            0 <= k < skipped(infos, data_start, file_len).len() && (#[trigger] skipped(
                infos,
                data_start,
                file_len,
            )[k]).0 == i ==> tensor_range(infos[i], data_start, file_len) == Err::<
                (int, int),
                GgufError,
            >(skipped(infos, data_start, file_len)[k].1),
    decreases infos.len(),
{
    let all = skipped(infos, data_start, file_len);
    let shorter = infos.drop_last();
    let earlier = skipped(shorter, data_start, file_len);
    lemma_skipped_places(shorter, data_start, file_len);
    if i < infos.len() - 1 {
        lemma_skipped(shorter, data_start, file_len, i);
        assert(shorter[i] == infos[i]);
        if tensor_range(infos[i], data_start, file_len) is Err {
            let k = choose|k: int| 0 <= k < earlier.len() && (#[trigger] earlier[k]).0 == i;
            assert(all[k] == earlier[k]);
        }
        assert forall|k: int| 0 <= k < all.len() && (#[trigger] all[k]).0 == i implies k
            < earlier.len() && all[k] == earlier[k] by {}
    } else {
        if tensor_range(infos[i], data_start, file_len) is Err {
            assert(all[all.len() - 1].0 == i);
        }
        assert forall|k: int| 0 <= k < all.len() && (#[trigger] all[k]).0 == i implies k
            == earlier.len() by {
            if k < earlier.len() {
                assert(all[k] == earlier[k]);
            }
        }
    }
}

/// Every place listed as skipped is a place of the list.
proof fn lemma_skipped_places(infos: Seq<TensorInfoView>, data_start: u64, file_len: nat)
    requires
        infos.len() <= usize::MAX,
    ensures
        skipped(infos, data_start, file_len).len() <= infos.len(),
        forall|k: int|
            0 <= k < skipped(infos, data_start, file_len).len() ==> (#[trigger] skipped(
                infos,
                data_start,
                file_len,
            )[k]).0 < infos.len(),
    decreases infos.len(),
{
    if infos.len() > 0 {
        lemma_skipped_places(infos.drop_last(), data_start, file_len);
        let all = skipped(infos, data_start, file_len);
        let earlier = skipped(infos.drop_last(), data_start, file_len);
        assert forall|k: int| 0 <= k < all.len() implies (#[trigger] all[k]).0 < infos.len() by {
            if k < earlier.len() {
                assert(all[k] == earlier[k]);
            }
        }
    }
}

/// The lookup from a tensor's name to its place in the list. Where a name
/// occurs more than once, the last place wins.
pub open spec fn name_index(infos: Seq<TensorInfoView>) -> Map<Seq<char>, usize>
    decreases infos.len(),
{
    if infos.len() == 0 {
        Map::empty()
    } else {
        name_index(infos.drop_last()).insert(infos.last().name, (infos.len() - 1) as usize)
    }
}

/// A name is in the lookup exactly when some descriptor bears it, and the
/// lookup then gives the last place at which it occurs.
pub proof fn lemma_name_index(infos: Seq<TensorInfoView>, name: Seq<char>)
    requires
        infos.len() <= usize::MAX,
    ensures
        name_index(infos).contains_key(name) <==> exists|i: int|
            0 <= i < infos.len() && (#[trigger] infos[i]).name == name,
        name_index(infos).contains_key(name) ==> {
            let at = name_index(infos)[name] as int;
            &&& 0 <= at < infos.len()
            &&& infos[at].name == name
            &&& forall|j: int| at < j < infos.len() ==> (#[trigger] infos[j]).name != name
        },
    decreases infos.len(),
{
    if infos.len() > 0 {
        let shorter = infos.drop_last();
        lemma_name_index(shorter, name);
        if infos.last().name == name {
            assert(infos[infos.len() - 1].name == name);
        } else if name_index(shorter).contains_key(name) {
            let i = choose|i: int| 0 <= i < shorter.len() && (#[trigger] shorter[i]).name == name;
            assert(infos[i].name == name);
            let at = name_index(shorter)[name] as int;
            assert forall|j: int| at < j < infos.len() implies (#[trigger] infos[j]).name
                != name by {
                if j < shorter.len() {
                    assert(shorter[j].name != name);
                }
            }
        } else {
            assert forall|i: int| 0 <= i < infos.len() implies (#[trigger] infos[i]).name
                != name by {
                if i < shorter.len() {
                    assert(shorter[i].name != name);
                }
            }
        }
    }
}

/// The number of elements of all the tensors together.
pub open spec fn total_elements(infos: Seq<TensorInfoView>) -> nat
    decreases infos.len(),
{
    if infos.len() == 0 {
        0
    } else {
        total_elements(infos.drop_last()) + product(infos.last().dims)
    }
}

proof fn lemma_total_prefix(infos: Seq<TensorInfoView>, i: int)
    requires
        0 <= i <= infos.len(),
    ensures
        total_elements(infos.take(i)) <= total_elements(infos),
    decreases infos.len() - i,
{
    if i == infos.len() {
        assert(infos.take(i) =~= infos);
    } else {
        lemma_total_prefix(infos, i + 1);
        assert(infos.take(i + 1).drop_last() =~= infos.take(i));
    }
}

/// The views of a list of descriptors, in order.
pub open spec fn infos_view(infos: Seq<TensorInfo>) -> Seq<TensorInfoView> {
    Seq::new(infos.len(), |i: int| infos[i]@)
}

/// Whether `got`, with the reader left at `next`, is what decoding `count`
/// tensor descriptors at `at` owes: on success the descriptors in stored
/// order and a reader left just after them; on failure the layout's fault
/// and a reader left where the layout says decoding stops.
pub open spec fn tensor_infos_outcome(
    bytes: Seq<u8>,
    at: int,
    count: nat,
    got: Result<Vec<TensorInfo>, GgufError>,
    next: int,
) -> bool {
    match decode_tensor_infos(bytes, at, count) {
        Ok((infos, after)) => {
            &&& got is Ok
            &&& infos_view(got->Ok_0@) == infos
            &&& next == after
        },
        Err((fault, stop)) => got == Err::<Vec<TensorInfo>, GgufError>(fault) && next == stop,
    }
}

/// The decoders and loaders for tensors.
pub struct TensorLoader;

impl TensorLoader {
    /// Reads all `n_tensors` descriptors of the block that follows the
    /// metadata, in stored order.
    ///
    /// On failure the reader is left at the start of the field that was cut
    /// short, or just after the field that was refused.
    #[verifier::loop_isolation(false)]
    pub fn read_tensor_info(reader: &mut ByteReader, n_tensors: u64) -> (r: Result<
        Vec<TensorInfo>,
        GgufError,
    >)
        requires
            old(reader).wf(),
        ensures
            final(reader).wf(),
            final(reader).source() == old(reader).source(),
            tensor_infos_outcome(
                old(reader).source(),
                old(reader).position() as int,
                n_tensors as nat,
                r,
                final(reader).position() as int,
            ),
    {
        let ghost start = reader.position() as int;
        let mut tensors: Vec<TensorInfo> = Vec::new();
        let mut i: u64 = 0;
        assert(infos_view(tensors@) =~= Seq::empty());
        while i < n_tensors
            invariant
                reader.wf(),
                reader.source() == old(reader).source(),
                i <= n_tensors,
                decode_tensor_infos(reader.source(), start, i as nat) == Ok::<
                    (Seq<TensorInfoView>, int),
                    (GgufError, int),
                >((infos_view(tensors@), reader.position() as int)),
            decreases n_tensors - i,
        {
            match Self::read_one(reader) {
                Err(fault) => {
                    proof {
                        lemma_tensor_infos_fault(
                            reader.source(),
                            start,
                            (i + 1) as nat,
                            n_tensors as nat,
                        );
                    }
                    return Err(fault);
                },
                Ok(info) => {
                    assert(infos_view(tensors@.push(info)) =~= infos_view(tensors@).push(info@));
                    tensors.push(info);
                },
            }
            i = i + 1;
        }
        Ok(tensors)
    }

    /// The position at which the data section starts: where the reader
    /// stands once the last descriptor has been read.
    pub fn get_tensor_data_start(reader: &ByteReader) -> (r: Result<u64, GgufError>)
        requires
            reader.wf(),
        ensures
            r == Ok::<u64, GgufError>(reader.position() as u64),
            reader.position() <= u64::MAX,
    {
        Ok(reader.offset() as u64)
    }

    /// Finds the bytes of a tensor in a file of `file_len` bytes: the index
    /// of the first byte, and the number of bytes.
    pub fn locate(tensor_info: &TensorInfo, tensor_data_start: u64, file_len: usize) -> (r: Result<
        (usize, usize),
        GgufError,
    >)
        ensures
            match tensor_range(tensor_info@, tensor_data_start, file_len as nat) {
                Ok((begin, length)) => r == Ok::<(usize, usize), GgufError>(
                    (begin as usize, length as usize),
                ) && begin + length <= file_len,
                Err(fault) => r == Err::<(usize, usize), GgufError>(fault),
            },
    {
        let size = match tensor_info.tensor_type.element_size() {
            None => {
                return Err(GgufError::Unsupported(tensor_info.tensor_type));
            },
            Some(size) => size,
        };
        let ghost elements = product(tensor_info.dims@);
        assert(elements * size >= elements) by (nonlinear_arith)
            requires
                size >= 1,
        ;
        let count = match tensor_info.checked_element_count() {
            None => {
                return Err(GgufError::OutOfBounds);
            },
            Some(count) => count,
        };
        let length = match count.checked_mul(size) {
            None => {
                return Err(GgufError::OutOfBounds);
            },
            Some(length) => length,
        };
        let begin = match tensor_data_start.checked_add(tensor_info.offset) {
            None => {
                return Err(GgufError::OutOfBounds);
            },
            Some(begin) => begin,
        };
        let end = match begin.checked_add(length) {
            None => {
                return Err(GgufError::OutOfBounds);
            },
            Some(end) => end,
        };
        if end > file_len as u64 {
            return Err(GgufError::OutOfBounds);
        }
        Ok((begin as usize, length as usize))
    }

    /// The bytes of a tensor inside `file`, borrowed from it.
    pub fn tensor_bytes<'a>(
        file: &'a [u8],
        tensor_info: &TensorInfo,
        tensor_data_start: u64,
    ) -> (r: Result<&'a [u8], GgufError>)
        ensures
            match tensor_range(tensor_info@, tensor_data_start, file@.len()) {
                Ok((begin, length)) => r is Ok && r->Ok_0@ == file@.subrange(
                    begin,
                    begin + length,
                ),
                Err(fault) => r == Err::<&[u8], GgufError>(fault),
            },
    {
        let (begin, length) = Self::locate(tensor_info, tensor_data_start, file.len())?;
        Ok(slice_subrange(file, begin, begin + length))
    }

    /// Loads one tensor from `file`: its descriptor and a copy of its bytes.
    pub fn load_tensor(file: &[u8], tensor_info: &TensorInfo, tensor_data_start: u64) -> (r: Result<
        Tensor,
        GgufError,
    >)
        ensures
            match tensor_range(tensor_info@, tensor_data_start, file@.len()) {
                Ok((begin, length)) => r is Ok && r->Ok_0@ == (TensorView {
                    info: tensor_info@,
                    data: file@.subrange(begin, begin + length),
                }),
                Err(fault) => r == Err::<Tensor, GgufError>(fault),
            },
    {
        let bytes = Self::tensor_bytes(file, tensor_info, tensor_data_start)?;
        Ok(Tensor { info: tensor_info.clone(), data: slice_to_vec(bytes) })
    }

    /// Loads every tensor that can be loaded and returns them by name.
    ///
    /// A tensor whose type cannot be loaded directly, or whose range does not
    /// lie inside the file, is left out; [`TensorLoader::skipped_tensors`]
    /// lists those with the reason for each. The call itself does not fail.
    pub fn load_all_tensors(
        file: &[u8],
        tensor_infos: &[TensorInfo],
        tensor_data_start: u64,
    ) -> (r: Result<StringMap<Tensor>, GgufError>)
        ensures
            r is Ok,
            r->Ok_0.wf(),
            tensors_model(r->Ok_0) == loaded_tensors(
                infos_view(tensor_infos@),
                tensor_data_start,
                file@,
            ),
    {
        let ghost infos = infos_view(tensor_infos@);
        let mut tensors: StringMap<Tensor> = StringMap::new();
        let mut i: usize = 0;
        assert(infos.take(0) =~= Seq::empty());
        assert(tensors_model(tensors) =~= Map::empty());
        while i < tensor_infos.len()
            invariant
                i <= tensor_infos@.len(),
                infos == infos_view(tensor_infos@),
                tensors.wf(),
                tensors_model(tensors) == loaded_tensors(
                    infos.take(i as int),
                    tensor_data_start,
                    file@,
                ),
            decreases tensor_infos@.len() - i,
        {
            proof {
                assert(infos.take(i + 1).drop_last() =~= infos.take(i as int));
                assert(infos.take(i + 1).last() == tensor_infos@[i as int]@);
            }
            match Self::load_tensor(file, &tensor_infos[i], tensor_data_start) {
                Ok(tensor) => {
                    let name = tensor_infos[i].name.clone();
                    assert(tensors@.insert(name@, tensor).map_values(|t: Tensor| t@)
                        =~= tensors@.map_values(|t: Tensor| t@).insert(name@, tensor@));
                    let _ = tensors.insert(name, tensor);
                },
                Err(_) => {},
            }
            i = i + 1;
        }
        assert(infos.take(i as int) =~= infos);
        Ok(tensors)
    }

    /// Lists the tensors that [`TensorLoader::load_all_tensors`] passes over
    /// in a file of `file_len` bytes: the place of each in `tensor_infos`,
    /// in order, and the fault that [`TensorLoader::locate`] finds.
    pub fn skipped_tensors(
        tensor_infos: &[TensorInfo],
        tensor_data_start: u64,
        file_len: usize,
    ) -> (r: Vec<(usize, GgufError)>)
        ensures
            r@ == skipped(infos_view(tensor_infos@), tensor_data_start, file_len as nat),
    {
        let ghost infos = infos_view(tensor_infos@);
        let mut found: Vec<(usize, GgufError)> = Vec::new();
        let mut i: usize = 0;
        assert(infos.take(0) =~= Seq::empty());
        while i < tensor_infos.len()
            invariant
                i <= tensor_infos@.len(),
                infos == infos_view(tensor_infos@),
                found@ == skipped(infos.take(i as int), tensor_data_start, file_len as nat),
            decreases tensor_infos@.len() - i,
        {
            proof {
                assert(infos.take(i + 1).drop_last() =~= infos.take(i as int));
                assert(infos.take(i + 1).last() == tensor_infos@[i as int]@);
            }
            match Self::locate(&tensor_infos[i], tensor_data_start, file_len) {
                Ok(_) => {},
                Err(fault) => {
                    found.push((i, fault));
                },
            }
            i = i + 1;
        }
        assert(infos.take(i as int) =~= infos);
        found
    }

    /// Builds the lookup from each tensor's name to its place in the list.
    pub fn index_by_name(tensor_infos: &[TensorInfo]) -> (r: StringMap<usize>)
        ensures
            r.wf(),
            r@ == name_index(infos_view(tensor_infos@)),
    {
        let ghost infos = infos_view(tensor_infos@);
        let mut index: StringMap<usize> = StringMap::new();
        let mut i: usize = 0;
        assert(infos.take(0) =~= Seq::empty());
        while i < tensor_infos.len()
            invariant
                i <= tensor_infos@.len(),
                infos == infos_view(tensor_infos@),
                index.wf(),
                index@ == name_index(infos.take(i as int)),
            decreases tensor_infos@.len() - i,
        {
            proof {
                assert(infos.take(i + 1).drop_last() =~= infos.take(i as int));
                assert(infos.take(i + 1).last() == tensor_infos@[i as int]@);
            }
            let _ = index.insert(tensor_infos[i].name.clone(), i);
            i = i + 1;
        }
        assert(infos.take(i as int) =~= infos);
        index
    }

    /// The number of elements of all the tensors together, where it fits in
    /// 64 bits.
    pub fn count_parameters(tensor_infos: &[TensorInfo]) -> (r: Option<u64>)
        ensures
            r == if total_elements(infos_view(tensor_infos@)) <= u64::MAX {
                Some(total_elements(infos_view(tensor_infos@)) as u64)
            } else {
                None
            },
    {
        let ghost infos = infos_view(tensor_infos@);
        let mut total: u64 = 0;
        let mut i: usize = 0;
        assert(infos.take(0) =~= Seq::empty());
        while i < tensor_infos.len()
            invariant
                i <= tensor_infos@.len(),
                infos == infos_view(tensor_infos@),
                total == total_elements(infos.take(i as int)),
            decreases tensor_infos@.len() - i,
        {
            proof {
                assert(infos.take(i + 1).drop_last() =~= infos.take(i as int));
                assert(infos.take(i + 1).last() == tensor_infos@[i as int]@);
                lemma_total_prefix(infos, i + 1);
            }
            let count = match tensor_infos[i].checked_element_count() {
                None => {
                    return None;
                },
                Some(count) => count,
            };
            total = match total.checked_add(count) {
                None => {
                    return None;
                },
                Some(sum) => sum,
            };
            i = i + 1;
        }
        assert(infos.take(i as int) =~= infos);
        Some(total)
    }

    /// Reads one tensor descriptor.
    #[verifier::loop_isolation(false)]
    pub fn read_one(reader: &mut ByteReader) -> (r: Result<TensorInfo, GgufError>)
        requires
            old(reader).wf(),
        ensures
            final(reader).wf(),
            final(reader).source() == old(reader).source(),
            match decode_tensor_info(old(reader).source(), old(reader).position() as int) {
                Ok((info, after)) => {
                    &&& r is Ok
                    &&& r->Ok_0@ == info
                    &&& final(reader).position() == after
                },
                Err((fault, stop)) => {
                    &&& r == Err::<TensorInfo, GgufError>(fault)
                    &&& final(reader).position() == stop
                },
            },
    {
        let name = read_string(reader)?;
        proof {
            let at = old(reader).position() as int;
            let len = le_u64_at(reader.source(), at);
            decode_utf8_encode_utf8(reader.source().subrange(at + 8, at + 8 + len));
        }
        let name_len = name.as_str().len();
        if name_len == 0 || name_len as u64 > MAX_TENSOR_NAME_LEN {
            return Err(GgufError::InvalidTensorName(name_len as u64));
        }
        let n_dims = read_u32_le(reader)?;
        let ghost start = reader.position() as int;
        let mut dims: Vec<u64> = Vec::new();
        let mut i: u32 = 0;
        while i < n_dims
            invariant
                reader.wf(),
                reader.source() == old(reader).source(),
                i <= n_dims,
                reader.position() == start + 8 * i,
                dims@ =~= Seq::new(i as nat, |j: int| le_u64_at(reader.source(), start + 8 * j)),
            decreases n_dims - i,
        {
            let dim = read_u64_le(reader)?;
            dims.push(dim);
            i = i + 1;
        }
        let id = read_u32_le(reader)?;
        let tensor_type = match TensorType::from_u32(id) {
            None => {
                return Err(GgufError::UnsupportedTensorType(id));
            },
            Some(known) => known,
        };
        let offset = read_u64_le(reader)?;
        Ok(TensorInfo { name, n_dims, dims, tensor_type, offset })
    }
}

} // verus!
