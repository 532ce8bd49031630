//! Tensor payloads: a shape, an element type and the raw bytes.

use vstd::prelude::*;
use vstd::slice::{slice_subrange, slice_to_vec};
use crate::cake::proto::ProtocolError;
use crate::cake::wire::{get_u64, lemma_u64_le_canonical, lemma_u64_le_roundtrip, put_u64, u64_from_le, u64_le};

verus! {

/// Element type of a tensor.
#[derive(Clone, Copy, Debug, PartialEq, Eq)]
pub enum DType {
    /// IEEE half precision, two bytes.
    F16,
    /// Brain floating point, two bytes.
    BF16,
    /// IEEE single precision, four bytes.
    F32,
}

impl DType {
    /// Bytes per element.
    pub open spec fn size(self) -> nat {
        match self {
            DType::F16 => 2,
            DType::BF16 => 2,
            DType::F32 => 4,
        }
    }

    /// The byte that stands for this type on the wire.
    pub open spec fn tag(self) -> u8 {
        match self {
            DType::F16 => 0,
            DType::BF16 => 1,
            DType::F32 => 2,
        }
    }

    /// The type that a wire byte stands for.
    pub open spec fn of_tag(tag: u8) -> Option<DType> {
        if tag == 0 {
            Some(DType::F16)
        } else if tag == 1 {
            Some(DType::BF16)
        } else if tag == 2 {
            Some(DType::F32)
        } else {
            None
        }
    }

    /// Bytes per element.
    pub fn size_in_bytes(&self) -> (n: u64)
        ensures
            n == self.size(),
    {
        match self {
            DType::F16 => 2,
            DType::BF16 => 2,
            DType::F32 => 4,
        }
    }

    /// The byte that stands for this type on the wire.
    pub fn to_tag(&self) -> (t: u8)
        ensures
            t == self.tag(),
    {
        match self {
            DType::F16 => 0,
            DType::BF16 => 1,
            DType::F32 => 2,
        }
    }

    /// The type that a wire byte stands for, if any.
    pub fn from_tag(tag: u8) -> (d: Option<DType>)
        ensures
            d == DType::of_tag(tag),
    {
        if tag == 0 {
            Some(DType::F16)
        } else if tag == 1 {
            Some(DType::BF16)
        } else if tag == 2 {
            Some(DType::F32)
        } else {
            None
        }
    }
}

/// Number of elements of a tensor with the given dimension sizes: their
/// product, which is 1 for a scalar.
pub open spec fn elements(shape: Seq<u64>) -> nat
    decreases shape.len(),
{
    if shape.len() == 0 {
        1
    } else {
        elements(shape.drop_last()) * (shape.last() as nat)
    }
}

/// What a tensor payload is: dimension sizes, element type, bytes.
pub struct TensorView {
    pub shape: Seq<u64>,
    pub dtype: DType,
    pub data: Seq<u8>,
}

impl TensorView {
    /// The buffer holds exactly the elements that the shape counts.
    pub open spec fn wf(self) -> bool {
        &&& self.shape.len() <= u64::MAX
        &&& self.data.len() == elements(self.shape) * self.dtype.size()
    }

    /// The tensor on the wire: type tag, number of dimensions, the dimension
    /// sizes, then the buffer as it is.
    pub open spec fn bytes(self) -> Seq<u8> {
        seq![self.dtype.tag()] + u64_le(self.shape.len() as u64) + dims_bytes(self.shape)
            + self.data
    }
}

/// The dimension sizes on the wire, eight bytes each.
pub open spec fn dims_bytes(shape: Seq<u64>) -> Seq<u8>
    decreases shape.len(),
{
    if shape.len() == 0 {
        Seq::empty()
    } else {
        dims_bytes(shape.drop_last()) + u64_le(shape.last())
    }
}

/// The number held in the eight bytes of `s` from `at` on.
pub open spec fn u64_at(s: Seq<u8>, at: int) -> u64 {
    u64_from_le(s.subrange(at, at + 8))
}

/// The `rank` numbers held in `s` from `at` on.
pub open spec fn dims_at(s: Seq<u8>, at: int, rank: nat) -> Seq<u64> {
    Seq::new(rank, |i: int| u64_at(s, at + 8 * i))
}

/// Length of the fixed part of a tensor on the wire: tag and rank.
pub const TENSOR_HEAD_LEN: usize = 9;

/// What the bytes `p` hold as a tensor, or why they hold none.
pub open spec fn parse_tensor(p: Seq<u8>) -> Result<TensorView, ProtocolError> {
    if p.len() < 9 {
        Err(ProtocolError::MalformedPayload)
    } else {
        match DType::of_tag(p[0]) {
            None => Err(ProtocolError::UnknownDType(p[0])),
            Some(dtype) => {
                let rank = u64_at(p, 1);
                if 8 * rank > p.len() - 9 {
                    Err(ProtocolError::MalformedPayload)
                } else {
                    let t = TensorView {
                        shape: dims_at(p, 9, rank as nat),
                        dtype,
                        data: p.subrange(9 + 8 * rank, p.len() as int),
                    };
                    if t.wf() {
                        Ok(t)
                    } else {
                        Err(ProtocolError::ShapeMismatch)
                    }
                }
            },
        }
    }
}

/// Every dimension size takes eight bytes.
proof fn lemma_dims_bytes_len(shape: Seq<u64>)
    ensures
        dims_bytes(shape).len() == 8 * shape.len(),
    decreases shape.len(),
{
    if shape.len() > 0 {
        lemma_dims_bytes_len(shape.drop_last());
    }
}

/// The dimension sizes read back from their bytes, whatever stands before
/// and after them.
proof fn lemma_dims_roundtrip(head: Seq<u8>, shape: Seq<u64>, rest: Seq<u8>)
    ensures
        dims_at(head + dims_bytes(shape) + rest, head.len() as int, shape.len()) == shape,
    decreases shape.len(),
{
    let s = head + dims_bytes(shape) + rest;
    lemma_dims_bytes_len(shape);
    if shape.len() > 0 {
        let init = shape.drop_last();
        let tail = u64_le(shape.last()) + rest;
        lemma_dims_bytes_len(init);
        lemma_u64_le_roundtrip(shape.last(), rest);
        assert(s =~= head + dims_bytes(init) + tail);
        lemma_dims_roundtrip(head, init, tail);
        let at = (head.len() + 8 * init.len()) as int;
        assert(s.subrange(at, at + 8) =~= u64_le(shape.last()));
        lemma_u64_le_roundtrip(shape.last(), Seq::empty());
        assert(u64_le(shape.last()) + Seq::<u8>::empty() =~= u64_le(shape.last()));
        assert forall|i: int| 0 <= i < shape.len() implies dims_at(s, head.len() as int, shape.len())[i]
            == shape[i] by {
            if i < init.len() {
                assert(dims_at(s, head.len() as int, init.len())[i] == init[i]);
            }
        }
    }
    assert(dims_at(s, head.len() as int, shape.len()) =~= shape);
}

/// The numbers read from a stretch of bytes encode to that stretch.
proof fn lemma_dims_canonical(s: Seq<u8>, at: int, rank: nat)
    requires
        0 <= at,
        at + 8 * rank <= s.len(),
    ensures
        dims_bytes(dims_at(s, at, rank)) == s.subrange(at, at + 8 * rank),
    decreases rank,
{
    let shape = dims_at(s, at, rank);
    if rank > 0 {
        let init = dims_at(s, at, (rank - 1) as nat);
        assert(shape.drop_last() =~= init);
        lemma_dims_canonical(s, at, (rank - 1) as nat);
        let last = at + 8 * (rank - 1);
        lemma_u64_le_canonical(s.subrange(last, last + 8));
        assert(s.subrange(last, last + 8).subrange(0, 8) =~= s.subrange(last, last + 8));
        assert(s.subrange(at, last) + s.subrange(last, last + 8) =~= s.subrange(at, at + 8 * rank));
    } else {
        assert(dims_bytes(shape) =~= s.subrange(at, at + 8 * rank));
    }
}

/// A well-formed tensor is read back from its bytes unchanged.
pub proof fn lemma_tensor_roundtrip(t: TensorView)
    requires
        t.wf(),
    ensures
        parse_tensor(t.bytes()) == Ok::<TensorView, ProtocolError>(t),
{
    let p = t.bytes();
    let rank = t.shape.len() as u64;
    let head = seq![t.dtype.tag()] + u64_le(rank);
    lemma_dims_bytes_len(t.shape);
    lemma_u64_le_roundtrip(rank, dims_bytes(t.shape) + t.data);
    assert(p.subrange(1, 9) =~= u64_le(rank));
    lemma_u64_le_roundtrip(rank, Seq::empty());
    assert(u64_le(rank) + Seq::<u8>::empty() =~= u64_le(rank));
    assert(u64_at(p, 1) == rank);
    lemma_dims_roundtrip(head, t.shape, t.data);
    assert(p =~= head + dims_bytes(t.shape) + t.data);
    assert(p.subrange(9 + 8 * rank, p.len() as int) =~= t.data);
    assert(p[0] == t.dtype.tag());
}

/// Bytes that hold a tensor are the bytes of that tensor, and of no other.
pub proof fn lemma_tensor_canonical(p: Seq<u8>)
    requires
        parse_tensor(p) is Ok,
    ensures
        parse_tensor(p)->Ok_0.wf(),
        parse_tensor(p)->Ok_0.bytes() == p,
{
    let t = parse_tensor(p)->Ok_0;
    let rank = u64_at(p, 1);
    lemma_dims_canonical(p, 9, rank as nat);
    lemma_u64_le_canonical(p.subrange(1, 9));
    assert(p.subrange(1, 9).subrange(0, 8) =~= p.subrange(1, 9));
    assert(t.bytes() =~= p);
}

/// A tensor as it travels between nodes. Its byte buffer always has the length
/// that shape and element type call for.
#[derive(Debug, PartialEq, Eq)]
pub struct TensorPayload {
    shape: Vec<u64>,
    dtype: DType,
    data: Vec<u8>,
}

impl View for TensorPayload {
    type V = TensorView;

    closed spec fn view(&self) -> TensorView {
        TensorView { shape: self.shape@, dtype: self.dtype, data: self.data@ }
    }
}

impl Clone for TensorPayload {
    fn clone(&self) -> (copy: Self)
        ensures
            copy@ == self@,
    {
        proof {
            use_type_invariant(self);
        }
        let shape = self.shape.clone();
        let data = self.data.clone();
        assert(shape@ =~= self.shape@);
        assert(data@ =~= self.data@);
        TensorPayload { shape, dtype: self.dtype, data }
    }
}

/// A zero among the dimensions makes the tensor empty.
proof fn lemma_elements_zero(shape: Seq<u64>, i: int)
    requires
        0 <= i < shape.len(),
        shape[i] == 0,
    ensures
        elements(shape) == 0,
    decreases shape.len(),
{
    if i < shape.len() - 1 {
        lemma_elements_zero(shape.drop_last(), i);
        assert(elements(shape.drop_last()) * (shape.last() as nat) == 0) by (nonlinear_arith)
            requires
                elements(shape.drop_last()) == 0,
        ;
    } else {
        assert(elements(shape.drop_last()) * (shape.last() as nat) == 0) by (nonlinear_arith)
            requires
                shape.last() == 0,
        ;
    }
}

/// Without a zero dimension, a prefix of the shape never counts more elements
/// than the whole.
proof fn lemma_elements_prefix(shape: Seq<u64>, n: int)
    requires
        0 <= n <= shape.len(),
        forall|i: int| 0 <= i < shape.len() ==> shape[i] > 0,
    ensures
        1 <= elements(shape.take(n)) <= elements(shape),
    decreases shape.len() - n,
{
    if n == shape.len() {
        assert(shape.take(n) =~= shape);
        lemma_elements_positive(shape);
    } else {
        lemma_elements_prefix(shape, n + 1);
        let next = shape.take(n + 1);
        assert(next.drop_last() =~= shape.take(n));
        assert(next.last() == shape[n]);
        lemma_elements_positive(shape.take(n));
        assert(elements(shape.take(n)) <= elements(shape.take(n)) * (shape[n] as nat))
            by (nonlinear_arith)
            requires
                shape[n] >= 1,
        ;
    }
}

/// Without a zero dimension a tensor has at least one element.
proof fn lemma_elements_positive(shape: Seq<u64>)
    requires
        forall|i: int| 0 <= i < shape.len() ==> shape[i] > 0,
    ensures
        1 <= elements(shape),
    decreases shape.len(),
{
    if shape.len() > 0 {
        lemma_elements_positive(shape.drop_last());
        assert(1 <= elements(shape.drop_last()) * (shape.last() as nat)) by (nonlinear_arith)
            requires
                1 <= elements(shape.drop_last()),
                shape.last() >= 1,
        ;
    }
}

/// Whether `len` bytes are exactly the elements of `shape` in type `dtype`.
pub fn buffer_fits(shape: &Vec<u64>, dtype: DType, len: usize) -> (fits: bool)
    ensures
        fits == (len == elements(shape@) * dtype.size()),
{
    let rank = shape.len();
    let mut i: usize = 0;
    while i < rank
        invariant
            i <= rank,
            rank == shape@.len(),
            forall|k: int| 0 <= k < i ==> shape@[k] > 0,
        decreases rank - i,
    {
        if shape[i] == 0 {
            proof {
                lemma_elements_zero(shape@, i as int);
                assert(elements(shape@) * dtype.size() == 0) by (nonlinear_arith)
                    requires
                        elements(shape@) == 0,
                ;
            }
            return len == 0;
        }
        i = i + 1;
    }
    let size = dtype.size_in_bytes();
    let mut count: u64 = 1;
    let mut j: usize = 0;
    proof {
        assert(shape@.take(0) =~= Seq::<u64>::empty());
    }
    while j < rank
        invariant
            j <= rank,
            rank == shape@.len(),
            forall|k: int| 0 <= k < shape@.len() ==> shape@[k] > 0,
            count == elements(shape@.take(j as int)),
        decreases rank - j,
    {
        proof {
            let next = shape@.take(j + 1);
            assert(next.drop_last() =~= shape@.take(j as int));
            assert(next.last() == shape@[j as int]);
            lemma_elements_prefix(shape@, j + 1);
        }
        match count.checked_mul(shape[j]) {
            Some(c) => {
                count = c;
            },
            None => {
                proof {
                    assert(elements(shape@) * dtype.size() >= elements(shape@)) by (nonlinear_arith)
                        requires
                            dtype.size() >= 1,
                    ;
                }
                return false;
            },
        }
        j = j + 1;
    }
    proof {
        assert(shape@.take(rank as int) =~= shape@);
    }
    match count.checked_mul(size) {
        Some(total) => total == len as u64,
        None => false,
    }
}

impl TensorPayload {
    #[verifier::type_invariant]
    pub open spec fn inv(&self) -> bool {
        self@.wf()
    }

    /// A tensor of the given shape and type over `data`, refused with
    /// `ShapeMismatch` unless `data` has exactly the length they call for.
    pub fn new(shape: Vec<u64>, dtype: DType, data: Vec<u8>) -> (r: Result<TensorPayload, ProtocolError>)
        ensures
            (TensorView { shape: shape@, dtype, data: data@ }).wf() ==> r is Ok,
            r matches Ok(t) ==> t@ == (TensorView { shape: shape@, dtype, data: data@ }) && t@.wf(),
            r matches Err(e) ==> e == ProtocolError::ShapeMismatch
                && !(TensorView { shape: shape@, dtype, data: data@ }).wf(),
    {
        let rank = shape.len();
        if buffer_fits(&shape, dtype, data.len()) {
            assert(rank <= u64::MAX);
            Ok(TensorPayload { shape, dtype, data })
        } else {
            Err(ProtocolError::ShapeMismatch)
        }
    }

    /// The dimension sizes, outermost first.
    pub fn shape(&self) -> (s: &Vec<u64>)
        ensures
            s@ == self@.shape,
            self@.wf(),
    {
        proof {
            use_type_invariant(self);
        }
        &self.shape
    }

    /// The element type.
    pub fn dtype(&self) -> (d: DType)
        ensures
            d == self@.dtype,
            self@.wf(),
    {
        proof {
            use_type_invariant(self);
        }
        self.dtype
    }

    /// The raw bytes, elements in row-major order.
    pub fn data(&self) -> (d: &Vec<u8>)
        ensures
            d@ == self@.data,
            self@.wf(),
    {
        proof {
            use_type_invariant(self);
        }
        &self.data
    }

    /// Appends the tensor's bytes to `out`.
    pub fn write(&self, out: &mut Vec<u8>)
        ensures
            final(out)@ == old(out)@ + self@.bytes(),
    {
        out.push(self.dtype.to_tag());
        put_u64(out, self.shape.len() as u64);
        let ghost head = out@;
        let rank = self.shape.len();
        let mut i: usize = 0;
        proof {
            assert(self.shape@.take(0) =~= Seq::<u64>::empty());
            assert(head + dims_bytes(self.shape@.take(0)) =~= head);
        }
        while i < rank
            invariant
                i <= rank,
                rank == self.shape@.len(),
                out@ == head + dims_bytes(self.shape@.take(i as int)),
            decreases rank - i,
        {
            proof {
                let next = self.shape@.take(i + 1);
                assert(next.drop_last() =~= self.shape@.take(i as int));
                assert(next.last() == self.shape@[i as int]);
            }
            put_u64(out, self.shape[i]);
            i = i + 1;
            proof {
                assert(out@ =~= head + dims_bytes(self.shape@.take(i as int)));
            }
        }
        let ghost body = out@;
        out.extend_from_slice(self.data.as_slice());
        proof {
            assert(self.shape@.take(rank as int) =~= self.shape@);
            assert(out@ =~= body + self.data@);
            assert(out@ =~= old(out)@ + self@.bytes());
        }
    }

    /// Reads the tensor that the bytes `p` hold, all of them.
    pub fn read(p: &[u8]) -> (r: Result<TensorPayload, ProtocolError>)
        ensures
            match r {
                Ok(t) => parse_tensor(p@) == Ok::<TensorView, ProtocolError>(t@),
                Err(e) => parse_tensor(p@) == Err::<TensorView, ProtocolError>(e),
            },
    {
        let len = p.len();
        if len < TENSOR_HEAD_LEN {
            return Err(ProtocolError::MalformedPayload);
        }
        let dtype = match DType::from_tag(p[0]) {
            Some(d) => d,
            None => {
                return Err(ProtocolError::UnknownDType(p[0]));
            },
        };
        let declared = get_u64(p, 1);
        if declared > ((len - TENSOR_HEAD_LEN) / 8) as u64 {
            return Err(ProtocolError::MalformedPayload);
        }
        let rank = declared as usize;
        let mut shape: Vec<u64> = Vec::new();
        let mut i: usize = 0;
        while i < rank
            invariant
                i <= rank,
                len == p@.len(),
                9 + 8 * rank <= len,
                shape@ == dims_at(p@, 9, i as nat),
            decreases rank - i,
        {
            let d = get_u64(p, TENSOR_HEAD_LEN + 8 * i);
            shape.push(d);
            i = i + 1;
            proof {
                assert(shape@ =~= dims_at(p@, 9, i as nat));
            }
        }
        let data = slice_to_vec(slice_subrange(p, TENSOR_HEAD_LEN + 8 * rank, len));
        if buffer_fits(&shape, dtype, data.len()) {
            Ok(TensorPayload { shape, dtype, data })
        } else {
            Err(ProtocolError::ShapeMismatch)
        }
    }

    /// Number of dimensions.
    pub fn rank(&self) -> (n: usize)
        ensures
            n == self@.shape.len(),
    {
        self.shape.len()
    }
}

} // verus!
