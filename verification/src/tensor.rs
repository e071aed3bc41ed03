//! Materialization of one checkpoint tensor into a parameter value.
use crate::encoding::{decode_elements, decoded, SourceEncoding};
use crate::layout::{
    checked_element_count, element_count, exchange_axes, lemma_count_split, lemma_swap_axes_element,
    swap_axes,
};
use vstd::arithmetic::div_mod::lemma_div_multiples_vanish;
use vstd::prelude::*;

verus! {

/// A parameter value: a shape and the elements in row-major order, each a
/// single-precision bit pattern.
#[derive(Debug)]
pub struct ParamTensor {
    pub shape: Vec<usize>,
    pub data: Vec<u32>,
}

/// A checkpoint tensor whose byte length does not match its target shape.
#[derive(Debug)]
pub struct ShapeMismatch {
    /// Byte length that the target shape asks for, `None` when that length
    /// exceeds the machine word.
    pub expected_bytes: Option<usize>,
    /// Byte length of the checkpoint tensor.
    pub actual_bytes: usize,
}

/// Byte length that a tensor of the given shape has in the given encoding,
/// `None` when it exceeds the machine word.
pub open spec fn expected_bytes(shape: Seq<usize>, encoding: SourceEncoding) -> Option<usize> {
    let bytes = encoding.spec_width() * element_count(shape);
    if bytes <= usize::MAX {
        Some(bytes as usize)
    } else {
        None
    }
}

/// The shape with its first two dimensions exchanged.
pub open spec fn exchanged_shape(shape: Seq<usize>) -> Seq<usize> {
    seq![shape[1], shape[0]] + shape.skip(2)
}

/// The elements, in row-major order of `shape`, of the parameter that a raw
/// buffer materializes to; `None` when the buffer's length is not that of a
/// tensor of `shape`.
///
/// With `transpose` the buffer is read as a tensor of the shape with the
/// first two dimensions exchanged, and those two axes are then exchanged.
pub open spec fn materialized(
    bytes: Seq<u8>,
    encoding: SourceEncoding,
    shape: Seq<usize>,
    transpose: bool,
) -> Option<Seq<u32>> {
    if bytes.len() != encoding.spec_width() * element_count(shape) {
        None
    } else if transpose {
        Some(
            swap_axes(
                decoded(bytes, encoding),
                shape[1] as nat,
                shape[0] as nat,
                element_count(shape.skip(2)),
            ),
        )
    } else {
        Some(decoded(bytes, encoding))
    }
}

impl ParamTensor {
    /// The data holds one element for each position of the shape.
    pub open spec fn well_formed(&self) -> bool {
        self.data@.len() == element_count(self.shape@)
    }

    /// The tensor with its first two axes exchanged.
    pub fn swap_dims(&self) -> (r: ParamTensor)
        requires
            self.well_formed(),
            self.shape@.len() >= 2,
        ensures
            r.well_formed(),
            r.shape@ == exchanged_shape(self.shape@),
            r.data@ == swap_axes(
                self.data@,
                self.shape@[0] as nat,
                self.shape@[1] as nat,
                element_count(self.shape@.skip(2)),
            ),
    {
        let d0: usize = self.shape[0];
        let d1: usize = self.shape[1];
        let count: usize = self.data.len();
        let ghost rest = element_count(self.shape@.skip(2));
        proof {
            lemma_count_split(self.shape@);
        }
        let mut shape: Vec<usize> = Vec::with_capacity(self.shape.len());
        shape.push(d1);
        shape.push(d0);
        let mut k: usize = 2;
        while k < self.shape.len()
            invariant
                2 <= k <= self.shape@.len(),
                shape@ == exchanged_shape(self.shape@).take(k as int),
            decreases self.shape@.len() - k,
        {
            shape.push(self.shape[k]);
            assert(shape@ =~= exchanged_shape(self.shape@).take(k as int + 1));
            k = k + 1;
        }
        assert(shape@ =~= exchanged_shape(self.shape@));
        proof {
            lemma_count_split(shape@);
            assert(shape@.skip(2) =~= self.shape@.skip(2));
            assert(d1 * d0 * rest == d0 * d1 * rest) by (nonlinear_arith);
        }
        let data: Vec<u32> = if count == 0 {
            assert(self.data@ =~= swap_axes(self.data@, d0 as nat, d1 as nat, rest));
            Vec::new()
        } else {
            assert(d0 * d1 <= count && rest >= 1) by (nonlinear_arith)
                requires
                    count == d0 * d1 * rest,
                    count > 0,
            ;
            let plane: usize = d0 * d1;
            proof {
                lemma_div_multiples_vanish(rest as int, plane as int);
                assert(d0 * d1 * rest == plane * rest);
            }
            let inner: usize = count / plane;
            exchange_axes(&self.data, d0, d1, inner)
        };
        ParamTensor { shape, data }
    }
}

/// Turns the raw bytes of one checkpoint tensor into a parameter of the
/// target shape.
///
/// The bytes are decoded from the source encoding. Without `transpose` they
/// fill the target shape in row-major order. With it they fill the target
/// shape with its first two dimensions exchanged, and those two axes are then
/// exchanged, which gives the target shape again.
///
/// Fails exactly when the byte length is not the element count of the target
/// shape times the width of the encoding.
pub fn materialize(
    raw_bytes: &[u8],
    source_encoding: SourceEncoding,
    target_shape: &Vec<usize>,
    transpose: bool,
) -> (r: Result<ParamTensor, ShapeMismatch>)
    requires
        transpose ==> target_shape@.len() >= 2,
    ensures
        r is Ok <==> materialized(raw_bytes@, source_encoding, target_shape@, transpose) is Some,
        r matches Ok(t) ==> {
            &&& t.well_formed()
            &&& t.shape@ == target_shape@
            &&& t.data@ == materialized(
                raw_bytes@,
                source_encoding,
                target_shape@,
                transpose,
            ).unwrap()
        },
        r matches Err(e) ==> {
            &&& e.expected_bytes == expected_bytes(target_shape@, source_encoding)
            &&& e.actual_bytes == raw_bytes@.len()
        },
{
    let actual: usize = raw_bytes.len();
    let width: usize = source_encoding.width();
    let count: usize = match checked_element_count(target_shape) {
        Some(count) => count,
        None => {
            assert(width * element_count(target_shape@) > usize::MAX) by (nonlinear_arith)
                requires
                    element_count(target_shape@) > usize::MAX,
                    width >= 1,
            ;
            return Err(ShapeMismatch { expected_bytes: None, actual_bytes: actual });
        },
    };
    let expected: usize = match width.checked_mul(count) {
        Some(expected) => expected,
        None => {
            return Err(ShapeMismatch { expected_bytes: None, actual_bytes: actual });
        },
    };
    if expected != actual {
        return Err(ShapeMismatch { expected_bytes: Some(expected), actual_bytes: actual });
    }
    assert(raw_bytes@.len() % (width as nat) == 0 && raw_bytes@.len() / (width as nat) == count)
        by (nonlinear_arith)
        requires
            raw_bytes@.len() == width * count,
            width == 2 || width == 4,
    ;
    let values: Vec<u32> = decode_elements(raw_bytes, source_encoding);
    let tensor = ParamTensor { shape: target_shape.clone(), data: values };
    assert(tensor.shape@ =~= target_shape@);
    if !transpose {
        return Ok(tensor);
    }
    let d0: usize = target_shape[0];
    let d1: usize = target_shape[1];
    let ghost rest = element_count(target_shape@.skip(2));
    proof {
        lemma_count_split(target_shape@);
    }
    if count == 0 {
        assert(tensor.data@ =~= swap_axes(tensor.data@, d1 as nat, d0 as nat, rest));
        return Ok(tensor);
    }
    assert(d0 * d1 <= count && rest >= 1 && d1 * d0 == d0 * d1) by (nonlinear_arith)
        requires
            count == d0 * d1 * rest,
            count > 0,
    ;
    let plane: usize = d1 * d0;
    proof {
        lemma_div_multiples_vanish(rest as int, plane as int);
        assert(d0 * d1 * rest == plane * rest);
        assert(d1 * d0 * rest == plane * rest);
    }
    let inner: usize = count / plane;
    let data: Vec<u32> = exchange_axes(&tensor.data, d1, d0, inner);
    Ok(ParamTensor { shape: tensor.shape, data })
}

/// Materializing with `transpose` into the shape `[m, n]` reads the buffer as
/// a tensor of shape `[n, m]` and exchanges its axes: it succeeds on the same
/// buffers as materializing without `transpose` into `[n, m]`, and element
/// `[i, j]` of the one is element `[j, i]` of the other.
pub proof fn lemma_transpose_round_trip(
    bytes: Seq<u8>,
    encoding: SourceEncoding,
    m: usize,
    n: usize,
)
    ensures
        materialized(bytes, encoding, seq![m, n], true) is Some <==> materialized(
            bytes,
            encoding,
            seq![n, m],
            false,
        ) is Some,
        materialized(bytes, encoding, seq![m, n], true) matches Some(t) ==> {
            let u = materialized(bytes, encoding, seq![n, m], false).unwrap();
            &&& t.len() == m * n
            &&& u.len() == m * n
            &&& t == swap_axes(u, n as nat, m as nat, 1)
            &&& forall|i: int, j: int|
                0 <= i < m && 0 <= j < n ==> #[trigger] t[i * n + j] == u[j * m + i]
        },
{
    let mn = seq![m, n];
    let nm = seq![n, m];
    lemma_count_split(mn);
    lemma_count_split(nm);
    assert(mn.skip(2) =~= Seq::<usize>::empty());
    assert(nm.skip(2) =~= Seq::<usize>::empty());
    assert(element_count(mn) == m * n && element_count(nm) == m * n) by (nonlinear_arith)
        requires
            element_count(mn) == m * n * 1,
            element_count(nm) == n * m * 1,
    ;
    if materialized(bytes, encoding, mn, true) is Some {
        let t = materialized(bytes, encoding, mn, true).unwrap();
        let u = materialized(bytes, encoding, nm, false).unwrap();
        let w = encoding.spec_width();
        assert(element_count(mn.skip(2)) == 1);
        assert(t == swap_axes(u, n as nat, m as nat, 1));
        assert(u.len() == m * n) by (nonlinear_arith)
            requires
                u.len() == bytes.len() / w,
                bytes.len() == w * (m * n),
                w == 2 || w == 4,
        ;
        assert forall|i: int, j: int| 0 <= i < m && 0 <= j < n implies #[trigger] t[i * n + j]
            == u[j * m + i] by {
            assert(n * m * 1 == m * n) by (nonlinear_arith);
            lemma_swap_axes_element(u, n as nat, m as nat, 1, j, i, 0);
            assert((i * n + j) * 1 + 0 == i * n + j);
            assert((j * m + i) * 1 + 0 == j * m + i);
        }
        assert(t.len() == m * n);
    }
}

} // verus!
