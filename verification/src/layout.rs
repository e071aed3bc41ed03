//! Shapes, row-major layout and the exchange of the first two axes.
use vstd::arithmetic::div_mod::{
    lemma_fundamental_div_mod, lemma_fundamental_div_mod_converse, lemma_mod_bound,
    lemma_multiply_divide_lt,
};
use vstd::prelude::*;

verus! {

/// Number of elements of a tensor of the given shape: the product of its
/// dimensions, one for the empty shape.
pub open spec fn element_count(shape: Seq<usize>) -> nat
    decreases shape.len(),
{
    if shape.len() == 0 {
        1
    } else {
        (shape[0] as nat) * element_count(shape.drop_first())
    }
}

/// A shape with a zero dimension holds no element.
pub proof fn lemma_count_zero(shape: Seq<usize>, i: int)
    requires
        0 <= i < shape.len(),
        shape[i] == 0,
    ensures
        element_count(shape) == 0,
    decreases shape.len(),
{
    if i > 0 {
        lemma_count_zero(shape.drop_first(), i - 1);
        assert(shape[0] * element_count(shape.drop_first()) == 0) by (nonlinear_arith)
            requires
                element_count(shape.drop_first()) == 0,
        ;
    }
}

/// A shape without a zero dimension holds at least one element.
pub proof fn lemma_count_positive(shape: Seq<usize>)
    requires
        forall|i: int| 0 <= i < shape.len() ==> shape[i] != 0,
    ensures
        element_count(shape) >= 1,
    decreases shape.len(),
{
    if shape.len() > 0 {
        lemma_count_positive(shape.drop_first());
        assert(shape[0] * element_count(shape.drop_first()) >= 1) by (nonlinear_arith)
            requires
                shape[0] >= 1,
                element_count(shape.drop_first()) >= 1,
        ;
    }
}

/// The element count of a shape of rank two or more is the product of its
/// first two dimensions and the element count of the rest.
pub proof fn lemma_count_split(shape: Seq<usize>)
    requires
        shape.len() >= 2,
    ensures
        element_count(shape) == shape[0] * shape[1] * element_count(shape.skip(2)),
{
    let tail = shape.drop_first();
    assert(tail.drop_first() =~= shape.skip(2));
    assert(element_count(tail) == shape[1] * element_count(shape.skip(2)));
    assert(shape[0] * (shape[1] * element_count(shape.skip(2))) == shape[0] * shape[1]
        * element_count(shape.skip(2))) by (nonlinear_arith);
}

/// Computes the element count of a shape.
///
/// Returns `None` exactly when the count does not fit in a machine word.
pub fn checked_element_count(shape: &Vec<usize>) -> (r: Option<usize>)
    ensures
        r is Some <==> element_count(shape@) <= usize::MAX,
        r matches Some(n) ==> n == element_count(shape@),
{
    let rank: usize = shape.len();
    let mut z: usize = 0;
    while z < rank
        invariant
            rank == shape@.len(),
            z <= rank,
            forall|i: int| 0 <= i < z ==> shape@[i] != 0,
        decreases rank - z,
    {
        if shape[z] == 0 {
            proof {
                lemma_count_zero(shape@, z as int);
            }
            return Some(0);
        }
        z = z + 1;
    }
    let mut acc: usize = 1;
    let mut k: usize = 0;
    assert(shape@.skip(0) =~= shape@);
    while k < rank
        invariant
            rank == shape@.len(),
            k <= rank,
            forall|i: int| 0 <= i < rank ==> shape@[i] != 0,
            acc * element_count(shape@.skip(k as int)) == element_count(shape@),
        decreases rank - k,
    {
        let ghost rest = element_count(shape@.skip(k as int + 1));
        proof {
            assert(shape@.skip(k as int).drop_first() =~= shape@.skip(k as int + 1));
            lemma_count_positive(shape@.skip(k as int + 1));
            assert(acc * (shape@[k as int] * rest) == (acc * shape@[k as int]) * rest)
                by (nonlinear_arith);
        }
        match acc.checked_mul(shape[k]) {
            Some(next) => {
                acc = next;
            },
            None => {
                assert((acc * shape@[k as int]) * rest > usize::MAX) by (nonlinear_arith)
                    requires
                        acc * shape@[k as int] > usize::MAX,
                        rest >= 1,
                ;
                return None;
            },
        }
        k = k + 1;
    }
    assert(shape@.skip(rank as int) =~= Seq::<usize>::empty());
    assert(acc * 1 == acc);
    Some(acc)
}

/// For an index `o` into a buffer laid out as `[b, a, inner]`, the index of
/// the same element in the buffer laid out as `[a, b, inner]`.
///
/// With `o == (j * a + i) * inner + r`, where `i < a`, `j < b` and
/// `r < inner`, this is `(i * b + j) * inner + r`.
pub open spec fn swap_source(a: nat, b: nat, inner: nat, o: int) -> int {
    let j = o / (a * inner) as int;
    let i = (o / inner as int) % a as int;
    let r = o % inner as int;
    (i * b + j) * inner + r
}

/// The row-major contents of a tensor after its first two axes are
/// exchanged: `data` is laid out as `[a, b, inner]`, the result as
/// `[b, a, inner]`.
pub open spec fn swap_axes(data: Seq<u32>, a: nat, b: nat, inner: nat) -> Seq<u32> {
    Seq::new(data.len(), |o: int| data[swap_source(a, b, inner, o)])
}

/// Splits a row-major index into its three coordinates.
pub proof fn lemma_swap_source(a: nat, b: nat, inner: nat, i: int, j: int, r: int)
    requires
        0 <= i < a,
        0 <= j < b,
        0 <= r < inner,
    ensures
        0 <= (j * a + i) * inner + r < a * b * inner,
        0 <= (i * b + j) * inner + r < a * b * inner,
        swap_source(a, b, inner, (j * a + i) * inner + r) == (i * b + j) * inner + r,
{
    let o = (j * a + i) * inner + r;
    let plane = (a * inner) as int;
    assert(o == j * plane + (i * inner + r)) by (nonlinear_arith)
        requires
            o == (j * a + i) * inner + r,
            plane == a * inner,
    ;
    assert(0 <= i * inner + r < plane) by (nonlinear_arith)
        requires
            0 <= i < a,
            0 <= r < inner,
            plane == a * inner,
    ;
    lemma_fundamental_div_mod_converse(o, plane, j, i * inner + r);
    lemma_fundamental_div_mod_converse(o, inner as int, j * a + i, r);
    assert((j * a + i) == a * j + i) by (nonlinear_arith);
    lemma_fundamental_div_mod_converse(j * a + i, a as int, j, i);
    assert(0 <= (j * a + i) * inner + r < a * b * inner) by (nonlinear_arith)
        requires
            0 <= i < a,
            0 <= j < b,
            0 <= r < inner,
    ;
    assert(0 <= (i * b + j) * inner + r < a * b * inner) by (nonlinear_arith)
        requires
            0 <= i < a,
            0 <= j < b,
            0 <= r < inner,
    ;
}

/// Every index of the exchanged buffer has its source inside the buffer.
pub proof fn lemma_swap_source_bound(a: nat, b: nat, inner: nat, o: int)
    requires
        0 <= o < a * b * inner,
    ensures
        0 <= swap_source(a, b, inner, o) < a * b * inner,
        0 <= o / ((a * inner) as int) < b,
        0 <= (o / (inner as int)) % (a as int) < a,
        0 <= o % (inner as int) < inner,
{
    assert(a > 0 && b > 0 && inner > 0) by (nonlinear_arith)
        requires
            0 <= o < a * b * inner,
    ;
    let plane = (a * inner) as int;
    assert(plane > 0) by (nonlinear_arith)
        requires
            plane == a * inner,
            a > 0,
            inner > 0,
    ;
    let j = o / plane;
    let i = (o / inner as int) % a as int;
    let r = o % inner as int;
    assert(a * b * inner == plane * b) by (nonlinear_arith)
        requires
            plane == a * inner,
    ;
    lemma_multiply_divide_lt(o, plane, b as int);
    lemma_fundamental_div_mod(o, plane);
    assert(0 <= j) by (nonlinear_arith)
        requires
            o == plane * j + o % plane,
            o >= 0,
            plane > 0,
            o % plane < plane,
    ;
    lemma_mod_bound(o, plane);
    lemma_mod_bound(o / inner as int, a as int);
    lemma_mod_bound(o, inner as int);
    assert(0 <= (i * b + j) * inner + r < a * b * inner) by (nonlinear_arith)
        requires
            0 <= i < a,
            0 <= j < b,
            0 <= r < inner,
    ;
}

/// Element `[j, i, r]` of the exchanged tensor is element `[i, j, r]` of the
/// tensor it was made from.
pub proof fn lemma_swap_axes_element(
    data: Seq<u32>,
    a: nat,
    b: nat,
    inner: nat,
    i: int,
    j: int,
    r: int,
)
    requires
        data.len() == a * b * inner,
        0 <= i < a,
        0 <= j < b,
        0 <= r < inner,
    ensures
        0 <= (j * a + i) * inner + r < data.len(),
        0 <= (i * b + j) * inner + r < data.len(),
        swap_axes(data, a, b, inner)[(j * a + i) * inner + r] == data[(i * b + j) * inner + r],
{
    lemma_swap_source(a, b, inner, i, j, r);
}

/// Exchanging the first two axes twice gives the first tensor back.
pub proof fn lemma_swap_axes_involution(data: Seq<u32>, a: nat, b: nat, inner: nat)
    requires
        data.len() == a * b * inner,
    ensures
        swap_axes(swap_axes(data, a, b, inner), b, a, inner) == data,
{
    let once = swap_axes(data, a, b, inner);
    let twice = swap_axes(once, b, a, inner);
    assert(b * a * inner == a * b * inner) by (nonlinear_arith);
    assert forall|o: int| 0 <= o < data.len() implies twice[o] == data[o] by {
        // o is [i, j, r] in the layout [a, b, inner]
        lemma_swap_source_bound(b, a, inner, o);
        let i = o / (b * inner) as int;
        let j = (o / inner as int) % b as int;
        let r = o % inner as int;
        let mid = swap_source(b, a, inner, o);
        assert(mid == (j * a + i) * inner + r);
        lemma_swap_source(a, b, inner, i, j, r);
        lemma_swap_source(b, a, inner, j, i, r);
        assert(swap_source(b, a, inner, (i * b + j) * inner + r) == mid);
        assert(o == (i * b + j) * inner + r) by {
            lemma_fundamental_div_mod(o, inner as int);
            lemma_fundamental_div_mod(o / inner as int, b as int);
            let q = o / inner as int;
            assert(q / b as int == i) by {
                vstd::arithmetic::div_mod::lemma_div_denominator(o, inner as int, b as int);
                assert(inner * b == b * inner) by (nonlinear_arith);
            }
            assert(q == b * i + j);
            assert(o == inner * q + r);
            assert(inner * (b * i + j) + r == (i * b + j) * inner + r) by (nonlinear_arith);
        }
    }
    assert(twice =~= data);
}

/// Exchanges the first two axes of a row-major tensor laid out as
/// `[a, b, inner]`, giving its contents laid out as `[b, a, inner]`.
pub fn exchange_axes(data: &Vec<u32>, a: usize, b: usize, inner: usize) -> (out: Vec<u32>)
    requires
        data@.len() == a * b * inner,
    ensures
        out@ == swap_axes(data@, a as nat, b as nat, inner as nat),
{
    let n: usize = data.len();
    let mut out: Vec<u32> = Vec::with_capacity(n);
    let mut j: usize = 0;
    while j < b
        invariant
            n == data@.len(),
            data@.len() == a * b * inner,
            j <= b,
            out@.len() == j * a * inner,
            forall|o: int|
                0 <= o < out@.len() ==> out@[o] == data@[swap_source(
                    a as nat,
                    b as nat,
                    inner as nat,
                    o,
                )],
        decreases b - j,
    {
        let mut i: usize = 0;
        while i < a
            invariant
                n == data@.len(),
                data@.len() == a * b * inner,
                j < b,
                i <= a,
                out@.len() == (j * a + i) * inner,
                forall|o: int|
                    0 <= o < out@.len() ==> out@[o] == data@[swap_source(
                        a as nat,
                        b as nat,
                        inner as nat,
                        o,
                    )],
            decreases a - i,
        {
            let mut r: usize = 0;
            while r < inner
                invariant
                    n == data@.len(),
                    data@.len() == a * b * inner,
                    j < b,
                    i < a,
                    r <= inner,
                    out@.len() == (j * a + i) * inner + r,
                    forall|o: int|
                        0 <= o < out@.len() ==> out@[o] == data@[swap_source(
                            a as nat,
                            b as nat,
                            inner as nat,
                            o,
                        )],
                decreases inner - r,
            {
                proof {
                    lemma_swap_source(
                        a as nat,
                        b as nat,
                        inner as nat,
                        i as int,
                        j as int,
                        r as int,
                    );
                    assert(0 <= i * b + j && (i * b + j) * inner <= (i * b + j) * inner + r
                        && i * b <= i * b + j) by (nonlinear_arith)
                        requires
                            0 <= i,
                            0 <= j,
                            0 <= r,
                            0 <= b,
                            0 <= inner,
                    ;
                    assert(i * b + j <= (i * b + j) * inner) by (nonlinear_arith)
                        requires
                            0 <= i * b + j,
                            inner >= 1,
                    ;
                }
                let source: usize = (i * b + j) * inner + r;
                out.push(data[source]);
                r = r + 1;
            }
            proof {
                assert((j * a + i) * inner + inner == (j * a + (i + 1)) * inner)
                    by (nonlinear_arith);
            }
            i = i + 1;
        }
        proof {
            assert((j * a + a) * inner == (j + 1) * a * inner) by (nonlinear_arith);
            assert((j * a + 0) * inner == j * a * inner) by (nonlinear_arith);
        }
        j = j + 1;
    }
    proof {
        assert(b * a * inner == a * b * inner) by (nonlinear_arith);
        assert(out@ =~= swap_axes(data@, a as nat, b as nat, inner as nat));
    }
    out
}

} // verus!
