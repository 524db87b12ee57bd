//! The lookup-table polynomial that a bootstrap rotates, with its negacyclic windowing.

use vstd::prelude::*;

verus! {

/// The number of distinct values of a 64-bit word.
pub open spec fn word_modulus() -> nat {
    0x1_0000_0000_0000_0000
}

/// `value * delta`, modulo 2^64.
pub open spec fn scaled(value: u64, delta: u64) -> u64 {
    ((value as nat * delta as nat) % word_modulus()) as u64
}

/// `-v`, modulo 2^64.
pub open spec fn negated(v: u64) -> u64 {
    if v == 0 {
        0
    } else {
        (word_modulus() - v) as u64
    }
}

/// The accumulator's coefficient at position `j`: the boxes of `box_size` coefficients hold
/// `table[i] * delta` for each message `i`, the first half box is negated, and the whole
/// polynomial is rotated left by half a box.
pub open spec fn accumulator_coefficient(
    table: Seq<u64>,
    delta: u64,
    polynomial_size: nat,
    j: int,
) -> u64 {
    let box_size = polynomial_size / table.len();
    let half = box_size / 2;
    let k = (j + half) % (polynomial_size as int);
    let v = scaled(table[k / (box_size as int)], delta);
    if k < half {
        negated(v)
    } else {
        v
    }
}

/// The accumulator polynomial for the lookup table `table` (one entry per message).
pub open spec fn accumulator_spec(table: Seq<u64>, delta: u64, polynomial_size: nat) -> Seq<u64> {
    Seq::new(polynomial_size, |j: int| accumulator_coefficient(table, delta, polynomial_size, j))
}

/// The parameters for which an accumulator is built: one table entry per message, and a
/// message count that divides the (positive) polynomial size.
pub open spec fn accumulator_params_ok(polynomial_size: nat, message_modulus: nat, table_len: nat) -> bool {
    &&& polynomial_size > 0
    &&& message_modulus > 0
    &&& table_len == message_modulus
    &&& polynomial_size % message_modulus == 0
}

/// The trivial GLWE encryption of `body`: `glwe_size - 1` zero mask polynomials, then `body`.
pub open spec fn trivial_glwe_spec(body: Seq<u64>, glwe_size: nat) -> Seq<u64> {
    let mask_len = ((glwe_size - 1) * body.len()) as int;
    Seq::new(
        (mask_len + body.len()) as nat,
        |j: int|
            if j < mask_len {
                0u64
            } else {
                body[j - mask_len]
            },
    )
}

/// A coefficient position falls in one of the `count` boxes of `box_size` coefficients.
proof fn lemma_box_index(j: int, count: int, box_size: int)
    requires
        box_size > 0,
        0 <= j < count * box_size,
    ensures
        0 <= j / box_size < count,
{
    vstd::arithmetic::div_mod::lemma_fundamental_div_mod(j, box_size);
    vstd::arithmetic::div_mod::lemma_div_pos_is_pos(j, box_size);
    if j / box_size >= count {
        vstd::arithmetic::mul::lemma_mul_inequality(count, j / box_size, box_size);
        assert(box_size * (j / box_size) == (j / box_size) * box_size) by (nonlinear_arith);
        assert(count * box_size <= j);
    }
}

/// Builds the accumulator polynomial: each box of `polynomial_size / message_modulus`
/// coefficients is filled with `table[i] * delta` (wrapping), the first half box is negated,
/// and the result is rotated left by half a box.
pub fn accumulator_polynomial(
    polynomial_size: usize,
    message_modulus: usize,
    delta: u64,
    table: &[u64],
) -> (r: Vec<u64>)
    requires
        accumulator_params_ok(polynomial_size as nat, message_modulus as nat, table@.len()),
    ensures
        r@ == accumulator_spec(table@, delta, polynomial_size as nat),
{
    let box_size = polynomial_size / message_modulus;
    let half = box_size / 2;
    proof {
        vstd::arithmetic::div_mod::lemma_fundamental_div_mod(
            polynomial_size as int,
            message_modulus as int,
        );
        assert(box_size > 0) by {
            if box_size == 0 {
                assert(polynomial_size == message_modulus * box_size);
                vstd::arithmetic::mul::lemma_mul_basics(message_modulus as int);
            }
        }
        assert(polynomial_size == message_modulus * box_size);
    }
    let mut filled: Vec<u64> = Vec::new();
    let mut j: usize = 0;
    while j < polynomial_size
        invariant
            box_size == polynomial_size as nat / table@.len(),
            box_size > 0,
            table@.len() == message_modulus,
            polynomial_size == message_modulus * box_size,
            accumulator_params_ok(polynomial_size as nat, message_modulus as nat, table@.len()),
            j <= polynomial_size,
            filled@.len() == j,
            forall|i: int|
                0 <= i < j ==> #[trigger] filled@[i] == scaled(table@[i / (box_size as int)], delta),
        decreases polynomial_size - j,
    {
        proof {
            lemma_box_index(j as int, message_modulus as int, box_size as int);
        }
        filled.push(table[j / box_size].wrapping_mul(delta));
        j += 1;
    }
    let mut k: usize = 0;
    while k < half
        invariant
            box_size == polynomial_size as nat / table@.len(),
            box_size > 0,
            half == box_size / 2,
            half <= polynomial_size,
            k <= half,
            filled@.len() == polynomial_size,
            forall|i: int|
                0 <= i < polynomial_size ==> #[trigger] filled@[i] == if i < k {
                    negated(scaled(table@[i / (box_size as int)], delta))
                } else {
                    scaled(table@[i / (box_size as int)], delta)
                },
        decreases half - k,
    {
        let v = filled[k];
        filled.set(k, 0u64.wrapping_sub(v));
        k += 1;
    }
    let mut out: Vec<u64> = Vec::new();
    let mut j: usize = 0;
    while j < polynomial_size
        invariant
            box_size == polynomial_size as nat / table@.len(),
            half == box_size / 2,
            half <= polynomial_size,
            polynomial_size > 0,
            j <= polynomial_size,
            filled@.len() == polynomial_size,
            forall|i: int|
                0 <= i < polynomial_size ==> #[trigger] filled@[i] == if i < half {
                    negated(scaled(table@[i / (box_size as int)], delta))
                } else {
                    scaled(table@[i / (box_size as int)], delta)
                },
            out@.len() == j,
            forall|i: int|
                0 <= i < j ==> #[trigger] out@[i] == accumulator_coefficient(
                    table@,
                    delta,
                    polynomial_size as nat,
                    i,
                ),
        decreases polynomial_size - j,
    {
        let src = if j < polynomial_size - half {
            j + half
        } else {
            j - (polynomial_size - half)
        };
        proof {
            if j < polynomial_size - half {
                vstd::arithmetic::div_mod::lemma_small_mod(src as nat, polynomial_size as nat);
            } else {
                vstd::arithmetic::div_mod::lemma_mod_sub_multiples_vanish(
                    (j + half) as int,
                    polynomial_size as int,
                );
                vstd::arithmetic::div_mod::lemma_small_mod(src as nat, polynomial_size as nat);
            }
            assert(src as int == (j + half) % (polynomial_size as int));
        }
        out.push(filled[src]);
        j += 1;
    }
    proof {
        assert(out@ =~= accumulator_spec(table@, delta, polynomial_size as nat));
    }
    out
}

/// Builds the accumulator for the lookup table `table` (entry `i` is the image of message `i`)
/// as a trivial GLWE encryption: `glwe_size - 1` zero mask polynomials, then the accumulator
/// polynomial as the body.
pub fn build_accumulator(
    polynomial_size: usize,
    glwe_size: usize,
    message_modulus: usize,
    delta: u64,
    table: &[u64],
) -> (r: Vec<u64>)
    requires
        accumulator_params_ok(polynomial_size as nat, message_modulus as nat, table@.len()),
        glwe_size > 0,
        glwe_size * polynomial_size <= usize::MAX,
    ensures
        r@ == trivial_glwe_spec(accumulator_spec(table@, delta, polynomial_size as nat), glwe_size as nat),
{
    let body = accumulator_polynomial(polynomial_size, message_modulus, delta, table);
    proof {
        assert((glwe_size - 1) * polynomial_size <= glwe_size * polynomial_size) by (nonlinear_arith)
            requires
                glwe_size > 0,
        ;
    }
    let mask_len = (glwe_size - 1) * polynomial_size;
    proof {
        assert(mask_len + polynomial_size == glwe_size * polynomial_size) by (nonlinear_arith)
            requires
                mask_len == (glwe_size - 1) * polynomial_size,
                glwe_size > 0,
        ;
    }
    let mut out: Vec<u64> = Vec::new();
    let mut j: usize = 0;
    while j < mask_len
        invariant
            j <= mask_len,
            out@.len() == j,
            forall|i: int| 0 <= i < j ==> #[trigger] out@[i] == 0u64,
        decreases mask_len - j,
    {
        out.push(0);
        j += 1;
    }
    let mut k: usize = 0;
    while k < polynomial_size
        invariant
            body@.len() == polynomial_size,
            mask_len + polynomial_size <= usize::MAX,
            k <= polynomial_size,
            out@.len() == mask_len + k,
            forall|i: int| 0 <= i < mask_len ==> #[trigger] out@[i] == 0u64,
            forall|i: int| 0 <= i < k ==> #[trigger] out@[mask_len + i] == body@[i],
        decreases polynomial_size - k,
    {
        out.push(body[k]);
        k += 1;
    }
    proof {
        let expected = trivial_glwe_spec(body@, glwe_size as nat);
        assert forall|i: int| 0 <= i < out@.len() implies #[trigger] out@[i] == expected[i] by {
            if i >= mask_len {
                assert(out@[mask_len + (i - mask_len)] == body@[i - mask_len]);
            }
        }
        assert(out@ =~= expected);
    }
    out
}

/// In the accumulator, the coefficient at the start of box `i` is `table[i] * delta`
/// (wrapping): windowing and rotation move only the negated half box, which wraps to the end.
pub proof fn lemma_accumulator_box_values(table: Seq<u64>, delta: u64, polynomial_size: nat)
    requires
        accumulator_params_ok(polynomial_size, table.len(), table.len()),
    ensures
        forall|i: int|
            0 <= i < table.len() ==> #[trigger] accumulator_spec(table, delta, polynomial_size)[i
                * (polynomial_size / table.len()) as int] == scaled(table[i], delta),
{
    let m = table.len();
    let box_size = polynomial_size / m;
    let half = box_size / 2;
    vstd::arithmetic::div_mod::lemma_fundamental_div_mod(polynomial_size as int, m as int);
    assert(polynomial_size == m * box_size);
    assert(box_size > 0) by {
        if box_size == 0 {
            vstd::arithmetic::mul::lemma_mul_basics(m as int);
        }
    }
    assert forall|i: int| 0 <= i < m implies #[trigger] accumulator_spec(table, delta, polynomial_size)[i
        * box_size as int] == scaled(table[i], delta) by {
        let p = i * box_size as int;
        assert(p + box_size <= polynomial_size) by {
            vstd::arithmetic::mul::lemma_mul_inequality(i + 1, m as int, box_size as int);
            assert((i + 1) * box_size == p + box_size) by (nonlinear_arith)
                requires
                    p == i * box_size,
            ;
            assert(m as int * box_size == polynomial_size) by (nonlinear_arith)
                requires
                    polynomial_size == m * box_size,
            ;
        }
        assert(p >= 0) by {
            vstd::arithmetic::mul::lemma_mul_nonnegative(i, box_size as int);
        }
        vstd::arithmetic::div_mod::lemma_small_mod((p + half) as nat, polynomial_size);
        vstd::arithmetic::div_mod::lemma_fundamental_div_mod_converse(
            p + half,
            box_size as int,
            i,
            half as int,
        );
    }
}

} // verus!
