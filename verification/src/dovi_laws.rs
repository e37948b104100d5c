//! What the registers of dynamic metadata do to a signal.
use crate::accuracy::{
    lemma_nearest_is_close, lemma_opposite_value, lemma_order_of_values, lemma_product_is_close,
    lemma_zero_and_one, rounded, size_of,
};
use crate::dovi::{is_payload, sample_scale, DoviUniforms};
use crate::float::{F32, ONE_BITS};
use crate::inverse::{cells_within, law_products_are_rows_times_columns, row_by_column};
use crate::matrix::{dovi_cells, multiplied, RgbMatrix};
use crate::product::{integer_value, nearest_to, product};
use crate::source::{DoviComponentCurve, DoviSourceMetadata};
use crate::sum::opposite;
use vstd::prelude::*;

verus! {

/// The first three numbers of a register, applied to a signal.
pub open spec fn weighed(row: Seq<F32>, s: (real, real, real)) -> real {
    row[0].value() * s.0 + row[1].value() * s.1 + row[2].value() * s.2
}

/// The rows of the metadata's first matrix are in the registers in their own
/// order: the registers transform every signal as the matrix does, component by
/// component.
pub proof fn law_registers_transform_as_the_metadata(
    uniforms: DoviUniforms,
    dovi: DoviSourceMetadata,
    is_p010: bool,
    s: (real, real, real),
)
    requires
        is_payload(uniforms, dovi, is_p010),
    ensures
        forall|k: int, j: int|
            0 <= k < 3 && 0 <= j < 3 ==> (#[trigger] uniforms.nonlinear_matrix@[k]@[j])
                == dovi.nonlinear_matrix.rows@[k]@[j],
        forall|k: int| 0 <= k < 3 ==> (#[trigger] uniforms.nonlinear_matrix@[k])@[3].bits == 0,
        forall|k: int|
            0 <= k < 3 ==> weighed(#[trigger] uniforms.nonlinear_matrix@[k]@, s) == weighed(
                dovi.nonlinear_matrix.rows@[k]@,
                s,
            ),
{
    assert forall|k: int, j: int| 0 <= k < 3 && 0 <= j < 3 implies (
    #[trigger] uniforms.nonlinear_matrix@[k]@[j]) == dovi.nonlinear_matrix.rows@[k]@[j] by {
        let row = uniforms.nonlinear_matrix@[k]@;
        let cells = dovi.nonlinear_matrix@;
        assert((3 * k + j) / 3 == k && (3 * k + j) % 3 == j);
        assert(row == crate::matrix::padded(cells, k));
        assert(cells[3 * k + j] == dovi.nonlinear_matrix.rows@[k]@[j]);
        assert(j == 0 || j == 1 || j == 2);
    }
    assert forall|k: int| 0 <= k < 3 implies weighed(#[trigger] uniforms.nonlinear_matrix@[k]@, s)
        == weighed(dovi.nonlinear_matrix.rows@[k]@, s) by {
        assert(uniforms.nonlinear_matrix@[k]@[0] == dovi.nonlinear_matrix.rows@[k]@[0]);
        assert(uniforms.nonlinear_matrix@[k]@[1] == dovi.nonlinear_matrix.rows@[k]@[1]);
        assert(uniforms.nonlinear_matrix@[k]@[2] == dovi.nonlinear_matrix.rows@[k]@[2]);
    }
}

/// The matrix is the identity.
pub open spec fn is_identity(matrix: RgbMatrix) -> bool {
    forall|k: int, j: int|
        0 <= k < 3 && 0 <= j < 3 ==> (#[trigger] matrix.rows@[k]@[j]).bits == if k == j {
            ONE_BITS
        } else {
            0
        }
}

/// Metadata with the identity as its first matrix leaves every signal alone.
pub proof fn law_the_identity_leaves_signals_alone(
    uniforms: DoviUniforms,
    dovi: DoviSourceMetadata,
    is_p010: bool,
    s: (real, real, real),
)
    requires
        is_payload(uniforms, dovi, is_p010),
        is_identity(dovi.nonlinear_matrix),
    ensures
        weighed(uniforms.nonlinear_matrix@[0]@, s) == s.0,
        weighed(uniforms.nonlinear_matrix@[1]@, s) == s.1,
        weighed(uniforms.nonlinear_matrix@[2]@, s) == s.2,
{
    law_registers_transform_as_the_metadata(uniforms, dovi, is_p010, s);
    lemma_zero_and_one();
    let m = dovi.nonlinear_matrix.rows@;
    let one = F32 { bits: ONE_BITS };
    let zero = F32 { bits: 0 };
    assert(m[0]@[0] == one && m[0]@[1] == zero && m[0]@[2] == zero);
    assert(m[1]@[0] == zero && m[1]@[1] == one && m[1]@[2] == zero);
    assert(m[2]@[0] == zero && m[2]@[1] == zero && m[2]@[2] == one);
    let (x, y, z) = s;
    assert(1 as real * x == x && 1 as real * y == y && 1 as real * z == z && 0 as real * x
        == 0 as real && 0 as real * y == 0 as real && 0 as real * z == 0 as real)
        by (nonlinear_arith);
}

/// The offsets are those of the metadata, each in its own place and on the scale
/// of the samples: a fraction of a power of two becomes a fraction of the largest
/// code below it.
pub proof fn law_offsets_are_on_the_scale_of_the_samples(
    uniforms: DoviUniforms,
    dovi: DoviSourceMetadata,
    is_p010: bool,
    k: int,
)
    requires
        is_payload(uniforms, dovi, is_p010),
        0 <= k < 3,
        dovi.nonlinear_offset@[k].finite(),
        size_of(dovi.nonlinear_offset@[k].value()) <= 1 as real,
    ensures
        uniforms.nonlinear_offset@[k].finite(),
        ({
            let codes: real = if is_p010 {
                1024 as real
            } else {
                256 as real
            };
            let off = uniforms.nonlinear_offset@[k].value() * (codes - 1 as real)
                - dovi.nonlinear_offset@[k].value() * codes;
            0x10_0000 as real * size_of(off) <= codes
        }),
        uniforms.nonlinear_offset@[3].bits == 0,
{
    let offset = dovi.nonlinear_offset@[k];
    let scale = sample_scale(is_p010);
    assert(uniforms.nonlinear_offset@[k] == product(offset, scale));
    if is_p010 {
        let exact = 1024 as real / 1023 as real;
        lemma_nearest_is_close(1024, 1023, exact);
        lemma_scaled_offset(offset, scale, exact, 1024 as real);
    } else {
        let exact = 256 as real / 255 as real;
        lemma_nearest_is_close(256, 255, exact);
        lemma_scaled_offset(offset, scale, exact, 256 as real);
    }
}

#[verifier::spinoff_prover]
proof fn lemma_scaled_offset(offset: F32, scale: F32, exact: real, codes: real)
    requires
        offset.finite(),
        scale.finite(),
        size_of(offset.value()) <= 1 as real,
        rounded(scale.value(), exact),
        exact * (codes - 1 as real) == codes,
        256 as real <= codes <= 1024 as real,
        1 as real <= exact <= 2 as real,
    ensures
        product(offset, scale).finite(),
        0x10_0000 as real * size_of(
            product(offset, scale).value() * (codes - 1 as real) - offset.value() * codes,
        ) <= codes,
{
    let o = offset.value();
    let s = scale.value();
    let so = size_of(o);
    let off = s - exact;
    crate::accuracy::lemma_size_of_product(o, s);
    crate::accuracy::lemma_size_of_product(o, off);
    assert(so * size_of(s) <= size_of(s) && so * size_of(off) <= size_of(off)) by (nonlinear_arith)
        requires
            0 as real <= so <= 1 as real,
            size_of(s) >= 0 as real,
            size_of(off) >= 0 as real,
    ;
    lemma_product_is_close(offset, scale);
    let p = product(offset, scale).value();
    let d = p - o * exact;
    assert(o * s == o * exact + o * off) by (nonlinear_arith)
        requires
            off == s - exact,
    ;
    assert(0x100_0000 as real * size_of(d) <= 8 as real);
    let c = codes - 1 as real;
    assert(p * c - o * codes == d * c) by (nonlinear_arith)
        requires
            d == p - o * exact,
            exact * c == codes,
    ;
    crate::accuracy::lemma_size_of_product(d, c);
    let sd = size_of(d);
    assert(0x10_0000 as real * (sd * c) <= codes) by (nonlinear_arith)
        requires
            0x100_0000 as real * sd <= 8 as real,
            0 as real <= c <= codes,
            sd >= 0 as real,
    ;
}

/// The pivots of a curve ascend and lie in the unit interval.
pub open spec fn ascends(curve: DoviComponentCurve) -> bool {
    &&& 2 <= curve.num_pivots <= 9
    &&& forall|j: int|
        0 <= j < curve.num_pivots ==> (#[trigger] curve.pivots@[j]).finite() && 0 as real
            <= curve.pivots@[j].value() <= 1 as real
    &&& forall|i: int, j: int|
        0 <= i < j < curve.num_pivots ==> (#[trigger] curve.pivots@[i]).value() < (
        #[trigger] curve.pivots@[j]).value()
}

/// The sentinel lies above the unit interval.
#[verifier::spinoff_prover]
proof fn lemma_sentinel()
    ensures
        (F32 { bits: crate::dovi::PIVOT_SENTINEL_BITS }).finite(),
        (F32 { bits: crate::dovi::PIVOT_SENTINEL_BITS }).value() > 1 as real,
{
    let sentinel = F32 { bits: crate::dovi::PIVOT_SENTINEL_BITS };
    let one = F32 { bits: ONE_BITS };
    lemma_zero_and_one();
    assert(one.rank() < sentinel.rank());
    lemma_order_of_values(one, sentinel);
}

/// A signal falls into its own piece: counting the pivots that it reaches in the
/// registers of its component gives the number of the piece whose pivots lie on
/// either side of it. Empty places are never reached.
pub proof fn law_a_signal_falls_into_its_piece(
    uniforms: DoviUniforms,
    dovi: DoviSourceMetadata,
    is_p010: bool,
    c: int,
    piece: int,
    signal: real,
    k: int,
)
    requires
        is_payload(uniforms, dovi, is_p010),
        0 <= c < 3,
        ascends(dovi.reshaping@[c]),
        0 <= piece < dovi.reshaping@[c].num_pivots - 1,
        dovi.reshaping@[c].pivots@[piece].value() <= signal,
        signal < dovi.reshaping@[c].pivots@[piece + 1].value() || (piece + 2
            == dovi.reshaping@[c].num_pivots && signal <= 1 as real),
        0 <= k < 8,
    ensures
        uniforms.pivots@[2 * c + k / 4]@[k % 4].finite(),
        uniforms.pivots@[2 * c + k / 4]@[k % 4].value() <= signal <==> k < piece,
        uniforms.flags@[0] == integer_value(1),
        uniforms.flags@[1 + c] == integer_value(dovi.reshaping@[c].num_pivots - 1),
{
    let curve = dovi.reshaping@[c];
    assert(uniforms.component_holds(c, curve));
    lemma_sentinel();
    let pivot = uniforms.pivots@[2 * c + k / 4]@[k % 4];
    if k < curve.num_pivots - 2 {
        assert(pivot == curve.pivots@[k + 1]);
        if k + 1 < piece {
            assert(curve.pivots@[k + 1].value() < curve.pivots@[piece].value());
        } else if k + 1 > piece + 1 {
            assert(curve.pivots@[piece + 1].value() < curve.pivots@[k + 1].value());
        }
    }
}

/// A reshaped signal stays between the first pivot and the last.
pub proof fn law_reshaped_signals_stay_between_the_outer_pivots(
    uniforms: DoviUniforms,
    dovi: DoviSourceMetadata,
    is_p010: bool,
    c: int,
)
    requires
        is_payload(uniforms, dovi, is_p010),
        0 <= c < 3,
        ascends(dovi.reshaping@[c]),
    ensures
        uniforms.bounds@[c]@[0] == dovi.reshaping@[c].pivots@[0],
        uniforms.bounds@[c]@[1] == dovi.reshaping@[c].pivots@[dovi.reshaping@[c].num_pivots - 1],
        uniforms.bounds@[c]@[0].value() < uniforms.bounds@[c]@[1].value(),
        forall|j: int|
            0 <= j < dovi.reshaping@[c].num_pivots ==> uniforms.bounds@[c]@[0].value() <= (
            #[trigger] dovi.reshaping@[c].pivots@[j]).value() <= uniforms.bounds@[c]@[1].value(),
{
    let curve = dovi.reshaping@[c];
    assert(uniforms.component_holds(c, curve));
    let first = curve.pivots@[0];
    let last = curve.pivots@[curve.num_pivots - 1];
    lemma_order_of_values(first, last);
    lemma_order_of_values(last, first);
}

/// A polynomial piece has its own coefficients in its register, the constant
/// first, and is told apart from the others by its last number.
pub proof fn law_polynomials_keep_their_coefficients(
    uniforms: DoviUniforms,
    dovi: DoviSourceMetadata,
    is_p010: bool,
    c: int,
    piece: int,
)
    requires
        is_payload(uniforms, dovi, is_p010),
        0 <= c < 3,
        2 <= dovi.reshaping@[c].num_pivots <= 9,
        0 <= piece < dovi.reshaping@[c].num_pivots - 1,
        dovi.reshaping@[c].mmr_orders@[piece] == 0,
    ensures
        forall|j: int|
            0 <= j < 3 ==> #[trigger] uniforms.coefficients@[8 * c + piece]@[j]
                == dovi.reshaping@[c].poly_coeffs@[piece]@[j],
        uniforms.coefficients@[8 * c + piece]@[3].bits == 0,
{
    let curve = dovi.reshaping@[c];
    assert(uniforms.component_holds(c, curve));
    let row = uniforms.coefficients@[8 * c + piece]@;
    assert(row == crate::dovi::piece_row(curve, piece));
    assert forall|j: int| 0 <= j < 3 implies #[trigger] row[j] == curve.poly_coeffs@[piece]@[j] by {
        assert(j == 0 || j == 1 || j == 2);
    }
}

/// A cross-component piece finds its own coefficients where its register says:
/// of each order first the three linear terms, then the four products. The
/// register holds the constant first and the order last.
pub proof fn law_cross_component_pieces_keep_their_coefficients(
    uniforms: DoviUniforms,
    dovi: DoviSourceMetadata,
    is_p010: bool,
    c: int,
    piece: int,
    power: int,
) -> (start: int)
    requires
        is_payload(uniforms, dovi, is_p010),
        0 <= c < 3,
        2 <= dovi.reshaping@[c].num_pivots <= 9,
        0 <= piece < dovi.reshaping@[c].num_pivots - 1,
        0 <= power < dovi.reshaping@[c].mmr_orders@[piece] <= 3,
    ensures
        uniforms.coefficients@[8 * c + piece]@[0] == dovi.reshaping@[c].mmr_constants@[piece],
        uniforms.coefficients@[8 * c + piece]@[1] == integer_value(start),
        uniforms.coefficients@[8 * c + piece]@[3] == integer_value(
            dovi.reshaping@[c].mmr_orders@[piece] as int,
        ),
        0 <= start && start + 2 * power + 1 < 48,
        forall|j: int|
            0 <= j < 3 ==> #[trigger] uniforms.mmr@[48 * c + start + 2 * power]@[j]
                == dovi.reshaping@[c].mmr_coeffs@[piece]@[power]@[j],
        uniforms.mmr@[48 * c + start + 2 * power]@[3].bits == 0,
        forall|j: int|
            0 <= j < 4 ==> #[trigger] uniforms.mmr@[48 * c + start + 2 * power + 1]@[j]
                == dovi.reshaping@[c].mmr_coeffs@[piece]@[power]@[3 + j],
{
    let curve = dovi.reshaping@[c];
    let n = curve.num_pivots - 1;
    let start = crate::dovi::first_row(curve, piece);
    assert(uniforms.component_holds(c, curve));
    assert(uniforms.coefficients@[8 * c + piece]@ == crate::dovi::piece_row(curve, piece));
    crate::dovi::law_each_piece_finds_its_rows(curve, n, piece, 2 * power);
    crate::dovi::law_each_piece_finds_its_rows(curve, n, piece, 2 * power + 1);
    crate::dovi::law_each_piece_finds_its_rows(curve, n, piece, 0);
    crate::dovi::lemma_first_row_fits(curve, piece);
    let low = uniforms.mmr@[48 * c + start + 2 * power]@;
    let high = uniforms.mmr@[48 * c + start + 2 * power + 1]@;
    assert(uniforms.mmr@[48 * c + (start + 2 * power)]@ == crate::dovi::mmr_row(
        curve,
        crate::dovi::pieces(curve),
        start + 2 * power,
    ));
    assert(uniforms.mmr@[48 * c + (start + 2 * power + 1)]@ == crate::dovi::mmr_row(
        curve,
        crate::dovi::pieces(curve),
        start + 2 * power + 1,
    ));
    assert(low == crate::dovi::term_row(curve, piece, 2 * power));
    assert(high == crate::dovi::term_row(curve, piece, 2 * power + 1));
    assert((2 * power) / 2 == power && (2 * power + 1) / 2 == power);
    assert forall|j: int| 0 <= j < 3 implies #[trigger] low[j]
        == curve.mmr_coeffs@[piece]@[power]@[j] by {
        assert(j == 0 || j == 1 || j == 2);
    }
    assert forall|j: int| 0 <= j < 4 implies #[trigger] high[j]
        == curve.mmr_coeffs@[piece]@[power]@[3 + j] by {
        assert(j == 0 || j == 1 || j == 2 || j == 3);
    }
    start
}

/// Pieces of one component do not share rows: the rows of a later piece lie
/// behind those of an earlier one.
pub proof fn law_pieces_have_rows_of_their_own(curve: DoviComponentCurve, a: int, b: int)
    requires
        0 <= a < b <= 8,
        curve.mmr_orders@[a] <= 3,
    ensures
        crate::dovi::first_row(curve, a) + 2 * curve.mmr_orders@[a] <= crate::dovi::first_row(
            curve,
            b,
        ),
{
    crate::dovi::lemma_rows_grow(curve, a + 1, b);
}

/// A component without a curve is left alone.
pub proof fn law_components_without_a_curve_are_left_alone(
    uniforms: DoviUniforms,
    dovi: DoviSourceMetadata,
    is_p010: bool,
    c: int,
)
    requires
        is_payload(uniforms, dovi, is_p010),
        0 <= c < 3,
        dovi.reshaping@[c].num_pivots < 2,
    ensures
        uniforms.flags@[1 + c].bits == 0,
{
    assert(uniforms.component_holds(c, dovi.reshaping@[c]));
}

/// The last matrix does two things at once: it takes a signal through the
/// metadata's second matrix and then from cone responses to red, green and blue,
/// in this order, up to a ten-thousandth.
pub proof fn law_cone_responses_become_colours(
    uniforms: DoviUniforms,
    dovi: DoviSourceMetadata,
    is_p010: bool,
    row: int,
    column: int,
)
    requires
        is_payload(uniforms, dovi, is_p010),
        cells_within(dovi.rgb_to_lms@, 4 as real),
        0 <= row < 3,
        0 <= column < 3,
    ensures
        10_000 as real * size_of(
            uniforms.lms_matrix@[row]@[column].value() - row_by_column(
                dovi_cells(),
                dovi.rgb_to_lms@,
                row,
                column,
            ),
        ) <= 1 as real,
        uniforms.lms_matrix@[row]@[3].bits == 0,
{
    lemma_dovi_cells();
    law_products_are_rows_times_columns(dovi_cells(), dovi.rgb_to_lms@, row, column);
    assert(uniforms.lms_matrix@[row]@ == crate::matrix::padded(
        multiplied(dovi_cells(), dovi.rgb_to_lms@),
        row,
    ));
    assert(column == 0 || column == 1 || column == 2);
}

/// A constant of the last matrix and its size.
#[verifier::spinoff_prover]
proof fn lemma_dovi_cell(n: int)
    requires
        0 <= n <= 400_000_000,
    ensures
        nearest_to(n, 100_000_000).finite(),
        1_000_000 as real * size_of(
            nearest_to(n, 100_000_000).value() - n as real / 100_000_000 as real,
        ) <= 1 as real,
        opposite(nearest_to(n, 100_000_000)).finite(),
        opposite(nearest_to(n, 100_000_000)).value() == -nearest_to(n, 100_000_000).value(),
{
    lemma_nearest_is_close(n, 100_000_000, n as real / 100_000_000 as real);
    lemma_opposite_value(nearest_to(n, 100_000_000));
}

#[verifier::spinoff_prover]
proof fn lemma_dovi_cells()
    ensures
        cells_within(dovi_cells(), 4 as real),
        forall|row: int|
            0 <= row < 3 ==> 1000 as real * size_of(
                #[trigger] dovi_cells()[3 * row].value() + dovi_cells()[3 * row + 1].value()
                    + dovi_cells()[3 * row + 2].value() - 1 as real,
            ) <= 1 as real,
{
    lemma_dovi_cell(306441879);
    lemma_dovi_cell(216597676);
    lemma_dovi_cell(10155818);
    lemma_dovi_cell(65612108);
    lemma_dovi_cell(178554118);
    lemma_dovi_cell(12943749);
    lemma_dovi_cell(1736321);
    lemma_dovi_cell(4725154);
    lemma_dovi_cell(103004253);
    let cells = dovi_cells();
    assert forall|n: int| 0 <= n < 9 implies (#[trigger] cells[n]).finite() && size_of(
        cells[n].value(),
    ) <= 4 as real by {
        assert(n == 0 || n == 1 || n == 2 || n == 3 || n == 4 || n == 5 || n == 6 || n == 7 || n
            == 8);
    }
    assert forall|row: int| 0 <= row < 3 implies 1000 as real * size_of(
        #[trigger] cells[3 * row].value() + cells[3 * row + 1].value() + cells[3 * row + 2].value()
            - 1 as real,
    ) <= 1 as real by {
        assert(row == 0 || row == 1 || row == 2);
    }
}

/// Equal cone responses are a grey: the way from them to red, green and blue
/// keeps what is neutral neutral, up to a thousandth.
pub proof fn law_greys_stay_grey(row: int)
    requires
        0 <= row < 3,
    ensures
        1000 as real * size_of(
            dovi_cells()[3 * row].value() + dovi_cells()[3 * row + 1].value() + dovi_cells()[3
                * row + 2].value() - 1 as real,
        ) <= 1 as real,
{
    lemma_dovi_cells();
}

} // verus!
