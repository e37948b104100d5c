//! The shader payload of Dolby Vision reshaping.
use crate::float::F32;
use crate::matrix::{dovi_cells, dovi_lms_to_rgb_matrix, multiplied, padded};
use crate::product::{integer_value, lemma_nearest, nearest_to, product};
use crate::source::{
    DoviComponentCurve, DoviSourceMetadata, SourceColorState, DOVI_MAX_MMR_ORDER, DOVI_MAX_PIECES,
};
use vstd::prelude::*;

verus! {

/// Rows of cross-component coefficients that a component has room for.
pub const MMR_ROWS: usize = 48;

/// The encoding of one thousand million, which no signal reaches.
pub const PIVOT_SENTINEL_BITS: u32 = 0x4e6e_6b28;

/// The encoding of the number nearest to 1024 / 1023.
const TEN_BIT_SCALE_BITS: u32 = 0x3f80_2008;

/// The encoding of the number nearest to 256 / 255.
const EIGHT_BIT_SCALE_BITS: u32 = 0x3f80_8081;

/// Four numbers, one register of a shader.
pub type Row = [F32; 4];

/// What the shaders need for reshaping, in registers of four numbers.
#[derive(Debug, Clone, Copy, PartialEq, Eq)]
pub struct DoviUniforms {
    /// One where the source is reshaped, then the pieces of each component.
    pub flags: Row,
    /// The inner pivots of each component in two rows, filled up with a
    /// number that no signal reaches.
    pub pivots: [Row; 6],
    /// The first and the last pivot of each component.
    pub bounds: [Row; 3],
    /// Of each piece: the coefficients of a polynomial and zero, or the
    /// constant, the first row and the order of a cross-component piece.
    pub coefficients: [Row; 24],
    /// Two rows for each order of each cross-component piece.
    pub mmr: [Row; 144],
    pub nonlinear_matrix: [Row; 3],
    pub nonlinear_offset: Row,
    pub lms_matrix: [Row; 3],
}

pub open spec fn zero() -> F32 {
    F32 { bits: 0 }
}

pub open spec fn zero_row() -> Seq<F32> {
    seq![zero(), zero(), zero(), zero()]
}

/// Pieces of a component; none where there are too few pivots.
pub open spec fn pieces(curve: DoviComponentCurve) -> int {
    if curve.num_pivots < 2 {
        0
    } else {
        curve.num_pivots - 1
    }
}

/// The order of a cross-component piece, as far as there are coefficients.
pub open spec fn order(curve: DoviComponentCurve, piece: int) -> int {
    if curve.mmr_orders@[piece] > 3 {
        3
    } else {
        curve.mmr_orders@[piece] as int
    }
}

/// Rows that the pieces before `piece` take.
pub open spec fn first_row(curve: DoviComponentCurve, piece: int) -> int
    decreases piece,
{
    if piece <= 0 {
        0
    } else {
        first_row(curve, piece - 1) + 2 * order(curve, piece - 1)
    }
}

/// The inner pivot `k`, or the sentinel where there is none.
pub open spec fn inner_pivot(curve: DoviComponentCurve, k: int) -> F32 {
    if k < pieces(curve) - 1 {
        curve.pivots@[k + 1]
    } else {
        F32 { bits: PIVOT_SENTINEL_BITS }
    }
}

/// The register of one piece.
pub open spec fn piece_row(curve: DoviComponentCurve, piece: int) -> Seq<F32> {
    if piece >= pieces(curve) {
        zero_row()
    } else if curve.mmr_orders@[piece] == 0 {
        seq![
            curve.poly_coeffs@[piece]@[0],
            curve.poly_coeffs@[piece]@[1],
            curve.poly_coeffs@[piece]@[2],
            zero(),
        ]
    } else {
        seq![
            curve.mmr_constants@[piece],
            integer_value(first_row(curve, piece)),
            zero(),
            integer_value(curve.mmr_orders@[piece] as int),
        ]
    }
}

/// Row `row` of a piece's cross-component coefficients: for each order the
/// three linear terms, then the four cross products.
pub open spec fn term_row(curve: DoviComponentCurve, piece: int, row: int) -> Seq<F32> {
    let terms = curve.mmr_coeffs@[piece]@[row / 2]@;
    if row % 2 == 0 {
        seq![terms[0], terms[1], terms[2], zero()]
    } else {
        seq![terms[3], terms[4], terms[5], terms[6]]
    }
}

/// Row `row` of a component once its first `n` pieces are in place.
pub open spec fn mmr_row(curve: DoviComponentCurve, n: int, row: int) -> Seq<F32>
    decreases n,
{
    if n <= 0 {
        zero_row()
    } else {
        let start = first_row(curve, n - 1);
        if start <= row < start + 2 * order(curve, n - 1) {
            term_row(curve, n - 1, row - start)
        } else {
            mmr_row(curve, n - 1, row)
        }
    }
}

impl DoviUniforms {
    /// Nothing is reshaped.
    pub open spec fn blank(self) -> bool {
        &&& self.flags@ == zero_row()
        &&& forall|k: int| 0 <= k < 6 ==> (#[trigger] self.pivots@[k])@ == zero_row()
        &&& forall|k: int| 0 <= k < 3 ==> (#[trigger] self.bounds@[k])@ == zero_row()
        &&& forall|k: int| 0 <= k < 24 ==> (#[trigger] self.coefficients@[k])@ == zero_row()
        &&& forall|k: int| 0 <= k < 144 ==> (#[trigger] self.mmr@[k])@ == zero_row()
        &&& forall|k: int| 0 <= k < 3 ==> (#[trigger] self.nonlinear_matrix@[k])@ == zero_row()
        &&& self.nonlinear_offset@ == zero_row()
        &&& forall|k: int| 0 <= k < 3 ==> (#[trigger] self.lms_matrix@[k])@ == zero_row()
    }

    /// The registers of one component hold its curve, or nothing where it has
    /// none.
    pub open spec fn component_holds(self, c: int, curve: DoviComponentCurve) -> bool {
        &&& self.flags@[1 + c] == if pieces(curve) == 0 {
            zero()
        } else {
            integer_value(pieces(curve))
        }
        &&& forall|k: int|
            0 <= k < 8 ==> #[trigger] self.pivots@[2 * c + k / 4]@[k % 4] == if pieces(curve) == 0 {
                zero()
            } else {
                inner_pivot(curve, k)
            }
        &&& self.bounds@[c]@ == if pieces(curve) == 0 {
            zero_row()
        } else {
            let first = curve.pivots@[0];
            let last = curve.pivots@[pieces(curve)];
            seq![first.lesser(last), first.greater(last), zero(), zero()]
        }
        &&& forall|k: int|
            0 <= k < 8 ==> (#[trigger] self.coefficients@[8 * c + k])@ == piece_row(curve, k)
        &&& forall|row: int|
            0 <= row < 48 ==> (#[trigger] self.mmr@[48 * c + row])@ == mmr_row(
                curve,
                pieces(curve),
                row,
            )
    }

    /// No reshaping.
    pub fn disabled() -> (uniforms: Self)
        ensures
            uniforms.blank(),
    {
        let zero = F32 { bits: 0 };
        let row: Row = [zero; 4];
        let uniforms = DoviUniforms {
            flags: row,
            pivots: [row; 6],
            bounds: [row; 3],
            coefficients: [row; 24],
            mmr: [row; 144],
            nonlinear_matrix: [row; 3],
            nonlinear_offset: row,
            lms_matrix: [row; 3],
        };
        proof {
            assert(row@ =~= zero_row());
        }
        uniforms
    }
}

pub proof fn lemma_first_row_fits(curve: DoviComponentCurve, piece: int)
    requires
        0 <= piece <= 8,
    ensures
        0 <= first_row(curve, piece) <= 6 * piece,
    decreases piece,
{
    if piece > 0 {
        lemma_first_row_fits(curve, piece - 1);
    }
}

/// Row `row` of a component while `orders` orders of piece `n` are in place.
spec fn partly(curve: DoviComponentCurve, n: int, orders: int, row: int) -> Seq<F32> {
    let start = first_row(curve, n);
    if start <= row < start + 2 * orders {
        term_row(curve, n, row - start)
    } else {
        mmr_row(curve, n, row)
    }
}

impl DoviUniforms {
    /// The registers of the other components, and those that belong to none,
    /// are as before.
    pub open spec fn keeps_others(self, before: Self, c: int) -> bool {
        &&& self.flags@[0] == before.flags@[0]
        &&& forall|k: int|
            0 <= k < 3 && k != c ==> #[trigger] self.flags@[1 + k] == before.flags@[1 + k]
        &&& forall|k: int|
            0 <= k < 6 && k / 2 != c ==> #[trigger] self.pivots@[k] == before.pivots@[k]
        &&& forall|k: int| 0 <= k < 3 && k != c ==> #[trigger] self.bounds@[k] == before.bounds@[k]
        &&& forall|k: int|
            0 <= k < 24 && k / 8 != c ==> #[trigger] self.coefficients@[k]
                == before.coefficients@[k]
        &&& forall|k: int|
            0 <= k < 144 && k / 48 != c ==> #[trigger] self.mmr@[k] == before.mmr@[k]
        &&& self.nonlinear_matrix == before.nonlinear_matrix
        &&& self.nonlinear_offset == before.nonlinear_offset
        &&& self.lms_matrix == before.lms_matrix
    }

    /// The registers of a component hold nothing.
    pub open spec fn component_blank(self, c: int) -> bool {
        &&& self.flags@[1 + c] == zero()
        &&& self.pivots@[2 * c]@ == zero_row()
        &&& self.pivots@[2 * c + 1]@ == zero_row()
        &&& self.bounds@[c]@ == zero_row()
        &&& forall|k: int| 0 <= k < 8 ==> (#[trigger] self.coefficients@[8 * c + k])@ == zero_row()
        &&& forall|row: int| 0 <= row < 48 ==> (#[trigger] self.mmr@[48 * c + row])@ == zero_row()
    }

    /// Writes the coefficients of one cross-component piece.
    fn fill_terms(
        &mut self,
        c: usize,
        curve: &DoviComponentCurve,
        piece: usize,
        start: usize,
        orders: usize,
    )
        requires
            c < 3,
            piece < 8,
            start == first_row(*curve, piece as int),
            start + 6 <= 48,
            orders <= 3,
            orders == order(*curve, piece as int),
            forall|row: int|
                0 <= row < 48 ==> (#[trigger] old(self).mmr@[48 * c + row])@ == mmr_row(
                    *curve,
                    piece as int,
                    row,
                ),
        ensures
            final(self).flags == old(self).flags,
            final(self).pivots == old(self).pivots,
            final(self).bounds == old(self).bounds,
            final(self).coefficients == old(self).coefficients,
            final(self).nonlinear_matrix == old(self).nonlinear_matrix,
            final(self).nonlinear_offset == old(self).nonlinear_offset,
            final(self).lms_matrix == old(self).lms_matrix,
            forall|k: int|
                0 <= k < 144 && k / 48 != c ==> #[trigger] final(self).mmr@[k] == old(self).mmr@[k],
            forall|row: int|
                0 <= row < 48 ==> (#[trigger] final(self).mmr@[48 * c + row])@ == mmr_row(
                    *curve,
                    piece + 1,
                    row,
                ),
    {
        let ghost before = *self;
        let mut index: usize = 0;
        while index < orders
            invariant
                c < 3,
                piece < 8,
                start == first_row(*curve, piece as int),
                start + 6 <= 48,
                index <= orders <= 3,
                self.flags == before.flags,
                self.pivots == before.pivots,
                self.bounds == before.bounds,
                self.coefficients == before.coefficients,
                self.nonlinear_matrix == before.nonlinear_matrix,
                self.nonlinear_offset == before.nonlinear_offset,
                self.lms_matrix == before.lms_matrix,
                forall|k: int|
                    0 <= k < 144 && k / 48 != c ==> #[trigger] self.mmr@[k] == before.mmr@[k],
                forall|row: int|
                    0 <= row < 48 ==> (#[trigger] self.mmr@[48 * c + row])@ == partly(
                        *curve,
                        piece as int,
                        index as int,
                        row,
                    ),
            decreases orders - index,
        {
            let terms = &curve.mmr_coeffs[piece][index];
            let low: Row = [terms[0], terms[1], terms[2], F32 { bits: 0 }];
            let high: Row = [terms[3], terms[4], terms[5], terms[6]];
            let at: usize = MMR_ROWS * c + start + 2 * index;
            let ghost so_far = self.mmr@;
            self.mmr[at] = low;
            self.mmr[at + 1] = high;
            proof {
                let base = 2 * index;
                assert(low@ =~= term_row(*curve, piece as int, base as int));
                assert(high@ =~= term_row(*curve, piece as int, base + 1));
                assert forall|row: int| 0 <= row < 48 implies (#[trigger] self.mmr@[48 * c + row])@
                    == partly(*curve, piece as int, index + 1, row) by {
                    if row != start + base && row != start + base + 1 {
                        assert(self.mmr@[48 * c + row] == so_far[48 * c + row]);
                    }
                }
            }
            index = index + 1;
        }
    }

    /// Writes the registers of one component.
    fn fill_component(&mut self, c: usize, curve: &DoviComponentCurve)
        requires
            c < 3,
            curve.num_pivots <= 9,
            old(self).component_blank(c as int),
        ensures
            final(self).component_holds(c as int, *curve),
            final(self).keeps_others(*old(self), c as int),
    {
        let ghost before = *self;
        if curve.num_pivots < 2 {
            proof {
                assert forall|row: int| 0 <= row < 48 implies (#[trigger] self.mmr@[48 * c + row])@
                    == mmr_row(*curve, pieces(*curve), row) by {}
                assert forall|k: int| 0 <= k < 8 implies #[trigger] self.pivots@[2 * c + k
                    / 4]@[k % 4] == zero() by {
                    assert(self.pivots@[2 * c]@[k % 4] == zero());
                    assert(self.pivots@[2 * c + 1]@[k % 4] == zero());
                }
            }
            return;
        }
        let segments: usize = (curve.num_pivots - 1) as usize;
        self.flags[1 + c] = F32::from_u32(segments as u32);
        let mut interior: [F32; 8] = [F32 { bits: PIVOT_SENTINEL_BITS }; 8];
        let mut k: usize = 0;
        while k + 1 < segments
            invariant
                1 <= segments <= 8,
                segments == pieces(*curve),
                k < segments,
                forall|j: int| 0 <= j < k ==> #[trigger] interior@[j] == curve.pivots@[j + 1],
                forall|j: int|
                    k <= j < 8 ==> #[trigger] interior@[j] == (F32 { bits: PIVOT_SENTINEL_BITS }),
            decreases segments - k,
        {
            interior[k] = curve.pivots[k + 1];
            k = k + 1;
        }
        self.pivots[2 * c] = [interior[0], interior[1], interior[2], interior[3]];
        self.pivots[2 * c + 1] = [interior[4], interior[5], interior[6], interior[7]];
        let first = curve.pivots[0];
        let last = curve.pivots[segments];
        self.bounds[c] = [
            first.min_of(last),
            first.max_of(last),
            F32 { bits: 0 },
            F32 { bits: 0 },
        ];
        proof {
            let first = curve.pivots@[0];
            let last = curve.pivots@[pieces(*curve)];
            assert(self.bounds@[c as int]@ =~= seq![
                first.lesser(last),
                first.greater(last),
                zero(),
                zero(),
            ]);
            assert forall|j: int| 0 <= j < 8 implies #[trigger] self.pivots@[2 * c + j / 4]@[j % 4]
                == inner_pivot(*curve, j) by {
                assert(interior@[j] == inner_pivot(*curve, j));
                if j < 4 {
                    assert(j / 4 == 0 && j % 4 == j);
                } else {
                    assert(j / 4 == 1 && j % 4 == j - 4);
                }
            }
        }
        let mut start: usize = 0;
        let mut piece: usize = 0;
        let ghost ready = *self;
        while piece < segments
            invariant
                c < 3,
                1 <= segments <= 8,
                segments == pieces(*curve),
                piece <= segments,
                start == first_row(*curve, piece as int),
                self.flags == ready.flags,
                self.pivots == ready.pivots,
                self.bounds == ready.bounds,
                self.nonlinear_matrix == ready.nonlinear_matrix,
                self.nonlinear_offset == ready.nonlinear_offset,
                self.lms_matrix == ready.lms_matrix,
                forall|j: int|
                    0 <= j < 24 && j / 8 != c ==> #[trigger] self.coefficients@[j]
                        == ready.coefficients@[j],
                forall|j: int|
                    0 <= j < 144 && j / 48 != c ==> #[trigger] self.mmr@[j] == ready.mmr@[j],
                forall|j: int|
                    0 <= j < piece ==> (#[trigger] self.coefficients@[8 * c + j])@ == piece_row(
                        *curve,
                        j,
                    ),
                forall|j: int|
                    piece <= j < 8 ==> (#[trigger] self.coefficients@[8 * c + j])@ == zero_row(),
                forall|row: int|
                    0 <= row < 48 ==> (#[trigger] self.mmr@[48 * c + row])@ == mmr_row(
                        *curve,
                        piece as int,
                        row,
                    ),
            decreases segments - piece,
        {
            let slot: usize = DOVI_MAX_PIECES * c + piece;
            let kind: u8 = curve.mmr_orders[piece];
            let ghost so_far = self.coefficients@;
            proof {
                lemma_first_row_fits(*curve, piece as int);
            }
            if kind == 0 {
                let poly = &curve.poly_coeffs[piece];
                self.coefficients[slot] = [poly[0], poly[1], poly[2], F32 { bits: 0 }];
                proof {
                    assert(self.coefficients@[8 * c + piece]@ =~= piece_row(
                        *curve,
                        piece as int,
                    ));
                    assert forall|row: int| 0 <= row < 48 implies (#[trigger] self.mmr@[48 * c
                        + row])@ == mmr_row(*curve, piece + 1, row) by {}
                }
            } else {
                let orders: usize = if kind as usize > DOVI_MAX_MMR_ORDER {
                    DOVI_MAX_MMR_ORDER
                } else {
                    kind as usize
                };
                self.fill_terms(c, curve, piece, start, orders);
                self.coefficients[slot] = [
                    curve.mmr_constants[piece],
                    F32::from_u32(start as u32),
                    F32 { bits: 0 },
                    F32::from_u32(kind as u32),
                ];
                proof {
                    assert(self.coefficients@[8 * c + piece]@ =~= piece_row(
                        *curve,
                        piece as int,
                    ));
                }
                start = start + 2 * orders;
            }
            proof {
                assert forall|j: int| 0 <= j < 24 && j != slot implies #[trigger] self.coefficients@[j]
                    == so_far[j] by {}
                assert forall|j: int| 0 <= j < piece + 1 implies (#[trigger] self.coefficients@[8
                    * c + j])@ == piece_row(*curve, j) by {
                    if j < piece {
                        assert(self.coefficients@[8 * c + j] == so_far[8 * c + j]);
                    }
                }
                assert forall|j: int| piece + 1 <= j < 8 implies (#[trigger] self.coefficients@[8
                    * c + j])@ == zero_row() by {
                    assert(self.coefficients@[8 * c + j] == so_far[8 * c + j]);
                }
            }
            piece = piece + 1;
        }
    }
}

/// The scale of samples of ten bits or of eight: samples of `bits` bits are read
/// as fractions of `2^bits - 1`, offsets are fractions of `2^bits`.
pub open spec fn sample_scale(is_p010: bool) -> F32 {
    if is_p010 {
        nearest_to(1024, 1023)
    } else {
        nearest_to(256, 255)
    }
}

/// The scale of samples of ten bits or of eight.
pub fn scale_of_samples(is_p010: bool) -> (scale: F32)
    ensures
        scale == sample_scale(is_p010),
{
    proof {
        vstd::arithmetic::power2::lemma2_to64();
        lemma_nearest(F32 { bits: TEN_BIT_SCALE_BITS }, 1024, 1023, 127, 0x80_0000);
        lemma_nearest(F32 { bits: EIGHT_BIT_SCALE_BITS }, 256, 255, 127, 0x80_0000);
    }
    if is_p010 {
        F32 { bits: TEN_BIT_SCALE_BITS }
    } else {
        F32 { bits: EIGHT_BIT_SCALE_BITS }
    }
}

/// `uniforms` is the payload of a frame's metadata, for samples of eight bits
/// or ten.
pub open spec fn is_payload(
    uniforms: DoviUniforms,
    dovi: DoviSourceMetadata,
    is_p010: bool,
) -> bool {
    &&& uniforms.flags@[0] == integer_value(1)
    &&& forall|c: int|
        0 <= c < 3 ==> uniforms.component_holds(c, #[trigger] dovi.reshaping@[c])
    &&& forall|k: int|
        0 <= k < 3 ==> (#[trigger] uniforms.nonlinear_matrix@[k])@ == padded(
            dovi.nonlinear_matrix@,
            k,
        )
    &&& forall|k: int|
        0 <= k < 3 ==> #[trigger] uniforms.nonlinear_offset@[k] == product(
            dovi.nonlinear_offset@[k],
            sample_scale(is_p010),
        )
    &&& uniforms.nonlinear_offset@[3] == zero()
    &&& forall|k: int|
        0 <= k < 3 ==> (#[trigger] uniforms.lms_matrix@[k])@ == padded(
            multiplied(dovi_cells(), dovi.rgb_to_lms@),
            k,
        )
}

/// The pivots of every component fit.
pub open spec fn pivots_fit(dovi: DoviSourceMetadata) -> bool {
    forall|c: int| 0 <= c < 3 ==> (#[trigger] dovi.reshaping@[c]).num_pivots <= 9
}

impl DoviUniforms {
    /// The payload of a frame, for the samples as they were uploaded: of ten
    /// bits, or of eight.
    pub fn of_for_representation(source: &SourceColorState, is_p010: bool) -> (uniforms: Self)
        requires
            source.dovi matches Some(dovi) ==> pivots_fit(dovi),
        ensures
            match source.dovi {
                None => uniforms.blank(),
                Some(dovi) => is_payload(uniforms, dovi, is_p010),
            },
            source.dovi matches Some(dovi) ==> forall|k: int, j: int|
                0 <= k < 3 && 0 <= j < 3 ==> (#[trigger] uniforms.nonlinear_matrix@[k]@[j])
                    == dovi.nonlinear_matrix.rows@[k]@[j],
    {
        let mut uniforms = DoviUniforms::disabled();
        let dovi = match &source.dovi {
            None => {
                return uniforms;
            },
            Some(dovi) => dovi,
        };
        uniforms.flags[0] = F32::from_u32(1);
        let ghost blank = uniforms;
        let mut c: usize = 0;
        while c < 3
            invariant
                c <= 3,
                pivots_fit(*dovi),
                uniforms.flags@[0] == integer_value(1),
                forall|k: int|
                    0 <= k < c ==> uniforms.component_holds(k, #[trigger] dovi.reshaping@[k]),
                forall|k: int| c <= k < 3 ==> #[trigger] uniforms.component_blank(k),
            decreases 3 - c,
        {
            let ghost before = uniforms;
            proof {
                assert(dovi.reshaping@[c as int].num_pivots <= 9);
                assert(uniforms.component_blank(c as int));
            }
            uniforms.fill_component(c, &dovi.reshaping[c]);
            proof {
                assert forall|k: int| 0 <= k < c + 1 implies uniforms.component_holds(
                    k,
                    #[trigger] dovi.reshaping@[k],
                ) by {
                    if k < c {
                        lemma_kept(before, uniforms, c as int, k, dovi.reshaping@[k]);
                    }
                }
                assert forall|k: int| c + 1 <= k < 3 implies #[trigger] uniforms.component_blank(
                    k,
                ) by {
                    assert(before.component_blank(k));
                    lemma_kept_blank(before, uniforms, c as int, k);
                }
            }
            c = c + 1;
        }
        uniforms.nonlinear_matrix = dovi.nonlinear_matrix.row4s();
        let scale = scale_of_samples(is_p010);
        uniforms.nonlinear_offset = [
            dovi.nonlinear_offset[0].times(scale),
            dovi.nonlinear_offset[1].times(scale),
            dovi.nonlinear_offset[2].times(scale),
            F32 { bits: 0 },
        ];
        uniforms.lms_matrix = dovi_lms_to_rgb_matrix(dovi.rgb_to_lms).row4s();
        proof {
            assert forall|k: int| 0 <= k < 3 implies uniforms.component_holds(
                k,
                #[trigger] dovi.reshaping@[k],
            ) by {}
            assert forall|k: int, j: int| 0 <= k < 3 && 0 <= j < 3 implies (
            #[trigger] uniforms.nonlinear_matrix@[k]@[j]) == dovi.nonlinear_matrix.rows@[k]@[j] by {
                let cells = dovi.nonlinear_matrix@;
                assert(uniforms.nonlinear_matrix@[k]@ == padded(cells, k));
                assert((3 * k + j) / 3 == k && (3 * k + j) % 3 == j);
                assert(cells[3 * k + j] == dovi.nonlinear_matrix.rows@[k]@[j]);
                assert(j == 0 || j == 1 || j == 2);
            }
        }
        uniforms
    }

    /// The payload for samples of ten bits.
    pub fn of(source: &SourceColorState) -> (uniforms: Self)
        requires
            source.dovi matches Some(dovi) ==> pivots_fit(dovi),
        ensures
            match source.dovi {
                None => uniforms.blank(),
                Some(dovi) => is_payload(uniforms, dovi, true),
            },
    {
        DoviUniforms::of_for_representation(source, true)
    }
}

proof fn lemma_kept(
    before: DoviUniforms,
    after: DoviUniforms,
    c: int,
    k: int,
    curve: DoviComponentCurve,
)
    requires
        0 <= c < 3,
        0 <= k < 3,
        k != c,
        after.keeps_others(before, c),
        before.component_holds(k, curve),
    ensures
        after.component_holds(k, curve),
{
    assert(after.flags@[1 + k] == before.flags@[1 + k]);
    assert forall|j: int| 0 <= j < 8 implies #[trigger] after.pivots@[2 * k + j / 4]@[j % 4] == if pieces(
        curve,
    ) == 0 {
        zero()
    } else {
        inner_pivot(curve, j)
    } by {
        assert((2 * k + j / 4) / 2 == k);
        assert(before.pivots@[2 * k + j / 4]@[j % 4] == if pieces(curve) == 0 {
            zero()
        } else {
            inner_pivot(curve, j)
        });
    }
    assert forall|j: int| 0 <= j < 8 implies (#[trigger] after.coefficients@[8 * k + j])@
        == piece_row(curve, j) by {
        assert((8 * k + j) / 8 == k);
        assert(before.coefficients@[8 * k + j]@ == piece_row(curve, j));
    }
    assert forall|row: int| 0 <= row < 48 implies (#[trigger] after.mmr@[48 * k + row])@ == mmr_row(
        curve,
        pieces(curve),
        row,
    ) by {
        assert((48 * k + row) / 48 == k);
        assert(before.mmr@[48 * k + row]@ == mmr_row(curve, pieces(curve), row));
    }
}

proof fn lemma_kept_blank(before: DoviUniforms, after: DoviUniforms, c: int, k: int)
    requires
        0 <= c < 3,
        0 <= k < 3,
        k != c,
        after.keeps_others(before, c),
        before.component_blank(k),
    ensures
        after.component_blank(k),
{
    assert(after.flags@[1 + k] == before.flags@[1 + k]);
    assert((2 * k) / 2 == k && (2 * k + 1) / 2 == k);
    assert forall|j: int| 0 <= j < 8 implies (#[trigger] after.coefficients@[8 * k + j])@
        == zero_row() by {
        assert((8 * k + j) / 8 == k);
        assert(before.coefficients@[8 * k + j]@ == zero_row());
    }
    assert forall|row: int| 0 <= row < 48 implies (#[trigger] after.mmr@[48 * k + row])@
        == zero_row() by {
        assert((48 * k + row) / 48 == k);
        assert(before.mmr@[48 * k + row]@ == zero_row());
    }
}

pub proof fn lemma_rows_grow(curve: DoviComponentCurve, a: int, b: int)
    requires
        0 <= a <= b,
    ensures
        first_row(curve, a) <= first_row(curve, b),
    decreases b - a,
{
    if a < b {
        lemma_rows_grow(curve, a, b - 1);
    }
}

/// The rows of a cross-component piece start where the piece's register says,
/// stay within the component, and hold the piece's own coefficients: no later
/// piece overwrites them.
pub proof fn law_each_piece_finds_its_rows(curve: DoviComponentCurve, n: int, piece: int, row: int)
    requires
        0 <= piece < n <= 8,
        0 <= row < 2 * order(curve, piece),
    ensures
        0 <= first_row(curve, piece) + row < 48,
        mmr_row(curve, n, first_row(curve, piece) + row) == term_row(curve, piece, row),
    decreases n,
{
    lemma_first_row_fits(curve, piece);
    if n > piece + 1 {
        law_each_piece_finds_its_rows(curve, n - 1, piece, row);
        lemma_rows_grow(curve, piece + 1, n - 1);
    }
}

} // verus!
