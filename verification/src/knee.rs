//! The knee of a tone curve, and the curve of SMPTE ST 2094-10 through it.
use crate::float::{F32, ONE_BITS};
use crate::matrix::{determinant, RgbMatrix};
use crate::modes::ToneMapOperator;
use crate::pipeline::{target_black, target_black_nits, VideoRenderPipeline};
use crate::product::{lemma_nearest, nearest_to, product};
use crate::quotient::quotient;
use crate::sum::{difference, opposite, sum};
use vstd::prelude::*;

verus! {

/// The encoding of the number nearest to 0.4.
const FOUR_TENTHS_BITS: u32 = 0x3ecc_cccd;

/// The encoding of the number nearest to 0.1.
const ONE_TENTH_BITS: u32 = 0x3dcc_cccd;

/// The encoding of the number nearest to 0.8.
const EIGHT_TENTHS_BITS: u32 = 0x3f4c_cccd;

/// The encoding of the number nearest to one millionth.
const MILLIONTH_BITS: u32 = 0x3586_37bd;

/// The encoding of the number nearest to one millionth of a millionth.
const LEAST_DETERMINANT_BITS: u32 = 0x2b8c_bccc;

/// The encoding of 2.
pub const TWO_BITS: u32 = 0x4000_0000;

/// The encoding of 3.
pub const THREE_BITS: u32 = 0x4040_0000;

/// The constants are the numbers nearest to what they stand for.
proof fn lemma_knee_constants()
    ensures
        nearest_to(4, 10) == (F32 { bits: FOUR_TENTHS_BITS }),
        nearest_to(1, 10) == (F32 { bits: ONE_TENTH_BITS }),
        nearest_to(8, 10) == (F32 { bits: EIGHT_TENTHS_BITS }),
        nearest_to(1, 1_000_000) == (F32 { bits: MILLIONTH_BITS }),
        nearest_to(1, 1_000_000_000_000) == (F32 { bits: LEAST_DETERMINANT_BITS }),
{
    vstd::arithmetic::power2::lemma2_to64();
    vstd::arithmetic::power2::lemma2_to64_rest();
    lemma_nearest(F32 { bits: FOUR_TENTHS_BITS }, 4, 10, 125, 0x200_0000);
    lemma_nearest(F32 { bits: ONE_TENTH_BITS }, 1, 10, 123, 0x800_0000);
    lemma_nearest(F32 { bits: EIGHT_TENTHS_BITS }, 8, 10, 126, 0x100_0000);
    lemma_nearest(F32 { bits: MILLIONTH_BITS }, 1, 1_000_000, 107, 0x800_0000_0000);
    lemma_nearest(
        F32 { bits: LEAST_DETERMINANT_BITS },
        1,
        1_000_000_000_000,
        87,
        0x8000_0000_0000_0000,
    );
}

/// `x` of `b` and the rest of `a`.
pub open spec fn mix(a: F32, b: F32, x: F32) -> F32 {
    sum(product(x, b), product(difference(F32 { bits: ONE_BITS }, x), a))
}

fn mix_of(a: F32, b: F32, x: F32) -> (value: F32)
    ensures
        value == mix(a, b, x),
{
    x.times(b).plus(F32 { bits: ONE_BITS }.minus(x).times(a))
}

/// The cubic step from zero at `edge0` to one at `edge1`.
pub open spec fn smooth(edge0: F32, edge1: F32, x: F32) -> F32 {
    let t = quotient(difference(x, edge0), difference(edge1, edge0)).clamped(
        F32 { bits: 0 },
        F32 { bits: ONE_BITS },
    );
    product(
        product(t, t),
        difference(F32 { bits: THREE_BITS }, product(F32 { bits: TWO_BITS }, t)),
    )
}

fn smooth_of(edge0: F32, edge1: F32, x: F32) -> (value: F32)
    ensures
        value == smooth(edge0, edge1, x),
{
    let t = x.minus(edge0).over(edge1.minus(edge0)).clamp_to(
        F32 { bits: 0 },
        F32 { bits: ONE_BITS },
    );
    t.times(t).times(F32 { bits: THREE_BITS }.minus(F32 { bits: TWO_BITS }.times(t)))
}

/// The lowest place that a knee may have in a range.
pub open spec fn knee_floor(low: F32, high: F32) -> F32 {
    mix(low, high, nearest_to(1, 10))
}

/// The highest place that a knee may have in a range.
pub open spec fn knee_ceiling(low: F32, high: F32) -> F32 {
    mix(low, high, nearest_to(8, 10))
}

/// The range leaves room for a knee: the lowest place is not above the highest.
pub open spec fn has_room(low: F32, high: F32) -> bool {
    let floor = knee_floor(low, high);
    let ceiling = knee_ceiling(low, high);
    !floor.nan() && !ceiling.nan() && !ceiling.below(floor)
}

/// Whether a range leaves room for a knee.
pub fn knee_has_room(low: F32, high: F32) -> (room: bool)
    ensures
        room == has_room(low, high),
{
    proof {
        lemma_knee_constants();
    }
    let floor = mix_of(low, high, F32 { bits: ONE_TENTH_BITS });
    let ceiling = mix_of(low, high, F32 { bits: EIGHT_TENTHS_BITS });
    !floor.is_nan() && !ceiling.is_nan() && !ceiling.less_than(floor)
}

/// The knee on the side of the source: the scene's average, or four tenths of
/// the range where it is not known, within the range that knees may have.
pub open spec fn source_knee(input_min: F32, input_max: F32, input_avg: F32) -> F32 {
    let wanted = if (F32 { bits: 0 }).below(input_avg) {
        input_avg
    } else {
        mix(input_min, input_max, nearest_to(4, 10))
    };
    wanted.clamped(knee_floor(input_min, input_max), knee_ceiling(input_min, input_max))
}

/// Where the knee lies in the source's range, as a fraction.
pub open spec fn knee_place(input_min: F32, input_max: F32, knee: F32) -> F32 {
    let range = difference(input_max, input_min);
    let least = nearest_to(1, 1_000_000);
    quotient(
        difference(knee, input_min),
        if least.below(range) {
            range
        } else {
            least
        },
    )
}

/// How far the knee follows its place in the target's range: as configured in
/// the middle of the range, fully at its ends.
pub open spec fn adaptation_at(place: F32, knee_adaptation: F32) -> F32 {
    let one = F32 { bits: ONE_BITS };
    let middle = nearest_to(4, 10);
    let tuning = difference(
        one,
        product(
            smooth(nearest_to(8, 10), middle, place),
            smooth(nearest_to(1, 10), middle, place),
        ),
    );
    mix(knee_adaptation.clamped(F32 { bits: 0 }, one), one, tuning)
}

/// The knee on the side of the target.
pub open spec fn target_knee(
    knee: F32,
    place: F32,
    output_min: F32,
    output_max: F32,
    knee_adaptation: F32,
) -> F32 {
    let adapted = mix(output_min, output_max, place);
    mix(knee, adapted, adaptation_at(place, knee_adaptation)).clamped(
        knee_floor(output_min, output_max),
        knee_ceiling(output_min, output_max),
    )
}

/// Picks the knee of a tone curve from the range and the average of the source
/// and from the range of the target, all on one scale. Gives the knee on both
/// sides.
pub fn st2094_pick_knee_impl(
    input_min: F32,
    input_max: F32,
    input_avg: F32,
    output_min: F32,
    output_max: F32,
    knee_adaptation: F32,
) -> (knees: (F32, F32))
    requires
        has_room(input_min, input_max),
        has_room(output_min, output_max),
    ensures
        knees.0 == source_knee(input_min, input_max, input_avg),
        knees.1 == target_knee(
            knees.0,
            knee_place(input_min, input_max, knees.0),
            output_min,
            output_max,
            knee_adaptation,
        ),
{
    proof {
        lemma_knee_constants();
    }
    let one = F32 { bits: ONE_BITS };
    let middle = F32 { bits: FOUR_TENTHS_BITS };
    let low = F32 { bits: ONE_TENTH_BITS };
    let high = F32 { bits: EIGHT_TENTHS_BITS };
    let wanted = if input_avg.is_positive() {
        input_avg
    } else {
        mix_of(input_min, input_max, middle)
    };
    let source = wanted.clamp_to(
        mix_of(input_min, input_max, low),
        mix_of(input_min, input_max, high),
    );
    let range = input_max.minus(input_min).at_least(F32 { bits: MILLIONTH_BITS });
    let place = source.minus(input_min).over(range);
    let adapted = mix_of(output_min, output_max, place);
    let tuning = one.minus(smooth_of(high, middle, place).times(smooth_of(low, middle, place)));
    let adaptation = mix_of(knee_adaptation.clamp_to(F32 { bits: 0 }, one), one, tuning);
    let target = mix_of(source, adapted, adaptation).clamp_to(
        mix_of(output_min, output_max, low),
        mix_of(output_min, output_max, high),
    );
    (source, target)
}

/// Picks the knee with the usual adaptation, on the scale of the perceptual
/// quantizer.
pub fn st2094_pick_knee(
    input_min: F32,
    input_max: F32,
    input_avg: F32,
    output_min: F32,
    output_max: F32,
) -> (knees: (F32, F32))
    requires
        has_room(input_min, input_max),
        has_room(output_min, output_max),
    ensures
        knees.0 == source_knee(input_min, input_max, input_avg),
        knees.1 == target_knee(
            knees.0,
            knee_place(input_min, input_max, knees.0),
            output_min,
            output_max,
            nearest_to(4, 10),
        ),
{
    proof {
        lemma_knee_constants();
    }
    st2094_pick_knee_impl(
        input_min,
        input_max,
        input_avg,
        output_min,
        output_max,
        F32 { bits: FOUR_TENTHS_BITS },
    )
}

/// Both knees stay between a tenth and eight tenths of their ranges, whatever
/// the average is.
pub proof fn law_knees_stay_in_their_ranges(
    input_min: F32,
    input_max: F32,
    input_avg: F32,
    output_min: F32,
    output_max: F32,
    knee_adaptation: F32,
)
    requires
        has_room(input_min, input_max),
        has_room(output_min, output_max),
    ensures
        ({
            let source = source_knee(input_min, input_max, input_avg);
            let target = target_knee(
                source,
                knee_place(input_min, input_max, source),
                output_min,
                output_max,
                knee_adaptation,
            );
            &&& !source.below(knee_floor(input_min, input_max))
            &&& !knee_ceiling(input_min, input_max).below(source)
            &&& !target.below(knee_floor(output_min, output_max))
            &&& !knee_ceiling(output_min, output_max).below(target)
        }),
{
}

/// The system of equations that the coefficients solve, one row for each
/// anchor: one, the place, and the place times the value, negated.
pub open spec fn anchor_cells(x: Seq<F32>, y: Seq<F32>) -> Seq<F32> {
    let one = F32 { bits: ONE_BITS };
    seq![
        one,
        x[0],
        product(opposite(y[0]), x[0]),
        one,
        x[1],
        product(opposite(y[1]), x[1]),
        one,
        x[2],
        product(opposite(y[2]), x[2]),
    ]
}

/// The matrix with another column in place of one of its own.
pub open spec fn with_column(m: Seq<F32>, column: int, values: Seq<F32>) -> Seq<F32> {
    Seq::new(
        9,
        |n: int|
            if n % 3 == column {
                values[n / 3]
            } else {
                m[n]
            },
    )
}

/// The coefficients of the curve that maps every value to itself.
pub open spec fn identity_curve() -> Seq<F32> {
    seq![F32 { bits: 0 }, F32 { bits: ONE_BITS }, F32 { bits: 0 }, F32 { bits: 0 }]
}

/// The coefficients by Cramer's rule, where the anchors determine them.
pub open spec fn cramer(x: Seq<F32>, y: Seq<F32>) -> Seq<F32> {
    let base = anchor_cells(x, y);
    let den = determinant(base);
    seq![
        quotient(determinant(with_column(base, 0, y)), den),
        quotient(determinant(with_column(base, 1, y)), den),
        quotient(determinant(with_column(base, 2, y)), den),
        F32 { bits: 0 },
    ]
}

/// The anchors determine a curve: their determinant is not too small.
pub open spec fn determines(x: Seq<F32>, y: Seq<F32>) -> bool {
    let den = determinant(anchor_cells(x, y));
    den.finite() && !den.without_sign().below(nearest_to(1, 1_000_000_000_000))
}

/// The coefficients of the curve through three anchors, or those of the
/// identity where the anchors determine none.
pub open spec fn curve_through(x: Seq<F32>, y: Seq<F32>) -> Seq<F32> {
    let solved = cramer(x, y);
    if determines(x, y) && solved[0].finite() && solved[1].finite() && solved[2].finite() {
        solved
    } else {
        identity_curve()
    }
}

/// Three columns as a matrix.
fn from_columns(a: [F32; 3], b: [F32; 3], c: [F32; 3]) -> (matrix: RgbMatrix)
    ensures
        forall|n: int|
            0 <= n < 9 ==> #[trigger] matrix@[n] == if n % 3 == 0 {
                a@[n / 3]
            } else if n % 3 == 1 {
                b@[n / 3]
            } else {
                c@[n / 3]
            },
{
    let matrix = RgbMatrix::new([[a[0], b[0], c[0]], [a[1], b[1], c[1]], [a[2], b[2], c[2]]]);
    proof {
        assert forall|n: int| 0 <= n < 9 implies #[trigger] matrix@[n] == if n % 3 == 0 {
            a@[n / 3]
        } else if n % 3 == 1 {
            b@[n / 3]
        } else {
            c@[n / 3]
        } by {
            assert(n == 0 || n == 1 || n == 2 || n == 3 || n == 4 || n == 5 || n == 6 || n == 7
                || n == 8);
        }
    }
    matrix
}

/// Solves the curve `(c1 + c2 x) / (1 + c3 x)` through three anchors. Anchors
/// that do not determine it give the identity: a frame that is not mapped is
/// better than a black one.
pub fn solve_st2094_10(x1: F32, x2: F32, x3: F32, y1: F32, y2: F32, y3: F32) -> (row: [F32; 4])
    ensures
        row@ == curve_through(seq![x1, x2, x3], seq![y1, y2, y3]),
        forall|k: int| 0 <= k < 4 ==> (#[trigger] row@[k]).finite(),
{
    let one = F32 { bits: ONE_BITS };
    let zero = F32 { bits: 0 };
    let ones: [F32; 3] = [one, one, one];
    let xs: [F32; 3] = [x1, x2, x3];
    let ys: [F32; 3] = [y1, y2, y3];
    let crossed: [F32; 3] = [
        y1.negated().times(x1),
        y2.negated().times(x2),
        y3.negated().times(x3),
    ];
    let ghost x = seq![x1, x2, x3];
    let ghost y = seq![y1, y2, y3];
    let ghost base = anchor_cells(x, y);
    let matrix = from_columns(ones, xs, crossed);
    let identity: [F32; 4] = [zero, one, zero, zero];
    proof {
        assert(matrix@ =~= base);
        assert(identity@ =~= identity_curve());
    }
    let den = matrix.determinant();
    proof {
        lemma_knee_constants();
    }
    if !den.is_finite() || den.abs().less_than(F32 { bits: LEAST_DETERMINANT_BITS }) {
        return identity;
    }
    let first = from_columns(ys, xs, crossed);
    let second = from_columns(ones, ys, crossed);
    let third = from_columns(ones, xs, ys);
    proof {
        assert(first@ =~= with_column(base, 0, y));
        assert(second@ =~= with_column(base, 1, y));
        assert(third@ =~= with_column(base, 2, y));
    }
    let row: [F32; 4] = [
        first.determinant().over(den),
        second.determinant().over(den),
        third.determinant().over(den),
        zero,
    ];
    proof {
        assert(row@ =~= cramer(x, y));
    }
    if row[0].is_finite() && row[1].is_finite() && row[2].is_finite() {
        row
    } else {
        identity
    }
}

/// The knee of a tone curve in nits, on the side of the source and on the side
/// of the target.
#[derive(Debug, Clone, Copy, PartialEq, Eq, Structural)]
pub struct Knee {
    pub source: F32,
    pub target: F32,
}

/// What the knee of a frame is picked from: ranges and average in nits, and how
/// far the knee follows its place in the target's range.
#[derive(Debug, Clone, Copy, PartialEq, Eq, Structural)]
pub struct KneeNits {
    pub input_min: F32,
    pub input_max: F32,
    pub input_avg: F32,
    pub output_min: F32,
    pub output_max: F32,
    pub knee_adaptation: F32,
}

impl VideoRenderPipeline {
    /// What the knee is picked from: a black of zero and the source's peak and
    /// average, the target's black and peak, and the parameter of the curve.
    pub open spec fn envelope(self) -> KneeNits {
        KneeNits {
            input_min: F32 { bits: 0 },
            input_max: self.source.nominal_peak_nits,
            input_avg: self.source.scene_average(),
            output_min: target_black(self.target, self.tone_map.contrast_ratio),
            output_max: self.target.peak_nits,
            knee_adaptation: self.tone_map.param(),
        }
    }

    fn whole_envelope(&self) -> (nits: KneeNits)
        ensures
            nits == self.envelope(),
    {
        KneeNits {
            input_min: F32 { bits: 0 },
            input_max: self.source.nominal_peak_nits,
            input_avg: self.source.source_scene_avg_nits(),
            output_min: target_black_nits(&self.target, self.tone_map.contrast_ratio),
            output_max: self.target.peak_nits,
            knee_adaptation: self.tone_map.effective_curve_param(),
        }
    }

    /// What the knee is picked from; nothing for operators whose coefficients
    /// need no knee.
    pub fn knee_nits(&self) -> (nits: Option<KneeNits>)
        ensures
            nits == if self.tone_map.operator == ToneMapOperator::St209410 {
                Some(self.envelope())
            } else {
                None
            },
    {
        if self.tone_map.operator == ToneMapOperator::St209410 {
            Some(self.whole_envelope())
        } else {
            None
        }
    }

    /// The coefficients of the curve of ST 2094-10 through black, the knee and
    /// the peak; zeros for the other operators.
    pub open spec fn coefficients(self, knee: Knee) -> Seq<F32> {
        let zero = F32 { bits: 0 };
        let envelope = self.envelope();
        if self.tone_map.operator == ToneMapOperator::St209410 {
            curve_through(
                seq![envelope.input_min, knee.source, envelope.input_max],
                seq![envelope.output_min, knee.target, envelope.output_max],
            )
        } else {
            seq![zero, zero, zero, zero]
        }
    }

    pub fn tone_map_coeffs(&self, knee: Knee) -> (row: [F32; 4])
        ensures
            row@ == self.coefficients(knee),
            forall|k: int| 0 <= k < 4 ==> (#[trigger] row@[k]).finite(),
    {
        let zero = F32 { bits: 0 };
        if self.tone_map.operator != ToneMapOperator::St209410 {
            let row: [F32; 4] = [zero, zero, zero, zero];
            proof {
                assert(row@ =~= self.coefficients(knee));
            }
            return row;
        }
        let nits = self.whole_envelope();
        solve_st2094_10(
            nits.input_min,
            knee.source,
            nits.input_max,
            nits.output_min,
            knee.target,
            nits.output_max,
        )
    }
}

} // verus!
