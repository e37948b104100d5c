//! Matrices between colour spaces, in single precision.
use crate::color::{
    coordinates_of, primaries_coordinates, resolve_primaries, resolved_primaries, Chromaticity,
    ColorPrimaries,
};
use crate::float::{F32, ONE_BITS};
use crate::product::{lemma_nearest, nearest_to, product};
use crate::quotient::quotient;
use crate::sum::{difference, opposite, sum};
use vstd::prelude::*;

verus! {

/// Three rows of three numbers.
#[derive(Debug, Clone, Copy, PartialEq, Eq)]
pub struct RgbMatrix {
    pub rows: [[F32; 3]; 3],
}

impl View for RgbMatrix {
    type V = Seq<F32>;

    /// The nine cells, row by row.
    open spec fn view(&self) -> Seq<F32> {
        Seq::new(9, |n: int| self.rows@[n / 3]@[n % 3])
    }
}

/// Nine cells are equal one by one.
proof fn lemma_nine(a: Seq<F32>, b: Seq<F32>)
    requires
        a.len() == 9,
        b.len() == 9,
        a[0] == b[0] && a[1] == b[1] && a[2] == b[2],
        a[3] == b[3] && a[4] == b[4] && a[5] == b[5],
        a[6] == b[6] && a[7] == b[7] && a[8] == b[8],
    ensures
        a == b,
{
    assert forall|n: int| 0 <= n < 9 implies a[n] == b[n] by {
        assert(n == 0 || n == 1 || n == 2 || n == 3 || n == 4 || n == 5 || n == 6 || n == 7 || n
            == 8);
    }
    assert(a =~= b);
}

/// Three products, added from left to right.
pub open spec fn dot(a: F32, b: F32, c: F32, x: F32, y: F32, z: F32) -> F32 {
    sum(sum(product(a, x), product(b, y)), product(c, z))
}

/// The product of two matrices.
pub open spec fn multiplied(a: Seq<F32>, b: Seq<F32>) -> Seq<F32> {
    Seq::new(
        9,
        |n: int|
            {
                let row = 3 * (n / 3);
                let column = n % 3;
                dot(
                    a[row],
                    a[row + 1],
                    a[row + 2],
                    b[column],
                    b[column + 3],
                    b[column + 6],
                )
            },
    )
}

/// The product of a matrix and a column.
pub open spec fn applied(a: Seq<F32>, v: Seq<F32>) -> Seq<F32> {
    Seq::new(3, |n: int| dot(a[3 * n], a[3 * n + 1], a[3 * n + 2], v[0], v[1], v[2]))
}

/// The determinant of two rows and two columns.
pub open spec fn minor(a: F32, b: F32, c: F32, d: F32) -> F32 {
    difference(product(a, b), product(c, d))
}

/// The determinant, along the first row.
pub open spec fn determinant(m: Seq<F32>) -> F32 {
    sum(
        difference(
            product(m[0], minor(m[4], m[8], m[5], m[7])),
            product(m[1], minor(m[3], m[8], m[5], m[6])),
        ),
        product(m[2], minor(m[3], m[7], m[4], m[6])),
    )
}

/// The inverse, by the adjugate and the determinant.
pub open spec fn inverted(m: Seq<F32>) -> Seq<F32> {
    let scale = quotient(F32 { bits: ONE_BITS }, determinant(m));
    seq![
        product(minor(m[4], m[8], m[5], m[7]), scale),
        product(minor(m[2], m[7], m[1], m[8]), scale),
        product(minor(m[1], m[5], m[2], m[4]), scale),
        product(minor(m[5], m[6], m[3], m[8]), scale),
        product(minor(m[0], m[8], m[2], m[6]), scale),
        product(minor(m[2], m[3], m[0], m[5]), scale),
        product(minor(m[3], m[7], m[4], m[6]), scale),
        product(minor(m[1], m[6], m[0], m[7]), scale),
        product(minor(m[0], m[4], m[1], m[3]), scale),
    ]
}

/// The cells of the identity.
pub open spec fn identity_cells() -> Seq<F32> {
    let one = F32 { bits: ONE_BITS };
    let zero = F32 { bits: 0 };
    seq![one, zero, zero, zero, one, zero, zero, zero, one]
}

fn dot_of(a: [F32; 3], x: F32, y: F32, z: F32) -> (value: F32)
    ensures
        value == dot(a@[0], a@[1], a@[2], x, y, z),
{
    a[0].times(x).plus(a[1].times(y)).plus(a[2].times(z))
}

fn minor_of(a: F32, b: F32, c: F32, d: F32) -> (value: F32)
    ensures
        value == minor(a, b, c, d),
{
    a.times(b).minus(c.times(d))
}

/// A row of three numbers as a register of four.
pub open spec fn padded(matrix: Seq<F32>, row: int) -> Seq<F32> {
    seq![matrix[3 * row], matrix[3 * row + 1], matrix[3 * row + 2], F32 { bits: 0 }]
}

impl RgbMatrix {
    pub fn new(rows: [[F32; 3]; 3]) -> (matrix: Self)
        ensures
            matrix.rows == rows,
    {
        RgbMatrix { rows }
    }

    pub fn identity() -> (matrix: Self)
        ensures
            matrix@ == identity_cells(),
    {
        let one = F32 { bits: ONE_BITS };
        let zero = F32 { bits: 0 };
        let matrix = RgbMatrix { rows: [[one, zero, zero], [zero, one, zero], [zero, zero, one]] };
        proof {
            lemma_nine(matrix@, identity_cells());
        }
        matrix
    }

    pub fn rows(self) -> (rows: [[F32; 3]; 3])
        ensures
            rows == self.rows,
    {
        self.rows
    }

    /// The rows as registers of four numbers, the last one zero.
    pub fn row4s(self) -> (rows: [[F32; 4]; 3])
        ensures
            forall|k: int| 0 <= k < 3 ==> (#[trigger] rows@[k])@ == padded(self@, k),
    {
        let zero = F32 { bits: 0 };
        let m = self.rows;
        let rows: [[F32; 4]; 3] = [
            [m[0][0], m[0][1], m[0][2], zero],
            [m[1][0], m[1][1], m[1][2], zero],
            [m[2][0], m[2][1], m[2][2], zero],
        ];
        proof {
            assert(rows@[0]@ =~= padded(self@, 0));
            assert(rows@[1]@ =~= padded(self@, 1));
            assert(rows@[2]@ =~= padded(self@, 2));
            assert forall|k: int| 0 <= k < 3 implies (#[trigger] rows@[k])@ == padded(self@, k) by {
                assert(k == 0 || k == 1 || k == 2);
            }
        }
        rows
    }

    pub fn mul(self, rhs: Self) -> (matrix: Self)
        ensures
            matrix@ == multiplied(self@, rhs@),
    {
        let a = self.rows;
        let b = rhs.rows;
        let matrix = RgbMatrix {
            rows: [
                [
                    dot_of(a[0], b[0][0], b[1][0], b[2][0]),
                    dot_of(a[0], b[0][1], b[1][1], b[2][1]),
                    dot_of(a[0], b[0][2], b[1][2], b[2][2]),
                ],
                [
                    dot_of(a[1], b[0][0], b[1][0], b[2][0]),
                    dot_of(a[1], b[0][1], b[1][1], b[2][1]),
                    dot_of(a[1], b[0][2], b[1][2], b[2][2]),
                ],
                [
                    dot_of(a[2], b[0][0], b[1][0], b[2][0]),
                    dot_of(a[2], b[0][1], b[1][1], b[2][1]),
                    dot_of(a[2], b[0][2], b[1][2], b[2][2]),
                ],
            ],
        };
        proof {
            lemma_nine(matrix@, multiplied(self@, rhs@));
        }
        matrix
    }

    pub fn mul_vec(self, value: [F32; 3]) -> (column: [F32; 3])
        ensures
            column@ == applied(self@, value@),
    {
        let a = self.rows;
        let column: [F32; 3] = [
            dot_of(a[0], value[0], value[1], value[2]),
            dot_of(a[1], value[0], value[1], value[2]),
            dot_of(a[2], value[0], value[1], value[2]),
        ];
        proof {
            assert(column@ =~= applied(self@, value@));
        }
        column
    }

    pub fn determinant(self) -> (value: F32)
        ensures
            value == determinant(self@),
    {
        let m = self.rows;
        m[0][0].times(minor_of(m[1][1], m[2][2], m[1][2], m[2][1])).minus(
            m[0][1].times(minor_of(m[1][0], m[2][2], m[1][2], m[2][0])),
        ).plus(m[0][2].times(minor_of(m[1][0], m[2][1], m[1][1], m[2][0])))
    }

    pub fn inverse(self) -> (matrix: Self)
        ensures
            matrix@ == inverted(self@),
    {
        let m = self.rows;
        let scale = F32 { bits: ONE_BITS }.over(self.determinant());
        let matrix = RgbMatrix {
            rows: [
                [
                    minor_of(m[1][1], m[2][2], m[1][2], m[2][1]).times(scale),
                    minor_of(m[0][2], m[2][1], m[0][1], m[2][2]).times(scale),
                    minor_of(m[0][1], m[1][2], m[0][2], m[1][1]).times(scale),
                ],
                [
                    minor_of(m[1][2], m[2][0], m[1][0], m[2][2]).times(scale),
                    minor_of(m[0][0], m[2][2], m[0][2], m[2][0]).times(scale),
                    minor_of(m[0][2], m[1][0], m[0][0], m[1][2]).times(scale),
                ],
                [
                    minor_of(m[1][0], m[2][1], m[1][1], m[2][0]).times(scale),
                    minor_of(m[0][1], m[2][0], m[0][0], m[2][1]).times(scale),
                    minor_of(m[0][0], m[1][1], m[0][1], m[1][0]).times(scale),
                ],
            ],
        };
        proof {
            lemma_nine(matrix@, inverted(self@));
        }
        matrix
    }
}

/// A point of the chromaticity diagram as a colour of unit luminance.
pub open spec fn tristimulus(point: Chromaticity) -> Seq<F32> {
    let one = F32 { bits: ONE_BITS };
    seq![
        quotient(point.x, point.y),
        one,
        quotient(difference(difference(one, point.x), point.y), point.y),
    ]
}

fn xy_to_xyz(point: Chromaticity) -> (xyz: [F32; 3])
    ensures
        xyz@ == tristimulus(point),
{
    let one = F32 { bits: ONE_BITS };
    let xyz: [F32; 3] = [
        point.x.over(point.y),
        one,
        one.minus(point.x).minus(point.y).over(point.y),
    ];
    proof {
        assert(xyz@ =~= tristimulus(point));
    }
    xyz
}

/// Three columns side by side.
pub open spec fn columns(a: Seq<F32>, b: Seq<F32>, c: Seq<F32>) -> Seq<F32> {
    seq![a[0], b[0], c[0], a[1], b[1], c[1], a[2], b[2], c[2]]
}

/// Each column times its scale.
pub open spec fn scaled_columns(m: Seq<F32>, scale: Seq<F32>) -> Seq<F32> {
    Seq::new(9, |n: int| product(m[n], scale[n % 3]))
}

/// From red, green and blue to XYZ: the primaries, scaled so that they come to
/// white together.
pub open spec fn rgb_to_xyz(primaries: ColorPrimaries) -> Seq<F32> {
    let coordinates = coordinates_of(primaries);
    let unscaled = columns(
        tristimulus(coordinates.red),
        tristimulus(coordinates.green),
        tristimulus(coordinates.blue),
    );
    scaled_columns(unscaled, applied(inverted(unscaled), tristimulus(coordinates.white)))
}

pub fn rgb_to_xyz_matrix(primaries: ColorPrimaries) -> (matrix: RgbMatrix)
    ensures
        matrix@ == rgb_to_xyz(primaries),
{
    let coordinates = primaries_coordinates(primaries);
    let red = xy_to_xyz(coordinates.red);
    let green = xy_to_xyz(coordinates.green);
    let blue = xy_to_xyz(coordinates.blue);
    let white = xy_to_xyz(coordinates.white);
    let unscaled = RgbMatrix {
        rows: [
            [red[0], green[0], blue[0]],
            [red[1], green[1], blue[1]],
            [red[2], green[2], blue[2]],
        ],
    };
    proof {
        lemma_nine(unscaled@, columns(red@, green@, blue@));
    }
    let scale = unscaled.inverse().mul_vec(white);
    let matrix = RgbMatrix {
        rows: [
            [red[0].times(scale[0]), green[0].times(scale[1]), blue[0].times(scale[2])],
            [red[1].times(scale[0]), green[1].times(scale[1]), blue[1].times(scale[2])],
            [red[2].times(scale[0]), green[2].times(scale[1]), blue[2].times(scale[2])],
        ],
    };
    proof {
        lemma_nine(matrix@, scaled_columns(columns(red@, green@, blue@), scale@));
    }
    matrix
}

pub fn xyz_to_rgb_matrix(primaries: ColorPrimaries) -> (matrix: RgbMatrix)
    ensures
        matrix@ == inverted(rgb_to_xyz(primaries)),
{
    rgb_to_xyz_matrix(primaries).inverse()
}

/// From one set of primaries to another.
pub open spec fn between(source: ColorPrimaries, target: ColorPrimaries) -> Seq<F32> {
    let source = resolved_primaries(source);
    let target = resolved_primaries(target);
    if source == target {
        identity_cells()
    } else {
        multiplied(inverted(rgb_to_xyz(target)), rgb_to_xyz(source))
    }
}

pub fn source_to_target_rgb_matrix(source: ColorPrimaries, target: ColorPrimaries) -> (
matrix: RgbMatrix)
    ensures
        matrix@ == between(source, target),
{
    let source = resolve_primaries(source);
    let target = resolve_primaries(target);
    if source == target {
        return RgbMatrix::identity();
    }
    xyz_to_rgb_matrix(target).mul(rgb_to_xyz_matrix(source))
}

/// The matrix of Hunt, Pointer and Estevez from XYZ to cone responses.
pub open spec fn cone_cells() -> Seq<F32> {
    let zero = F32 { bits: 0 };
    seq![
        nearest_to(40024, 100000),
        nearest_to(70760, 100000),
        opposite(nearest_to(8081, 100000)),
        opposite(nearest_to(22630, 100000)),
        nearest_to(116532, 100000),
        nearest_to(4570, 100000),
        zero,
        zero,
        nearest_to(91822, 100000),
    ]
}

fn cone_matrix() -> (matrix: RgbMatrix)
    ensures
        matrix@ == cone_cells(),
{
    let zero = F32 { bits: 0 };
    let matrix = RgbMatrix {
        rows: [
            [F32 { bits: 0x3ecc_ec42 }, F32 { bits: 0x3f35_2546 }, F32 { bits: 0xbda5_7fb7 }],
            [F32 { bits: 0xbe67_bb30 }, F32 { bits: 0x3f95_2935 }, F32 { bits: 0x3d3b_2fec }],
            [zero, zero, F32 { bits: 0x3f6b_1077 }],
        ],
    };
    proof {
        vstd::arithmetic::power2::lemma2_to64();
        lemma_nearest(F32 { bits: 0x3ecc_ec42 }, 40024, 100000, 125, 0x200_0000);
        lemma_nearest(F32 { bits: 0x3f35_2546 }, 70760, 100000, 126, 0x100_0000);
        lemma_nearest(F32 { bits: 0x3da5_7fb7 }, 8081, 100000, 123, 0x800_0000);
        lemma_nearest(F32 { bits: 0x3e67_bb30 }, 22630, 100000, 124, 0x400_0000);
        lemma_nearest(F32 { bits: 0x3f95_2935 }, 116532, 100000, 127, 0x80_0000);
        lemma_nearest(F32 { bits: 0x3d3b_2fec }, 4570, 100000, 122, 0x1000_0000);
        lemma_nearest(F32 { bits: 0x3f6b_1077 }, 91822, 100000, 126, 0x100_0000);
        lemma_nine(matrix@, cone_cells());
    }
    matrix
}

/// Each cone takes four hundredths of each of the others.
pub open spec fn crosstalk_cells() -> Seq<F32> {
    let c = nearest_to(4, 100);
    let own = difference(F32 { bits: ONE_BITS }, product(F32 { bits: 0x4000_0000 }, c));
    seq![own, c, c, c, own, c, c, c, own]
}

fn crosstalk_matrix() -> (matrix: RgbMatrix)
    ensures
        matrix@ == crosstalk_cells(),
{
    let c = F32 { bits: 0x3d23_d70a };
    let own = F32 { bits: ONE_BITS }.minus(F32 { bits: 0x4000_0000 }.times(c));
    let matrix = RgbMatrix { rows: [[own, c, c], [c, own, c], [c, c, own]] };
    proof {
        vstd::arithmetic::power2::lemma2_to64();
        lemma_nearest(c, 4, 100, 122, 0x1000_0000);
        lemma_nine(matrix@, crosstalk_cells());
    }
    matrix
}

/// From red, green and blue to cone responses with crosstalk, the space in
/// which tones are mapped.
pub open spec fn rgb_to_cones(primaries: ColorPrimaries) -> Seq<F32> {
    multiplied(multiplied(crosstalk_cells(), cone_cells()), rgb_to_xyz(primaries))
}

pub fn ipt_rgb2lms_matrix(primaries: ColorPrimaries) -> (matrix: RgbMatrix)
    ensures
        matrix@ == rgb_to_cones(primaries),
{
    crosstalk_matrix().mul(cone_matrix()).mul(rgb_to_xyz_matrix(primaries))
}

pub fn ipt_lms2rgb_matrix(primaries: ColorPrimaries) -> (matrix: RgbMatrix)
    ensures
        matrix@ == inverted(rgb_to_cones(primaries)),
{
    ipt_rgb2lms_matrix(primaries).inverse()
}

/// From the cone responses of dynamic metadata to red, green and blue of
/// BT.2020.
pub open spec fn dovi_cells() -> Seq<F32> {
    seq![
        nearest_to(306441879, 100000000),
        opposite(nearest_to(216597676, 100000000)),
        nearest_to(10155818, 100000000),
        opposite(nearest_to(65612108, 100000000)),
        nearest_to(178554118, 100000000),
        opposite(nearest_to(12943749, 100000000)),
        nearest_to(1736321, 100000000),
        opposite(nearest_to(4725154, 100000000)),
        nearest_to(103004253, 100000000),
    ]
}

fn dovi_hpe_lms_to_rgb() -> (matrix: RgbMatrix)
    ensures
        matrix@ == dovi_cells(),
{
    let matrix = RgbMatrix {
        rows: [
            [F32 { bits: 0x4044_1f70 }, F32 { bits: 0xc00a_9f5d }, F32 { bits: 0x3dcf_fdbc }],
            [F32 { bits: 0xbf27_f78d }, F32 { bits: 0x3fe4_8c9d }, F32 { bits: 0xbe04_8b43 }],
            [F32 { bits: 0x3c8e_3d4a }, F32 { bits: 0xbd41_8ad5 }, F32 { bits: 0x3f83_d86f }],
        ],
    };
    proof {
        vstd::arithmetic::power2::lemma2_to64();
        lemma_nearest(F32 { bits: 0x4044_1f70 }, 306441879, 100000000, 128, 0x40_0000);
        lemma_nearest(F32 { bits: 0x400a_9f5d }, 216597676, 100000000, 128, 0x40_0000);
        lemma_nearest(F32 { bits: 0x3dcf_fdbc }, 10155818, 100000000, 123, 0x800_0000);
        lemma_nearest(F32 { bits: 0x3f27_f78d }, 65612108, 100000000, 126, 0x100_0000);
        lemma_nearest(F32 { bits: 0x3fe4_8c9d }, 178554118, 100000000, 127, 0x80_0000);
        lemma_nearest(F32 { bits: 0x3e04_8b43 }, 12943749, 100000000, 124, 0x400_0000);
        lemma_nearest(F32 { bits: 0x3c8e_3d4a }, 1736321, 100000000, 121, 0x2000_0000);
        lemma_nearest(F32 { bits: 0x3d41_8ad5 }, 4725154, 100000000, 122, 0x1000_0000);
        lemma_nearest(F32 { bits: 0x3f83_d86f }, 103004253, 100000000, 127, 0x80_0000);
        lemma_nine(matrix@, dovi_cells());
    }
    matrix
}

/// The matrix from the cone responses of a frame's metadata to red, green and
/// blue.
pub fn dovi_lms_to_rgb_matrix(rgb_to_lms: RgbMatrix) -> (matrix: RgbMatrix)
    ensures
        matrix@ == multiplied(dovi_cells(), rgb_to_lms@),
{
    dovi_hpe_lms_to_rgb().mul(rgb_to_lms)
}

} // verus!
