//! Uniforms at another depth of the samples.
use crate::accuracy::{
    lemma_nearest_is_close, lemma_product_is_close, lemma_quotient_is_close, lemma_zero_and_one,
    size_of,
};
use crate::dovi::{is_payload, sample_scale, DoviUniforms};
use crate::float::F32;
use crate::knee::Knee;
use crate::pipeline::VideoRenderPipeline;
use crate::product::product;
use crate::quotient::quotient;
use crate::source::DoviSourceMetadata;
use crate::uniforms::{flag, rescaled, VideoUniforms};
use vstd::prelude::*;

verus! {

/// A number from minus one to one.
#[verifier::opaque]
pub open spec fn up_to_one(a: F32) -> bool {
    a.finite() && size_of(a.value()) <= 1 as real
}

/// Two numbers that are less than a millionth apart.
#[verifier::opaque]
pub open spec fn within_a_millionth(a: F32, b: F32) -> bool {
    &&& a.finite()
    &&& b.finite()
    &&& 1_000_000 as real * size_of(a.value() - b.value()) < 1 as real
}

/// The scales of samples are a little more than one.
#[verifier::spinoff_prover]
proof fn lemma_sample_scale(is_p010: bool)
    ensures
        sample_scale(is_p010).finite(),
        1 as real <= sample_scale(is_p010).value() <= 101 as real / 100 as real,
{
    lemma_nearest_is_close(1024, 1023, 1024 as real / 1023 as real);
    lemma_nearest_is_close(256, 255, 256 as real / 255 as real);
}

/// The factors of a product that changes little change it little.
#[verifier::spinoff_prover]
proof fn lemma_factor_error(u: real, d: real, bound: real)
    requires
        size_of(u) <= 2 as real,
        size_of(d) <= bound,
    ensures
        size_of(u * d) <= 2 as real * bound,
{
    let p = u * d;
    assert(p <= 2 as real * bound && -p <= 2 as real * bound) by (nonlinear_arith)
        requires
            p == u * d,
            -2 as real <= u,
            u <= 2 as real,
            -bound <= d,
            d <= bound,
    ;
}

/// An offset that is brought to a scale, and then to the other one, is as good
/// as one that is brought to the other scale at once.
#[verifier::spinoff_prover]
proof fn lemma_rescaled_offset(offset: F32, is_p010: bool)
    requires
        up_to_one(offset),
    ensures
        ({
            let ratio = quotient(sample_scale(is_p010), sample_scale(!is_p010));
            let later = product(product(offset, sample_scale(!is_p010)), ratio);
            let once = product(offset, sample_scale(is_p010));
            within_a_millionth(later, once) && within_a_millionth(once, once)
        }),
{
    reveal(up_to_one);
    reveal(within_a_millionth);
    lemma_sample_scale(is_p010);
    lemma_sample_scale(!is_p010);
    let first = sample_scale(!is_p010);
    let second = sample_scale(is_p010);
    let sa = first.value();
    let sb = second.value();
    let x = offset.value();
    let exact = sb / sa;
    assert(exact * sa == sb && 98 as real / 100 as real <= exact && exact <= 102 as real
        / 100 as real) by (nonlinear_arith)
        requires
            exact == sb / sa,
            1 as real <= sa,
            sa <= 101 as real / 100 as real,
            1 as real <= sb,
            sb <= 101 as real / 100 as real,
    ;
    lemma_quotient_is_close(second, first, exact);
    let ratio = quotient(second, first);
    let r = ratio.value();
    let xa = x * sa;
    let xb = x * sb;
    assert(size_of(xa) <= 101 as real / 100 as real && size_of(xb) <= 101 as real / 100 as real)
        by {
        assert(xa <= sa && -xa <= sa && xb <= sb && -xb <= sb) by (nonlinear_arith)
            requires
                xa == x * sa,
                xb == x * sb,
                -1 as real <= x,
                x <= 1 as real,
                sa > 0 as real,
                sb > 0 as real,
        ;
    }
    lemma_product_is_close(offset, first);
    lemma_product_is_close(offset, second);
    let scaled = product(offset, first);
    let u = scaled.value();
    let w = product(offset, second).value();
    let ulp = 5 as real / 0x400_0000 as real;
    assert(size_of(u - xa) <= ulp);
    assert(size_of(w - xb) <= ulp);
    assert(size_of(r - exact) <= ulp);
    let ur = u * r;
    lemma_factor_error(u, r - exact, ulp);
    lemma_factor_error(exact, u - xa, ulp);
    assert(ur - xb == u * (r - exact) + exact * (u - xa)) by (nonlinear_arith)
        requires
            ur == u * r,
            xb == x * sb,
            xa == x * sa,
            exact * sa == sb,
    ;
    lemma_product_is_close(scaled, ratio);
    let v = product(scaled, ratio).value();
    assert(size_of(v - ur) <= ulp);
}

/// Without metadata all offsets are zero at either depth.
#[verifier::spinoff_prover]
proof fn lemma_no_offsets(is_p010: bool)
    ensures
        ({
            let none = F32 { bits: 0 };
            let later = product(none, quotient(sample_scale(is_p010), sample_scale(!is_p010)));
            within_a_millionth(later, none) && within_a_millionth(none, none)
        }),
{
    reveal(within_a_millionth);
    let none = F32 { bits: 0 };
    lemma_zero_and_one();
    lemma_sample_scale(is_p010);
    lemma_sample_scale(!is_p010);
    let sa = sample_scale(!is_p010).value();
    let sb = sample_scale(is_p010).value();
    let exact = sb / sa;
    assert(exact * sa == sb && 0 as real <= exact && exact <= 2 as real) by (nonlinear_arith)
        requires
            exact == sb / sa,
            1 as real <= sa,
            sa <= 101 as real / 100 as real,
            1 as real <= sb,
            sb <= 101 as real / 100 as real,
    ;
    let ratio = quotient(sample_scale(is_p010), sample_scale(!is_p010));
    lemma_quotient_is_close(sample_scale(is_p010), sample_scale(!is_p010), exact);
    let r = ratio.value();
    assert(0 as real * r == 0 as real);
    lemma_product_is_close(none, ratio);
}

/// Whether the payload is that of a frame with or without metadata.
spec fn is_payload_of(
    uniforms: DoviUniforms,
    dovi: Option<DoviSourceMetadata>,
    is_p010: bool,
) -> bool {
    match dovi {
        None => uniforms.blank(),
        Some(dovi) => is_payload(uniforms, dovi, is_p010),
    }
}

#[verifier::spinoff_prover]
proof fn lemma_offsets_at_depth(
    dovi: Option<DoviSourceMetadata>,
    before: bool,
    after: bool,
    built: DoviUniforms,
    changed: DoviUniforms,
    direct: DoviUniforms,
)
    requires
        is_payload_of(built, dovi, before),
        is_payload_of(direct, dovi, after),
        before == after ==> changed.nonlinear_offset == built.nonlinear_offset,
        before != after ==> changed.nonlinear_offset@ == rescaled(
            built.nonlinear_offset@,
            after,
        ),
        dovi matches Some(dovi) ==> forall|k: int|
            0 <= k < 3 ==> up_to_one(#[trigger] dovi.nonlinear_offset@[k]),
    ensures
        forall|k: int|
            0 <= k < 3 ==> within_a_millionth(
                #[trigger] changed.nonlinear_offset@[k],
                direct.nonlinear_offset@[k],
            ),
{
    assert forall|k: int| 0 <= k < 3 implies within_a_millionth(
        #[trigger] changed.nonlinear_offset@[k],
        direct.nonlinear_offset@[k],
    ) by {
        assert(k == 0 || k == 1 || k == 2);
        match dovi {
            None => {
                assert(built.nonlinear_offset@[k] == F32 { bits: 0 });
                assert(direct.nonlinear_offset@[k] == F32 { bits: 0 });
                lemma_no_offsets(after);
            },
            Some(dovi) => {
                let offset = dovi.nonlinear_offset@[k];
                assert(built.nonlinear_offset@[k] == product(offset, sample_scale(before)));
                assert(direct.nonlinear_offset@[k] == product(offset, sample_scale(after)));
                lemma_rescaled_offset(offset, after);
            },
        }
    }
}

/// Only the offsets of a payload depend on the depth of the samples.
#[verifier::spinoff_prover]
proof fn lemma_payload_at_depth(
    built: DoviUniforms,
    direct: DoviUniforms,
    dovi: DoviSourceMetadata,
    before: bool,
    after: bool,
)
    requires
        is_payload(built, dovi, before),
        is_payload(direct, dovi, after),
    ensures
        is_payload(
            (DoviUniforms { nonlinear_offset: direct.nonlinear_offset, ..built }),
            dovi,
            after,
        ),
        forall|k: int|
            0 <= k < 3 ==> #[trigger] built.nonlinear_offset@[k] == product(
                dovi.nonlinear_offset@[k],
                sample_scale(before),
            ),
        forall|k: int|
            0 <= k < 3 ==> #[trigger] direct.nonlinear_offset@[k] == product(
                dovi.nonlinear_offset@[k],
                sample_scale(after),
            ),
{
    let mended = DoviUniforms { nonlinear_offset: direct.nonlinear_offset, ..built };
    assert(mended.pivots == built.pivots);
}

/// Changing the depth of the samples afterwards agrees with building the
/// uniforms for that depth: offsets up to one agree within a millionth, and all
/// else is the same. To the depth that they have, uniforms do not change.
#[verifier::spinoff_prover]
pub proof fn law_depth_can_be_changed_afterwards(
    pipeline: VideoRenderPipeline,
    knee: Knee,
    edr_output: bool,
    before: bool,
    after: bool,
    built: VideoUniforms,
    changed: VideoUniforms,
    direct: VideoUniforms,
)
    requires
        built.describe(pipeline, knee, before, edr_output),
        direct.describe(pipeline, knee, after, edr_output),
        built.becomes(after, changed),
        pipeline.source.dovi matches Some(dovi) ==> forall|k: int|
            0 <= k < 3 ==> up_to_one(#[trigger] dovi.nonlinear_offset@[k]),
    ensures
        before == after ==> changed == built,
        changed == (VideoUniforms {
            is_p010: flag(after),
            dovi: DoviUniforms {
                nonlinear_offset: changed.dovi.nonlinear_offset,
                ..built.dovi
            },
            ..built
        }),
        changed.picture(pipeline, knee, edr_output),
        pipeline.source.dovi matches Some(dovi) ==> is_payload(
            (DoviUniforms {
                nonlinear_offset: direct.dovi.nonlinear_offset,
                ..changed.dovi
            }),
            dovi,
            after,
        ),
        forall|k: int|
            0 <= k < 3 ==> within_a_millionth(
                #[trigger] changed.dovi.nonlinear_offset@[k],
                direct.dovi.nonlinear_offset@[k],
            ),
{
    if let Some(dovi) = pipeline.source.dovi {
        lemma_payload_at_depth(built.dovi, direct.dovi, dovi, before, after);
    }
    lemma_picture_at_depth(pipeline, knee, edr_output, built, changed);
    lemma_offsets_at_depth(
        pipeline.source.dovi,
        before,
        after,
        built.dovi,
        changed.dovi,
        direct.dovi,
    );
}

/// The picture does not depend on the depth of the samples.
#[verifier::spinoff_prover]
proof fn lemma_picture_at_depth(
    pipeline: VideoRenderPipeline,
    knee: Knee,
    edr_output: bool,
    built: VideoUniforms,
    changed: VideoUniforms,
)
    requires
        built.picture(pipeline, knee, edr_output),
        changed == (VideoUniforms { is_p010: changed.is_p010, dovi: changed.dovi, ..built }),
    ensures
        changed.picture(pipeline, knee, edr_output),
{
    reveal(VideoUniforms::picture);
}

} // verus!
