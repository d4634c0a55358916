use vstd::prelude::*;

use crate::processing_elements::{
    build_dispatch_stage_sized, dispatch_cmds_sized, image_fresh_or_from, BuildError, BuildStep,
    CommandBufferBuilder, GpuCommand, Io, IoFragment, ProcessingElement, Shader,
};
use crate::utils::ImageInfo;
use crate::utils::PixelFormat;
use crate::vk_init::{GpuImage, VkContext, VkContextView};

verus! {

broadcast use vstd::string::to_string_from_display_ensures_for_str;

/// How the hierarchical reduction halves the canvas: 4x passes where
/// possible or 2x passes only, each optionally through the hardware sampler.
#[derive(Clone, Copy, Debug, PartialEq, Eq, Structural)]
pub enum PoolingStrategy {
    Pooling4,
    Pooling2,
    SampledPooling4,
    SampledPooling2,
}

/// How a non-power-of-two input is normalised onto a square power-of-two
/// canvas.
#[derive(Clone, Copy, Debug, PartialEq, Eq, Structural)]
pub enum Canvas {
    /// Grow to the next power of two, zero-padding around the image.
    Pad,
    /// Shrink to the largest power of two not exceeding the image.
    Crop,
}

pub open spec fn pow2(n: nat) -> nat
    decreases n,
{
    if n == 0 {
        1nat
    } else {
        2 * pow2((n - 1) as nat)
    }
}

pub open spec fn log2_floor(s: nat) -> nat
    decreases s,
{
    if s <= 1 {
        0nat
    } else {
        log2_floor(s / 2) + 1
    }
}

pub proof fn lemma_pow2_pos(n: nat)
    ensures
        pow2(n) >= 1,
    decreases n,
{
    if n > 0 {
        lemma_pow2_pos((n - 1) as nat);
    }
}

pub proof fn lemma_pow2_increases(a: nat, b: nat)
    requires
        a <= b,
    ensures
        pow2(a) <= pow2(b),
    decreases b,
{
    if a < b && b > 0 {
        lemma_pow2_increases(a, (b - 1) as nat);
        lemma_pow2_pos((b - 1) as nat);
    }
}

/// The bracketing characterises the floor logarithm.
pub proof fn lemma_log2_floor_unique(s: nat, m: nat)
    requires
        pow2(m) <= s,
        s < 2 * pow2(m),
    ensures
        log2_floor(s) == m,
    decreases m,
{
    lemma_pow2_pos(m);
    if m == 0 {
    } else {
        lemma_pow2_pos((m - 1) as nat);
        lemma_log2_floor_unique(s / 2, (m - 1) as nat);
    }
}

/// Exponent of the canvas the tracker normalises onto, given the larger
/// input dimension: the next power of two for `Pad`, the previous one for
/// `Crop`. A power-of-two input is its own canvas either way.
pub open spec fn canvas_exp(canvas: Canvas, stride: nat) -> nat {
    let l = log2_floor(stride);
    match canvas {
        Canvas::Crop => l,
        Canvas::Pad => if pow2(l) == stride {
            l
        } else {
            l + 1
        },
    }
}

/// Side length of the canvas the tracker normalises onto.
pub open spec fn canvas_size(canvas: Canvas, stride: nat) -> nat {
    pow2(canvas_exp(canvas, stride))
}

/// Find the canvas size for the given larger input dimension: the size and
/// its base-two exponent.
pub fn canvas_pot(stride: u32, canvas: Canvas) -> (r: (u64, u32))
    requires
        stride >= 1,
    ensures
        r.0 == canvas_size(canvas, stride as nat),
        r.1 == canvas_exp(canvas, stride as nat),
        r.0 == pow2(r.1 as nat),
        r.0 <= 0x1_0000_0000u64,
{
    let mut p: u64 = 1;
    let mut n: u32 = 0;
    proof {
        assert(pow2(32) == 0x1_0000_0000) by {
            reveal_with_fuel(pow2, 33);
        }
    }
    while p * 2 <= stride as u64
        invariant
            1 <= p,
            p == pow2(n as nat),
            p <= stride,
            stride >= 1,
            n < 32,
            pow2(32) == 0x1_0000_0000,
        decreases stride as u64 - p,
    {
        p = p * 2;
        n = n + 1;
        proof {
            if n >= 32 {
                lemma_pow2_increases(32, n as nat);
            }
        }
    }
    proof {
        lemma_log2_floor_unique(stride as nat, n as nat);
        if n + 1 >= 33 {
            lemma_pow2_increases(33, (n + 1) as nat);
        }
        lemma_pow2_increases((n + 1) as nat, 32);
    }
    match canvas {
        Canvas::Crop => (p, n),
        Canvas::Pad => if p == stride as u64 {
            (p, n)
        } else {
            (p * 2, n + 1)
        },
    }
}

/// The image a mean-pooling pass allocates: the input's side length divided
/// by the pass's factor, in the reduction's wide accumulation format.
pub open spec fn pool_out_image(ctx: VkContextView, img: GpuImage, factor: u32) -> GpuImage {
    GpuImage {
        id: ctx.images.len() as usize,
        info: ImageInfo {
            width: (img.info.width as int / factor as int) as u32,
            height: (img.info.height as int / factor as int) as u32,
            format: PixelFormat::R16G16B16A16Sfloat,
        },
    }
}

/// Work groups shrink with the image near the bottom of the reduction.
pub open spec fn pool_local(out_size: u32) -> u32 {
    if out_size < 16 {
        out_size
    } else {
        16
    }
}

/// The dispatch one mean-pooling pass appends.
pub open spec fn pool_cmds(img: GpuImage, out: GpuImage, factor: u32, sampled: bool) -> Seq<
    GpuCommand,
> {
    dispatch_cmds_sized(
        if factor == 4 {
            Shader::MeanPooling4 { sampled }
        } else {
            Shader::MeanPooling2 { sampled }
        },
        img,
        out,
        pool_local(out.info.width),
        out.info.width,
        out.info.height,
    )
}

/// The whole reduction tail: `n4` 4x passes followed by `n2` 2x passes,
/// each allocating its output image and appending one dispatch.
pub open spec fn pool_passes(
    ctx: VkContextView,
    img: GpuImage,
    n4: nat,
    n2: nat,
    sampled: bool,
) -> (VkContextView, GpuImage, Seq<GpuCommand>)
    decreases n4, n2,
{
    if n4 > 0 {
        let out = pool_out_image(ctx, img, 4);
        let rest = pool_passes(ctx.with_image(out.info), out, (n4 - 1) as nat, n2, sampled);
        (rest.0, rest.1, pool_cmds(img, out, 4, sampled) + rest.2)
    } else if n2 > 0 {
        let out = pool_out_image(ctx, img, 2);
        let rest = pool_passes(ctx.with_image(out.info), out, 0, (n2 - 1) as nat, sampled);
        (rest.0, rest.1, pool_cmds(img, out, 2, sampled) + rest.2)
    } else {
        (ctx, img, Seq::empty())
    }
}

/// A square power-of-two image pooled down by the full schedule ends at
/// exactly one pixel, in the reduction's accumulation format.
pub proof fn lemma_pool_passes_size(
    ctx: VkContextView,
    img: GpuImage,
    n4: nat,
    n2: nat,
    sampled: bool,
)
    requires
        img.info.width == img.info.height,
        img.info.width == pow2(2 * n4 + n2),
        img.info.format == PixelFormat::R16G16B16A16Sfloat,
    ensures
        pool_passes(ctx, img, n4, n2, sampled).1.info == (ImageInfo {
            width: 1u32,
            height: 1u32,
            format: PixelFormat::R16G16B16A16Sfloat,
        }),
    decreases n4, n2,
{
    lemma_pow2_pos(2 * n4 + n2);
    if n4 > 0 {
        let out = pool_out_image(ctx, img, 4);
        assert(pow2(2 * n4 + n2) == 2 * pow2((2 * n4 + n2 - 1) as nat));
        assert(pow2((2 * n4 + n2 - 1) as nat) == 2 * pow2((2 * n4 + n2 - 2) as nat));
        assert(pow2(2 * n4 + n2) == 4 * pow2((2 * (n4 - 1) + n2) as nat));
        lemma_pow2_pos((2 * (n4 - 1) + n2) as nat);
        assert(out.info.width == pow2((2 * (n4 - 1) + n2) as nat));
        lemma_pool_passes_size(ctx.with_image(out.info), out, (n4 - 1) as nat, n2, sampled);
    } else if n2 > 0 {
        let out = pool_out_image(ctx, img, 2);
        assert(pow2(n2) == 2 * pow2((n2 - 1) as nat));
        lemma_pow2_pos((n2 - 1) as nat);
        lemma_pool_passes_size(ctx.with_image(out.info), out, 0, (n2 - 1) as nat, sampled);
    }
}

/// 4x passes taken greedily, then one 2x pass if the exponent is odd; the
/// 2x-only strategies spend one 2x pass per halving instead.
pub open spec fn strategy_passes(strategy: PoolingStrategy, e: nat) -> (nat, nat) {
    match strategy {
        PoolingStrategy::Pooling4 | PoolingStrategy::SampledPooling4 => (e / 2, e % 2),
        PoolingStrategy::Pooling2 | PoolingStrategy::SampledPooling2 => (0nat, e),
    }
}

pub open spec fn strategy_sampled(strategy: PoolingStrategy) -> bool {
    match strategy {
        PoolingStrategy::SampledPooling4 | PoolingStrategy::SampledPooling2 => true,
        PoolingStrategy::Pooling4 | PoolingStrategy::Pooling2 => false,
    }
}

/// The flagship stage: canvas normalisation, coordinate-mask generation and
/// hierarchical mean-pooling reduction down to a single 1x1 result holding
/// the weighted centroid sums.
pub struct Tracker {
    pub pooling: PoolingStrategy,
    pub canvas: Canvas,
}

impl Tracker {
    pub fn new(pooling: PoolingStrategy, canvas: Canvas) -> (r: Self)
        ensures
            r.pooling == pooling,
            r.canvas == canvas,
    {
        Tracker { pooling, canvas }
    }

    /// The larger input dimension, which the canvas is fitted to.
    pub open spec fn stride_spec(img: GpuImage) -> nat {
        if img.info.width > img.info.height {
            img.info.width as nat
        } else {
            img.info.height as nat
        }
    }

    /// The canvas pass is skipped when the input is already the canvas.
    pub open spec fn canvas_skipped(self, img: GpuImage) -> bool {
        img.info.width == canvas_size(self.canvas, Tracker::stride_spec(img))
            && img.info.height == canvas_size(self.canvas, Tracker::stride_spec(img))
    }

    /// Exec part of the pooling schedule: apply `n4` 4x passes then `n2` 2x
    /// passes to a square power-of-two image.
    fn pooling(
        ctx: &mut VkContext,
        builder: &mut CommandBufferBuilder,
        img0: GpuImage,
        n4: u32,
        n2: u32,
        sampled: bool,
    ) -> (r: GpuImage)
        requires
            img0.info.width == img0.info.height,
            2 * n4 + n2 <= 31,
            img0.info.width == pow2((2 * n4 + n2) as nat),
            img0.info.format == PixelFormat::R16G16B16A16Sfloat,
            img0.info.fits(),
        ensures
            final(ctx)@ == pool_passes(old(ctx)@, img0, n4 as nat, n2 as nat, sampled).0,
            r == pool_passes(old(ctx)@, img0, n4 as nat, n2 as nat, sampled).1,
            final(builder).commands@ == old(builder).commands@ + pool_passes(
                old(ctx)@,
                img0,
                n4 as nat,
                n2 as nat,
                sampled,
            ).2,
    {
        let ghost full = pool_passes(old(ctx)@, img0, n4 as nat, n2 as nat, sampled);
        let mut img = img0;
        let mut i4: u32 = 0;
        let mut i2: u32 = 0;
        proof {
            lemma_pow2_pos((2 * n4 + n2) as nat);
        }
        while i4 < n4
            invariant
                i4 <= n4,
                img.info.width == img.info.height,
                img.info.width == pow2((2 * (n4 - i4) + n2) as nat),
                img.info.format == PixelFormat::R16G16B16A16Sfloat,
                img.info.fits(),
                2 * n4 + n2 <= 31,
                full == pool_passes(old(ctx)@, img0, n4 as nat, n2 as nat, sampled),
                full.0 == pool_passes(ctx@, img, (n4 - i4) as nat, n2 as nat, sampled).0,
                full.1 == pool_passes(ctx@, img, (n4 - i4) as nat, n2 as nat, sampled).1,
                old(builder).commands@ + full.2 == builder.commands@ + pool_passes(
                    ctx@,
                    img,
                    (n4 - i4) as nat,
                    n2 as nat,
                    sampled,
                ).2,
            decreases n4 - i4,
        {
            proof {
                assert(pow2((2 * (n4 - i4) + n2) as nat) == 2 * pow2(
                    (2 * (n4 - i4) + n2 - 1) as nat,
                ));
                assert(pow2((2 * (n4 - i4) + n2 - 1) as nat) == 2 * pow2(
                    (2 * (n4 - i4) + n2 - 2) as nat,
                ));
                lemma_pow2_pos((2 * (n4 - i4) + n2 - 2) as nat);
            }
            let ghost ctx_before = ctx@;
            let ghost cmds_before = builder.commands@;
            let ghost k4 = (n4 - i4) as nat;
            let out_size = img.info.width / 4;
            let local = if out_size < 16 {
                out_size
            } else {
                16
            };
            let out_info = ImageInfo {
                width: out_size,
                height: out_size,
                format: PixelFormat::R16G16B16A16Sfloat,
            };
            proof {
                assert(out_size * out_size * 8 <= img.info.width * img.info.height * 8)
                    by (nonlinear_arith)
                    requires out_size <= img.info.width && out_size <= img.info.height
                        && out_size >= 0;
            }
            let out = match build_dispatch_stage_sized(
                ctx,
                builder,
                img,
                out_info,
                if sampled {
                    Shader::MeanPooling4 { sampled: true }
                } else {
                    Shader::MeanPooling4 { sampled: false }
                },
                local,
                [out_size, out_size],
            ) {
                Ok(out) => out,
                Err(_) => {
                    proof {
                        assert(false);
                    }
                    return img;
                },
            };
            proof {
                let spec_out = pool_out_image(ctx_before, img, 4);
                let rest = pool_passes(ctx@, spec_out, (k4 - 1) as nat, n2 as nat, sampled);
                assert(out == spec_out);
                assert(ctx@ == ctx_before.with_image(spec_out.info));
                assert(pool_passes(ctx_before, img, k4, n2 as nat, sampled).2 == pool_cmds(
                    img,
                    spec_out,
                    4,
                    sampled,
                ) + rest.2);
                assert(builder.commands@ == cmds_before + pool_cmds(img, spec_out, 4, sampled));
                assert(cmds_before + (pool_cmds(img, spec_out, 4, sampled) + rest.2) =~= (
                cmds_before + pool_cmds(img, spec_out, 4, sampled)) + rest.2);
            }
            img = out;
            i4 = i4 + 1;
        }
        while i2 < n2
            invariant
                i2 <= n2,
                img.info.width == img.info.height,
                img.info.width == pow2((n2 - i2) as nat),
                img.info.format == PixelFormat::R16G16B16A16Sfloat,
                img.info.fits(),
                n2 <= 31,
                full == pool_passes(old(ctx)@, img0, n4 as nat, n2 as nat, sampled),
                full.0 == pool_passes(ctx@, img, 0, (n2 - i2) as nat, sampled).0,
                full.1 == pool_passes(ctx@, img, 0, (n2 - i2) as nat, sampled).1,
                old(builder).commands@ + full.2 == builder.commands@ + pool_passes(
                    ctx@,
                    img,
                    0,
                    (n2 - i2) as nat,
                    sampled,
                ).2,
            decreases n2 - i2,
        {
            proof {
                assert(pow2((n2 - i2) as nat) == 2 * pow2((n2 - i2 - 1) as nat));
                lemma_pow2_pos((n2 - i2 - 1) as nat);
            }
            let ghost ctx_before = ctx@;
            let ghost cmds_before = builder.commands@;
            let ghost k2 = (n2 - i2) as nat;
            let out_size = img.info.width / 2;
            let local = if out_size < 16 {
                out_size
            } else {
                16
            };
            let out_info = ImageInfo {
                width: out_size,
                height: out_size,
                format: PixelFormat::R16G16B16A16Sfloat,
            };
            proof {
                assert(out_size * out_size * 8 <= img.info.width * img.info.height * 8)
                    by (nonlinear_arith)
                    requires out_size <= img.info.width && out_size <= img.info.height
                        && out_size >= 0;
            }
            let out = match build_dispatch_stage_sized(
                ctx,
                builder,
                img,
                out_info,
                if sampled {
                    Shader::MeanPooling2 { sampled: true }
                } else {
                    Shader::MeanPooling2 { sampled: false }
                },
                local,
                [out_size, out_size],
            ) {
                Ok(out) => out,
                Err(_) => {
                    proof {
                        assert(false);
                    }
                    return img;
                },
            };
            proof {
                let spec_out = pool_out_image(ctx_before, img, 2);
                let rest = pool_passes(ctx@, spec_out, 0, (k2 - 1) as nat, sampled);
                assert(out == spec_out);
                assert(ctx@ == ctx_before.with_image(spec_out.info));
                assert(pool_passes(ctx_before, img, 0, k2, sampled).2 == pool_cmds(
                    img,
                    spec_out,
                    2,
                    sampled,
                ) + rest.2);
                assert(builder.commands@ == cmds_before + pool_cmds(img, spec_out, 2, sampled));
                assert(cmds_before + (pool_cmds(img, spec_out, 2, sampled) + rest.2) =~= (
                cmds_before + pool_cmds(img, spec_out, 2, sampled)) + rest.2);
            }
            img = out;
            i2 = i2 + 1;
        }
        proof {
            assert(builder.commands@ + Seq::<GpuCommand>::empty() =~= builder.commands@);
            assert(old(builder).commands@ + full.2 =~= builder.commands@);
        }
        img
    }
}

/// Each pass registers exactly one image and no buffer.
pub proof fn lemma_pool_passes_count(
    ctx: VkContextView,
    img: GpuImage,
    n4: nat,
    n2: nat,
    sampled: bool,
)
    ensures
        pool_passes(ctx, img, n4, n2, sampled).0.images.len() == ctx.images.len() + n4 + n2,
        pool_passes(ctx, img, n4, n2, sampled).0.buffers.len() == ctx.buffers.len(),
    decreases n4, n2,
{
    if n4 > 0 {
        let out = pool_out_image(ctx, img, 4);
        lemma_pool_passes_count(ctx.with_image(out.info), out, (n4 - 1) as nat, n2, sampled);
    } else if n2 > 0 {
        let out = pool_out_image(ctx, img, 2);
        lemma_pool_passes_count(ctx.with_image(out.info), out, 0, (n2 - 1) as nat, sampled);
    }
}

/// The reduction tail grows the registry, produces a valid, fresh result
/// image, and appends only commands that touch valid resources allocated
/// during this build.
pub proof fn lemma_pool_passes_props(
    ctx: VkContextView,
    img: GpuImage,
    n4: nat,
    n2: nat,
    sampled: bool,
    base: VkContextView,
    from: Io,
)
    requires
        ctx.valid_image(img),
        image_fresh_or_from(img, base, from),
        base.images.len() <= ctx.images.len(),
        base.buffers.len() <= ctx.buffers.len(),
        ctx.images.len() + n4 + n2 <= usize::MAX,
    ensures
        ({
            let pp = pool_passes(ctx, img, n4, n2, sampled);
            &&& pp.0.extends(ctx)
            &&& pp.0.valid_image(pp.1)
            &&& image_fresh_or_from(pp.1, base, from)
            &&& forall|j: int|
                0 <= j < pp.2.len() ==> (#[trigger] pp.2[j]).valid(pp.0)
                    && pp.2[j].refs_fresh_or_input(base, from)
        }),
    decreases n4, n2,
{
    let pp = pool_passes(ctx, img, n4, n2, sampled);
    if n4 > 0 || n2 > 0 {
        let factor: u32 = if n4 > 0 {
            4
        } else {
            2
        };
        let out = pool_out_image(ctx, img, factor);
        let ctx1 = ctx.with_image(out.info);
        let rest = if n4 > 0 {
            pool_passes(ctx1, out, (n4 - 1) as nat, n2, sampled)
        } else {
            pool_passes(ctx1, out, 0, (n2 - 1) as nat, sampled)
        };
        assert(ctx1.valid_image(out));
        assert(ctx1.extends(ctx));
        if n4 > 0 {
            lemma_pool_passes_props(ctx1, out, (n4 - 1) as nat, n2, sampled, base, from);
        } else {
            lemma_pool_passes_props(ctx1, out, 0, (n2 - 1) as nat, sampled, base, from);
        }
        crate::vk_init::lemma_extends_transitive(rest.0, ctx1, ctx);
        crate::vk_init::lemma_extends_preserves_validity(rest.0, ctx1);
        assert(pp.2 == pool_cmds(img, out, factor, sampled) + rest.2);
        assert(pp.2[0].valid(pp.0));
        assert(pp.2[0].refs_fresh_or_input(base, from));
        assert(forall|j: int|
            1 <= j < pp.2.len() ==> pp.2[j] == rest.2[j - 1] && (#[trigger] pp.2[j]).valid(pp.0)
                && pp.2[j].refs_fresh_or_input(base, from));
    }
}

impl ProcessingElement for Tracker {
    open spec fn accepts(&self, input: Io) -> bool {
        input matches Io::Image(_)
    }

    open spec fn alloc_ok(&self, ctx: VkContextView, input: Io) -> bool {
        match input {
            Io::Image(img) => {
                let stride = Tracker::stride_spec(img);
                let pot = canvas_size(self.canvas, stride);
                &&& stride >= 1
                &&& pot <= 65535
                &&& (ImageInfo {
                    width: pot as u32,
                    height: pot as u32,
                    format: PixelFormat::R16G16B16A16Sfloat,
                }).fits()
            },
            _ => false,
        }
    }

    open spec fn step(&self, ctx: VkContextView, input: Io) -> BuildStep {
        match input {
            Io::Image(img) => {
                let stride = Tracker::stride_spec(img);
                let pot = canvas_size(self.canvas, stride) as u32;
                let e = canvas_exp(self.canvas, stride);
                let skipped = self.canvas_skipped(img);
                let canvas_img = if skipped {
                    img
                } else {
                    GpuImage {
                        id: ctx.images.len() as usize,
                        info: ImageInfo { width: pot, height: pot, format: PixelFormat::R8Unorm },
                    }
                };
                let ctx1 = if skipped {
                    ctx
                } else {
                    ctx.with_image(canvas_img.info)
                };
                let canvas_cmds = if skipped {
                    Seq::<GpuCommand>::empty()
                } else {
                    dispatch_cmds_sized(Shader::Canvas, img, canvas_img, 16, pot, pot)
                };
                let cm_img = GpuImage {
                    id: ctx1.images.len() as usize,
                    info: ImageInfo {
                        width: pot,
                        height: pot,
                        format: PixelFormat::R16G16B16A16Sfloat,
                    },
                };
                let ctx2 = ctx1.with_image(cm_img.info);
                let cm_cmds = dispatch_cmds_sized(
                    Shader::CoordinateMask {
                        sub_width: img.info.width,
                        sub_height: img.info.height,
                    },
                    canvas_img,
                    cm_img,
                    16,
                    pot,
                    pot,
                );
                let passes = strategy_passes(self.pooling, e);
                let pp = pool_passes(
                    ctx2,
                    cm_img,
                    passes.0,
                    passes.1,
                    strategy_sampled(self.pooling),
                );
                BuildStep {
                    ctx: pp.0,
                    input_io: Io::Image(img),
                    output_io: Io::Image(pp.1),
                    cmds: canvas_cmds + cm_cmds + pp.2,
                }
            },
            _ => arbitrary(),
        }
    }

    open spec fn label_spec(&self) -> Seq<char> {
        "Tracker"@
    }

    #[verifier::rlimit(100)]
    fn build(
        &self,
        ctx: &mut VkContext,
        builder: &mut CommandBufferBuilder,
        input: &IoFragment,
    ) -> (r: Result<IoFragment, BuildError>) {
        let input_img = match input.output_image() {
            Some(img) => img,
            None => {
                return Err(BuildError::WrongInputKind);
            },
        };
        let w = input_img.info.width;
        let h = input_img.info.height;
        let stride = if w > h {
            w
        } else {
            h
        };
        if stride == 0 {
            return Err(BuildError::ResourceAllocation);
        }
        let (pot64, e) = canvas_pot(stride, self.canvas);
        if pot64 > 65535 {
            return Err(BuildError::ResourceAllocation);
        }
        let pot = pot64 as u32;
        let cm_info = ImageInfo {
            width: pot,
            height: pot,
            format: PixelFormat::R16G16B16A16Sfloat,
        };
        if cm_info.checked_bytes_count().is_none() {
            return Err(BuildError::ResourceAllocation);
        }
        let ghost ctx0 = ctx@;
        let ghost cmds0 = builder.commands@;
        let ghost spec_step = self.step(ctx0, input.output);
        // canvas the input image to be a power of two; skipped if it is one
        let canvas_img = if w == pot && h == pot {
            input_img
        } else {
            let canvas_info = ImageInfo { width: pot, height: pot, format: PixelFormat::R8Unorm };
            proof {
                assert(pot * pot * 1 <= pot * pot * 8) by (nonlinear_arith)
                    requires pot >= 0;
            }
            match build_dispatch_stage_sized(
                ctx,
                builder,
                input_img,
                canvas_info,
                Shader::Canvas,
                16,
                [pot, pot],
            ) {
                Ok(img) => img,
                Err(_) => {
                    proof {
                        assert(false);
                    }
                    return Err(BuildError::ResourceAllocation);
                },
            }
        };
        let ghost ctx1 = ctx@;
        let ghost cmds1 = builder.commands@;
        // coordinate mask over the canvas, normalised by the original
        // sub-region dimensions
        let cm_img = match build_dispatch_stage_sized(
            ctx,
            builder,
            canvas_img,
            cm_info,
            Shader::CoordinateMask { sub_width: w, sub_height: h },
            16,
            [pot, pot],
        ) {
            Ok(img) => img,
            Err(_) => {
                proof {
                    assert(false);
                }
                return Err(BuildError::ResourceAllocation);
            },
        };
        let ghost ctx2 = ctx@;
        let ghost cmds2 = builder.commands@;
        // scale down to 1x1 px
        let (n4, n2, sampled) = match self.pooling {
            PoolingStrategy::Pooling4 => (e / 2, e % 2, false),
            PoolingStrategy::SampledPooling4 => (e / 2, e % 2, true),
            PoolingStrategy::Pooling2 => (0, e, false),
            PoolingStrategy::SampledPooling2 => (0, e, true),
        };
        proof {
            if e >= 16 {
                lemma_pow2_increases(16, e as nat);
                assert(pow2(16) == 65536) by {
                    reveal_with_fuel(pow2, 17);
                }
            }
        }
        let output_img = Tracker::pooling(ctx, builder, cm_img, n4, n2, sampled);
        proof {
            let img = input_img;
            let stride_s = Tracker::stride_spec(img);
            let pot_s = canvas_size(self.canvas, stride_s) as u32;
            let skipped = self.canvas_skipped(img);
            let s_canvas_img = if skipped {
                img
            } else {
                GpuImage {
                    id: ctx0.images.len() as usize,
                    info: ImageInfo { width: pot_s, height: pot_s, format: PixelFormat::R8Unorm },
                }
            };
            let s_ctx1 = if skipped {
                ctx0
            } else {
                ctx0.with_image(s_canvas_img.info)
            };
            let s_canvas_cmds = if skipped {
                Seq::<GpuCommand>::empty()
            } else {
                dispatch_cmds_sized(Shader::Canvas, img, s_canvas_img, 16, pot_s, pot_s)
            };
            let s_cm_img = GpuImage {
                id: s_ctx1.images.len() as usize,
                info: ImageInfo {
                    width: pot_s,
                    height: pot_s,
                    format: PixelFormat::R16G16B16A16Sfloat,
                },
            };
            let s_cm_cmds = dispatch_cmds_sized(
                Shader::CoordinateMask { sub_width: img.info.width, sub_height: img.info.height },
                s_canvas_img,
                s_cm_img,
                16,
                pot_s,
                pot_s,
            );
            assert(pot == pot_s);
            assert(canvas_img == s_canvas_img);
            assert(ctx1 == s_ctx1);
            assert(cm_img == s_cm_img);
            assert(ctx2 == s_ctx1.with_image(s_cm_img.info));
            assert(n4 as nat == strategy_passes(self.pooling, e as nat).0);
            assert(n2 as nat == strategy_passes(self.pooling, e as nat).1);
            assert(sampled == strategy_sampled(self.pooling));
            let pp = pool_passes(ctx2, cm_img, n4 as nat, n2 as nat, sampled);
            assert(spec_step.ctx == pp.0);
            assert(spec_step.output_io == Io::Image(pp.1));
            assert(spec_step.cmds == s_canvas_cmds + s_cm_cmds + pp.2);
            assert(cmds1 =~= cmds0 + s_canvas_cmds);
            assert(cmds2 == cmds1 + s_cm_cmds);
            assert(builder.commands@ == cmds2 + pp.2);
            assert(builder.commands@ =~= cmds0 + spec_step.cmds);
            // validity and freshness of every appended command
            lemma_pool_passes_count(ctx2, cm_img, n4 as nat, n2 as nat, sampled);
            assert(vstd::std_specs::vec::spec_vec_len(&ctx.images) == ctx@.images.len());
            lemma_pool_passes_props(ctx2, cm_img, n4 as nat, n2 as nat, sampled, ctx0, input.output);
            crate::vk_init::lemma_extends_transitive(ctx2, ctx1, ctx0);
            crate::vk_init::lemma_extends_transitive(pp.0, ctx2, ctx0);
            crate::vk_init::lemma_extends_preserves_validity(pp.0, ctx2);
            crate::vk_init::lemma_extends_preserves_validity(pp.0, ctx0);
            let l1 = s_canvas_cmds.len() as int;
            let l2 = s_cm_cmds.len() as int;
            assert forall|j: int|
                0 <= j < spec_step.cmds.len() implies (#[trigger] spec_step.cmds[j]).valid(ctx@)
                    && spec_step.cmds[j].refs_fresh_or_input(ctx0, input.output) by {
                if j < l1 {
                    assert(spec_step.cmds[j] == s_canvas_cmds[j]);
                    assert(ctx@.valid_image(img));
                    assert(ctx@.valid_image(s_canvas_img));
                } else if j < l1 + l2 {
                    assert(spec_step.cmds[j] == s_cm_cmds[j - l1]);
                    assert(ctx@.valid_image(s_canvas_img));
                    assert(ctx@.valid_image(s_cm_img));
                } else {
                    assert(spec_step.cmds[j] == pp.2[j - l1 - l2]);
                }
            }
            assert(ctx@.valid_image(img));
        }
        Ok(IoFragment {
            input: Io::Image(input_img),
            output: Io::Image(output_img),
            label: "Tracker".to_string(),
        })
    }
}



/// Tracker output law: for every accepted input the tracker's sub-pipeline
/// ends at a single 1x1 pixel in the reduction's accumulation format, and
/// the coordinate-mask dispatch normalises over the original input
/// dimensions — not the canvas — whichever canvas policy is selected.
pub proof fn lemma_tracker_step_shape(t: Tracker, ctx: VkContextView, input: IoFragment)
    requires
        t.accepts(input.output),
        t.alloc_ok(ctx, input.output),
        input.output matches Io::Image(img),
    ensures
        ({
            let s = t.step(ctx, input.output);
            let img = input.output->Image_0;
            let cm_at = if t.canvas_skipped(img) {
                0int
            } else {
                1int
            };
            &&& s.output_io matches Io::Image(out) && out.info == (ImageInfo {
                width: 1u32,
                height: 1u32,
                format: PixelFormat::R16G16B16A16Sfloat,
            })
            &&& s.cmds.len() > cm_at
            &&& s.cmds[cm_at] matches GpuCommand::Dispatch { shader, .. } && shader matches
                Shader::CoordinateMask { sub_width, sub_height } && sub_width == img.info.width
                && sub_height == img.info.height
        }),
{
    let img = input.output->Image_0;
    let stride = Tracker::stride_spec(img);
    let pot = canvas_size(t.canvas, stride) as u32;
    let e = canvas_exp(t.canvas, stride);
    let s = t.step(ctx, input.output);
    let skipped = t.canvas_skipped(img);
    let ctx1 = if skipped {
        ctx
    } else {
        ctx.with_image(
            ImageInfo { width: pot, height: pot, format: PixelFormat::R8Unorm },
        )
    };
    let cm_img = GpuImage {
        id: ctx1.images.len() as usize,
        info: ImageInfo { width: pot, height: pot, format: PixelFormat::R16G16B16A16Sfloat },
    };
    let ctx2 = ctx1.with_image(cm_img.info);
    let passes = strategy_passes(t.pooling, e);
    lemma_pow2_pos(e);
    assert(pot == pow2(e));
    assert(2 * passes.0 + passes.1 == e);
    lemma_pool_passes_size(ctx2, cm_img, passes.0, passes.1, strategy_sampled(t.pooling));
}


/// Little-endian 16-bit value from two bytes at offset `o`.
pub open spec fn le16(b: Seq<u8>, o: int) -> int {
    b[o] + 0x100 * b[o + 1]
}

/// Little-endian 32-bit value from four bytes at offset `o`.
pub open spec fn le32(b: Seq<u8>, o: int) -> int {
    b[o] + 0x100 * b[o + 1] + 0x1_0000 * b[o + 2] + 0x100_0000 * b[o + 3]
}

/// Decode the raw bit patterns of the three leading components `(sx, sy,
/// sz)` of a downloaded 1x1 tracker result, picking the component width by
/// the buffer's declared pixel format. The values are the components' bits;
/// interpreting them as floating point and dividing out the centroid is the
/// caller's final, device-dependent step.
pub fn centroid_components(tf_img: &crate::endpoints::image_download::TransferredImage) -> (r:
    Option<(u32, u32, u32)>)
    ensures
        match r {
            Some(c) => {
                &&& tf_img.info.width == 1
                &&& tf_img.info.height == 1
                &&& (tf_img.info.format == PixelFormat::R16G16B16A16Sfloat || tf_img.info.format
                    == PixelFormat::R32G32B32A32Sfloat)
                &&& tf_img.info.format == PixelFormat::R16G16B16A16Sfloat ==> tf_img.buffer@.len()
                    >= 6 && c.0 == le16(tf_img.buffer@, 0) && c.1 == le16(tf_img.buffer@, 2)
                    && c.2 == le16(tf_img.buffer@, 4)
                &&& tf_img.info.format == PixelFormat::R32G32B32A32Sfloat ==> tf_img.buffer@.len()
                    >= 12 && c.0 == le32(tf_img.buffer@, 0) && c.1 == le32(tf_img.buffer@, 4)
                    && c.2 == le32(tf_img.buffer@, 8)
            },
            None => !(tf_img.info.width == 1 && tf_img.info.height == 1 && ((tf_img.info.format
                == PixelFormat::R16G16B16A16Sfloat && tf_img.buffer@.len() >= 6) || (
            tf_img.info.format == PixelFormat::R32G32B32A32Sfloat && tf_img.buffer@.len()
                >= 12))),
        },
{
    if !(tf_img.info.width == 1 && tf_img.info.height == 1) {
        return None;
    }
    let buffer = tf_img.buffer_content();
    match tf_img.info.format {
        PixelFormat::R16G16B16A16Sfloat => {
            if buffer.len() < 6 {
                return None;
            }
            let x = (buffer[0] as u32) + 0x100 * (buffer[1] as u32);
            let y = (buffer[2] as u32) + 0x100 * (buffer[3] as u32);
            let z = (buffer[4] as u32) + 0x100 * (buffer[5] as u32);
            Some((x, y, z))
        },
        PixelFormat::R32G32B32A32Sfloat => {
            if buffer.len() < 12 {
                return None;
            }
            let x = (buffer[0] as u32) + 0x100 * (buffer[1] as u32) + 0x1_0000 * (
            buffer[2] as u32) + 0x100_0000 * (buffer[3] as u32);
            let y = (buffer[4] as u32) + 0x100 * (buffer[5] as u32) + 0x1_0000 * (
            buffer[6] as u32) + 0x100_0000 * (buffer[7] as u32);
            let z = (buffer[8] as u32) + 0x100 * (buffer[9] as u32) + 0x1_0000 * (
            buffer[10] as u32) + 0x100_0000 * (buffer[11] as u32);
            Some((x, y, z))
        },
        _ => None,
    }
}

} // verus!
