use vstd::prelude::*;

use crate::processing_elements::{
    BuildError, BuildStep, CommandBuffer, CommandBufferBuilder, GpuCommand, Io, IoFragment,
    PipeInput, PipeOutput, ProcessingElement, Stage,
};
use crate::vk_init::{lemma_extends_preserves_validity, lemma_extends_transitive};
use crate::vk_init::{GpuImage, VkContext, VkContextView};

verus! {

/// The pixel formats the pipeline allocates images with: number and width of
/// the colour components, as the compute kernels and the host decoders see
/// them.
#[derive(Clone, Copy, Debug, PartialEq, Eq, Structural)]
pub enum PixelFormat {
    R8Unorm,
    R8G8B8Uint,
    R8G8B8A8Uint,
    R8G8B8A8Unorm,
    R16G16B16A16Sfloat,
    R32G32B32A32Sfloat,
}

impl PixelFormat {
    /// Bytes that one pixel of this format occupies.
    pub open spec fn bytes_per_pixel_spec(self) -> u32 {
        match self {
            PixelFormat::R8Unorm => 1,
            PixelFormat::R8G8B8Uint => 3,
            PixelFormat::R8G8B8A8Uint => 4,
            PixelFormat::R8G8B8A8Unorm => 4,
            PixelFormat::R16G16B16A16Sfloat => 8,
            PixelFormat::R32G32B32A32Sfloat => 16,
        }
    }
}

/// Dimensions plus pixel format: the declarative descriptor from which the
/// resource allocator creates a GPU image, and the metadata that travels with
/// every downloaded buffer.
#[derive(Clone, Copy, Debug, PartialEq, Eq, Structural)]
pub struct ImageInfo {
    pub width: u32,
    pub height: u32,
    pub format: PixelFormat,
}

impl ImageInfo {
    /// Total bytes of an image with these dimensions and this format.
    pub open spec fn bytes_count_spec(self) -> int {
        self.width * self.height * self.format.bytes_per_pixel_spec()
    }

    /// The descriptor can be satisfied: its byte count stays within the
    /// 32-bit size the allocator and the copy commands work in.
    pub open spec fn fits(self) -> bool {
        self.bytes_count_spec() <= u32::MAX
    }

    pub fn bytes_per_pixel(&self) -> (r: u32)
        ensures
            r == self.format.bytes_per_pixel_spec(),
    {
        match self.format {
            PixelFormat::R8Unorm => 1,
            PixelFormat::R8G8B8Uint => 3,
            PixelFormat::R8G8B8A8Uint => 4,
            PixelFormat::R8G8B8A8Unorm => 4,
            PixelFormat::R16G16B16A16Sfloat => 8,
            PixelFormat::R32G32B32A32Sfloat => 16,
        }
    }

    pub fn bytes_count(&self) -> (r: u32)
        requires
            self.fits(),
        ensures
            r == self.bytes_count_spec(),
    {
        let bpp = self.bytes_per_pixel();
        proof {
            assert(self.width * self.height <= self.width * self.height * bpp)
                by (nonlinear_arith)
                requires bpp >= 1 && self.width >= 0 && self.height >= 0;
        }
        ((self.width as u64) * (self.height as u64) * (bpp as u64)) as u32
    }

    pub fn stride(&self) -> (r: u32)
        requires
            self.width * self.format.bytes_per_pixel_spec() <= u32::MAX,
        ensures
            r == self.width * self.format.bytes_per_pixel_spec(),
    {
        self.width * self.bytes_per_pixel()
    }

    pub fn area(&self) -> (r: u32)
        requires
            self.width * self.height <= u32::MAX,
        ensures
            r == self.width * self.height,
    {
        self.width * self.height
    }

    /// Total bytes, or `None` when the descriptor exceeds the 32-bit size
    /// the allocator works in.
    pub fn checked_bytes_count(&self) -> (r: Option<u32>)
        ensures
            r matches Some(c) ==> self.fits() && c == self.bytes_count_spec(),
            r is None ==> !self.fits(),
    {
        proof {
            assert(self.width * self.height <= 0xffff_ffff * 0xffff_ffff) by (nonlinear_arith)
                requires self.width <= 0xffff_ffff && self.height <= 0xffff_ffff;
        }
        let wh = (self.width as u64) * (self.height as u64);
        let bpp = self.bytes_per_pixel();
        proof {
            assert(wh <= wh * bpp) by (nonlinear_arith)
                requires bpp >= 1 && wh >= 0;
        }
        if wh > u32::MAX as u64 {
            return None;
        }
        let count = wh * (bpp as u64);
        if count <= u32::MAX as u64 {
            Some(count as u32)
        } else {
            None
        }
    }

    /// Descriptor for an image with the same dimensions as an existing one
    /// but a (possibly) different format.
    pub fn from_image(image: &GpuImage, format: PixelFormat) -> (r: ImageInfo)
        ensures
            r.width == image.info.width,
            r.height == image.info.height,
            r.format == format,
    {
        ImageInfo { width: image.info.width, height: image.info.height, format }
    }
}

/// Create a GPU storage image from a declarative descriptor. The underlying
/// allocation carries the union of the usage flags every consumer needs:
/// written and read by compute kernels, and copied to or from host memory.
pub fn create_storage_image(ctx: &mut VkContext, img_info: &ImageInfo) -> (img: GpuImage)
    requires
        img_info.fits(),
    ensures
        img.id == old(ctx)@.images.len(),
        img.info == *img_info,
        final(ctx)@ == old(ctx)@.with_image(*img_info),
        final(ctx)@.valid_image(img),
        final(ctx)@.extends(old(ctx)@),
{
    ctx.register_image(*img_info)
}

/// Ceiling division: the number of work groups needed to cover `a` items in
/// groups of `b`.
pub open spec fn div_ceil(a: int, b: int) -> int {
    (a + b - 1) / b
}

/// Work-group counts for a dispatch over a 2-D resolution: the resolution
/// divided by the kernel's local work-group size, rounded up.
pub fn workgroups(dimensions: &[u32; 2], local_size: &[u32; 2]) -> (r: [u32; 3])
    requires
        local_size[0] > 0,
        local_size[1] > 0,
    ensures
        r[0] == div_ceil(dimensions[0] as int, local_size[0] as int),
        r[1] == div_ceil(dimensions[1] as int, local_size[1] as int),
        r[2] == 1,
{
    let x = div_ceil_u32(dimensions[0], local_size[0]);
    let y = div_ceil_u32(dimensions[1], local_size[1]);
    [x, y, 1]
}

fn div_ceil_u32(a: u32, b: u32) -> (r: u32)
    requires
        b > 0,
    ensures
        r == div_ceil(a as int, b as int),
{
    proof {
        assert((a as int + b as int - 1) / (b as int) <= a as int) by (nonlinear_arith)
            requires a >= 0 && b >= 1;
        assert((a as int + b as int - 1) / (b as int) >= 0) by (nonlinear_arith)
            requires a >= 0 && b >= 1;
    }
    (((a as u64) + (b as u64) - 1) / (b as u64)) as u32
}

/// Why and where a pipeline build was aborted: the failing stage's position
/// in the chain (0 is the input stage, the intermediate stages follow in
/// order, the last position is the output stage) and the error it reported.
#[derive(Clone, Copy, Debug, PartialEq, Eq, Structural)]
pub struct PipelineError {
    pub stage_index: usize,
    pub error: BuildError,
}

/// The state a fold over the intermediate stages threads along: the grown
/// registry, the data-flow token handed to the next stage, and the commands
/// recorded so far.
pub struct ChainFold {
    pub ctx: VkContextView,
    pub io: Io,
    pub cmds: Seq<GpuCommand>,
}

/// All intermediate stages from position `i` on accept their upstream token
/// and can allocate.
pub open spec fn elements_ok(ctx: VkContextView, io: Io, stages: Seq<Stage>, i: int) -> bool
    decreases stages.len() - i,
{
    if i < 0 || i >= stages.len() {
        true
    } else {
        let st = stages[i];
        &&& st.accepts(io)
        &&& st.alloc_ok(ctx, io)
        &&& elements_ok(st.step(ctx, io).ctx, st.step(ctx, io).output_io, stages, i + 1)
    }
}

/// The combined effect of the intermediate stages from position `i` on.
pub open spec fn elements_fold(ctx: VkContextView, io: Io, stages: Seq<Stage>, i: int) -> ChainFold
    decreases stages.len() - i,
{
    if i < 0 || i >= stages.len() {
        ChainFold { ctx, io, cmds: Seq::empty() }
    } else {
        let s = stages[i].step(ctx, io);
        let rest = elements_fold(s.ctx, s.output_io, stages, i + 1);
        ChainFold { ctx: rest.ctx, io: rest.io, cmds: s.cmds + rest.cmds }
    }
}

/// Position (relative to the whole chain) and kind of the first failure
/// among the intermediate stages from position `i` on.
pub open spec fn elements_first_err(ctx: VkContextView, io: Io, stages: Seq<Stage>, i: int) -> (
    int,
    BuildError,
)
    decreases stages.len() - i,
{
    if i < 0 || i >= stages.len() {
        arbitrary()
    } else {
        let st = stages[i];
        if !st.accepts(io) {
            (i, BuildError::WrongInputKind)
        } else if !st.alloc_ok(ctx, io) {
            (i, BuildError::ResourceAllocation)
        } else {
            elements_first_err(st.step(ctx, io).ctx, st.step(ctx, io).output_io, stages, i + 1)
        }
    }
}

/// The three parts a full pipeline build folds together: the input stage's
/// step, the intermediate stages' combined effect, and the output stage's
/// step.
pub struct PipelineParts {
    pub input_step: BuildStep,
    pub mid: ChainFold,
    pub output_step: BuildStep,
}

pub open spec fn pipeline_parts<I: PipeInput + ProcessingElement, O: PipeOutput + ProcessingElement>(
    ctx: VkContextView,
    input: &I,
    stages: Seq<Stage>,
    output: &O,
) -> PipelineParts {
    let s0 = input.step(ctx, Io::Empty);
    let mid = elements_fold(s0.ctx, s0.output_io, stages, 0);
    let so = output.step(mid.ctx, mid.io);
    PipelineParts { input_step: s0, mid, output_step: so }
}

/// Every stage of the pipeline, bracketing input and output included,
/// accepts what its predecessor emits and can allocate its resources.
pub open spec fn pipeline_ok<I: PipeInput + ProcessingElement, O: PipeOutput + ProcessingElement>(
    ctx: VkContextView,
    input: &I,
    stages: Seq<Stage>,
    output: &O,
) -> bool {
    let p = pipeline_parts(ctx, input, stages, output);
    &&& input.accepts(Io::Empty)
    &&& input.alloc_ok(ctx, Io::Empty)
    &&& elements_ok(p.input_step.ctx, p.input_step.output_io, stages, 0)
    &&& output.accepts(p.mid.io)
    &&& output.alloc_ok(p.mid.ctx, p.mid.io)
}

/// Position and kind of the first failure in the whole chain; meaningful
/// when the pipeline is not ok.
pub open spec fn pipeline_first_err<
    I: PipeInput + ProcessingElement,
    O: PipeOutput + ProcessingElement,
>(ctx: VkContextView, input: &I, stages: Seq<Stage>, output: &O) -> (int, BuildError) {
    let p = pipeline_parts(ctx, input, stages, output);
    if !input.accepts(Io::Empty) {
        (0int, BuildError::WrongInputKind)
    } else if !input.alloc_ok(ctx, Io::Empty) {
        (0int, BuildError::ResourceAllocation)
    } else if !elements_ok(p.input_step.ctx, p.input_step.output_io, stages, 0) {
        let e = elements_first_err(p.input_step.ctx, p.input_step.output_io, stages, 0);
        (e.0 + 1, e.1)
    } else if !output.accepts(p.mid.io) {
        (stages.len() as int + 1, BuildError::WrongInputKind)
    } else {
        (stages.len() as int + 1, BuildError::ResourceAllocation)
    }
}

/// The command sequence of a successful build: input stage, intermediate
/// stages in order, output stage.
pub open spec fn pipeline_cmds<I: PipeInput + ProcessingElement, O: PipeOutput + ProcessingElement>(
    ctx: VkContextView,
    input: &I,
    stages: Seq<Stage>,
    output: &O,
) -> Seq<GpuCommand> {
    let p = pipeline_parts(ctx, input, stages, output);
    p.input_step.cmds + p.mid.cmds + p.output_step.cmds
}

/// Turn an input stage, an ordered list of intermediate stages and an output
/// stage into one finalised command sequence, plus the input and output
/// stages' fragments for later upload and download access.
///
/// On success the sequence, the fragments and the grown registry are exactly
/// the pipeline fold from the starting registry; every recorded command
/// touches only resources allocated by this build, so rebuilding never
/// disturbs an older pipeline's resources. A failure reports the first
/// failing stage and leaves no recorded commands behind.
pub fn cv_pipeline_sequential<I: PipeInput + ProcessingElement, O: PipeOutput + ProcessingElement>(
    ctx: &mut VkContext,
    input: &I,
    elements: &Vec<Stage>,
    output: &O,
) -> (r: Result<(CommandBuffer, IoFragment, IoFragment), PipelineError>)
    requires
        elements@.len() < usize::MAX,
    ensures
        final(ctx)@.extends(old(ctx)@),
        match r {
            Ok((cb, input_io, output_io)) => {
                let p = pipeline_parts(old(ctx)@, input, elements@, output);
                &&& pipeline_ok(old(ctx)@, input, elements@, output)
                &&& final(ctx)@ == p.output_step.ctx
                &&& cb@ == pipeline_cmds(old(ctx)@, input, elements@, output)
                &&& input_io.input == p.input_step.input_io
                &&& input_io.output == p.input_step.output_io
                &&& input_io.label@ == input.label_spec()
                &&& output_io.input == p.output_step.input_io
                &&& output_io.output == p.output_step.output_io
                &&& output_io.label@ == output.label_spec()
                &&& input_io.valid(final(ctx)@)
                &&& output_io.valid(final(ctx)@)
                &&& crate::processing_elements::io_fresh_or_from(
                    input_io.input,
                    old(ctx)@,
                    Io::Empty,
                )
                &&& crate::processing_elements::io_fresh_or_from(
                    output_io.output,
                    old(ctx)@,
                    Io::Empty,
                )
                &&& forall|j: int|
                    0 <= j < cb@.len() ==> (#[trigger] cb@[j]).valid(final(ctx)@)
                        && cb@[j].refs_fresh_or_input(old(ctx)@, Io::Empty)
            },
            Err(pe) => {
                &&& !pipeline_ok(old(ctx)@, input, elements@, output)
                &&& pe.stage_index == pipeline_first_err(old(ctx)@, input, elements@, output).0
                &&& pe.error == pipeline_first_err(old(ctx)@, input, elements@, output).1
            },
        },
{
    let ghost ctx0 = ctx@;
    let mut builder = CommandBufferBuilder::new();
    let dummy = IoFragment::none();
    let input_io = match input.build(ctx, &mut builder, &dummy) {
        Ok(f) => f,
        Err(e) => {
            return Err(PipelineError { stage_index: 0, error: e });
        },
    };
    let ghost s0 = input.step(ctx0, Io::Empty);
    let ghost full = elements_fold(s0.ctx, s0.output_io, elements@, 0);
    let mut cur = input_io.duplicate();
    let mut i: usize = 0;
    while i < elements.len()
        invariant
            i <= elements.len(),
            ctx0 == old(ctx)@,
            input_io.valid(ctx@),
            s0 == input.step(ctx0, Io::Empty),
            full == elements_fold(s0.ctx, s0.output_io, elements@, 0),
            input.accepts(Io::Empty),
            input.alloc_ok(ctx0, Io::Empty),
            cur.valid(ctx@),
            ctx@.extends(ctx0),
            ctx0.images.len() <= ctx@.images.len(),
            ctx0.buffers.len() <= ctx@.buffers.len(),
            crate::processing_elements::io_fresh_or_from(cur.output, ctx0, Io::Empty),
            elements_ok(s0.ctx, s0.output_io, elements@, 0) == elements_ok(
                ctx@,
                cur.output,
                elements@,
                i as int,
            ),
            !elements_ok(s0.ctx, s0.output_io, elements@, 0) ==> elements_first_err(
                s0.ctx,
                s0.output_io,
                elements@,
                0,
            ) == elements_first_err(ctx@, cur.output, elements@, i as int),
            full.ctx == elements_fold(ctx@, cur.output, elements@, i as int).ctx,
            full.io == elements_fold(ctx@, cur.output, elements@, i as int).io,
            s0.cmds + full.cmds == builder.commands@ + elements_fold(
                ctx@,
                cur.output,
                elements@,
                i as int,
            ).cmds,
            forall|j: int|
                0 <= j < builder.commands@.len() ==> (#[trigger] builder.commands@[j]).valid(ctx@)
                    && builder.commands@[j].refs_fresh_or_input(ctx0, Io::Empty),
        decreases elements.len() - i,
    {
        let ghost ctx_before = ctx@;
        let ghost cmds_before = builder.commands@;
        let ghost rem = elements_fold(ctx_before, cur.output, elements@, i as int);
        let pe = &elements[i];
        let next = match pe.build(ctx, &mut builder, &cur) {
            Ok(f) => f,
            Err(e) => {
                proof {
                    lemma_extends_transitive(ctx@, ctx_before, ctx0);
                    assert(!elements_ok(ctx_before, cur.output, elements@, i as int));
                    assert(elements_first_err(ctx_before, cur.output, elements@, i as int)
                        == (i as int, e));
                    assert(!pipeline_ok(ctx0, input, elements@, output));
                    assert(pipeline_first_err(ctx0, input, elements@, output) == (
                        i as int + 1,
                        e,
                    ));
                }
                return Err(PipelineError { stage_index: i + 1, error: e });
            },
        };
        proof {
            let s = pe.step(ctx_before, cur.output);
            lemma_extends_transitive(ctx@, ctx_before, ctx0);
            lemma_extends_preserves_validity(ctx@, ctx_before);
            assert(elements_fold(ctx_before, cur.output, elements@, i as int).cmds == s.cmds
                + elements_fold(ctx@, next.output, elements@, i + 1).cmds);
            assert(cmds_before + (s.cmds + elements_fold(ctx@, next.output, elements@, i + 1).cmds)
                =~= (cmds_before + s.cmds) + elements_fold(ctx@, next.output, elements@, i + 1).cmds);
            assert(forall|j: int|
                0 <= j < builder.commands@.len() ==> (#[trigger] builder.commands@[j]).valid(ctx@)
                    && builder.commands@[j].refs_fresh_or_input(ctx0, Io::Empty)) by {
                assert(forall|j: int|
                    0 <= j < cmds_before.len() ==> (#[trigger] builder.commands@[j])
                        == cmds_before[j]);
                assert(forall|j: int|
                    cmds_before.len() <= j < builder.commands@.len() ==> (
                    #[trigger] builder.commands@[j]) == s.cmds[j - cmds_before.len()]
                        && s.cmds[j - cmds_before.len()].valid(ctx@) && s.cmds[j
                        - cmds_before.len()].refs_fresh_or_input(ctx_before, cur.output));
            }
        }
        cur = next;
        i = i + 1;
    }
    let ghost ctx_exit = ctx@;
    let output_io = match output.build(ctx, &mut builder, &cur) {
        Ok(f) => f,
        Err(e) => {
            proof {
                lemma_extends_transitive(ctx@, ctx_exit, ctx0);
                assert(elements_fold(ctx_exit, cur.output, elements@, elements@.len() as int).ctx
                    == ctx_exit);
                assert(full.ctx == ctx_exit);
                assert(full.io == cur.output);
                assert(!pipeline_ok(ctx0, input, elements@, output));
                assert(pipeline_first_err(ctx0, input, elements@, output) == (
                    elements@.len() as int + 1,
                    e,
                ));
            }
            return Err(PipelineError { stage_index: elements.len() + 1, error: e });
        },
    };
    proof {
        let ghost so = output.step(full.ctx, full.io);
        assert(elements_fold(ctx_exit, cur.output, elements@, elements@.len() as int).ctx
            == ctx_exit);
        assert(full.ctx == ctx_exit);
        assert(full.io == cur.output);
        lemma_extends_transitive(ctx@, full.ctx, ctx0);
        lemma_extends_preserves_validity(ctx@, full.ctx);
        lemma_extends_preserves_validity(ctx@, ctx_exit);
        assert((s0.cmds + full.cmds) + so.cmds =~= s0.cmds + full.cmds + so.cmds);
        assert(builder.commands@ =~= pipeline_cmds(ctx0, input, elements@, output));
        assert(forall|j: int|
            0 <= j < builder.commands@.len() ==> (#[trigger] builder.commands@[j]).valid(ctx@)
                && builder.commands@[j].refs_fresh_or_input(ctx0, Io::Empty)) by {
            assert(forall|j: int|
                (s0.cmds + full.cmds).len() <= j < builder.commands@.len() ==> (
                #[trigger] builder.commands@[j]) == so.cmds[j - (s0.cmds + full.cmds).len()]
                    && so.cmds[j - (s0.cmds + full.cmds).len()].valid(ctx@) && so.cmds[j - (s0.cmds
                    + full.cmds).len()].refs_fresh_or_input(full.ctx, full.io));
        }
        lemma_extends_preserves_validity(ctx@, ctx0);
    }
    let cb = builder.build();
    Ok((cb, input_io, output_io))
}

/// The tokens emitted along the chain: one per intermediate stage from
/// position `i` on.
pub open spec fn chain_ios(ctx: VkContextView, io: Io, stages: Seq<Stage>, i: int) -> Seq<Io>
    decreases stages.len() - i,
{
    if i < 0 || i >= stages.len() {
        Seq::empty()
    } else {
        let s = stages[i].step(ctx, io);
        seq![s.output_io] + chain_ios(s.ctx, s.output_io, stages, i + 1)
    }
}

/// Every token from position `i` on can be tapped: it is an image whose
/// readback buffer the allocator can satisfy.
pub open spec fn taps_ok(ctx: VkContextView, ios: Seq<Io>, i: int) -> bool
    decreases ios.len() - i,
{
    if i < 0 || i >= ios.len() {
        true
    } else {
        let o = crate::processing_elements::output::Output {  };
        &&& o.accepts(ios[i])
        &&& o.alloc_ok(ctx, ios[i])
        &&& taps_ok(o.step(ctx, ios[i]).ctx, ios, i + 1)
    }
}

/// The combined effect of tapping every token from position `i` on: the
/// grown registry, the readback tokens, and the copy commands.
pub open spec fn taps_fold(ctx: VkContextView, ios: Seq<Io>, i: int) -> (
    VkContextView,
    Seq<Io>,
    Seq<GpuCommand>,
)
    decreases ios.len() - i,
{
    if i < 0 || i >= ios.len() {
        (ctx, Seq::empty(), Seq::empty())
    } else {
        let o = crate::processing_elements::output::Output {  };
        let s = o.step(ctx, ios[i]);
        let rest = taps_fold(s.ctx, ios, i + 1);
        (rest.0, seq![s.output_io] + rest.1, s.cmds + rest.2)
    }
}

/// Position and kind of the first failing tap; meaningful when the taps are
/// not ok.
pub open spec fn taps_first_err(ctx: VkContextView, ios: Seq<Io>, i: int) -> (int, BuildError)
    decreases ios.len() - i,
{
    if i < 0 || i >= ios.len() {
        arbitrary()
    } else {
        let o = crate::processing_elements::output::Output {  };
        if !o.accepts(ios[i]) {
            (i, BuildError::WrongInputKind)
        } else if !o.alloc_ok(ctx, ios[i]) {
            (i, BuildError::ResourceAllocation)
        } else {
            taps_first_err(o.step(ctx, ios[i]).ctx, ios, i + 1)
        }
    }
}

/// The effect of rebuilding each intermediate stage from position `i` on
/// into a standalone sequence of its own: the grown registry and one command
/// sequence per stage.
pub open spec fn indiv_fold(ctx: VkContextView, io: Io, stages: Seq<Stage>, i: int) -> (
    VkContextView,
    Seq<Seq<GpuCommand>>,
)
    decreases stages.len() - i,
{
    if i < 0 || i >= stages.len() {
        (ctx, Seq::empty())
    } else {
        let s = stages[i].step(ctx, io);
        let rest = indiv_fold(s.ctx, s.output_io, stages, i + 1);
        (rest.0, seq![s.cmds] + rest.1)
    }
}

/// The tokens a debug build taps: the input stage's output followed by every
/// intermediate stage's output.
pub open spec fn debug_tap_list<I: PipeInput + ProcessingElement>(
    ctx: VkContextView,
    input: &I,
    stages: Seq<Stage>,
) -> Seq<Io> {
    let s0 = input.step(ctx, Io::Empty);
    seq![s0.output_io] + chain_ios(s0.ctx, s0.output_io, stages, 0)
}

/// Every phase of a debug build succeeds: the pipeline itself, the taps on
/// every token, and the standalone rebuild of every intermediate stage.
pub open spec fn debug_ok<I: PipeInput + ProcessingElement, O: PipeOutput + ProcessingElement>(
    ctx: VkContextView,
    input: &I,
    stages: Seq<Stage>,
    output: &O,
) -> bool {
    let p = pipeline_parts(ctx, input, stages, output);
    let tl = debug_tap_list(ctx, input, stages);
    &&& pipeline_ok(ctx, input, stages, output)
    &&& taps_ok(p.output_step.ctx, tl, 0)
    &&& elements_ok(taps_fold(p.output_step.ctx, tl, 0).0, p.input_step.output_io, stages, 0)
}

/// Position and kind of the first failure of a debug build: positions in the
/// main chain first, then tapped-token positions, then `1 +` the position of
/// an intermediate stage whose standalone rebuild failed.
pub open spec fn debug_first_err<I: PipeInput + ProcessingElement, O: PipeOutput + ProcessingElement>(
    ctx: VkContextView,
    input: &I,
    stages: Seq<Stage>,
    output: &O,
) -> (int, BuildError) {
    let p = pipeline_parts(ctx, input, stages, output);
    let tl = debug_tap_list(ctx, input, stages);
    if !pipeline_ok(ctx, input, stages, output) {
        pipeline_first_err(ctx, input, stages, output)
    } else if !taps_ok(p.output_step.ctx, tl, 0) {
        taps_first_err(p.output_step.ctx, tl, 0)
    } else {
        let e = elements_first_err(
            taps_fold(p.output_step.ctx, tl, 0).0,
            p.input_step.output_io,
            stages,
            0,
        );
        (e.0 + 1, e.1)
    }
}

/// A pipeline built for profiling and visual inspection: the combined
/// sequence (the normal fast path, followed only by the tap readbacks), one
/// standalone sequence per intermediate stage for isolated timing, and one
/// readback fragment per tapped token.
pub struct DebugPipeline {
    pub cb: CommandBuffer,
    pub input: IoFragment,
    pub output: IoFragment,
    pub debug_outputs: Vec<IoFragment>,
    pub individual_cbs: Vec<CommandBuffer>,
    pub stage_labels: Vec<String>,
}

/// Each tap registers exactly one buffer and no image.
pub proof fn lemma_taps_count(ctx: VkContextView, ios: Seq<Io>, i: int)
    requires
        0 <= i <= ios.len(),
        taps_ok(ctx, ios, i),
    ensures
        taps_fold(ctx, ios, i).0.buffers.len() == ctx.buffers.len() + ios.len() - i,
        taps_fold(ctx, ios, i).0.images.len() == ctx.images.len(),
    decreases ios.len() - i,
{
    if 0 <= i < ios.len() {
        let o = crate::processing_elements::output::Output {  };
        let s = o.step(ctx, ios[i]);
        lemma_taps_count(s.ctx, ios, i + 1);
    }
}

/// Taps only read: every command a tap fold appends copies an image into a
/// buffer allocated by the fold itself, so executing the taps after the main
/// sequence cannot change any image or buffer the main sequence wrote.
pub proof fn lemma_taps_props(ctx: VkContextView, ios: Seq<Io>, i: int, base: VkContextView)
    requires
        taps_ok(ctx, ios, i),
        0 <= i <= ios.len(),
        base.buffers.len() <= ctx.buffers.len(),
        ctx.buffers.len() + ios.len() - i <= usize::MAX,
    ensures
        ({
            let tf = taps_fold(ctx, ios, i);
            &&& tf.0.extends(ctx)
            &&& forall|j: int|
                0 <= j < tf.2.len() ==> ((#[trigger] tf.2[j]) matches
                GpuCommand::CopyImageToBuffer { src, dst } && dst.id >= base.buffers.len())
            &&& forall|k: int|
                0 <= k < tf.1.len() ==> ((#[trigger] tf.1[k]) matches Io::Buffer(b) && b.id
                    >= base.buffers.len())
        }),
    decreases ios.len() - i,
{
    if 0 <= i < ios.len() {
        let o = crate::processing_elements::output::Output {  };
        let s = o.step(ctx, ios[i]);
        let ctx1 = s.ctx;
        assert(ctx1.extends(ctx));
        lemma_taps_props(ctx1, ios, i + 1, base);
        let rest = taps_fold(ctx1, ios, i + 1);
        lemma_extends_transitive(rest.0, ctx1, ctx);
        let tf = taps_fold(ctx, ios, i);
        assert(tf.2[0] matches GpuCommand::CopyImageToBuffer { src, dst } && dst.id
            >= base.buffers.len());
        assert(forall|j: int| 1 <= j < tf.2.len() ==> (#[trigger] tf.2[j]) == rest.2[j - 1]);
        assert(forall|k: int| 1 <= k < tf.1.len() ==> (#[trigger] tf.1[k]) == rest.1[k - 1]);
    }
}

/// The chain emits one token per intermediate stage.
pub proof fn lemma_chain_ios_len(ctx: VkContextView, io: Io, stages: Seq<Stage>, i: int)
    requires
        0 <= i <= stages.len(),
    ensures
        chain_ios(ctx, io, stages, i).len() == stages.len() - i,
    decreases stages.len() - i,
{
    if i < stages.len() {
        let s = stages[i].step(ctx, io);
        lemma_chain_ios_len(s.ctx, s.output_io, stages, i + 1);
    }
}

/// Debug equivalence: the combined sequence of a debug build is the
/// sequential build's sequence followed only by readback copies whose
/// destination buffers the taps allocated themselves. Submitted after the
/// main commands, those copies change no image and no buffer of the main
/// pipeline, so the combined sequence leaves identical final output bytes to
/// the sequential sequence built from the same starting state.
pub proof fn lemma_debug_combined_equals_sequential<
    I: PipeInput + ProcessingElement,
    O: PipeOutput + ProcessingElement,
>(ctx: VkContextView, input: &I, stages: Seq<Stage>, output: &O)
    requires
        debug_ok(ctx, input, stages, output),
        pipeline_parts(ctx, input, stages, output).output_step.ctx.buffers.len() + stages.len()
            + 1 <= usize::MAX,
    ensures
        ({
            let p = pipeline_parts(ctx, input, stages, output);
            let tl = debug_tap_list(ctx, input, stages);
            let tf = taps_fold(p.output_step.ctx, tl, 0);
            &&& tl.len() == stages.len() + 1
            &&& forall|j: int|
                0 <= j < tf.2.len() ==> ((#[trigger] tf.2[j]) matches
                GpuCommand::CopyImageToBuffer { src, dst } && dst.id
                    >= p.output_step.ctx.buffers.len())
        }),
{
    let p = pipeline_parts(ctx, input, stages, output);
    let tl = debug_tap_list(ctx, input, stages);
    let s0 = input.step(ctx, Io::Empty);
    lemma_chain_ios_len(s0.ctx, s0.output_io, stages, 0);
    lemma_taps_props(p.output_step.ctx, tl, 0, p.output_step.ctx);
}

/// Rebuild isolation: a command whose resources are all fresh relative to
/// `prev` names no image and no buffer that already existed in `prev`.
/// Together with the builders' guarantees that every recorded command is
/// fresh relative to the starting registry and that the registry only grows,
/// reconfiguring a pipeline can neither corrupt nor observe the resources an
/// older pipeline still holds.
pub proof fn lemma_rebuild_isolation(prev: VkContextView, cmd: GpuCommand)
    requires
        cmd.refs_fresh_or_input(prev, Io::Empty),
    ensures
        match cmd {
            GpuCommand::CopyBufferToImage { src, dst } => src.id >= prev.buffers.len() && dst.id
                >= prev.images.len(),
            GpuCommand::CopyImageToBuffer { src, dst } => src.id >= prev.images.len() && dst.id
                >= prev.buffers.len(),
            GpuCommand::Dispatch { input, output, .. } => input.id >= prev.images.len()
                && output.id >= prev.images.len(),
        },
{
}

/// As `cv_pipeline_sequential`, and additionally: a generic tap output after
/// every stage, so each intermediate image can be read back for inspection,
/// and one standalone command sequence per stage, so each stage can be
/// submitted and timed in isolation. The combined sequence is the normal
/// pipeline sequence followed only by the tap readbacks.
pub fn cv_pipeline_sequential_debug<
    I: PipeInput + ProcessingElement,
    O: PipeOutput + ProcessingElement,
>(ctx: &mut VkContext, input: &I, elements: &Vec<Stage>, output: &O) -> (r: Result<
    DebugPipeline,
    PipelineError,
>)
    requires
        elements@.len() < usize::MAX - 1,
    ensures
        final(ctx)@.extends(old(ctx)@),
        match r {
            Ok(dbg) => {
                let p = pipeline_parts(old(ctx)@, input, elements@, output);
                let tl = debug_tap_list(old(ctx)@, input, elements@);
                let tf = taps_fold(p.output_step.ctx, tl, 0);
                let ind = indiv_fold(tf.0, p.input_step.output_io, elements@, 0);
                &&& debug_ok(old(ctx)@, input, elements@, output)
                &&& final(ctx)@ == ind.0
                &&& dbg.cb@ == pipeline_cmds(old(ctx)@, input, elements@, output) + tf.2
                &&& dbg.input.input == p.input_step.input_io
                &&& dbg.input.output == p.input_step.output_io
                &&& dbg.input.label@ == input.label_spec()
                &&& dbg.output.input == p.output_step.input_io
                &&& dbg.output.output == p.output_step.output_io
                &&& dbg.output.label@ == output.label_spec()
                &&& dbg.debug_outputs@.len() == tl.len()
                &&& forall|k: int|
                    0 <= k < tl.len() ==> (#[trigger] dbg.debug_outputs@[k]).input == tl[k]
                        && dbg.debug_outputs@[k].output == tf.1[k]
                &&& dbg.individual_cbs@.len() == elements@.len()
                &&& forall|k: int|
                    0 <= k < elements@.len() ==> (#[trigger] dbg.individual_cbs@[k])@ == ind.1[k]
                &&& dbg.stage_labels@.len() == elements@.len()
                &&& forall|j: int|
                    0 <= j < tf.2.len() ==> ((#[trigger] tf.2[j]) matches
                    GpuCommand::CopyImageToBuffer { src, dst } && dst.id
                        >= p.output_step.ctx.buffers.len())
                &&& forall|j: int|
                    0 <= j < dbg.cb@.len() ==> (#[trigger] dbg.cb@[j]).refs_fresh_or_input(
                        old(ctx)@,
                        Io::Empty,
                    )
            },
            Err(pe) => {
                &&& !debug_ok(old(ctx)@, input, elements@, output)
                &&& pe.stage_index == debug_first_err(old(ctx)@, input, elements@, output).0
                &&& pe.error == debug_first_err(old(ctx)@, input, elements@, output).1
            },
        },
{
    let ghost ctx0 = ctx@;
    let mut builder = CommandBufferBuilder::new();
    let dummy = IoFragment::none();
    let input_io = match input.build(ctx, &mut builder, &dummy) {
        Ok(f) => f,
        Err(e) => {
            return Err(PipelineError { stage_index: 0, error: e });
        },
    };
    let ghost s0 = input.step(ctx0, Io::Empty);
    let ghost full = elements_fold(s0.ctx, s0.output_io, elements@, 0);
    let ghost tl = debug_tap_list(ctx0, input, elements@);
    let mut io_fragments: Vec<IoFragment> = Vec::new();
    io_fragments.push(input_io.duplicate());
    let mut cur = input_io.duplicate();
    let mut i: usize = 0;
    while i < elements.len()
        invariant
            i <= elements.len(),
            ctx0 == old(ctx)@,
            input_io.valid(ctx@),
            s0 == input.step(ctx0, Io::Empty),
            full == elements_fold(s0.ctx, s0.output_io, elements@, 0),
            tl == debug_tap_list(ctx0, input, elements@),
            input.accepts(Io::Empty),
            input.alloc_ok(ctx0, Io::Empty),
            cur.valid(ctx@),
            ctx@.extends(ctx0),
            ctx0.images.len() <= ctx@.images.len(),
            ctx0.buffers.len() <= ctx@.buffers.len(),
            crate::processing_elements::io_fresh_or_from(cur.output, ctx0, Io::Empty),
            elements_ok(s0.ctx, s0.output_io, elements@, 0) == elements_ok(
                ctx@,
                cur.output,
                elements@,
                i as int,
            ),
            !elements_ok(s0.ctx, s0.output_io, elements@, 0) ==> elements_first_err(
                s0.ctx,
                s0.output_io,
                elements@,
                0,
            ) == elements_first_err(ctx@, cur.output, elements@, i as int),
            full.ctx == elements_fold(ctx@, cur.output, elements@, i as int).ctx,
            full.io == elements_fold(ctx@, cur.output, elements@, i as int).io,
            s0.cmds + full.cmds == builder.commands@ + elements_fold(
                ctx@,
                cur.output,
                elements@,
                i as int,
            ).cmds,
            io_fragments@.len() == i + 1,
            io_fragments@.map_values(|f: IoFragment| f.output) + chain_ios(
                ctx@,
                cur.output,
                elements@,
                i as int,
            ) == tl,
            forall|k: int|
                0 <= k <= i ==> (#[trigger] io_fragments@[k]).valid(ctx@)
                    && crate::processing_elements::io_fresh_or_from(
                    io_fragments@[k].output,
                    ctx0,
                    Io::Empty,
                ),
            forall|j: int|
                0 <= j < builder.commands@.len() ==> (#[trigger] builder.commands@[j]).valid(ctx@)
                    && builder.commands@[j].refs_fresh_or_input(ctx0, Io::Empty),
        decreases elements.len() - i,
    {
        let ghost ctx_before = ctx@;
        let ghost cmds_before = builder.commands@;
        let pe = &elements[i];
        let next = match pe.build(ctx, &mut builder, &cur) {
            Ok(f) => f,
            Err(e) => {
                proof {
                    lemma_extends_transitive(ctx@, ctx_before, ctx0);
                    assert(!elements_ok(ctx_before, cur.output, elements@, i as int));
                    assert(elements_first_err(ctx_before, cur.output, elements@, i as int) == (
                        i as int,
                        e,
                    ));
                    assert(!pipeline_ok(ctx0, input, elements@, output));
                    assert(pipeline_first_err(ctx0, input, elements@, output) == (i as int + 1, e));
                }
                return Err(PipelineError { stage_index: i + 1, error: e });
            },
        };
        io_fragments.push(next.duplicate());
        proof {
            let s = pe.step(ctx_before, cur.output);
            lemma_extends_transitive(ctx@, ctx_before, ctx0);
            lemma_extends_preserves_validity(ctx@, ctx_before);
            assert(elements_fold(ctx_before, cur.output, elements@, i as int).cmds == s.cmds
                + elements_fold(ctx@, next.output, elements@, i + 1).cmds);
            assert(cmds_before + (s.cmds + elements_fold(ctx@, next.output, elements@, i + 1).cmds)
                =~= (cmds_before + s.cmds) + elements_fold(
                ctx@,
                next.output,
                elements@,
                i + 1,
            ).cmds);
            assert(chain_ios(ctx_before, cur.output, elements@, i as int) == seq![s.output_io]
                + chain_ios(ctx@, next.output, elements@, i + 1));
            assert(io_fragments@.map_values(|f: IoFragment| f.output) + chain_ios(
                ctx@,
                next.output,
                elements@,
                i + 1,
            ) =~= tl);
            assert(forall|j: int|
                0 <= j < builder.commands@.len() ==> (#[trigger] builder.commands@[j]).valid(ctx@)
                    && builder.commands@[j].refs_fresh_or_input(ctx0, Io::Empty)) by {
                assert(forall|j: int|
                    0 <= j < cmds_before.len() ==> (#[trigger] builder.commands@[j])
                        == cmds_before[j]);
                assert(forall|j: int|
                    cmds_before.len() <= j < builder.commands@.len() ==> (
                    #[trigger] builder.commands@[j]) == s.cmds[j - cmds_before.len()]
                        && s.cmds[j - cmds_before.len()].valid(ctx@) && s.cmds[j
                        - cmds_before.len()].refs_fresh_or_input(ctx_before, cur.output));
            }
        }
        cur = next;
        i = i + 1;
    }
    let ghost ctx_exit = ctx@;
    let output_io = match output.build(ctx, &mut builder, &cur) {
        Ok(f) => f,
        Err(e) => {
            proof {
                lemma_extends_transitive(ctx@, ctx_exit, ctx0);
                assert(elements_fold(ctx_exit, cur.output, elements@, elements@.len() as int).ctx
                    == ctx_exit);
                assert(full.ctx == ctx_exit);
                assert(full.io == cur.output);
                assert(!pipeline_ok(ctx0, input, elements@, output));
                assert(pipeline_first_err(ctx0, input, elements@, output) == (
                    elements@.len() as int + 1,
                    e,
                ));
            }
            return Err(PipelineError { stage_index: elements.len() + 1, error: e });
        },
    };
    proof {
        assert(elements_fold(ctx_exit, cur.output, elements@, elements@.len() as int).ctx
            == ctx_exit);
        assert(full.ctx == ctx_exit);
        assert(full.io == cur.output);
        assert(chain_ios(ctx_exit, cur.output, elements@, elements@.len() as int)
            =~= Seq::<Io>::empty());
        assert(io_fragments@.map_values(|f: IoFragment| f.output) + Seq::<Io>::empty() =~= tl);
        assert(io_fragments@.map_values(|f: IoFragment| f.output) =~= tl);
        lemma_extends_transitive(ctx@, ctx_exit, ctx0);
        lemma_extends_preserves_validity(ctx@, ctx_exit);
        assert((s0.cmds + full.cmds) + output.step(full.ctx, full.io).cmds =~= s0.cmds + full.cmds
            + output.step(full.ctx, full.io).cmds);
        assert(builder.commands@ =~= pipeline_cmds(ctx0, input, elements@, output));
        assert(pipeline_ok(ctx0, input, elements@, output));
        assert(ctx@ == pipeline_parts(ctx0, input, elements@, output).output_step.ctx);
    }
    let ghost ctx_taps = ctx@;
    proof {
        assert(forall|k: int|
            0 <= k < tl.len() ==> (#[trigger] tl[k]) == io_fragments@[k].output);
        assert(forall|k: int| 0 <= k < tl.len() ==> (#[trigger] tl[k]).valid(ctx_taps));
    }
    let ghost main_cmds = builder.commands@;
    let ghost tf = taps_fold(ctx_taps, tl, 0);
    // tap every token so each intermediate image can be inspected
    let generic_output = crate::processing_elements::output::Output::new();
    let mut debug_outputs: Vec<IoFragment> = Vec::new();
    let mut j: usize = 0;
    while j < io_fragments.len()
        invariant
            j <= io_fragments.len(),
            ctx0 == old(ctx)@,
            ctx_taps.extends(ctx0),
            ctx0.buffers.len() <= ctx_taps.buffers.len(),
            ctx0.images.len() <= ctx_taps.images.len(),
            generic_output == (crate::processing_elements::output::Output {  }),
            io_fragments@.len() == tl.len(),
            io_fragments@.map_values(|f: IoFragment| f.output) == tl,
            tf == taps_fold(ctx_taps, tl, 0),
            s0 == input.step(ctx0, Io::Empty),
            tl == debug_tap_list(ctx0, input, elements@),
            pipeline_ok(ctx0, input, elements@, output),
            ctx_taps == pipeline_parts(ctx0, input, elements@, output).output_step.ctx,
            forall|k: int| 0 <= k < tl.len() ==> (#[trigger] tl[k]).valid(ctx_taps),
            input_io.valid(ctx@),
            output_io.valid(ctx@),
            ctx@.extends(ctx_taps),
            ctx@.extends(ctx0),
            ctx0.images.len() <= ctx@.images.len(),
            ctx0.buffers.len() <= ctx@.buffers.len(),
            forall|k: int|
                0 <= k < io_fragments@.len() ==> (#[trigger] io_fragments@[k]).valid(ctx@)
                    && crate::processing_elements::io_fresh_or_from(
                    io_fragments@[k].output,
                    ctx0,
                    Io::Empty,
                ),
            taps_ok(ctx_taps, tl, 0) == taps_ok(ctx@, tl, j as int),
            !taps_ok(ctx_taps, tl, 0) ==> taps_first_err(ctx_taps, tl, 0) == taps_first_err(
                ctx@,
                tl,
                j as int,
            ),
            tf.0 == taps_fold(ctx@, tl, j as int).0,
            debug_outputs@.len() == j,
            debug_outputs@.map_values(|f: IoFragment| f.output) + taps_fold(ctx@, tl, j as int).1
                == tf.1,
            forall|k: int|
                0 <= k < j ==> (#[trigger] debug_outputs@[k]).input == tl[k],
            main_cmds + tf.2 == builder.commands@ + taps_fold(ctx@, tl, j as int).2,
            forall|jj: int|
                0 <= jj < builder.commands@.len() ==> (#[trigger] builder.commands@[jj]).valid(ctx@)
                    && builder.commands@[jj].refs_fresh_or_input(ctx0, Io::Empty),
        decreases io_fragments.len() - j,
    {
        let ghost ctx_before = ctx@;
        let ghost cmds_before = builder.commands@;
        let frag = &io_fragments[j];
        let tap = match generic_output.build(ctx, &mut builder, frag) {
            Ok(f) => f,
            Err(e) => {
                proof {
                    lemma_extends_transitive(ctx@, ctx_before, ctx0);
                    assert(!taps_ok(ctx_before, tl, j as int));
                    assert(taps_first_err(ctx_before, tl, j as int) == (j as int, e));
                    assert(!debug_ok(ctx0, input, elements@, output));
                    assert(debug_first_err(ctx0, input, elements@, output) == (j as int, e));
                }
                return Err(PipelineError { stage_index: j, error: e });
            },
        };
        debug_outputs.push(tap);
        proof {
            let s = generic_output.step(ctx_before, tl[j as int]);
            lemma_extends_transitive(ctx@, ctx_before, ctx_taps);
            lemma_extends_transitive(ctx@, ctx_before, ctx0);
            lemma_extends_preserves_validity(ctx@, ctx_before);
            assert(taps_fold(ctx_before, tl, j as int).2 == s.cmds + taps_fold(
                ctx@,
                tl,
                j + 1,
            ).2);
            assert(cmds_before + (s.cmds + taps_fold(ctx@, tl, j + 1).2) =~= (cmds_before + s.cmds)
                + taps_fold(ctx@, tl, j + 1).2);
            assert(debug_outputs@.map_values(|f: IoFragment| f.output) + taps_fold(
                ctx@,
                tl,
                j + 1,
            ).1 =~= tf.1);
            assert(forall|jj: int|
                0 <= jj < builder.commands@.len() ==> (#[trigger] builder.commands@[jj]).valid(ctx@)
                    && builder.commands@[jj].refs_fresh_or_input(ctx0, Io::Empty)) by {
                assert(forall|jj: int|
                    0 <= jj < cmds_before.len() ==> (#[trigger] builder.commands@[jj])
                        == cmds_before[jj]);
                assert(forall|jj: int|
                    cmds_before.len() <= jj < builder.commands@.len() ==> (
                    #[trigger] builder.commands@[jj]) == s.cmds[jj - cmds_before.len()]
                        && s.cmds[jj - cmds_before.len()].valid(ctx@) && s.cmds[jj
                        - cmds_before.len()].refs_fresh_or_input(ctx_before, tl[j as int]));
            }
        }
        j = j + 1;
    }
    proof {
        assert(taps_fold(ctx@, tl, tl.len() as int).2 =~= Seq::<GpuCommand>::empty());
        assert(main_cmds + tf.2 =~= builder.commands@);
        assert(debug_outputs@.map_values(|f: IoFragment| f.output) + Seq::<Io>::empty()
            =~= debug_outputs@.map_values(|f: IoFragment| f.output));
        assert(taps_ok(ctx_taps, tl, 0));
        assert(taps_fold(ctx@, tl, tl.len() as int).0 == ctx@);
        assert(tf.0 == ctx@);
        lemma_taps_count(ctx_taps, tl, 0);
        assert(vstd::std_specs::vec::spec_vec_len(&ctx.buffers) == ctx@.buffers.len());
        lemma_taps_props(ctx_taps, tl, 0, ctx_taps);
    }
    // finalize the combined command buffer
    let cb = builder.build();
    let ghost ctx_ind = ctx@;
    proof {
        assert(ctx_ind == tf.0);
    }
    let ghost ind = indiv_fold(ctx_ind, s0.output_io, elements@, 0);
    // standalone per-stage sequences for isolated timing
    let mut individual_cbs: Vec<CommandBuffer> = Vec::new();
    let mut stage_labels: Vec<String> = Vec::new();
    let mut cur2 = input_io.duplicate();
    let mut i2: usize = 0;
    while i2 < elements.len()
        invariant
            i2 <= elements.len(),
            ctx0 == old(ctx)@,
            input_io.valid(ctx@),
            output_io.valid(ctx@),
            cur2.valid(ctx@),
            ctx@.extends(ctx0),
            s0 == input.step(ctx0, Io::Empty),
            tl == debug_tap_list(ctx0, input, elements@),
            pipeline_ok(ctx0, input, elements@, output),
            ctx_taps == pipeline_parts(ctx0, input, elements@, output).output_step.ctx,
            tf == taps_fold(ctx_taps, tl, 0),
            taps_ok(ctx_taps, tl, 0),
            ctx_ind == tf.0,
            ind == indiv_fold(ctx_ind, s0.output_io, elements@, 0),
            elements_ok(ctx_ind, s0.output_io, elements@, 0) == elements_ok(
                ctx@,
                cur2.output,
                elements@,
                i2 as int,
            ),
            !elements_ok(ctx_ind, s0.output_io, elements@, 0) ==> elements_first_err(
                ctx_ind,
                s0.output_io,
                elements@,
                0,
            ) == elements_first_err(ctx@, cur2.output, elements@, i2 as int),
            ind.0 == indiv_fold(ctx@, cur2.output, elements@, i2 as int).0,
            individual_cbs@.len() == i2,
            individual_cbs@.map_values(|c: CommandBuffer| c@) + indiv_fold(
                ctx@,
                cur2.output,
                elements@,
                i2 as int,
            ).1 == ind.1,
            stage_labels@.len() == i2,
        decreases elements.len() - i2,
    {
        let ghost ctx_before = ctx@;
        let mut b2 = CommandBufferBuilder::new();
        let pe = &elements[i2];
        let io = match pe.build(ctx, &mut b2, &cur2) {
            Ok(f) => f,
            Err(e) => {
                proof {
                    lemma_extends_transitive(ctx@, ctx_before, ctx0);
                    assert(!elements_ok(ctx_before, cur2.output, elements@, i2 as int));
                    assert(elements_first_err(ctx_before, cur2.output, elements@, i2 as int) == (
                        i2 as int,
                        e,
                    ));
                    assert(!debug_ok(ctx0, input, elements@, output));
                    assert(debug_first_err(ctx0, input, elements@, output) == (i2 as int + 1, e));
                }
                return Err(PipelineError { stage_index: i2 + 1, error: e });
            },
        };
        stage_labels.push(io.label.clone());
        individual_cbs.push(b2.build());
        proof {
            let s = pe.step(ctx_before, cur2.output);
            lemma_extends_transitive(ctx@, ctx_before, ctx0);
            lemma_extends_preserves_validity(ctx@, ctx_before);
            assert(indiv_fold(ctx_before, cur2.output, elements@, i2 as int).1 == seq![s.cmds]
                + indiv_fold(ctx@, io.output, elements@, i2 + 1).1);
            assert(Seq::<GpuCommand>::empty() + s.cmds =~= s.cmds);
            assert(individual_cbs@.map_values(|c: CommandBuffer| c@) + indiv_fold(
                ctx@,
                io.output,
                elements@,
                i2 + 1,
            ).1 =~= ind.1);
        }
        cur2 = io;
        i2 = i2 + 1;
    }
    proof {
        assert(indiv_fold(ctx@, cur2.output, elements@, elements@.len() as int).1
            =~= Seq::<Seq<GpuCommand>>::empty());
        assert(individual_cbs@.map_values(|c: CommandBuffer| c@) + Seq::<Seq<GpuCommand>>::empty()
            =~= individual_cbs@.map_values(|c: CommandBuffer| c@));
        assert(ind.0 == ctx@);
        assert(elements_ok(ctx_ind, s0.output_io, elements@, 0));
        assert(debug_ok(ctx0, input, elements@, output));
    }
    Ok(DebugPipeline {
        cb,
        input: input_io,
        output: output_io,
        debug_outputs,
        individual_cbs,
        stage_labels,
    })
}

/// One step of the exponentially smoothed per-frame execution time the
/// frame loop sleeps on before its blocking wait: nine tenths of the old
/// average plus one tenth of the latest duration, in integer microseconds.
pub fn update_moving_average_us(avg_us: u64, latest_us: u64) -> (r: u64)
    requires
        avg_us <= 0x1000_0000_0000_0000,
        latest_us <= 0x1000_0000_0000_0000,
    ensures
        r == (9 * avg_us + latest_us) / 10,
{
    (9 * avg_us + latest_us) / 10
}

/// Expand tightly packed RGB bytes to RGBA with an opaque alpha channel,
/// keeping dimensions and switching the descriptor's format accordingly.
pub fn rgb8_to_rgba8(info: &ImageInfo, data: &[u8]) -> (r: (ImageInfo, Vec<u8>))
    requires
        info.format == PixelFormat::R8G8B8Uint,
    ensures
        r.0 == (ImageInfo {
            width: info.width,
            height: info.height,
            format: PixelFormat::R8G8B8A8Uint,
        }),
        r.1@.len() == (data@.len() / 3) * 4,
        forall|i: int|
            0 <= i < data@.len() / 3 ==> #[trigger] r.1@[4 * i] == data@[3 * i] && r.1@[4 * i + 1]
                == data@[3 * i + 1] && r.1@[4 * i + 2] == data@[3 * i + 2] && r.1@[4 * i + 3]
                == 255,
{
    let new_info = ImageInfo {
        width: info.width,
        height: info.height,
        format: PixelFormat::R8G8B8A8Uint,
    };
    let count = data.len() / 3;
    let mut out: Vec<u8> = Vec::new();
    let mut i: usize = 0;
    while i < count
        invariant
            i <= count,
            count == data@.len() / 3,
            data@.len() <= usize::MAX,
            out@.len() == 4 * i,
            forall|j: int|
                0 <= j < i ==> #[trigger] out@[4 * j] == data@[3 * j] && out@[4 * j + 1] == data@[3
                    * j + 1] && out@[4 * j + 2] == data@[3 * j + 2] && out@[4 * j + 3] == 255,
        decreases count - i,
    {
        proof {
            assert(3 * i + 2 < data@.len() && 3 * i <= 3 * (count - 1) && 4 * i + 4 <= 4 * count)
                by (nonlinear_arith)
                requires 0 <= i < count && count == data@.len() / 3;
        }
        let ghost out_before = out@;
        out.push(data[3 * i]);
        out.push(data[3 * i + 1]);
        out.push(data[3 * i + 2]);
        out.push(255);
        proof {
            assert(out@ =~= out_before + seq![
                data@[3 * i],
                data@[3 * i + 1],
                data@[3 * i + 2],
                255u8,
            ]);
            assert forall|j: int| 0 <= j < i + 1 implies #[trigger] out@[4 * j] == data@[3 * j]
                && out@[4 * j + 1] == data@[3 * j + 1] && out@[4 * j + 2] == data@[3 * j + 2]
                && out@[4 * j + 3] == 255 by {
                if j < i {
                    assert(4 * j + 3 < 4 * i) by (nonlinear_arith)
                        requires 0 <= j < i;
                    assert(out@[4 * j] == out_before[4 * j] && out@[4 * j + 1] == out_before[4 * j
                        + 1] && out@[4 * j + 2] == out_before[4 * j + 2] && out@[4 * j + 3]
                        == out_before[4 * j + 3]);
                } else {
                    assert(j == i);
                    assert(out@[4 * i] == data@[3 * i] && out@[4 * i + 1] == data@[3 * i + 1]
                        && out@[4 * i + 2] == data@[3 * i + 2] && out@[4 * i + 3] == 255);
                }
            }
        }
        i = i + 1;
    }
    proof {
        assert(out@.len() == (data@.len() / 3) * 4) by (nonlinear_arith)
            requires out@.len() == 4 * i && i == data@.len() / 3;
    }
    (new_info, out)
}

} // verus!
