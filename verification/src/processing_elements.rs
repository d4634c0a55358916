use vstd::prelude::*;

use crate::utils::ImageInfo;
use crate::vk_init::{GpuBuffer, GpuImage, VkContext, VkContextView};

pub mod convolution;
pub mod convolution_2p;
pub mod grayscale;
pub mod hsvconv;
pub mod input;
pub mod morphology;
pub mod output;
pub mod pooling;
pub mod tracker;

verus! {

broadcast use vstd::string::to_string_from_display_ensures_for_str;

/// The compute kernels a stage can bind, together with the specialisation
/// values that select their behaviour. A dispatch records which kernel ran;
/// the kernels' internal arithmetic is fixed shader code outside the
/// library's scope.
#[derive(Clone, Copy, Debug, PartialEq, Eq, Structural)]
pub enum Shader {
    /// Luminance conversion to a single channel.
    Grayscale,
    /// RGB to HSV conversion.
    Hsvconv,
    /// 3x3 erosion or dilation.
    Morphology { op: morphology::Operation },
    /// 2x2 min or max pooling.
    MinMaxPooling { op: pooling::Operation },
    /// 3x3 convolution in a single pass.
    Convolution,
    /// One pass of a separable 3x3 convolution.
    ConvolutionPass { vertical: bool },
    /// Copy into a power-of-two canvas, zero-filling or cropping.
    Canvas,
    /// Emit `(x*w, y*w, w, 0)` per pixel, with coordinates normalised over
    /// the original sub-region, not the canvas.
    CoordinateMask { sub_width: u32, sub_height: u32 },
    /// Sum a 2x2 block per output texel; `sampled` selects the
    /// hardware-filtered variant.
    MeanPooling2 { sampled: bool },
    /// Sum a 4x4 block per output texel.
    MeanPooling4 { sampled: bool },
}

/// One GPU operation recorded into a command sequence. Nothing executes at
/// record time; a sequence is submitted as a whole by the caller that owns
/// the device.
#[derive(Clone, Copy, Debug, PartialEq, Eq)]
pub enum GpuCommand {
    CopyBufferToImage { src: GpuBuffer, dst: GpuImage },
    CopyImageToBuffer { src: GpuImage, dst: GpuBuffer },
    Dispatch {
        shader: Shader,
        input: GpuImage,
        output: GpuImage,
        local_size: (u32, u32),
        workgroups: (u32, u32, u32),
    },
}

impl GpuCommand {
    /// Every resource the command touches is registered in `ctx`.
    pub open spec fn valid(self, ctx: VkContextView) -> bool {
        match self {
            GpuCommand::CopyBufferToImage { src, dst } => ctx.valid_buffer(src)
                && ctx.valid_image(dst),
            GpuCommand::CopyImageToBuffer { src, dst } => ctx.valid_image(src)
                && ctx.valid_buffer(dst),
            GpuCommand::Dispatch { input, output, .. } => ctx.valid_image(input)
                && ctx.valid_image(output),
        }
    }

    /// Every image the command touches is either the upstream resource
    /// `from` or was allocated after `prev`; likewise for buffers. Used to
    /// show that a build never reaches back into resources of an earlier
    /// pipeline.
    pub open spec fn refs_fresh_or_input(self, prev: VkContextView, from: Io) -> bool {
        match self {
            GpuCommand::CopyBufferToImage { src, dst } => buffer_fresh_or_from(src, prev, from)
                && image_fresh_or_from(dst, prev, from),
            GpuCommand::CopyImageToBuffer { src, dst } => image_fresh_or_from(src, prev, from)
                && buffer_fresh_or_from(dst, prev, from),
            GpuCommand::Dispatch { input, output, .. } => image_fresh_or_from(input, prev, from)
                && image_fresh_or_from(output, prev, from),
        }
    }
}

pub open spec fn image_fresh_or_from(img: GpuImage, prev: VkContextView, from: Io) -> bool {
    ||| img.id >= prev.images.len()
    ||| from == Io::Image(img)
}

pub open spec fn buffer_fresh_or_from(buf: GpuBuffer, prev: VkContextView, from: Io) -> bool {
    ||| buf.id >= prev.buffers.len()
    ||| from == Io::Buffer(buf)
}

/// Accumulates the GPU operations of a pipeline while its stages are built.
pub struct CommandBufferBuilder {
    pub commands: Vec<GpuCommand>,
}

impl CommandBufferBuilder {
    pub fn new() -> (r: CommandBufferBuilder)
        ensures
            r.commands@ =~= Seq::<GpuCommand>::empty(),
    {
        CommandBufferBuilder { commands: Vec::new() }
    }

    pub fn copy_buffer_to_image(&mut self, src: GpuBuffer, dst: GpuImage)
        ensures
            final(self).commands@ == old(self).commands@.push(
                GpuCommand::CopyBufferToImage { src, dst },
            ),
    {
        self.commands.push(GpuCommand::CopyBufferToImage { src, dst });
    }

    pub fn copy_image_to_buffer(&mut self, src: GpuImage, dst: GpuBuffer)
        ensures
            final(self).commands@ == old(self).commands@.push(
                GpuCommand::CopyImageToBuffer { src, dst },
            ),
    {
        self.commands.push(GpuCommand::CopyImageToBuffer { src, dst });
    }

    pub fn dispatch(
        &mut self,
        shader: Shader,
        input: GpuImage,
        output: GpuImage,
        local_size: (u32, u32),
        workgroups: (u32, u32, u32),
    )
        ensures
            final(self).commands@ == old(self).commands@.push(
                GpuCommand::Dispatch { shader, input, output, local_size, workgroups },
            ),
    {
        self.commands.push(GpuCommand::Dispatch { shader, input, output, local_size, workgroups });
    }

    /// Finalise the accumulated operations into an immutable sequence.
    pub fn build(self) -> (r: CommandBuffer)
        ensures
            r@ == self.commands@,
    {
        CommandBuffer { commands: self.commands }
    }
}

/// A finalised batch of GPU operations for one full pipeline execution.
/// Immutable after construction, so the caller may submit it every frame
/// without rebuilding.
pub struct CommandBuffer {
    commands: Vec<GpuCommand>,
}

impl View for CommandBuffer {
    type V = Seq<GpuCommand>;

    closed spec fn view(&self) -> Seq<GpuCommand> {
        self.commands@
    }
}

impl CommandBuffer {
    pub fn len(&self) -> (r: usize)
        ensures
            r == self@.len(),
    {
        self.commands.len()
    }

    /// The recorded operations, in submission order.
    pub fn commands(&self) -> (r: &Vec<GpuCommand>)
        ensures
            r@ == self@,
    {
        &self.commands
    }
}

/// The typed handle threaded between stages: a GPU image, a GPU buffer, or
/// nothing.
#[derive(Clone, Copy, Debug, PartialEq, Eq, Structural)]
pub enum Io {
    Image(GpuImage),
    Buffer(GpuBuffer),
    Empty,
}

impl Io {
    pub open spec fn valid(self, ctx: VkContextView) -> bool {
        match self {
            Io::Image(img) => ctx.valid_image(img),
            Io::Buffer(buf) => ctx.valid_buffer(buf),
            Io::Empty => true,
        }
    }
}

/// The data-flow token a stage's build produces: what the stage consumed,
/// what it emits for the next stage, and a diagnostic label.
pub struct IoFragment {
    pub input: Io,
    pub output: Io,
    pub label: String,
}

impl IoFragment {
    pub open spec fn valid(self, ctx: VkContextView) -> bool {
        self.input.valid(ctx) && self.output.valid(ctx)
    }

    pub fn input_image(&self) -> (r: Option<GpuImage>)
        ensures
            r == (match self.input {
                Io::Image(img) => Some(img),
                _ => None::<GpuImage>,
            }),
    {
        match &self.input {
            Io::Image(img) => Some(*img),
            _ => None,
        }
    }

    pub fn output_image(&self) -> (r: Option<GpuImage>)
        ensures
            r == (match self.output {
                Io::Image(img) => Some(img),
                _ => None::<GpuImage>,
            }),
    {
        match &self.output {
            Io::Image(img) => Some(*img),
            _ => None,
        }
    }

    pub fn input_buffer(&self) -> (r: Option<GpuBuffer>)
        ensures
            r == (match self.input {
                Io::Buffer(buf) => Some(buf),
                _ => None::<GpuBuffer>,
            }),
    {
        match &self.input {
            Io::Buffer(buf) => Some(*buf),
            _ => None,
        }
    }

    pub fn output_buffer(&self) -> (r: Option<GpuBuffer>)
        ensures
            r == (match self.output {
                Io::Buffer(buf) => Some(buf),
                _ => None::<GpuBuffer>,
            }),
    {
        match &self.output {
            Io::Buffer(buf) => Some(*buf),
            _ => None,
        }
    }

    /// The sentinel fragment a pipeline build starts from.
    pub fn none() -> (r: IoFragment)
        ensures
            r.input == Io::Empty,
            r.output == Io::Empty,
            r.label@ == "dummy"@,
    {
        IoFragment { input: Io::Empty, output: Io::Empty, label: "dummy".to_string() }
    }

    /// A second handle to the same resources, with the same label.
    pub fn duplicate(&self) -> (r: IoFragment)
        ensures
            r.input == self.input,
            r.output == self.output,
            r.label@ == self.label@,
    {
        IoFragment { input: self.input, output: self.output, label: self.label.clone() }
    }
}

/// Why a pipeline build was aborted.
#[derive(Clone, Copy, Debug, PartialEq, Eq, Structural)]
pub enum BuildError {
    /// A stage was handed a fragment variant it cannot consume: a
    /// programming error surfaced at build time, never at dispatch time.
    WrongInputKind,
    /// A stage requested a resource the allocator cannot satisfy.
    ResourceAllocation,
}

/// What a successful stage build does, stated as a value: the grown resource
/// registry, the produced fragment's resources, and the commands appended to
/// the shared sequence.
pub struct BuildStep {
    pub ctx: VkContextView,
    pub input_io: Io,
    pub output_io: Io,
    pub cmds: Seq<GpuCommand>,
}

/// The contract every pipeline stage implements. `build` validates the
/// upstream fragment, allocates its output resources, appends its GPU work
/// to the shared sequence — executing nothing — and describes its output.
/// `step` pins the whole effect down, so that two builds from equal states
/// produce equal command sequences.
pub trait ProcessingElement: Sized {
    /// The upstream resource variants this stage can consume.
    spec fn accepts(&self, input: Io) -> bool;

    /// The stage's allocation requests can be satisfied for this input.
    spec fn alloc_ok(&self, ctx: VkContextView, input: Io) -> bool;

    /// The effect of a successful build from the given state.
    spec fn step(&self, ctx: VkContextView, input: Io) -> BuildStep;

    /// The label of the fragment the stage emits.
    spec fn label_spec(&self) -> Seq<char>;

    fn build(
        &self,
        ctx: &mut VkContext,
        builder: &mut CommandBufferBuilder,
        input: &IoFragment,
    ) -> (r: Result<IoFragment, BuildError>)
        requires
            input.valid(old(ctx)@),
        ensures
            final(ctx)@.extends(old(ctx)@),
            match r {
                Ok(frag) => {
                    &&& self.accepts(input.output)
                    &&& self.alloc_ok(old(ctx)@, input.output)
                    &&& final(ctx)@ == self.step(old(ctx)@, input.output).ctx
                    &&& frag.input == self.step(old(ctx)@, input.output).input_io
                    &&& frag.output == self.step(old(ctx)@, input.output).output_io
                    &&& frag.label@ == self.label_spec()
                    &&& final(builder).commands@ == old(builder).commands@
                        + self.step(old(ctx)@, input.output).cmds
                    &&& frag.valid(final(ctx)@)
                    &&& io_fresh_or_from(frag.input, old(ctx)@, input.output)
                    &&& io_fresh_or_from(frag.output, old(ctx)@, input.output)
                    &&& forall|j: int|
                        0 <= j < self.step(old(ctx)@, input.output).cmds.len()
                            ==> (#[trigger] self.step(old(ctx)@, input.output).cmds[j]).valid(
                                final(ctx)@,
                            ) && self.step(old(ctx)@, input.output).cmds[j].refs_fresh_or_input(
                                old(ctx)@,
                                input.output,
                            )
                },
                Err(e) => {
                    &&& !(self.accepts(input.output) && self.alloc_ok(old(ctx)@, input.output))
                    &&& final(ctx)@ == old(ctx)@
                    &&& final(builder).commands@ == old(builder).commands@
                    &&& e == (if !self.accepts(input.output) {
                        BuildError::WrongInputKind
                    } else {
                        BuildError::ResourceAllocation
                    })
                },
            },
    ;
}

/// The commands a single full-image dispatch appends: one compute dispatch
/// reading `input`, writing `out`, with square work groups of `local` laid
/// over a `wg_width` by `wg_height` resolution, rounding up.
pub open spec fn dispatch_cmds_sized(
    shader: Shader,
    input: GpuImage,
    out: GpuImage,
    local: u32,
    wg_width: u32,
    wg_height: u32,
) -> Seq<GpuCommand> {
    seq![
        GpuCommand::Dispatch {
            shader,
            input,
            output: out,
            local_size: (local, local),
            workgroups: (
                crate::utils::div_ceil(wg_width as int, local as int) as u32,
                crate::utils::div_ceil(wg_height as int, local as int) as u32,
                1u32,
            ),
        },
    ]
}

/// A single dispatch whose work groups cover the input image's resolution,
/// as the full-image filter stages do.
pub open spec fn dispatch_cmds(
    shader: Shader,
    input: GpuImage,
    out: GpuImage,
    local: u32,
) -> Seq<GpuCommand> {
    dispatch_cmds_sized(shader, input, out, local, input.info.width, input.info.height)
}

/// Allocate the output image of a stage and append its single dispatch laid
/// over the given resolution: the shared body of every one-kernel stage.
pub(crate) fn build_dispatch_stage_sized(
    ctx: &mut VkContext,
    builder: &mut CommandBufferBuilder,
    input_img: GpuImage,
    out_info: ImageInfo,
    shader: Shader,
    local: u32,
    wg_dims: [u32; 2],
) -> (r: Result<GpuImage, BuildError>)
    requires
        local >= 1,
    ensures
        match r {
            Ok(out) => {
                &&& out_info.fits()
                &&& out.id == old(ctx)@.images.len()
                &&& out.info == out_info
                &&& final(ctx)@ == old(ctx)@.with_image(out_info)
                &&& final(ctx)@.valid_image(out)
                &&& final(ctx)@.extends(old(ctx)@)
                &&& final(builder).commands@ == old(builder).commands@
                    + dispatch_cmds_sized(shader, input_img, out, local, wg_dims[0], wg_dims[1])
            },
            Err(e) => {
                &&& !out_info.fits()
                &&& e == BuildError::ResourceAllocation
                &&& final(ctx)@ == old(ctx)@
                &&& final(builder).commands@ == old(builder).commands@
            },
        },
{
    if out_info.checked_bytes_count().is_none() {
        return Err(BuildError::ResourceAllocation);
    }
    let output_img = crate::utils::create_storage_image(ctx, &out_info);
    let wg = crate::utils::workgroups(&wg_dims, &[local, local]);
    builder.dispatch(shader, input_img, output_img, (local, local), (wg[0], wg[1], wg[2]));
    Ok(output_img)
}

/// As `build_dispatch_stage_sized`, with work groups over the input image's
/// resolution.
pub(crate) fn build_dispatch_stage(
    ctx: &mut VkContext,
    builder: &mut CommandBufferBuilder,
    input_img: GpuImage,
    out_info: ImageInfo,
    shader: Shader,
    local: u32,
) -> (r: Result<GpuImage, BuildError>)
    requires
        local >= 1,
    ensures
        match r {
            Ok(out) => {
                &&& out_info.fits()
                &&& out.id == old(ctx)@.images.len()
                &&& out.info == out_info
                &&& final(ctx)@ == old(ctx)@.with_image(out_info)
                &&& final(ctx)@.valid_image(out)
                &&& final(ctx)@.extends(old(ctx)@)
                &&& final(builder).commands@ == old(builder).commands@
                    + dispatch_cmds(shader, input_img, out, local)
            },
            Err(e) => {
                &&& !out_info.fits()
                &&& e == BuildError::ResourceAllocation
                &&& final(ctx)@ == old(ctx)@
                &&& final(builder).commands@ == old(builder).commands@
            },
        },
{
    build_dispatch_stage_sized(
        ctx,
        builder,
        input_img,
        out_info,
        shader,
        local,
        [input_img.info.width, input_img.info.height],
    )
}

/// The token's resource is the upstream one or was allocated after `prev`.
pub open spec fn io_fresh_or_from(io: Io, prev: VkContextView, from: Io) -> bool {
    match io {
        Io::Image(img) => image_fresh_or_from(img, prev, from),
        Io::Buffer(buf) => buffer_fresh_or_from(buf, prev, from),
        Io::Empty => true,
    }
}

/// One intermediate stage of a pipeline, as a closed sum so that builders
/// can fold over an ordered list of differently-typed stages.
pub enum Stage {
    Grayscale(grayscale::Grayscale),
    Hsvconv(hsvconv::Hsvconv),
    Convolution(convolution::Convolution),
    Convolution2Pass(convolution_2p::Convolution2Pass),
    Morphology(morphology::Morphology),
    Pooling(pooling::Pooling),
    Tracker(tracker::Tracker),
}

impl ProcessingElement for Stage {
    open spec fn accepts(&self, input: Io) -> bool {
        match self {
            Stage::Grayscale(s) => s.accepts(input),
            Stage::Hsvconv(s) => s.accepts(input),
            Stage::Convolution(s) => s.accepts(input),
            Stage::Convolution2Pass(s) => s.accepts(input),
            Stage::Morphology(s) => s.accepts(input),
            Stage::Pooling(s) => s.accepts(input),
            Stage::Tracker(s) => s.accepts(input),
        }
    }

    open spec fn alloc_ok(&self, ctx: VkContextView, input: Io) -> bool {
        match self {
            Stage::Grayscale(s) => s.alloc_ok(ctx, input),
            Stage::Hsvconv(s) => s.alloc_ok(ctx, input),
            Stage::Convolution(s) => s.alloc_ok(ctx, input),
            Stage::Convolution2Pass(s) => s.alloc_ok(ctx, input),
            Stage::Morphology(s) => s.alloc_ok(ctx, input),
            Stage::Pooling(s) => s.alloc_ok(ctx, input),
            Stage::Tracker(s) => s.alloc_ok(ctx, input),
        }
    }

    open spec fn step(&self, ctx: VkContextView, input: Io) -> BuildStep {
        match self {
            Stage::Grayscale(s) => s.step(ctx, input),
            Stage::Hsvconv(s) => s.step(ctx, input),
            Stage::Convolution(s) => s.step(ctx, input),
            Stage::Convolution2Pass(s) => s.step(ctx, input),
            Stage::Morphology(s) => s.step(ctx, input),
            Stage::Pooling(s) => s.step(ctx, input),
            Stage::Tracker(s) => s.step(ctx, input),
        }
    }

    open spec fn label_spec(&self) -> Seq<char> {
        match self {
            Stage::Grayscale(s) => s.label_spec(),
            Stage::Hsvconv(s) => s.label_spec(),
            Stage::Convolution(s) => s.label_spec(),
            Stage::Convolution2Pass(s) => s.label_spec(),
            Stage::Morphology(s) => s.label_spec(),
            Stage::Pooling(s) => s.label_spec(),
            Stage::Tracker(s) => s.label_spec(),
        }
    }

    fn build(
        &self,
        ctx: &mut VkContext,
        builder: &mut CommandBufferBuilder,
        input: &IoFragment,
    ) -> (r: Result<IoFragment, BuildError>) {
        match self {
            Stage::Grayscale(s) => s.build(ctx, builder, input),
            Stage::Hsvconv(s) => s.build(ctx, builder, input),
            Stage::Convolution(s) => s.build(ctx, builder, input),
            Stage::Convolution2Pass(s) => s.build(ctx, builder, input),
            Stage::Morphology(s) => s.build(ctx, builder, input),
            Stage::Pooling(s) => s.build(ctx, builder, input),
            Stage::Tracker(s) => s.build(ctx, builder, input),
        }
    }
}

/// Marker for stages that may close a pipeline: their output fragment is a
/// host-readable buffer.
pub trait PipeOutput {

}

pub trait PipeOutputElement: PipeOutput + ProcessingElement {

}

/// Marker for stages that may open a pipeline: they consume no upstream
/// fragment and expose a host-writable buffer.
pub trait PipeInput {

}

pub trait PipeInputElement: PipeInput + ProcessingElement {

}

} // verus!
