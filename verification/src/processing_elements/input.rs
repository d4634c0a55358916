use vstd::prelude::*;

use crate::processing_elements::{
    BuildError, BuildStep, CommandBufferBuilder, GpuCommand, Io, IoFragment, ProcessingElement,
};
use crate::utils::{create_storage_image, ImageInfo};
use crate::vk_init::{GpuBuffer, GpuImage, VkContext, VkContextView};

verus! {

broadcast use vstd::string::to_string_from_display_ensures_for_str;

/// Opens a pipeline: allocates the host-writable upload buffer and the image
/// it is copied into at the start of every execution. Consumes no upstream
/// fragment.
pub struct Input {
    pub input_format: ImageInfo,
}

impl Input {
    pub fn new(input_format: ImageInfo) -> (r: Self)
        ensures
            r.input_format == input_format,
    {
        Input { input_format }
    }
}

impl ProcessingElement for Input {
    open spec fn accepts(&self, input: Io) -> bool {
        true
    }

    open spec fn alloc_ok(&self, ctx: VkContextView, input: Io) -> bool {
        self.input_format.fits()
    }

    open spec fn step(&self, ctx: VkContextView, input: Io) -> BuildStep {
        let count = self.input_format.bytes_count_spec() as u32;
        let img = GpuImage { id: ctx.images.len() as usize, info: self.input_format };
        let buf = GpuBuffer { id: ctx.buffers.len() as usize, len: count };
        BuildStep {
            ctx: ctx.with_image(self.input_format).with_buffer(count),
            input_io: Io::Buffer(buf),
            output_io: Io::Image(img),
            cmds: seq![GpuCommand::CopyBufferToImage { src: buf, dst: img }],
        }
    }

    open spec fn label_spec(&self) -> Seq<char> {
        "Input"@
    }

    fn build(
        &self,
        ctx: &mut VkContext,
        builder: &mut CommandBufferBuilder,
        input: &IoFragment,
    ) -> (r: Result<IoFragment, BuildError>) {
        let count = match self.input_format.checked_bytes_count() {
            Some(c) => c,
            None => {
                return Err(BuildError::ResourceAllocation);
            },
        };
        let output_img = create_storage_image(ctx, &self.input_format);
        let input_buffer = ctx.register_buffer(count);
        builder.copy_buffer_to_image(input_buffer, output_img);
        Ok(IoFragment {
            input: Io::Buffer(input_buffer),
            output: Io::Image(output_img),
            label: "Input".to_string(),
        })
    }
}

impl crate::processing_elements::PipeInput for Input {

}

impl crate::processing_elements::PipeInputElement for Input {

}

} // verus!
