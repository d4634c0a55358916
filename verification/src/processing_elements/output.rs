use vstd::prelude::*;

use crate::processing_elements::{
    BuildError, BuildStep, CommandBufferBuilder, GpuCommand, Io, IoFragment, ProcessingElement,
};
use crate::vk_init::{GpuBuffer, VkContext, VkContextView};

verus! {

broadcast use vstd::string::to_string_from_display_ensures_for_str;

/// Closes a pipeline: allocates a host-readable buffer and appends the copy
/// of the upstream image into it.
pub struct Output {}

impl Output {
    pub fn new() -> (r: Self)
        ensures
            r == (Output {  }),
    {
        Output {  }
    }
}

impl ProcessingElement for Output {
    open spec fn accepts(&self, input: Io) -> bool {
        input matches Io::Image(_)
    }

    open spec fn alloc_ok(&self, ctx: VkContextView, input: Io) -> bool {
        match input {
            Io::Image(img) => img.info.fits(),
            _ => false,
        }
    }

    open spec fn step(&self, ctx: VkContextView, input: Io) -> BuildStep {
        match input {
            Io::Image(img) => {
                let count = img.info.bytes_count_spec() as u32;
                let buf = GpuBuffer { id: ctx.buffers.len() as usize, len: count };
                BuildStep {
                    ctx: ctx.with_buffer(count),
                    input_io: Io::Image(img),
                    output_io: Io::Buffer(buf),
                    cmds: seq![GpuCommand::CopyImageToBuffer { src: img, dst: buf }],
                }
            },
            _ => arbitrary(),
        }
    }

    open spec fn label_spec(&self) -> Seq<char> {
        "Output"@
    }

    fn build(
        &self,
        ctx: &mut VkContext,
        builder: &mut CommandBufferBuilder,
        input: &IoFragment,
    ) -> (r: Result<IoFragment, BuildError>) {
        let input_img = match input.output_image() {
            Some(img) => img,
            None => {
                return Err(BuildError::WrongInputKind);
            },
        };
        let count = match input_img.info.checked_bytes_count() {
            Some(c) => c,
            None => {
                return Err(BuildError::ResourceAllocation);
            },
        };
        let output_buffer = ctx.register_buffer(count);
        builder.copy_image_to_buffer(input_img, output_buffer);
        Ok(IoFragment {
            input: Io::Image(input_img),
            output: Io::Buffer(output_buffer),
            label: "Output".to_string(),
        })
    }
}

impl crate::processing_elements::PipeOutput for Output {

}

impl crate::processing_elements::PipeOutputElement for Output {

}

} // verus!
