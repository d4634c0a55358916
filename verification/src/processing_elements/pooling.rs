use vstd::prelude::*;

use crate::processing_elements::{
    build_dispatch_stage, dispatch_cmds, BuildError, BuildStep, CommandBufferBuilder, Io,
    IoFragment, ProcessingElement, Shader,
};
use crate::utils::ImageInfo;
use crate::vk_init::{GpuImage, VkContext, VkContextView};

verus! {

broadcast use vstd::string::to_string_from_display_ensures_for_str;

/// Operator applied over each 2x2 block.
#[derive(Clone, Copy, Debug, PartialEq, Eq, Structural)]
pub enum Operation {
    Min,
    Max,
}

/// Halves both image dimensions by taking the minimum or maximum over each
/// 2x2 block.
pub struct Pooling {
    pub op: Operation,
}

impl Pooling {
    pub fn new(op: Operation) -> (r: Self)
        ensures
            r.op == op,
    {
        Pooling { op }
    }

    /// Descriptor of the image this stage emits for the given input image:
    /// both dimensions halved, format kept.
    pub open spec fn out_info(img: GpuImage) -> ImageInfo {
        ImageInfo {
            width: (img.info.width / 2) as u32,
            height: (img.info.height / 2) as u32,
            format: img.info.format,
        }
    }
}

impl ProcessingElement for Pooling {
    open spec fn accepts(&self, input: Io) -> bool {
        input matches Io::Image(_)
    }

    open spec fn alloc_ok(&self, ctx: VkContextView, input: Io) -> bool {
        match input {
            Io::Image(img) => Pooling::out_info(img).fits(),
            _ => false,
        }
    }

    open spec fn step(&self, ctx: VkContextView, input: Io) -> BuildStep {
        match input {
            Io::Image(img) => {
                let out = GpuImage {
                    id: ctx.images.len() as usize,
                    info: Pooling::out_info(img),
                };
                BuildStep {
                    ctx: ctx.with_image(out.info),
                    input_io: Io::Image(img),
                    output_io: Io::Image(out),
                    cmds: dispatch_cmds(Shader::MinMaxPooling { op: self.op }, img, out, 16),
                }
            },
            _ => arbitrary(),
        }
    }

    open spec fn label_spec(&self) -> Seq<char> {
        "Pooling"@
    }

    fn build(
        &self,
        ctx: &mut VkContext,
        builder: &mut CommandBufferBuilder,
        input: &IoFragment,
    ) -> (r: Result<IoFragment, BuildError>) {
        let input_img = match input.output_image() {
            Some(img) => img,
            None => {
                return Err(BuildError::WrongInputKind);
            },
        };
        let out_info = ImageInfo { width: input_img.info.width / 2, height: input_img.info.height / 2, format: input_img.info.format };
        let output_img = build_dispatch_stage(
            ctx,
            builder,
            input_img,
            out_info,
            Shader::MinMaxPooling { op: self.op },
            16,
        )?;
        Ok(IoFragment {
            input: Io::Image(input_img),
            output: Io::Image(output_img),
            label: "Pooling".to_string(),
        })
    }
}

} // verus!
