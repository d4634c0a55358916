use vstd::prelude::*;

use crate::processing_elements::{
    build_dispatch_stage, dispatch_cmds, BuildError, BuildStep, CommandBufferBuilder, Io,
    IoFragment, ProcessingElement, Shader,
};
use crate::utils::ImageInfo;
use crate::vk_init::{GpuImage, VkContext, VkContextView};

verus! {

broadcast use vstd::string::to_string_from_display_ensures_for_str;

/// Direction of the 3x3 morphological operator.
#[derive(Clone, Copy, Debug, PartialEq, Eq, Structural)]
pub enum Operation {
    Erode,
    Dilate,
}

/// Applies a 3x3 erosion or dilation, preserving the input image's
/// dimensions and format.
pub struct Morphology {
    pub op: Operation,
}

impl Morphology {
    pub fn new(op: Operation) -> (r: Self)
        ensures
            r.op == op,
    {
        Morphology { op }
    }

    /// Descriptor of the image this stage emits for the given input image.
    pub open spec fn out_info(img: GpuImage) -> ImageInfo {
        img.info
    }
}

impl ProcessingElement for Morphology {
    open spec fn accepts(&self, input: Io) -> bool {
        input matches Io::Image(_)
    }

    open spec fn alloc_ok(&self, ctx: VkContextView, input: Io) -> bool {
        match input {
            Io::Image(img) => Morphology::out_info(img).fits(),
            _ => false,
        }
    }

    open spec fn step(&self, ctx: VkContextView, input: Io) -> BuildStep {
        match input {
            Io::Image(img) => {
                let out = GpuImage {
                    id: ctx.images.len() as usize,
                    info: Morphology::out_info(img),
                };
                BuildStep {
                    ctx: ctx.with_image(out.info),
                    input_io: Io::Image(img),
                    output_io: Io::Image(out),
                    cmds: dispatch_cmds(Shader::Morphology { op: self.op }, img, out, 16),
                }
            },
            _ => arbitrary(),
        }
    }

    open spec fn label_spec(&self) -> Seq<char> {
        "Morphology"@
    }

    fn build(
        &self,
        ctx: &mut VkContext,
        builder: &mut CommandBufferBuilder,
        input: &IoFragment,
    ) -> (r: Result<IoFragment, BuildError>) {
        let input_img = match input.output_image() {
            Some(img) => img,
            None => {
                return Err(BuildError::WrongInputKind);
            },
        };
        let out_info = ImageInfo::from_image(&input_img, input_img.info.format);
        let output_img = build_dispatch_stage(
            ctx,
            builder,
            input_img,
            out_info,
            Shader::Morphology { op: self.op },
            16,
        )?;
        Ok(IoFragment {
            input: Io::Image(input_img),
            output: Io::Image(output_img),
            label: "Morphology".to_string(),
        })
    }
}

} // verus!
