use vstd::prelude::*;

use crate::processing_elements::{
    build_dispatch_stage, dispatch_cmds, BuildError, BuildStep, CommandBufferBuilder, Io,
    IoFragment, ProcessingElement, Shader,
};
use crate::utils::ImageInfo;
use crate::vk_init::{GpuImage, VkContext, VkContextView};

verus! {

broadcast use vstd::string::to_string_from_display_ensures_for_str;

/// Applies a separable 3x3 convolution as a horizontal pass into an
/// intermediate image followed by a vertical pass, preserving dimensions and
/// format.
pub struct Convolution2Pass {}

impl Convolution2Pass {
    pub fn new() -> (r: Self)
        ensures
            r == (Convolution2Pass {  }),
    {
        Convolution2Pass {  }
    }

    /// Descriptor of the intermediate and output images: same as the input.
    pub open spec fn out_info(img: GpuImage) -> ImageInfo {
        img.info
    }
}

impl ProcessingElement for Convolution2Pass {
    open spec fn accepts(&self, input: Io) -> bool {
        input matches Io::Image(_)
    }

    open spec fn alloc_ok(&self, ctx: VkContextView, input: Io) -> bool {
        match input {
            Io::Image(img) => img.info.fits(),
            _ => false,
        }
    }

    open spec fn step(&self, ctx: VkContextView, input: Io) -> BuildStep {
        match input {
            Io::Image(img) => {
                let inter = GpuImage { id: ctx.images.len() as usize, info: img.info };
                let out = GpuImage { id: (ctx.images.len() + 1) as usize, info: img.info };
                BuildStep {
                    ctx: ctx.with_image(img.info).with_image(img.info),
                    input_io: Io::Image(img),
                    output_io: Io::Image(out),
                    cmds: dispatch_cmds(
                        Shader::ConvolutionPass { vertical: false },
                        img,
                        inter,
                        32,
                    ) + dispatch_cmds(Shader::ConvolutionPass { vertical: true }, inter, out, 32),
                }
            },
            _ => arbitrary(),
        }
    }

    open spec fn label_spec(&self) -> Seq<char> {
        "Convolution two passes"@
    }

    fn build(
        &self,
        ctx: &mut VkContext,
        builder: &mut CommandBufferBuilder,
        input: &IoFragment,
    ) -> (r: Result<IoFragment, BuildError>) {
        let input_img = match input.output_image() {
            Some(img) => img,
            None => {
                return Err(BuildError::WrongInputKind);
            },
        };
        let info = ImageInfo::from_image(&input_img, input_img.info.format);
        let inter_img = build_dispatch_stage(
            ctx,
            builder,
            input_img,
            info,
            Shader::ConvolutionPass { vertical: false },
            32,
        )?;
        let output_img = match build_dispatch_stage(
            ctx,
            builder,
            inter_img,
            info,
            Shader::ConvolutionPass { vertical: true },
            32,
        ) {
            Ok(img) => img,
            Err(_) => {
                proof {
                    assert(false);
                }
                return Err(BuildError::ResourceAllocation);
            },
        };
        Ok(IoFragment {
            input: Io::Image(input_img),
            output: Io::Image(output_img),
            label: "Convolution two passes".to_string(),
        })
    }
}

} // verus!
