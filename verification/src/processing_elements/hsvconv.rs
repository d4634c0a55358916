use vstd::prelude::*;

use crate::processing_elements::{
    build_dispatch_stage, dispatch_cmds, BuildError, BuildStep, CommandBufferBuilder, Io,
    IoFragment, ProcessingElement, Shader,
};
use crate::utils::ImageInfo;
use crate::vk_init::{GpuImage, VkContext, VkContextView};

verus! {

broadcast use vstd::string::to_string_from_display_ensures_for_str;

/// Converts an RGB image to HSV components, preserving dimensions and
/// format.
pub struct Hsvconv {}

impl Hsvconv {
    pub fn new() -> (r: Self)
        ensures
            r == (Hsvconv {  }),
    {
        Hsvconv {  }
    }

    /// Descriptor of the image this stage emits for the given input image.
    pub open spec fn out_info(img: GpuImage) -> ImageInfo {
        img.info
    }
}

impl ProcessingElement for Hsvconv {
    open spec fn accepts(&self, input: Io) -> bool {
        input matches Io::Image(_)
    }

    open spec fn alloc_ok(&self, ctx: VkContextView, input: Io) -> bool {
        match input {
            Io::Image(img) => Hsvconv::out_info(img).fits(),
            _ => false,
        }
    }

    open spec fn step(&self, ctx: VkContextView, input: Io) -> BuildStep {
        match input {
            Io::Image(img) => {
                let out = GpuImage {
                    id: ctx.images.len() as usize,
                    info: Hsvconv::out_info(img),
                };
                BuildStep {
                    ctx: ctx.with_image(out.info),
                    input_io: Io::Image(img),
                    output_io: Io::Image(out),
                    cmds: dispatch_cmds(Shader::Hsvconv, img, out, 16),
                }
            },
            _ => arbitrary(),
        }
    }

    open spec fn label_spec(&self) -> Seq<char> {
        "HSV conversion"@
    }

    fn build(
        &self,
        ctx: &mut VkContext,
        builder: &mut CommandBufferBuilder,
        input: &IoFragment,
    ) -> (r: Result<IoFragment, BuildError>) {
        let input_img = match input.output_image() {
            Some(img) => img,
            None => {
                return Err(BuildError::WrongInputKind);
            },
        };
        let out_info = ImageInfo::from_image(&input_img, input_img.info.format);
        let output_img = build_dispatch_stage(
            ctx,
            builder,
            input_img,
            out_info,
            Shader::Hsvconv,
            16,
        )?;
        Ok(IoFragment {
            input: Io::Image(input_img),
            output: Io::Image(output_img),
            label: "HSV conversion".to_string(),
        })
    }
}

} // verus!
