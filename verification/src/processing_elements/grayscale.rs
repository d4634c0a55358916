use vstd::prelude::*;

use crate::processing_elements::{
    build_dispatch_stage, dispatch_cmds, BuildError, BuildStep, CommandBufferBuilder, Io,
    IoFragment, ProcessingElement, Shader,
};
use crate::utils::{ImageInfo, PixelFormat};
use crate::vk_init::{GpuImage, VkContext, VkContextView};

verus! {

broadcast use vstd::string::to_string_from_display_ensures_for_str;

/// Converts a colour image to a single-channel luminance image of the same
/// dimensions.
pub struct Grayscale {}

impl Grayscale {
    pub fn new() -> (r: Self)
        ensures
            r == (Grayscale {  }),
    {
        Grayscale {  }
    }

    /// Descriptor of the image this stage emits for the given input image.
    pub open spec fn out_info(img: GpuImage) -> ImageInfo {
        ImageInfo { width: img.info.width, height: img.info.height, format: PixelFormat::R8Unorm }
    }
}

impl ProcessingElement for Grayscale {
    open spec fn accepts(&self, input: Io) -> bool {
        input matches Io::Image(_)
    }

    open spec fn alloc_ok(&self, ctx: VkContextView, input: Io) -> bool {
        match input {
            Io::Image(img) => Grayscale::out_info(img).fits(),
            _ => false,
        }
    }

    open spec fn step(&self, ctx: VkContextView, input: Io) -> BuildStep {
        match input {
            Io::Image(img) => {
                let out = GpuImage {
                    id: ctx.images.len() as usize,
                    info: Grayscale::out_info(img),
                };
                BuildStep {
                    ctx: ctx.with_image(out.info),
                    input_io: Io::Image(img),
                    output_io: Io::Image(out),
                    cmds: dispatch_cmds(Shader::Grayscale, img, out, 16),
                }
            },
            _ => arbitrary(),
        }
    }

    open spec fn label_spec(&self) -> Seq<char> {
        "Grayscale"@
    }

    fn build(
        &self,
        ctx: &mut VkContext,
        builder: &mut CommandBufferBuilder,
        input: &IoFragment,
    ) -> (r: Result<IoFragment, BuildError>) {
        let input_img = match input.output_image() {
            Some(img) => img,
            None => {
                return Err(BuildError::WrongInputKind);
            },
        };
        let out_info = ImageInfo::from_image(&input_img, PixelFormat::R8Unorm);
        let output_img = build_dispatch_stage(
            ctx,
            builder,
            input_img,
            out_info,
            Shader::Grayscale,
            16,
        )?;
        Ok(IoFragment {
            input: Io::Image(input_img),
            output: Io::Image(output_img),
            label: "Grayscale".to_string(),
        })
    }
}

} // verus!
