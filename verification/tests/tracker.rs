use vkcv::endpoints::image_download::TransferredImage;
use vkcv::processing_elements::tracker::{
    canvas_pot, centroid_components, Canvas, PoolingStrategy, Tracker,
};
use vkcv::processing_elements::{
    BuildError, CommandBufferBuilder, GpuCommand, Io, IoFragment, ProcessingElement, Shader,
};
use vkcv::utils::{ImageInfo, PixelFormat};
use vkcv::vk_init::VkContext;

#[test]
fn reduce_4x() {
    let size = 1024;

    let a = (size as f32).log2().ceil();
    let divs_by_4 = (a / 2.0).floor() as u32;
    let divs_by_2 = a as u32 - (divs_by_4 * 2);

    println!("size = {}", size);
    println!("divs_by_4 = {}", divs_by_4);
    println!("divs_by_2 = {}", divs_by_2);
    assert_eq!(divs_by_4, 5);
    assert_eq!(divs_by_2, 0);
}

#[test]
fn tracker_reduce_4x() {
    let size = 1024;

    let a = (size as f32).log2().ceil();
    let divs_by_4 = (a / 2.0).floor() as u32;
    let divs_by_2 = a as u32 - (divs_by_4 * 2);

    println!("size = {}", size);
    println!("divs_by_4 = {}", divs_by_4);
    println!("divs_by_2 = {}", divs_by_2);
    assert_eq!(divs_by_4, 5);
    assert_eq!(divs_by_2, 0);
}

#[test]
fn canvas_pad_and_crop_sizes() {
    assert_eq!(canvas_pot(640, Canvas::Pad), (1024, 10));
    assert_eq!(canvas_pot(640, Canvas::Crop), (512, 9));
    assert_eq!(canvas_pot(480, Canvas::Pad), (512, 9));
    assert_eq!(canvas_pot(512, Canvas::Pad), (512, 9));
    assert_eq!(canvas_pot(512, Canvas::Crop), (512, 9));
    assert_eq!(canvas_pot(1, Canvas::Pad), (1, 0));
    assert_eq!(canvas_pot(1, Canvas::Crop), (1, 0));
}

fn image_fragment(ctx: &mut VkContext, width: u32, height: u32) -> IoFragment {
    let img = ctx.register_image(ImageInfo {
        width,
        height,
        format: PixelFormat::R8Unorm,
    });
    IoFragment {
        input: Io::Empty,
        output: Io::Image(img),
        label: "test input".to_string(),
    }
}

#[test]
fn tracker_normalises_over_original_sub_dims() {
    // 640x480 source: Pad canvas is 1024, Crop canvas is 512, and the
    // coordinate mask is normalised over 640x480 either way.
    for (canvas, pot) in [(Canvas::Pad, 1024u32), (Canvas::Crop, 512u32)] {
        let mut ctx = VkContext::new();
        let frag = image_fragment(&mut ctx, 640, 480);
        let mut builder = CommandBufferBuilder::new();
        let tracker = Tracker::new(PoolingStrategy::Pooling4, canvas);
        let out = tracker.build(&mut ctx, &mut builder, &frag).unwrap();

        // the canvas image has the power-of-two dimensions
        assert_eq!(
            ctx.images[1],
            ImageInfo { width: pot, height: pot, format: PixelFormat::R8Unorm }
        );
        // the coordinate-mask dispatch carries the original dimensions
        let cb = builder.build();
        match cb.commands()[1] {
            GpuCommand::Dispatch {
                shader: Shader::CoordinateMask { sub_width, sub_height },
                ..
            } => {
                assert_eq!(sub_width, 640);
                assert_eq!(sub_height, 480);
            }
            _ => panic!("expected the coordinate-mask dispatch"),
        }
        // the sub-pipeline ends at a single pixel
        match out.output {
            Io::Image(img) => {
                assert_eq!(img.info.width, 1);
                assert_eq!(img.info.height, 1);
                assert_eq!(img.info.format, PixelFormat::R16G16B16A16Sfloat);
            }
            _ => panic!("expected an image output"),
        }
    }
}

#[test]
fn tracker_skips_canvas_for_power_of_two_input() {
    let mut ctx = VkContext::new();
    let frag = image_fragment(&mut ctx, 256, 256);
    let mut builder = CommandBufferBuilder::new();
    let tracker = Tracker::new(PoolingStrategy::Pooling4, Canvas::Pad);
    tracker.build(&mut ctx, &mut builder, &frag).unwrap();
    let cb = builder.build();
    // no canvas pass: coordinate mask first, then 4 pooling passes (8 = 2*4)
    assert_eq!(cb.len(), 5);
    match cb.commands()[0] {
        GpuCommand::Dispatch { shader: Shader::CoordinateMask { .. }, .. } => {}
        _ => panic!("expected the coordinate-mask dispatch first"),
    }
}

#[test]
fn tracker_pooling2_spends_one_pass_per_halving() {
    let mut ctx = VkContext::new();
    let frag = image_fragment(&mut ctx, 256, 256);
    let mut builder = CommandBufferBuilder::new();
    let tracker = Tracker::new(PoolingStrategy::Pooling2, Canvas::Pad);
    tracker.build(&mut ctx, &mut builder, &frag).unwrap();
    // coordinate mask + 8 halvings
    assert_eq!(builder.build().len(), 9);
}

#[test]
fn tracker_rejects_missing_image() {
    let mut ctx = VkContext::new();
    let mut builder = CommandBufferBuilder::new();
    let tracker = Tracker::new(PoolingStrategy::Pooling4, Canvas::Pad);
    let frag = IoFragment::none();
    assert!(matches!(
        tracker.build(&mut ctx, &mut builder, &frag),
        Err(BuildError::WrongInputKind)
    ));
}

#[test]
fn tracker_rejects_oversized_canvas() {
    let mut ctx = VkContext::new();
    let frag = image_fragment(&mut ctx, 70000, 1);
    let mut builder = CommandBufferBuilder::new();
    let tracker = Tracker::new(PoolingStrategy::Pooling4, Canvas::Pad);
    assert!(matches!(
        tracker.build(&mut ctx, &mut builder, &frag),
        Err(BuildError::ResourceAllocation)
    ));
}

#[test]
fn centroid_components_f16_layout() {
    let tf = TransferredImage {
        info: ImageInfo { width: 1, height: 1, format: PixelFormat::R16G16B16A16Sfloat },
        buffer: vec![1, 2, 3, 4, 5, 6, 0, 0],
    };
    assert_eq!(centroid_components(&tf), Some((0x0201, 0x0403, 0x0605)));
}

#[test]
fn centroid_components_f32_layout() {
    let tf = TransferredImage {
        info: ImageInfo { width: 1, height: 1, format: PixelFormat::R32G32B32A32Sfloat },
        buffer: vec![1, 0, 0, 0, 2, 0, 0, 0, 3, 0, 0, 0, 0, 0, 0, 0],
    };
    assert_eq!(centroid_components(&tf), Some((1, 2, 3)));
}

#[test]
fn centroid_components_rejects_larger_images() {
    let tf = TransferredImage {
        info: ImageInfo { width: 2, height: 1, format: PixelFormat::R16G16B16A16Sfloat },
        buffer: vec![0; 16],
    };
    assert_eq!(centroid_components(&tf), None);
}
