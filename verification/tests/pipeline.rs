use vkcv::endpoints::image_download::ImageDownload;
use vkcv::endpoints::image_upload::ImageUpload;
use vkcv::processing_elements::grayscale::Grayscale;
use vkcv::processing_elements::input::Input;
use vkcv::processing_elements::output::Output;
use vkcv::processing_elements::tracker::{Canvas, PoolingStrategy, Tracker};
use vkcv::processing_elements::{
    BuildError, CommandBufferBuilder, GpuCommand, IoFragment, ProcessingElement, Stage,
};
use vkcv::utils::{
    cv_pipeline_sequential, cv_pipeline_sequential_debug, rgb8_to_rgba8, update_moving_average_us,
    workgroups, ImageInfo, PipelineError, PixelFormat,
};
use vkcv::vk_init::{device_preference_rank, PhysicalDeviceKind, VkContext};

fn camera_format() -> ImageInfo {
    ImageInfo { width: 640, height: 480, format: PixelFormat::R8G8B8A8Unorm }
}

fn tracking_elements() -> Vec<Stage> {
    vec![
        Stage::Grayscale(Grayscale::new()),
        Stage::Tracker(Tracker::new(PoolingStrategy::Pooling4, Canvas::Pad)),
    ]
}

#[test]
fn sequential_pipeline_records_all_stages() {
    let mut ctx = VkContext::new();
    let input = Input::new(camera_format());
    let elements = tracking_elements();
    let output = Output::new();
    let (cb, input_io, output_io) =
        cv_pipeline_sequential(&mut ctx, &input, &elements, &output).unwrap();
    // upload copy, grayscale, canvas, coordinate mask, 5 pooling passes
    // (1024 = 2^10, so ceil(10/2)), readback copy
    assert_eq!(cb.len(), 10);
    assert!(input_io.input_buffer().is_some());
    assert!(input_io.output_image().is_some());
    assert!(output_io.output_buffer().is_some());
    // the readback buffer holds a single wide pixel
    assert_eq!(output_io.output_buffer().unwrap().len, 8);
    // the upload buffer holds one full frame
    assert_eq!(input_io.input_buffer().unwrap().len, 640 * 480 * 4);
}

#[test]
fn debug_pipeline_extends_the_sequential_sequence() {
    let input = Input::new(camera_format());
    let elements = tracking_elements();
    let output = Output::new();

    let mut ctx_a = VkContext::new();
    let (cb, _, _) = cv_pipeline_sequential(&mut ctx_a, &input, &elements, &output).unwrap();

    let mut ctx_b = VkContext::new();
    let dbg = cv_pipeline_sequential_debug(&mut ctx_b, &input, &elements, &output).unwrap();

    // the combined sequence starts with exactly the sequential sequence
    assert_eq!(dbg.cb.len(), cb.len() + 3);
    for i in 0..cb.len() {
        assert_eq!(dbg.cb.commands()[i], cb.commands()[i]);
    }
    // and continues with nothing but readback copies for the taps
    for i in cb.len()..dbg.cb.len() {
        match dbg.cb.commands()[i] {
            GpuCommand::CopyImageToBuffer { .. } => {}
            _ => panic!("taps must only read images back"),
        }
    }
    // one tap per token (input + 2 stages), one standalone sequence per stage
    assert_eq!(dbg.debug_outputs.len(), 3);
    assert_eq!(dbg.individual_cbs.len(), 2);
    assert_eq!(dbg.stage_labels.len(), 2);
    // the standalone sequences carry the same per-stage command counts as
    // the combined one: 1 for grayscale, 7 for the tracker
    assert_eq!(dbg.individual_cbs[0].len(), 1);
    assert_eq!(dbg.individual_cbs[1].len(), 7);
}

#[test]
fn rebuilding_leaves_the_old_pipeline_intact() {
    let mut ctx = VkContext::new();
    let input = Input::new(camera_format());
    let output = Output::new();
    let elements = tracking_elements();
    let (cb1, input_io1, _) =
        cv_pipeline_sequential(&mut ctx, &input, &elements, &output).unwrap();
    let images_before = ctx.images.clone();
    let buffers_before = ctx.buffers.len();

    // reconfigure: a second pipeline from the same context
    let elements2 = vec![Stage::Tracker(Tracker::new(PoolingStrategy::Pooling2, Canvas::Crop))];
    let (cb2, _, _) = cv_pipeline_sequential(&mut ctx, &input, &elements2, &output).unwrap();

    // every resource of the first pipeline is still registered, unchanged
    for (i, info) in images_before.iter().enumerate() {
        assert_eq!(ctx.images[i], *info);
    }
    // the first pipeline's sequence still refers to valid resources
    assert!(cb1.len() > 0);
    assert!(input_io1.input_buffer().unwrap().id < buffers_before);
    // the new sequence touches only resources allocated after the rebuild
    for cmd in cb2.commands().iter() {
        match *cmd {
            GpuCommand::CopyBufferToImage { src, dst } => {
                assert!(src.id >= buffers_before);
                assert!(dst.id >= images_before.len());
            }
            GpuCommand::CopyImageToBuffer { src, dst } => {
                assert!(src.id >= images_before.len());
                assert!(dst.id >= buffers_before);
            }
            GpuCommand::Dispatch { input, output, .. } => {
                assert!(input.id >= images_before.len());
                assert!(output.id >= images_before.len());
            }
        }
    }
}

#[test]
fn pipeline_error_names_the_failing_stage() {
    let mut ctx = VkContext::new();
    // an input descriptor the allocator cannot satisfy
    let input = Input::new(ImageInfo {
        width: 100_000,
        height: 100_000,
        format: PixelFormat::R8G8B8A8Unorm,
    });
    let elements = tracking_elements();
    let output = Output::new();
    let r = cv_pipeline_sequential(&mut ctx, &input, &elements, &output);
    assert_eq!(
        r.err().unwrap(),
        PipelineError { stage_index: 0, error: BuildError::ResourceAllocation }
    );
}

#[test]
fn workgroups_round_up() {
    assert_eq!(workgroups(&[640, 480], &[16, 16]), [40, 30, 1]);
    assert_eq!(workgroups(&[30, 20], &[16, 16]), [2, 2, 1]);
    assert_eq!(workgroups(&[1, 1], &[16, 16]), [1, 1, 1]);
    assert_eq!(workgroups(&[0, 16], &[16, 16]), [0, 1, 1]);
}

#[test]
fn rgb_bytes_gain_an_alpha_channel() {
    let info = ImageInfo { width: 2, height: 1, format: PixelFormat::R8G8B8Uint };
    let (new_info, out) = rgb8_to_rgba8(&info, &[10, 20, 30, 40, 50, 60]);
    assert_eq!(new_info.format, PixelFormat::R8G8B8A8Uint);
    assert_eq!(new_info.width, 2);
    assert_eq!(out, vec![10, 20, 30, 255, 40, 50, 60, 255]);
}

#[test]
fn moving_average_blends_nine_to_one() {
    assert_eq!(update_moving_average_us(1000, 2000), 1100);
    assert_eq!(update_moving_average_us(0, 500), 50);
    assert_eq!(update_moving_average_us(100, 100), 100);
}

#[test]
fn upload_truncates_and_pads_to_the_buffer_length() {
    let mut ctx = VkContext::new();
    let input = Input::new(ImageInfo { width: 2, height: 2, format: PixelFormat::R8Unorm });
    let mut builder = CommandBufferBuilder::new();
    let frag = input.build(&mut ctx, &mut builder, &IoFragment::none()).unwrap();
    let buf_id = frag.input_buffer().unwrap().id;
    let upload = ImageUpload::from_io(frag).unwrap();

    // longer data is truncated to the buffer's 4 bytes
    upload.copy_input_data(&mut ctx, &[1, 2, 3, 4, 5, 6]);
    assert_eq!(ctx.buffers[buf_id], vec![1, 2, 3, 4]);
    // shorter data is zero-padded
    upload.copy_input_data(&mut ctx, &[9]);
    assert_eq!(ctx.buffers[buf_id], vec![9, 0, 0, 0]);
}

#[test]
fn upload_rejects_fragments_without_a_buffer() {
    assert!(ImageUpload::from_io(IoFragment::none()).is_err());
}

#[test]
fn download_reads_the_output_buffer() {
    let mut ctx = VkContext::new();
    let img = ctx.register_image(ImageInfo {
        width: 1,
        height: 1,
        format: PixelFormat::R16G16B16A16Sfloat,
    });
    let mut builder = CommandBufferBuilder::new();
    let frag = IoFragment {
        input: vkcv::processing_elements::Io::Image(img),
        output: vkcv::processing_elements::Io::Image(img),
        label: "upstream".to_string(),
    };
    let out_frag = Output::new().build(&mut ctx, &mut builder, &frag).unwrap();
    let buf_id = out_frag.output_buffer().unwrap().id;
    let mut download = ImageDownload::from_io(out_frag).unwrap();
    assert_eq!(download.image_info().width, 1);

    // the device would fill the buffer on submission; play its part here
    ctx.buffers[buf_id] = vec![8, 7, 6, 5, 4, 3, 2, 1];
    let tf = download.transfer(&ctx);
    assert_eq!(*tf.buffer_content(), vec![8, 7, 6, 5, 4, 3, 2, 1]);
    let again = download.transferred_image();
    assert_eq!(*again.buffer_content(), vec![8, 7, 6, 5, 4, 3, 2, 1]);
    assert_eq!(again.info(), download.image_info());
}

#[test]
fn download_rejects_fragments_without_a_buffer() {
    assert!(ImageDownload::from_io(IoFragment::none()).is_err());
}

#[test]
fn device_selection_prefers_discrete_gpus() {
    let order = [
        PhysicalDeviceKind::DiscreteGpu,
        PhysicalDeviceKind::IntegratedGpu,
        PhysicalDeviceKind::VirtualGpu,
        PhysicalDeviceKind::Cpu,
        PhysicalDeviceKind::Other,
    ];
    for pair in order.windows(2) {
        assert!(device_preference_rank(pair[0]) < device_preference_rank(pair[1]));
    }
}
