use vkcv::processing_elements::tracker::PoolingStrategy;
use vkcv::reduction::{calculate_centroid, create_coordinate_mask, reduce};

fn block_mask(n: u32, bx: u32, by: u32, k: u32) -> Vec<u8> {
    let mut weights = vec![0u8; (n * n) as usize];
    for y in by..by + k {
        for x in bx..bx + k {
            weights[(y * n + x) as usize] = 1;
        }
    }
    weights
}

fn check_block_centroid(n: u32, bx: u32, by: u32, k: u32) {
    let weights = block_mask(n, bx, by, k);
    let cm = create_coordinate_mask(&weights, n, n, n);
    let c = calculate_centroid(&cm).unwrap();
    // weight is the block's area
    assert_eq!(c.weight, (k as u64) * (k as u64));
    // centroid is ((bx + k/2)/n, (by + k/2)/n), compared exactly as
    // fractions: x_num/x_den == (2*bx+k)/(2*n)
    assert_eq!(c.x_num * 2 * n as u64, (2 * bx + k) as u64 * c.x_den);
    assert_eq!(c.y_num * 2 * n as u64, (2 * by + k) as u64 * c.y_den);
}

#[test]
fn block_centroid_64() {
    check_block_centroid(64, 10, 20, 4);
}

#[test]
fn block_centroid_256() {
    check_block_centroid(256, 100, 40, 16);
}

#[test]
fn block_centroid_1024() {
    check_block_centroid(1024, 512, 768, 32);
}

#[test]
fn uniform_mask_centroid_is_centre() {
    let n: u32 = 64;
    let weights = vec![1u8; (n * n) as usize];
    let cm = create_coordinate_mask(&weights, n, n, n);
    let c = calculate_centroid(&cm).unwrap();
    assert_eq!(c.weight, (n as u64) * (n as u64));
    // centroid (1/2, 1/2), exactly
    assert_eq!(c.x_num * 2, c.x_den);
    assert_eq!(c.y_num * 2, c.y_den);
}

#[test]
fn empty_mask_has_no_detection() {
    let n: u32 = 64;
    let weights = vec![0u8; (n * n) as usize];
    let cm = create_coordinate_mask(&weights, n, n, n);
    assert!(calculate_centroid(&cm).is_none());
    assert_eq!(reduce(&cm, PoolingStrategy::Pooling4), (0, 0, 0));
}

#[test]
fn hierarchical_reduction_matches_single_pass() {
    // a deterministic pseudo-random grayscale mask
    let n: u32 = 64;
    let mut weights = vec![0u8; (n * n) as usize];
    let mut state: u64 = 0x243f_6a88_85a3_08d3;
    for w in weights.iter_mut() {
        state = state.wrapping_mul(6364136223846793005).wrapping_add(1442695040888963407);
        *w = (state >> 56) as u8;
    }
    let cm = create_coordinate_mask(&weights, n, n, n);
    let r4 = reduce(&cm, PoolingStrategy::Pooling4);
    let r2 = reduce(&cm, PoolingStrategy::Pooling2);
    let rs = reduce(&cm, PoolingStrategy::SampledPooling4);
    // every schedule reduces to the same sums
    assert_eq!(r4, r2);
    assert_eq!(r4, rs);
    // and they match the single-pass reference
    let c = calculate_centroid(&cm).unwrap();
    assert_eq!(r4.0, c.x_num);
    assert_eq!(r4.1, c.y_num);
    assert_eq!(r4.2, c.weight);
}

#[test]
fn pad_and_crop_canvases_agree_on_the_centroid() {
    // a 640x480 mask with a block well inside the cropped 512x480 region:
    // the Pad canvas (1024) and the Crop canvas (512) see the same pixels,
    // and both normalise over the original 640x480 sub-region.
    let (w, h) = (640u32, 480u32);
    let mut weights = vec![0u8; (w * h) as usize];
    for y in 100..108u32 {
        for x in 200..208u32 {
            weights[(y * w + x) as usize] = 1;
        }
    }
    let cm_pad = create_coordinate_mask(&weights, w, h, 1024);
    let cm_crop = create_coordinate_mask(&weights, w, h, 512);
    let c_pad = calculate_centroid(&cm_pad).unwrap();
    let c_crop = calculate_centroid(&cm_crop).unwrap();
    assert_eq!(c_pad.weight, c_crop.weight);
    assert_eq!(c_pad.x_num * c_crop.x_den, c_crop.x_num * c_pad.x_den);
    assert_eq!(c_pad.y_num * c_crop.y_den, c_crop.y_num * c_pad.y_den);
    // the expected exact centroid: ((200 + 4)/640, (100 + 4)/480)
    assert_eq!(c_pad.x_num * 2 * 640, (2 * 200 + 8) * c_pad.x_den);
    assert_eq!(c_pad.y_num * 2 * 480, (2 * 100 + 8) * c_pad.y_den);
}

#[test]
fn crop_canvas_drops_pixels_outside() {
    // a single lit pixel at x = 600 is inside the Pad canvas but outside a
    // 512-wide Crop canvas
    let (w, h) = (640u32, 480u32);
    let mut weights = vec![0u8; (w * h) as usize];
    weights[(10 * w + 600) as usize] = 1;
    let cm_pad = create_coordinate_mask(&weights, w, h, 1024);
    let cm_crop = create_coordinate_mask(&weights, w, h, 512);
    assert_eq!(calculate_centroid(&cm_pad).unwrap().weight, 1);
    assert!(calculate_centroid(&cm_crop).is_none());
}
