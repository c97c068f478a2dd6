use signed::render::{sample_grid, Color, RenderBuffer, SubSample, COLOR_ONE};

const WHITE: Color = Color { r: 65536, g: 65536, b: 65536, a: 65536 };
const BACKGROUND: Color = Color { r: 0, g: 0, b: 0, a: 65536 };

/// The byte offset of image pixel (x, y): image rows are stored bottom-up.
fn base(width: usize, height: usize, x: usize, y: usize) -> usize {
    ((height - 1 - y) * width + x) * 4
}

#[test]
fn color_one_matches_scale() {
    assert_eq!(COLOR_ONE, 65536);
}

#[test]
fn grid_single_sample_is_centered() {
    let g = sample_grid(1);
    assert_eq!(g, vec![SubSample { dx_num: -1, dy_num: -1, denom: 2 }]);
    // the offset is (-1/2, -1/2) pixel units, as 0/1 - 0.5
    assert_eq!(g[0].dx_num as f64 / g[0].denom as f64, 0.0 / 1.0 - 0.5);
}

#[test]
fn grid_two_by_two() {
    let g = sample_grid(2);
    assert_eq!(
        g,
        vec![
            SubSample { dx_num: -2, dy_num: -2, denom: 4 },
            SubSample { dx_num: -2, dy_num: 0, denom: 4 },
            SubSample { dx_num: 0, dy_num: -2, denom: 4 },
            SubSample { dx_num: 0, dy_num: 0, denom: 4 },
        ]
    );
    // each offset is m/aa - 0.5 in pixel units
    for (k, s) in g.iter().enumerate() {
        let m = (k / 2) as f64;
        let n = (k % 2) as f64;
        assert_eq!(s.dx_num as f64 / s.denom as f64, m / 2.0 - 0.5);
        assert_eq!(s.dy_num as f64 / s.denom as f64, n / 2.0 - 0.5);
    }
}

#[test]
fn grid_len_is_squared() {
    assert_eq!(sample_grid(3).len(), 9);
    assert_eq!(sample_grid(16).len(), 256);
}

#[test]
fn buffer_new_zeroed() {
    let b = RenderBuffer::new(3, 2);
    assert_eq!(b.width, 3);
    assert_eq!(b.height, 2);
    assert_eq!(b.pixels, vec![0u8; 24]);
}

#[test]
fn buffer_resize() {
    let mut b = RenderBuffer::new(1, 1);
    b.resize(2, 2);
    assert_eq!((b.width, b.height, b.pixels.len()), (2, 2, 16));
}

#[test]
fn single_sample_pixels_are_unblended() {
    // one sample per pixel: every written pixel carries the sample's exact
    // RGBA8 value, either full white or the background
    let mut b = RenderBuffer::new(2, 2);
    let samples = vec![WHITE, BACKGROUND, BACKGROUND, WHITE];
    b.write_image(&samples, 1);
    // sample 0 is image pixel (0,0): bottom-left, so the buffer's second row
    assert_eq!(&b.pixels[8..12], &[255, 255, 255, 255]);
    assert_eq!(&b.pixels[12..16], &[0, 0, 0, 255]);
    // sample 3 is image pixel (1,1): top-right, the buffer's first row
    assert_eq!(&b.pixels[0..4], &[0, 0, 0, 255]);
    assert_eq!(&b.pixels[4..8], &[255, 255, 255, 255]);
}

#[test]
fn anti_aliasing_blends_edge_pixels() {
    // a hard edge through a pixel: half its sub-samples hit, half miss;
    // with a 2x2 grid the pixel comes out neither hit-white nor background
    let mut b = RenderBuffer::new(1, 1);
    let samples = vec![WHITE, WHITE, BACKGROUND, BACKGROUND];
    b.write_image(&samples, 2);
    // (2 * 65536 * 255) / (4 * 65536) = 127.5, truncated
    assert_eq!(b.pixels, vec![127, 127, 127, 255]);
}

#[test]
fn uniform_pixels_stay_binary_under_anti_aliasing() {
    let mut b = RenderBuffer::new(1, 2);
    let samples = vec![
        WHITE, WHITE, WHITE, WHITE, // pixel (0,0)
        BACKGROUND, BACKGROUND, BACKGROUND, BACKGROUND, // pixel (0,1)
    ];
    b.write_image(&samples, 2);
    assert_eq!(&b.pixels[4..8], &[255, 255, 255, 255]);
    assert_eq!(&b.pixels[0..4], &[0, 0, 0, 255]);
}

#[test]
fn quarter_hit_pixel_is_darker_than_half_hit() {
    let mut quarter = RenderBuffer::new(1, 1);
    quarter.write_image(&vec![WHITE, BACKGROUND, BACKGROUND, BACKGROUND], 2);
    // 65536 * 255 / (4 * 65536) = 63.75, truncated
    assert_eq!(quarter.pixels[0], 63);

    let mut half = RenderBuffer::new(1, 1);
    half.write_image(&vec![WHITE, WHITE, BACKGROUND, BACKGROUND], 2);
    assert!(quarter.pixels[0] < half.pixels[0]);
    assert!(half.pixels[0] < 255);
}

#[test]
fn render_twice_is_byte_identical() {
    // a deterministic but irregular sample field
    let width = 16usize;
    let height = 16usize;
    let samples: Vec<Color> = (0..width * height)
        .map(|k| {
            let v = ((k * 2654435761) % 65537) as u32;
            Color { r: v, g: v / 2, b: v / 3, a: 65536 }
        })
        .collect();

    let mut first = RenderBuffer::new(width, height);
    first.write_image(&samples, 1);
    let snapshot = first.pixels.clone();

    // the same pass into the same buffer again
    first.write_image(&samples, 1);
    assert_eq!(first.pixels, snapshot);

    // and into a fresh buffer
    let mut second = RenderBuffer::new(width, height);
    second.write_image(&samples, 1);
    assert_eq!(second.pixels, snapshot);
}

#[test]
fn disk_image_hits_center_and_misses_corners() {
    // a synthetic 64x64 pass over a centered disk: the kind of image the
    // sphere tracer produces for an on-axis sphere
    let width = 64usize;
    let height = 64usize;
    let mut samples = vec![BACKGROUND; width * height];
    for y in 0..height {
        for x in 0..width {
            let dx = x as f64 - 31.5;
            let dy = y as f64 - 31.5;
            if (dx * dx + dy * dy).sqrt() < 16.0 {
                samples[y * width + x] = WHITE;
            }
        }
    }
    let mut b = RenderBuffer::new(width, height);
    b.write_image(&samples, 1);

    let center = base(width, height, 32, 32);
    assert_eq!(&b.pixels[center..center + 4], &[255, 255, 255, 255]);
    for &(x, y) in &[(0, 0), (63, 0), (0, 63), (63, 63)] {
        let corner = base(width, height, x, y);
        assert_eq!(&b.pixels[corner..corner + 4], &[0, 0, 0, 255]);
    }
}
