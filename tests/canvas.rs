use neural_net::canvas::{downsample, preprocess_canvas, recenter, CanvasError, Preprocessed};

const SIZE: usize = 280;

fn white_canvas() -> Vec<u8> {
    vec![255u8; SIZE * SIZE * 4]
}

fn paint(data: &mut [u8], x: usize, y: usize, bgr: (u8, u8, u8)) {
    let p = (y * SIZE + x) * 4;
    data[p] = bgr.0;
    data[p + 1] = bgr.1;
    data[p + 2] = bgr.2;
    data[p + 3] = 255;
}

fn paint_block(data: &mut [u8], row: usize, col: usize) {
    for dy in 0..10 {
        for dx in 0..10 {
            paint(data, col * 10 + dx, row * 10 + dy, (0, 0, 0));
        }
    }
}

fn intensities(p: &Preprocessed) -> Vec<f64> {
    p.cells.iter().map(|&c| c as f64 / p.scale as f64).collect()
}

fn centroid(v: &[f64]) -> (f64, f64) {
    let mut m = 0.0;
    let mut r = 0.0;
    let mut c = 0.0;
    for (k, &x) in v.iter().enumerate() {
        m += x;
        r += (k / 28) as f64 * x;
        c += (k % 28) as f64 * x;
    }
    (r / m, c / m)
}

#[test]
fn blank_canvas_stays_all_zero() {
    let p = preprocess_canvas(&white_canvas(), 280, 280).unwrap();
    assert_eq!(p.cells.len(), 784);
    assert!(p.cells.iter().all(|&c| c == 0));
    assert_eq!(p.scale, 25_500_000);
    assert_eq!(p.to_bytes(), vec![0u8; 784]);
}

#[test]
fn blank_grid_is_returned_unchanged() {
    let p = recenter(&vec![0u32; 784]);
    assert_eq!(p.cells, vec![0u128; 784]);
    assert_eq!(p.scale, 25_500_000);
}

#[test]
fn downsample_averages_inverted_luma() {
    let mut data = white_canvas();
    paint_block(&mut data, 0, 0);
    // one pure red pixel in block (1, 2): ink 255000 - 299 * 255
    paint(&mut data, 25, 13, (0, 0, 255));
    // one mid-grey pixel in block (27, 27): ink 255000 - 1000 * 128
    paint(&mut data, 279, 279, (128, 128, 128));
    let g = downsample(&data);
    assert_eq!(g.len(), 784);
    assert_eq!(g[0], 25_500_000);
    assert_eq!(g[28 + 2], 255_000 - 299 * 255);
    assert_eq!(g[783], 255_000 - 128_000);
    assert_eq!(g[1], 0);
    assert_eq!(g.iter().filter(|&&v| v != 0).count(), 3);
}

#[test]
fn single_block_off_centre_is_moved_to_the_centre() {
    let mut data = white_canvas();
    paint_block(&mut data, 3, 5);
    let p = preprocess_canvas(&data, 280, 280).unwrap();
    let v = intensities(&p);
    let (r, c) = centroid(&v);
    assert!((r - 13.5).abs() <= 0.5, "row centroid {}", r);
    assert!((c - 13.5).abs() <= 0.5, "col centroid {}", c);
    // the block's ink is shared equally by the four centre cells
    for &k in &[13 * 28 + 13, 13 * 28 + 14, 14 * 28 + 13, 14 * 28 + 14] {
        assert_eq!(p.cells[k] * 4, p.scale);
    }
    let bytes = p.to_bytes();
    assert_eq!(bytes[13 * 28 + 13], 63);
    assert_eq!(bytes.iter().filter(|&&b| b != 0).count(), 4);
}

#[test]
fn single_block_at_the_corner_stays_within_half_a_cell() {
    let mut data = white_canvas();
    paint_block(&mut data, 0, 27);
    let p = preprocess_canvas(&data, 280, 280).unwrap();
    let (r, c) = centroid(&intensities(&p));
    assert!((r - 13.5).abs() <= 0.5, "row centroid {}", r);
    assert!((c - 13.5).abs() <= 0.5, "col centroid {}", c);
}

#[test]
fn centred_stroke_keeps_its_ink() {
    let mut data = white_canvas();
    for row in 10..18 {
        paint_block(&mut data, row, 13);
        paint_block(&mut data, row, 14);
    }
    let p = preprocess_canvas(&data, 280, 280).unwrap();
    // the centroid is already (13.5, 13.5): nothing moves
    let bytes = p.to_bytes();
    assert_eq!(bytes[12 * 28 + 13], 255);
    assert_eq!(bytes[9 * 28 + 13], 0);
    assert_eq!(bytes[12 * 28 + 12], 0);
    let (r, c) = centroid(&intensities(&p));
    assert!((r - 13.5).abs() < 1e-9 && (c - 13.5).abs() < 1e-9);
}

#[test]
fn short_buffer_is_refused() {
    let data = vec![255u8; 280 * 280 * 4 - 1];
    assert_eq!(
        preprocess_canvas(&data, 280, 280).err(),
        Some(CanvasError::BufferTooShort { needed: 313_600, actual: 313_599 })
    );
    assert_eq!(
        preprocess_canvas(&[], 280, 280).err(),
        Some(CanvasError::BufferTooShort { needed: 313_600, actual: 0 })
    );
}

#[test]
fn other_surface_sizes_are_refused() {
    let data = white_canvas();
    assert_eq!(
        preprocess_canvas(&data, 28, 28).err(),
        Some(CanvasError::UnsupportedSize { width: 28, height: 28 })
    );
    assert_eq!(
        preprocess_canvas(&data, 280, 279).err(),
        Some(CanvasError::UnsupportedSize { width: 280, height: 279 })
    );
}

#[test]
fn longer_buffer_is_accepted() {
    let mut data = white_canvas();
    data.extend_from_slice(&[0, 0, 0, 0]);
    assert!(preprocess_canvas(&data, 280, 280).is_ok());
}
