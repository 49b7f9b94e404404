use rtweekend::ieee;
use rtweekend::render::{
    channel_byte, encode_row, output_color, output_row, render, render_parallel, RenderParams,
};
use rtweekend::vec3::Vec3;

fn reference_byte(v: f64) -> u8 {
    (v.clamp(0.0, 0.999) * 256.0) as u8
}

fn triple(a: f64, b: f64, c: f64) -> Vec3 {
    Vec3::new(a.to_bits(), b.to_bits(), c.to_bits())
}

#[test]
fn channel_byte_matches_float_arithmetic() {
    let mut samples: Vec<f64> = vec![
        0.0, -0.0, 1.0, -1.0, 0.5, 0.999, 0.9990000000000001, 0.9989999999999999, 0.99,
        0.00390625, 0.003906249999, 0.0039062500001, 1e-300, 5e-324, 2.5, 1e300,
        f64::INFINITY, f64::NEG_INFINITY, f64::NAN, -f64::NAN, f64::MIN_POSITIVE, 0.75, 0.85,
    ];
    let mut v = 0.0f64;
    while v < 1.1 {
        samples.push(v);
        samples.push(v.sqrt());
        v += 0.000731;
    }
    for k in 0..=256 {
        let edge = k as f64 / 256.0;
        samples.push(edge);
        samples.push(f64::from_bits(edge.to_bits().wrapping_sub(1)));
        samples.push(f64::from_bits(edge.to_bits() + 1));
    }
    for s in samples {
        assert_eq!(channel_byte(s.to_bits()), reference_byte(s), "value {:?}", s);
    }
}

#[test]
fn output_color_black_and_white() {
    let mut px: Vec<u8> = Vec::new();
    output_color(&mut px, &triple(0.0f64.sqrt(), 0.0f64.sqrt(), 0.0f64.sqrt()));
    assert_eq!(px, vec![0, 0, 0]);
    let mut px: Vec<u8> = Vec::new();
    output_color(&mut px, &triple(1.0f64.sqrt(), 1.0f64.sqrt(), 1.0f64.sqrt()));
    assert_eq!(px, vec![255, 255, 255]);
}

#[test]
fn render_flips_the_scanlines() {
    let params = RenderParams { image_width: 2, image_height: 3, samples_per_px: 1, max_depth: 1 };
    let rows = vec![
        vec![triple(0.0, 0.0, 0.0), triple(0.25, 0.25, 0.25)],
        vec![triple(0.5, 0.5, 0.5), triple(0.75, 0.75, 0.75)],
        vec![triple(1.0, 0.0, 1.0), triple(0.0, 1.0, 0.0)],
    ];
    let shade = |i: i64, j: i64| rows[i as usize][j as usize];
    let out = render(&params, shade);
    assert_eq!(
        out,
        vec![255, 0, 255, 0, 255, 0, 128, 128, 128, 192, 192, 192, 0, 0, 0, 64, 64, 64]
    );
    assert_eq!(render_parallel(&params, shade), out);
    assert!(ieee::lt(0.25f64.to_bits(), 0.5f64.to_bits()));
}

#[test]
fn parameters_are_checked() {
    let good = RenderParams { image_width: 1200, image_height: 800, samples_per_px: 200, max_depth: 50 };
    assert!(good.is_valid());
    assert_eq!(good.buffer_len(), 3 * 1200 * 800);
    assert_eq!(good.scanline_offset(799), 0);
    assert_eq!(good.scanline_offset(798), 3 * 1200);
    assert_eq!(good.scanline_offset(0), 3 * 1200 * 799);
    assert!(RenderParams { max_depth: 0, ..good }.is_valid());
    assert!(!RenderParams { image_width: 0, ..good }.is_valid());
    assert!(!RenderParams { image_height: -1, ..good }.is_valid());
    assert!(!RenderParams { samples_per_px: 0, ..good }.is_valid());
    assert!(!RenderParams { max_depth: -1, ..good }.is_valid());
    assert!(!RenderParams { image_width: i64::MAX, image_height: i64::MAX, ..good }.is_valid());
}

#[test]
fn scanlines_are_asked_for_from_the_top() {
    let params = RenderParams { image_width: 3, image_height: 4, samples_per_px: 1, max_depth: 1 };
    let asked = std::cell::RefCell::new(Vec::new());
    let out = render(&params, |i, j| {
        asked.borrow_mut().push((i, j));
        triple(0.0, 0.0, 0.0)
    });
    assert_eq!(out, vec![0u8; 36]);
    let mut expected = Vec::new();
    for i in (0..4).rev() {
        for j in 0..3 {
            expected.push((i, j));
        }
    }
    assert_eq!(asked.into_inner(), expected);
}

#[test]
fn every_pixel_is_asked_for_once_in_parallel() {
    let params = RenderParams { image_width: 5, image_height: 7, samples_per_px: 1, max_depth: 1 };
    let asked = std::sync::Mutex::new(Vec::new());
    let out = render_parallel(&params, |i, j| {
        asked.lock().unwrap().push((i, j));
        triple(1.0, 1.0, 1.0)
    });
    assert_eq!(out, vec![255u8; 105]);
    let mut seen = asked.into_inner().unwrap();
    seen.sort();
    let mut expected = Vec::new();
    for i in 0..7 {
        for j in 0..5 {
            expected.push((i, j));
        }
    }
    assert_eq!(seen, expected);
}

#[test]
fn rows_are_encoded_pixel_by_pixel() {
    let row = vec![triple(0.0, 0.5, 1.0), triple(0.25, 2.0, -1.0), triple(f64::NAN, 0.999, 0.998)];
    assert_eq!(encode_row(&row), vec![0, 128, 255, 64, 255, 0, 0, 255, 255]);
    assert_eq!(encode_row(&Vec::new()), Vec::<u8>::new());
    let shade = |_: i64, j: i64| row[j as usize];
    let params = RenderParams { image_width: 3, image_height: 2, samples_per_px: 1, max_depth: 0 };
    assert_eq!(output_row(&params, &shade, 0), encode_row(&row));
    assert_eq!(output_row(&params, &shade, 1), encode_row(&row));
}

#[test]
fn parallel_rows_keep_their_places() {
    let width = 37usize;
    let height = 53usize;
    let params = RenderParams {
        image_width: width as i64,
        image_height: height as i64,
        samples_per_px: 1,
        max_depth: 1,
    };
    let mut rows: Vec<Vec<Vec3>> = Vec::new();
    for i in 0..height {
        let mut row: Vec<Vec3> = Vec::new();
        for j in 0..width {
            row.push(triple(i as f64 / 256.0, j as f64 / 256.0, ((i + j) % 256) as f64 / 256.0));
        }
        rows.push(row);
    }
    let shade = |i: i64, j: i64| rows[i as usize][j as usize];
    let out = render_parallel(&params, shade);
    assert_eq!(out.len(), 3 * width * height);
    for i in 0..height {
        for j in 0..width {
            let at = params.scanline_offset(i as i64) + 3 * j;
            assert_eq!(out[at] as usize, i);
            assert_eq!(out[at + 1] as usize, j);
            assert_eq!(out[at + 2] as usize, (i + j) % 256);
        }
    }
    assert_eq!(out, render(&params, shade));
}
