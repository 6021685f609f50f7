use fractal::Color;
use fractal::MAX_ITERATIONS;
use fractal::RenderError;
use fractal::Screen;
use fractal::get_pixels;
use fractal::validate_params;

// The floating-point stages of the renderer, as the host runs them: map each
// pixel through the default viewport under pan/zoom and iterate z <- z^2 + c
// from z0 = (0, 0) until escape (|z|^2 >= 4) or the cap.
fn escape_count(cre: f64, cim: f64, max_iterations: u32) -> u32 {
    let mut zr: f64 = 0.0;
    let mut zi: f64 = 0.0;
    let mut i: u32 = 0;
    while i < max_iterations && zr * zr + zi * zi < 4.0 {
        let nr = zr * zr - zi * zi + cre;
        let ni = 2.0 * (zr * zi) + cim;
        zr = nr;
        zi = ni;
        i += 1;
    }
    i
}

fn escape_counts(width: u32, height: u32, mouse_x: u32, mouse_y: u32, scale_factor: f64) -> Vec<u32> {
    let x_start: f64 = -2.0;
    let x_end: f64 = 2.5;
    let y_start: f64 = -1.0;
    let y_end: f64 = 1.0;
    let pan_x = x_start + mouse_x as f64 * (x_end - x_start) / width as f64;
    let pan_y = y_start + mouse_y as f64 * (y_end - y_start) / height as f64;
    let new_width = (x_end - x_start) / scale_factor;
    let new_height = (y_end - y_start) / scale_factor;
    let new_x_start = pan_x - new_width / 2.0;
    let new_x_end = pan_x + new_width / 2.0;
    let new_y_start = pan_y - new_height / 2.0;
    let new_y_end = pan_y + new_height / 2.0;
    let mut counts = Vec::new();
    for i in 0..height {
        for j in 0..width {
            let x = new_x_start + j as f64 * (new_x_end - new_x_start) / width as f64;
            let y = new_y_start + i as f64 * (new_y_end - new_y_start) / height as f64;
            counts.push(escape_count(x, y, MAX_ITERATIONS));
        }
    }
    counts
}

#[test]
fn buffer_length_matches_dimensions() {
    for (w, h) in [(1u32, 1u32), (3, 5), (8, 2)] {
        let counts = vec![0u32; (w * h) as usize];
        let pixels = get_pixels(w, h, &counts);
        assert_eq!(pixels.len(), (w * h * 4) as usize);
    }
}

#[test]
fn every_alpha_byte_is_255() {
    let counts = escape_counts(6, 5, 3, 2, 2.0);
    let pixels = get_pixels(6, 5, &counts);
    for (k, byte) in pixels.iter().enumerate() {
        if k % 4 == 3 {
            assert_eq!(*byte, 255u8);
        }
    }
}

#[test]
fn interior_point_yields_cap_and_black() {
    // c = (0, 0) never escapes: the evaluator stops at the cap, and the
    // pixel is painted the black sentinel.
    assert_eq!(escape_count(0.0, 0.0, MAX_ITERATIONS), MAX_ITERATIONS);
    let counts = vec![MAX_ITERATIONS];
    let pixels = get_pixels(1, 1, &counts);
    assert_eq!(pixels, vec![0u8, 0, 0, 255]);
}

#[test]
fn escaped_coordinate_counts_one_step() {
    // |c|^2 > 4: z0 = (0,0) has norm 0, so the loop runs once (z = c) and
    // stops at the escape test with count 1.
    assert_eq!(escape_count(3.0, 0.0, MAX_ITERATIONS), 1);
    assert_eq!(escape_count(0.0, -2.5, MAX_ITERATIONS), 1);
    // Count 1 sits in the first band, one step past the first stop.
    let pixels = get_pixels(1, 1, &vec![1u32]);
    assert_eq!(pixels, vec![7u8, 0, 255, 255]);
}

#[test]
fn iteration_zero_gives_first_palette_stop() {
    let c = Color::from_iterations(MAX_ITERATIONS, 0);
    assert_eq!(c, Color { r: 0, g: 0, b: 255 });
}

#[test]
fn identical_inputs_give_identical_buffers() {
    let counts_a = escape_counts(5, 4, 2, 3, 1.5);
    let counts_b = escape_counts(5, 4, 2, 3, 1.5);
    assert_eq!(counts_a, counts_b);
    let pixels_a = get_pixels(5, 4, &counts_a);
    let pixels_b = get_pixels(5, 4, &counts_b);
    assert_eq!(pixels_a, pixels_b);
}

#[test]
fn golden_frame_4x4_default_viewport() {
    // width=4, height=4, mouse=(2,2), scale=1.0 pans to the center of the
    // default viewport at zoom 1, so the window is exactly the default
    // x in [-2, 2.5], y in [-1, 1].
    let counts = escape_counts(4, 4, 2, 2, 1.0);
    assert_eq!(
        counts,
        vec![1, 3, 4, 2, 1, 5, 200, 2, 1, 200, 200, 2, 1, 5, 200, 2]
    );
    let pixels = get_pixels(4, 4, &counts);
    let expected: Vec<u8> = vec![
        7, 0, 255, 255, 23, 0, 255, 255, 30, 0, 255, 255, 15, 0, 255, 255,
        7, 0, 255, 255, 38, 0, 255, 255, 0, 0, 0, 255, 15, 0, 255, 255,
        7, 0, 255, 255, 0, 0, 0, 255, 0, 0, 0, 255, 15, 0, 255, 255,
        7, 0, 255, 255, 38, 0, 255, 255, 0, 0, 0, 255, 15, 0, 255, 255,
    ];
    assert_eq!(pixels, expected);
}

#[test]
fn count_198_clamps_to_last_band() {
    // 198 / 33 = 6 would pass the last band; the clamp keeps it in band 5,
    // whose start stop is white, and 198 % 33 = 0 lands exactly on it.
    let c = Color::from_iterations(MAX_ITERATIONS, 198);
    assert_eq!(c, Color { r: 255, g: 255, b: 255 });
}

#[test]
fn interpolation_exact_values() {
    // Band 0 (blue -> pink), position 16/33: r = 16*255/33 truncated = 123.
    assert_eq!(
        Color::from_iterations(MAX_ITERATIONS, 16),
        Color { r: 123, g: 0, b: 255 }
    );
    // Band boundary: 33 lands exactly on the second stop.
    assert_eq!(
        Color::from_iterations(MAX_ITERATIONS, 33),
        Color { r: 255, g: 0, b: 255 }
    );
    // Decreasing channel, band 1 (pink -> red), position 32/33 for blue.
    assert_eq!(
        Color::from_iterations(MAX_ITERATIONS, 65),
        Color { r: 255, g: 0, b: 7 }
    );
    // Band 5 (white -> black), position 5/33: 255 - ceil(5*255/33) = 216.
    assert_eq!(
        Color::from_iterations(MAX_ITERATIONS, 170),
        Color { r: 216, g: 216, b: 216 }
    );
    // The largest escaping count.
    assert_eq!(
        Color::from_iterations(MAX_ITERATIONS, 199),
        Color { r: 247, g: 247, b: 247 }
    );
}

#[test]
fn cap_count_gives_black_sentinel() {
    // At the cap the mapper returns the in-set sentinel, not a gradient
    // value from the last band.
    let c = Color::from_iterations(MAX_ITERATIONS, MAX_ITERATIONS);
    assert_eq!(c, Color { r: 0, g: 0, b: 0 });
}

#[test]
fn black_is_black() {
    assert_eq!(Color::black(), Color { r: 0, g: 0, b: 0 });
}

#[test]
fn validation_accepts_good_parameters() {
    assert_eq!(validate_params(4, 4, 2, 2, true), Ok(()));
    assert_eq!(validate_params(1, 1, 0, 0, true), Ok(()));
}

#[test]
fn validation_rejects_zero_dimension() {
    assert_eq!(
        validate_params(0, 4, 0, 0, true),
        Err(RenderError::ZeroDimension)
    );
    assert_eq!(
        validate_params(4, 0, 0, 0, true),
        Err(RenderError::ZeroDimension)
    );
}

#[test]
fn validation_rejects_non_positive_scale() {
    assert_eq!(
        validate_params(4, 4, 2, 2, 0.0f64 > 0.0),
        Err(RenderError::NonPositiveScale)
    );
    assert_eq!(
        validate_params(4, 4, 2, 2, -1.0f64 > 0.0),
        Err(RenderError::NonPositiveScale)
    );
}

#[test]
fn validation_rejects_pan_out_of_bounds() {
    assert_eq!(
        validate_params(4, 4, 4, 2, true),
        Err(RenderError::PanOutOfBounds)
    );
    assert_eq!(
        validate_params(4, 4, 2, 7, true),
        Err(RenderError::PanOutOfBounds)
    );
}

#[test]
fn screen_reports_its_parts() {
    let counts = escape_counts(3, 2, 1, 1, 1.0);
    let pixels = get_pixels(3, 2, &counts);
    let copy = pixels.clone();
    let screen = Screen::new(3, 2, pixels);
    assert_eq!(screen.width(), 3);
    assert_eq!(screen.height(), 2);
    assert_eq!(screen.pixels(), &copy);
    assert_eq!(screen.pixels().len(), 3 * 2 * 4);
}
