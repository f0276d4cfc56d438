use mandelbrot::color::{color, Rgb};
use mandelbrot::complex::Complex;
use mandelbrot::engine::{run_engine, OrbitPoint};
use mandelbrot::render::assemble_image;

fn rgb(r: u8, g: u8, b: u8) -> Rgb {
    Rgb { r, g, b }
}

#[test]
fn assemble_without_antialiasing_is_identity() {
    let sub = vec![rgb(1, 2, 3), rgb(4, 5, 6), rgb(7, 8, 9), rgb(10, 11, 12)];
    let img = assemble_image(2, 2, 1, &sub);
    assert_eq!(img, sub);
}

#[test]
fn assemble_averages_each_block() {
    // one pixel, 2x2 sub-grid
    let sub = vec![rgb(255, 0, 0), rgb(0, 255, 0), rgb(0, 0, 255), rgb(255, 255, 255)];
    let img = assemble_image(1, 1, 2, &sub);
    assert_eq!(img, vec![rgb(127, 127, 127)]);

    // two pixels wide, one tall: the sub-grid row is 4 wide, and each
    // pixel averages its own 2x2 block
    let sub_row = vec![
        rgb(10, 0, 0),
        rgb(100, 0, 0),
        rgb(20, 0, 0),
        rgb(200, 0, 0),
        rgb(30, 0, 0),
        rgb(104, 0, 0),
        rgb(40, 0, 0),
        rgb(208, 0, 0),
    ];
    let img_row = assemble_image(2, 1, 2, &sub_row);
    // pixel 0 averages {10, 100, 30, 104}, pixel 1 averages {20, 200, 40, 208}
    assert_eq!(img_row, vec![rgb(61, 0, 0), rgb(117, 0, 0)]);
}

// Everything below is the floating-point rim of the pipeline, mirrored
// here so the end-to-end scenario can drive the library's verified core.

fn px_to_incr(scale: f32, width: u32) -> f32 {
    (1.0 / width as f32) * scale
}

fn pixel_to_point(x: u32, y: u32, re0: f32, im0: f32, incr: f32) -> (f32, f32) {
    ((x as f32 * incr) + re0, (y as f32 * incr) + im0)
}

fn orbit_for(c_re: f32, c_im: f32, len: usize) -> Vec<OrbitPoint> {
    let mut points = Vec::new();
    let mut zr = 0.0f32;
    let mut zi = 0.0f32;
    for _ in 0..len {
        let escaped = !(zr * zr + zi * zi <= 4.0);
        points.push(OrbitPoint {
            z: Complex::new(zr.to_bits(), zi.to_bits()),
            escaped,
        });
        let nr = zr * zr - zi * zi + c_re;
        let ni = 2.0 * zr * zi + c_im;
        zr = nr;
        zi = ni;
    }
    points
}

fn hsv_to_rgb(h: f32, s: f32, v: f32) -> Rgb {
    let c = v * s;
    let h_dash = h / 60.0;
    let x = c * (1.0 - (h_dash % 2.0 - 1.0).abs());
    let m = v - c;
    let (r, g, b) = if h_dash < 1.0 {
        (c, x, 0.0)
    } else if h_dash < 2.0 {
        (x, c, 0.0)
    } else if h_dash < 3.0 {
        (0.0, c, x)
    } else if h_dash < 4.0 {
        (0.0, x, c)
    } else if h_dash < 5.0 {
        (x, 0.0, c)
    } else {
        (c, 0.0, x)
    };
    Rgb {
        r: ((r + m) * 255.0) as u8,
        g: ((g + m) * 255.0) as u8,
        b: ((b + m) * 255.0) as u8,
    }
}

fn sample_color(c_re: f32, c_im: f32, max_iterations: u32) -> Rgb {
    let orbit = orbit_for(c_re, c_im, max_iterations as usize + 5);
    let (n, z_final) = run_engine(&orbit, max_iterations);
    let zr = f32::from_bits(z_final.re);
    let zi = f32::from_bits(z_final.im);
    let abs_sq = zr * zr + zi * zi;
    let if32 = max_iterations as f32;
    let v = 6.0 + n as f32 - abs_sq.ln().ln() * (1.0 / 0.69314718056);
    let escape_rgb = hsv_to_rgb(360.0 * v / if32, 1.0, 10.0 * v / if32);
    color(n, max_iterations, escape_rgb)
}

fn render(
    width: u32,
    height: u32,
    re0: f32,
    im0: f32,
    scale: f32,
    max_iterations: u32,
    aa: u32,
) -> Vec<Rgb> {
    let incr = px_to_incr(scale, width) / aa as f32;
    let mut sub_colors = Vec::new();
    for sy in 0..height * aa {
        for sx in 0..width * aa {
            let (c_re, c_im) = pixel_to_point(sx, sy, re0, im0, incr);
            sub_colors.push(sample_color(c_re, c_im, max_iterations));
        }
    }
    assemble_image(width as usize, height as usize, aa as usize, &sub_colors)
}

#[test]
fn hsv_red_swaps_to_blue_through_color() {
    // hue 0 at full saturation and value is pure red out of the HSV
    // conversion, and pure blue after the mapper's channel swap
    assert_eq!(hsv_to_rgb(0.0, 1.0, 1.0), rgb(255, 0, 0));
    assert_eq!(color(3, 16, hsv_to_rgb(0.0, 1.0, 1.0)), rgb(0, 0, 255));
}

#[test]
fn coordinate_mapper_round_trip() {
    let (re0, im0, scale) = (-2.0f32, -1.12f32, 3.0f32);
    let width = 4u32;
    let incr = px_to_incr(scale, width);
    assert_eq!(pixel_to_point(0, 0, re0, im0, incr), (re0, im0));
    let (re_end, im_end) = pixel_to_point(width, 0, re0, im0, incr);
    assert!((re_end - (re0 + scale)).abs() <= f32::EPSILON * 4.0);
    assert_eq!(im_end, im0);
}

#[test]
fn four_by_four_render_is_deterministic() {
    let first = render(4, 4, -2.0, -1.12, 3.0, 16, 1);
    assert_eq!(first.len(), 16);
    for _ in 0..3 {
        let again = render(4, 4, -2.0, -1.12, 3.0, 16, 1);
        assert_eq!(again, first);
    }
}

#[test]
fn antialiased_render_is_deterministic_too() {
    let first = render(2, 2, -2.0, -1.12, 3.0, 8, 2);
    assert_eq!(first.len(), 4);
    let again = render(2, 2, -2.0, -1.12, 3.0, 8, 2);
    assert_eq!(again, first);
}
