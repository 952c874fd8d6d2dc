use mandelbrot_rs::gradient::{gradient, palette};
use mandelbrot_rs::mandelbrot::{pixel_position, Aspect, EscapeResult, Mandelbrot};
use mandelbrot_rs::render::{assemble, partition};

#[test]
fn gradient_ends_are_first_and_last_control_points() {
    assert_eq!(gradient(0, 100), (0x00, 0x00, 0xff));
    assert_eq!(gradient(100, 100), (0xff, 0x00, 0x00));
    assert_eq!(gradient(7, 7), palette(4));
    assert_eq!(gradient(1, 1), (0xff, 0x00, 0x00));
}

#[test]
fn gradient_on_control_points() {
    assert_eq!(gradient(25, 100), (0x00, 0xff, 0xff));
    assert_eq!(gradient(50, 100), (0x00, 0xff, 0x00));
    assert_eq!(gradient(75, 100), (0xff, 0xff, 0x00));
}

#[test]
fn gradient_interpolates_and_rounds_halves_up() {
    // t = 1/8: halfway from blue to cyan
    assert_eq!(gradient(1, 8), (0x00, 128, 0xff));
    // t = 3/8: halfway from cyan to green
    assert_eq!(gradient(3, 8), (0x00, 0xff, 128));
    // t = 1/3: a third of the way from cyan to green
    assert_eq!(gradient(1, 3), (0x00, 0xff, 170));
}

#[test]
fn colorize_bounded_is_black() {
    let m = Mandelbrot::new(50).unwrap();
    assert_eq!(m.colorize(EscapeResult::Bounded), (0, 0, 0));
    assert_eq!(m.colorize(EscapeResult::Escaped(50)), (0xff, 0x00, 0x00));
    assert_eq!(m.iters(), 50);
}

#[test]
fn zero_budget_is_rejected() {
    assert!(Mandelbrot::new(0).is_none());
}

#[test]
fn colorize_run_gives_three_bytes_per_pixel() {
    let m = Mandelbrot::new(100).unwrap();
    let rs = vec![EscapeResult::Bounded, EscapeResult::Escaped(100), EscapeResult::Escaped(50)];
    assert_eq!(m.colorize_run(&rs), vec![0, 0, 0, 0xff, 0, 0, 0, 0xff, 0]);
    assert_eq!(m.colorize_run(&Vec::new()), Vec::<u8>::new());
}

#[test]
fn partition_rounds_boundaries() {
    assert_eq!(partition(1, 10), vec![(0, 10)]);
    assert_eq!(partition(3, 10), vec![(0, 3), (3, 7), (7, 10)]);
    assert_eq!(partition(4, 10), vec![(0, 3), (3, 5), (5, 8), (8, 10)]);
}

#[test]
fn partition_covers_every_pixel_once() {
    let total: u64 = 37;
    for n in 1..=total as usize {
        let ranges = partition(n, total);
        assert_eq!(ranges.len(), n);
        assert_eq!(ranges[0].0, 0);
        assert_eq!(ranges[n - 1].1, total);
        for p in 0..total {
            let hits = ranges.iter().filter(|r| r.0 <= p && p < r.1).count();
            assert_eq!(hits, 1);
        }
    }
}

#[test]
fn partition_of_large_raster() {
    let total: u64 = 4_000_000_000 * 4_000_000;
    let ranges = partition(3, total);
    assert_eq!(ranges[2].1, total);
    assert_eq!(ranges[0].1, ranges[1].0);
}

#[test]
fn output_is_independent_of_thread_count() {
    let m = Mandelbrot::new(10).unwrap();
    let rs: Vec<EscapeResult> = (0..23usize)
        .map(|i| if i % 4 == 0 { EscapeResult::Bounded } else { EscapeResult::Escaped(1 + i % 10) })
        .collect();
    let whole = m.colorize_run(&rs);
    for n in [1usize, 2, 4, 8] {
        let chunks: Vec<Vec<u8>> = partition(n, rs.len() as u64)
            .into_iter()
            .map(|(a, b)| m.colorize_run(&rs[a as usize..b as usize].to_vec()))
            .collect();
        assert_eq!(assemble(chunks), whole);
    }
}

#[test]
fn assemble_keeps_order() {
    assert_eq!(assemble(vec![vec![1, 2], vec![], vec![3]]), vec![1, 2, 3]);
    assert_eq!(assemble(Vec::new()), Vec::<u8>::new());
}

#[test]
fn aspect_scales_keep_pixels_square() {
    assert_eq!(Aspect::Default.axis_scales(), ((1, 1), (1, 1)));
    assert_eq!(Aspect::InAccordenceWith((800, 600)).axis_scales(), ((1, 1), (600, 800)));
    assert_eq!(Aspect::InAccordenceWith((600, 800)).axis_scales(), ((600, 800), (1, 1)));
    assert_eq!(Aspect::InAccordenceWith((500, 500)).axis_scales(), ((500, 500), (1, 1)));
}

#[test]
fn pixel_position_is_row_major() {
    assert_eq!(pixel_position(0, 4, 3), (0, 0));
    assert_eq!(pixel_position(5, 4, 3), (1, 1));
    assert_eq!(pixel_position(11, 4, 3), (3, 2));
}
