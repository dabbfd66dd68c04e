use raytracer::hit::{closest_hit, distance_key, nearest_root, Roots, ZERO_KEY};
use raytracer::image::{encode_image, image_header};
use raytracer::material::{checker_picks_first, lattice_low_half};
use raytracer::render::{assemble_frame, next_bounce, place_row, update_pc, worker_rows, Line};
use raytracer::Camera;

fn key(x: f32) -> u32 {
    distance_key(x.to_bits()).unwrap()
}

#[test]
fn distance_keys_order_as_distances() {
    let xs = [-1.0e30f32, -5.0, -1.0, -1.0e-30, 0.0, 1.0e-30, 0.5, 3.0, 5.0, 1.0e30, f32::INFINITY];
    for w in xs.windows(2) {
        assert!(key(w[0]) < key(w[1]), "{} {}", w[0], w[1]);
    }
    assert_eq!(key(0.0), ZERO_KEY);
    assert_eq!(key(-0.0), ZERO_KEY);
    assert_eq!(key(1.0), 0x8000_0000 | 0x3f80_0000);
    assert_eq!(key(-1.0), 0x8000_0000 - 0x3f80_0000);
    assert_eq!(key(-0.5), key(-1.0) + (0x3f80_0000 - 0x3f00_0000));
    assert_eq!(distance_key(f32::NAN.to_bits()), None);
}

#[test]
fn closest_hit_picks_nearest_in_either_order() {
    assert_eq!(closest_hit(&vec![Some(key(3.0)), Some(key(5.0))]), Some(0));
    assert_eq!(closest_hit(&vec![Some(key(5.0)), Some(key(3.0))]), Some(1));
    assert_eq!(closest_hit(&vec![None, Some(key(5.0)), None, Some(key(3.0))]), Some(3));
}

#[test]
fn closest_hit_keeps_only_hits_ahead() {
    assert_eq!(closest_hit(&vec![Some(key(-1.0)), Some(key(2.0))]), Some(1));
    assert_eq!(closest_hit(&vec![Some(key(0.0)), Some(key(-0.0)), Some(key(7.0))]), Some(2));
    assert_eq!(closest_hit(&vec![Some(key(-3.0)), Some(key(0.0))]), None);
}

#[test]
fn closest_hit_tie_keeps_earlier() {
    assert_eq!(closest_hit(&vec![Some(key(4.0)), Some(key(4.0))]), Some(0));
    assert_eq!(closest_hit(&vec![None, Some(key(4.0)), Some(key(9.0)), Some(key(4.0))]), Some(1));
}

#[test]
fn closest_hit_of_no_primitives_is_a_miss() {
    assert_eq!(closest_hit(&vec![]), None);
    assert_eq!(closest_hit(&vec![None, None]), None);
}

#[test]
fn root_selection() {
    assert_eq!(nearest_root(Roots::Zero), None);
    assert_eq!(nearest_root(Roots::One(key(2.0))), Some(key(2.0)));
    assert_eq!(nearest_root(Roots::One(key(-2.0))), None);
    assert_eq!(nearest_root(Roots::One(key(0.0))), None);
    assert_eq!(nearest_root(Roots::Two(key(4.0), key(-1.0))), Some(key(4.0)));
    assert_eq!(nearest_root(Roots::Two(key(-1.0), key(4.0))), Some(key(4.0)));
    assert_eq!(nearest_root(Roots::Two(key(6.0), key(2.0))), Some(key(2.0)));
    assert_eq!(nearest_root(Roots::Two(key(2.0), key(6.0))), Some(key(2.0)));
    assert_eq!(nearest_root(Roots::Two(key(-6.0), key(-2.0))), None);
    assert_eq!(nearest_root(Roots::Two(key(3.0), key(0.0))), Some(key(3.0)));
}

#[test]
fn sphere_hit_straight_at_center() {
    // Origin at 0, center at distance 10 on the ray, radius 2: roots 8 and 12.
    let (a, b, c) = (1.0f32, -20.0f32, 96.0f32);
    let discr = b * b - 4.0 * a * c;
    assert!(discr > 0.0);
    let q = -0.5 * (b - discr.sqrt());
    let roots = Roots::Two(key(q / a), key(c / q));
    assert_eq!(nearest_root(roots), Some(key(8.0)));
}

#[test]
fn reflection_depth() {
    assert_eq!(next_bounce(0, true), None);
    assert_eq!(next_bounce(0, false), None);
    assert_eq!(next_bounce(3, false), None);
    assert_eq!(next_bounce(3, true), Some(2));
    assert_eq!(next_bounce(1, true), Some(0));
}

#[test]
fn rows_are_striped_across_workers() {
    assert_eq!(worker_rows(0, 4, 8), vec![0, 4]);
    assert_eq!(worker_rows(1, 4, 8), vec![1, 5]);
    assert_eq!(worker_rows(2, 4, 8), vec![2, 6]);
    assert_eq!(worker_rows(3, 4, 8), vec![3, 7]);
}

#[test]
fn striping_covers_uneven_heights() {
    assert_eq!(worker_rows(1, 4, 10), vec![1, 5, 9]);
    assert_eq!(worker_rows(3, 4, 10), vec![3, 7]);
    assert_eq!(worker_rows(2, 4, 2), Vec::<u32>::new());
    assert_eq!(worker_rows(0, 1, 3), vec![0, 1, 2]);
    let mut all: Vec<u32> = (0..8).flat_map(|id| worker_rows(id, 8, 5)).collect();
    all.sort();
    assert_eq!(all, vec![0, 1, 2, 3, 4]);
}

#[test]
fn frame_assembly_ignores_arrival_order() {
    let (width, height, workers) = (3u32, 8u32, 4u32);
    let mut lines: Vec<Line<u32>> = Vec::new();
    for id in (0..workers).rev() {
        for y in worker_rows(id, workers, height) {
            let row: Vec<u32> = (0..width).map(|x| 100 * id + 10 * y + x).collect();
            lines.push(Line(y, row));
        }
    }
    let frame = assemble_frame(width, height, 0, &lines);
    assert_eq!(frame.len(), 24);
    for y in 0..height {
        for x in 0..width {
            assert_eq!(frame[(y * width + x) as usize], 100 * (y % workers) + 10 * y + x);
        }
    }
}

#[test]
fn frame_assembly_fills_missing_rows() {
    let lines = vec![Line(1u32, vec![7u8, 8u8])];
    assert_eq!(assemble_frame(2, 3, 0u8, &lines), vec![0, 0, 7, 8, 0, 0]);
}

#[test]
fn place_row_overwrites_one_row() {
    let mut frame = vec![0i32; 6];
    place_row(&mut frame, 2, 2, &vec![5, 6]);
    assert_eq!(frame, vec![0, 0, 0, 0, 5, 6]);
}

#[test]
fn progress_reports_each_tenth() {
    assert_eq!(update_pc(0, 200, 0), (0, false));
    assert_eq!(update_pc(0, 200, 19), (9, false));
    assert_eq!(update_pc(9, 200, 20), (10, true));
    assert_eq!(update_pc(10, 200, 21), (10, false));
    assert_eq!(update_pc(0, 3, 2), (66, true));
}

#[test]
fn frame_size() {
    let cam = Camera { width: 640, height: 480, depth: 500 };
    assert_eq!(cam.get_frame_size(), 307200);
}

#[test]
fn checker_axis_test() {
    assert!(lattice_low_half(3, true, 10));
    assert!(!lattice_low_half(5, true, 10));
    assert!(!lattice_low_half(17, true, 10));
    assert!(lattice_low_half(-7, false, 10));
    assert!(!lattice_low_half(-3, false, 10));
    assert!(!lattice_low_half(0, false, 10));
}

#[test]
fn checker_combines_axes_by_parity() {
    assert!(checker_picks_first([1, 5, 5], [true, true, true], 10));
    assert!(!checker_picks_first([1, 1, 5], [true, true, true], 10));
    assert!(checker_picks_first([1, 1, 1], [true, true, true], 10));
}

#[test]
fn image_header_text() {
    assert_eq!(image_header(2, 1), b"P6 2 1 255\n".to_vec());
    assert_eq!(image_header(640, 10), b"P6 640 10 255\n".to_vec());
    assert_eq!(image_header(0, 4294967295), b"P6 0 4294967295 255\n".to_vec());
}

#[test]
fn image_encoding_of_two_pixels() {
    let bytes = encode_image(2, 1, &vec![255, 0, 128, 0, 255, 255]);
    let mut expected = b"P6 2 1 255\n".to_vec();
    expected.extend_from_slice(&[255, 0, 128, 0, 255, 255]);
    assert_eq!(bytes, expected);
}
