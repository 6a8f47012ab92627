use geom_core::GeomError;
use geom_core::Marker;
use geom_core::TextLine;
use geom_core::make_contour;
use geom_core::make_marker;
use geom_core::make_point;
use geom_core::make_point_matrix;
use geom_core::make_polyline;
use geom_core::make_square;
use geom_core::make_text_line;

fn bits(vals: &[f32]) -> Vec<u32> {
    vals.iter().map(|v| v.to_bits()).collect()
}

#[test]
fn point_is_exactly_its_components() {
    let p = make_point(1.0f32.to_bits(), 2.0f32.to_bits(), 3.0f32.to_bits());
    assert_eq!(p, bits(&[1.0, 2.0, 3.0]));
}

#[test]
fn polyline_passes_coords_through() {
    let coords = bits(&[1.0, 2.0, 3.0, 4.0, 5.0, 6.0]);
    let out = make_polyline(&coords).unwrap();
    assert_eq!(out, coords);
}

#[test]
fn polyline_accepts_empty_input() {
    let coords: Vec<u32> = Vec::new();
    let out = make_polyline(&coords).unwrap();
    assert_eq!(out, coords);
}

#[test]
fn polyline_rejects_length_not_multiple_of_three() {
    for n in [1usize, 2, 4, 5, 7] {
        let coords = vec![0u32; n];
        match make_polyline(&coords) {
            Err(GeomError::InvalidArgument(m)) => {
                assert_eq!(m, "coords length must be multiple of 3");
            }
            Ok(_) => panic!("a buffer of {} values must be rejected", n),
        }
    }
}

#[test]
fn contour_rejects_short_or_ragged_input() {
    for n in [0usize, 1, 3, 4, 5, 7, 8] {
        let coords = vec![0u32; n];
        match make_contour(&coords) {
            Err(GeomError::InvalidArgument(m)) => {
                assert_eq!(m, "need at least 2 points");
            }
            Ok(_) => panic!("a buffer of {} values must be rejected", n),
        }
    }
}

#[test]
fn contour_closes_open_triangle() {
    let tri = bits(&[0.0, 0.0, 0.0, 1.0, 0.0, 0.0, 1.0, 1.0, 0.0]);
    let out = make_contour(&tri).unwrap();
    assert_eq!(out.len(), 12);
    assert_eq!(
        out,
        bits(&[0.0, 0.0, 0.0, 1.0, 0.0, 0.0, 1.0, 1.0, 0.0, 0.0, 0.0, 0.0])
    );
}

#[test]
fn contour_keeps_closed_ring_unchanged() {
    let ring = bits(&[0.0, 0.0, 0.0, 1.0, 0.0, 0.0, 1.0, 1.0, 0.0, 0.0, 0.0, 0.0]);
    let out = make_contour(&ring).unwrap();
    assert_eq!(out.len(), 12);
    assert_eq!(out, ring);
}

#[test]
fn contour_treats_negative_zero_as_closing() {
    let ring = bits(&[0.0, 0.0, 0.0, 1.0, 2.0, 3.0, -0.0, -0.0, -0.0]);
    let out = make_contour(&ring).unwrap();
    assert_eq!(out, ring);
}

#[test]
fn contour_never_sees_nan_as_closed() {
    let coords = bits(&[f32::NAN, 0.0, 0.0, 1.0, 0.0, 0.0, f32::NAN, 0.0, 0.0]);
    let out = make_contour(&coords).unwrap();
    assert_eq!(out.len(), 12);
    assert_eq!(&out[0..9], &coords[..]);
    assert_eq!(&out[9..12], &coords[0..3]);
}

#[test]
fn point_matrix_rows_drive_y_and_z() {
    let xs = bits(&[0.0, 1.0, 2.0]);
    let ys = bits(&[0.0, 10.0]);
    let zs = bits(&[0.0, 100.0]);
    let out = make_point_matrix(2, 3, &xs, &ys, &zs);
    assert_eq!(
        out,
        bits(&[
            0.0, 0.0, 0.0, 1.0, 0.0, 0.0, 2.0, 0.0, 0.0, 0.0, 10.0, 100.0, 1.0, 10.0, 100.0,
            2.0, 10.0, 100.0,
        ])
    );
}

#[test]
fn point_matrix_zero_extent_is_empty() {
    let none: Vec<u32> = Vec::new();
    let xs = bits(&[0.0, 1.0, 2.0]);
    let ys = bits(&[0.0, 10.0]);
    let zs = bits(&[0.0, 100.0]);
    assert!(make_point_matrix(0, 0, &none, &none, &none).is_empty());
    assert!(make_point_matrix(0, 3, &xs, &none, &none).is_empty());
    assert!(make_point_matrix(2, 0, &none, &ys, &zs).is_empty());
}

#[test]
fn square_of_side_two_has_unit_corners() {
    let out = make_square(2.0f32.to_bits());
    assert_eq!(
        out,
        bits(&[-1.0, -1.0, 0.0, 1.0, -1.0, 0.0, 1.0, 1.0, 0.0, -1.0, 1.0, 0.0])
    );
}

#[test]
fn square_of_side_zero_matches_float_halving() {
    let out = make_square(0.0f32.to_bits());
    let s: f32 = 0.0f32 / 2.0;
    assert_eq!(
        out,
        vec![
            (-s).to_bits(),
            (-s).to_bits(),
            0u32,
            s.to_bits(),
            (-s).to_bits(),
            0u32,
            s.to_bits(),
            s.to_bits(),
            0u32,
            (-s).to_bits(),
            s.to_bits(),
            0u32,
        ]
    );
}

#[test]
fn marker_records_position_then_size() {
    let m: Marker = make_marker(
        1.0f32.to_bits(),
        2.0f32.to_bits(),
        3.0f32.to_bits(),
        5.0f32.to_bits(),
    );
    assert_eq!(m.position, bits(&[1.0, 2.0, 3.0]));
    assert_eq!(m.size, 5.0f32.to_bits());
}

#[test]
fn text_line_records_start_end_and_text() {
    let t: TextLine = make_text_line(
        0.0f32.to_bits(),
        0.0f32.to_bits(),
        0.0f32.to_bits(),
        1.0f32.to_bits(),
        1.0f32.to_bits(),
        1.0f32.to_bits(),
        String::from("L"),
    );
    assert_eq!(t.start, bits(&[0.0, 0.0, 0.0]));
    assert_eq!(t.end, bits(&[1.0, 1.0, 1.0]));
    assert_eq!(t.text, "L");
}

#[test]
fn constructors_repeat_identically() {
    let a = make_point(1.0f32.to_bits(), 2.0f32.to_bits(), 3.0f32.to_bits());
    let b = make_point(1.0f32.to_bits(), 2.0f32.to_bits(), 3.0f32.to_bits());
    assert_eq!(a, b);

    let coords = bits(&[3.0, 1.0, 4.0, 1.0, 5.0, 9.0]);
    assert_eq!(
        make_polyline(&coords).unwrap(),
        make_polyline(&coords).unwrap()
    );
    assert_eq!(make_contour(&coords).unwrap(), make_contour(&coords).unwrap());

    let xs = bits(&[0.0, 0.5]);
    let ys = bits(&[0.0, 2.0]);
    let zs = bits(&[0.0, -2.0]);
    assert_eq!(
        make_point_matrix(2, 2, &xs, &ys, &zs),
        make_point_matrix(2, 2, &xs, &ys, &zs)
    );

    assert_eq!(make_square(3.0f32.to_bits()), make_square(3.0f32.to_bits()));

    let m1 = make_marker(1, 2, 3, 4);
    let m2 = make_marker(1, 2, 3, 4);
    assert_eq!(m1.position, m2.position);
    assert_eq!(m1.size, m2.size);

    let t1 = make_text_line(1, 2, 3, 4, 5, 6, String::from("tag"));
    let t2 = make_text_line(1, 2, 3, 4, 5, 6, String::from("tag"));
    assert_eq!(t1.start, t2.start);
    assert_eq!(t1.end, t2.end);
    assert_eq!(t1.text, t2.text);
}
