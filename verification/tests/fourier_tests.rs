use epicycles::fourier::{
    fourier_transform, get_fourier_coef, normalise, FourierSet, PathError,
};
use epicycles::point::Point;
use epicycles::trig::{cos_fp, sin_fp};
use epicycles::UNIT;

fn pt(x: i64, y: i64) -> Point {
    Point { x, y }
}

/// The unit square, one unit being `UNIT` fixed-point steps.
fn square() -> Vec<Point> {
    vec![pt(0, 0), pt(UNIT, 0), pt(UNIT, UNIT), pt(0, UNIT)]
}

#[test]
fn trig_quadrants_exact() {
    assert_eq!(sin_fp(0), 0);
    assert_eq!(sin_fp(16384), UNIT);
    assert_eq!(sin_fp(32768), 0);
    assert_eq!(sin_fp(49152), -UNIT);
    assert_eq!(cos_fp(0), UNIT);
    assert_eq!(cos_fp(16384), 0);
    assert_eq!(cos_fp(32768), -UNIT);
    // one eighth of a turn: both projections agree, within 0.13% of
    // the real sqrt(2)/2
    assert_eq!(sin_fp(8192), 46260);
    assert_eq!(cos_fp(8192), 46260);
    // a full turn later the values repeat
    assert_eq!(sin_fp(8192 + UNIT), 46260);
    assert_eq!(sin_fp(8192 - UNIT), 46260);
}

#[test]
fn coefficient_count_matches_path_length() {
    // one coefficient per sample, for every path length
    for n in 1usize..=9 {
        let mut points: Vec<Point> = Vec::new();
        for i in 0..n {
            points.push(pt(i as i64 * 1000, 500 - i as i64 * 200));
        }
        let bars = fourier_transform(&points);
        assert_eq!(bars.len(), n);
        for (j, bar) in bars.iter().enumerate() {
            let expected = if j % 2 == 1 {
                (j as i32 + 1) / 2
            } else {
                -(j as i32 / 2)
            };
            assert_eq!(bar.0, expected);
        }
    }
}

#[test]
fn frequency_enumeration_square() {
    let bars = fourier_transform(&square());
    let freqs: Vec<i32> = bars.iter().map(|b| b.0).collect();
    // even n: the natural enumeration 0, 1, -1, 2, -2 is one too many;
    // the negative extreme is dropped
    assert_eq!(freqs, vec![0, 1, -1, 2]);
}

#[test]
fn zero_frequency_coefficient_is_average() {
    let points = vec![pt(100, 200), pt(300, 400)];
    let c = get_fourier_coef(&points, 0);
    assert_eq!(c, pt(200, 300));
}

#[test]
fn square_decomposition_exact() {
    let bars = fourier_transform(&square());
    assert_eq!(bars[0], (0, pt(UNIT / 2, UNIT / 2)));
    assert_eq!(bars[1], (1, pt(-UNIT / 2, -UNIT / 2)));
    assert_eq!(bars[2], (-1, pt(0, 0)));
    assert_eq!(bars[3], (2, pt(0, 0)));
}

#[test]
fn square_corners_roundtrip() {
    // decompose the unit square and evaluate the terminal point at the
    // four sample times: the corners come back in order, exactly
    let mut points = square();
    let set = FourierSet::new(&mut points, 8).unwrap();
    let corners = [pt(0, 0), pt(UNIT, 0), pt(UNIT, UNIT), pt(0, UNIT)];
    for (i, corner) in corners.iter().enumerate() {
        let t = (i as u32) * (UNIT as u32) / 4;
        let chain = set.get_bar_pos(t);
        assert_eq!(chain.len(), 4);
        assert_eq!(chain[3], *corner);
    }
}

#[test]
fn chain_at_cycle_start_sums_amplitudes() {
    // at t = 0 every rotation is the identity: the chain is the plain
    // cumulative sum of the coefficient amplitudes
    let mut points = square();
    let set = FourierSet::new(&mut points, 8).unwrap();
    assert_eq!(
        set.get_bar_pos(0),
        vec![pt(32768, 32768), pt(0, 0), pt(0, 0), pt(0, 0)]
    );
}

#[test]
fn two_point_roundtrip_exact() {
    let mut points = vec![pt(UNIT, 0), pt(0, 0)];
    let set = FourierSet::new(&mut points, 4).unwrap();
    assert_eq!(set.bars, vec![(0, pt(UNIT / 2, 0)), (1, pt(UNIT / 2, 0))]);
    assert_eq!(*set.get_bar_pos(0).last().unwrap(), pt(UNIT, 0));
    assert_eq!(*set.get_bar_pos(32768).last().unwrap(), pt(0, 0));
}

#[test]
fn octagon_roundtrip_within_tolerance() {
    // a regular octagon: decompose, then evaluate the terminal point at
    // the eight sample times; each reconstructed point stays within
    // 200/65536 (about 0.3%) of the normalised sample
    let mut points = vec![
        pt(65536, 0),
        pt(46341, 46341),
        pt(0, 65536),
        pt(-46341, 46341),
        pt(-65536, 0),
        pt(-46341, -46341),
        pt(0, -65536),
        pt(46341, -46341),
    ];
    let set = FourierSet::new(&mut points, 16).unwrap();
    for (i, p) in points.iter().enumerate() {
        let t = (i as u32) * (UNIT as u32) / 8;
        let terminal = *set.get_bar_pos(t).last().unwrap();
        assert!((terminal.x - p.x).abs() <= 200, "x off at sample {}", i);
        assert!((terminal.y - p.y).abs() <= 200, "y off at sample {}", i);
    }
}

#[test]
fn normalise_scales_by_larger_extent() {
    // a 2x2 square given in raw units twice the fixed-point unit
    let mut points = vec![pt(131072, 0), pt(131072, 131072), pt(0, 131072)];
    normalise(&mut points);
    assert_eq!(points, vec![pt(UNIT, 0), pt(UNIT, UNIT), pt(0, UNIT)]);
}

#[test]
fn normalise_zero_span_axis_does_not_constrain() {
    // a flat path: only the x extent scales
    let mut points = vec![pt(0, 0), pt(262144, 0)];
    normalise(&mut points);
    assert_eq!(points, vec![pt(0, 0), pt(UNIT, 0)]);
}

#[test]
fn normalise_degenerate_path_unchanged() {
    let mut points = vec![pt(0, 0), pt(0, 0), pt(0, 0)];
    normalise(&mut points);
    assert_eq!(points, vec![pt(0, 0), pt(0, 0), pt(0, 0)]);
}

#[test]
fn normalise_measures_box_of_points() {
    // a square away from the origin: the box is the points' own, so
    // both spans are two units and every coordinate scales by 1/2
    let mut points = vec![
        pt(65536, 65536),
        pt(196608, 65536),
        pt(196608, 196608),
        pt(65536, 196608),
    ];
    normalise(&mut points);
    assert_eq!(
        points,
        vec![
            pt(32768, 32768),
            pt(98304, 32768),
            pt(98304, 98304),
            pt(32768, 98304),
        ]
    );
}

#[test]
fn off_origin_square_accepted() {
    let mut points = vec![
        pt(65536, 65536),
        pt(196608, 65536),
        pt(196608, 196608),
        pt(65536, 196608),
    ];
    let set = FourierSet::new(&mut points, 8).unwrap();
    assert_eq!(points[0], pt(32768, 32768));
    assert_eq!(set.bars.len(), 4);
}

#[test]
fn far_path_rejected() {
    // a path one hundred units from the origin but only one unit wide
    // rescales beyond the engine's coordinate range
    let mut points = vec![pt(100 * UNIT, 0), pt(101 * UNIT, 0)];
    assert!(matches!(
        FourierSet::new(&mut points, 8),
        Err(PathError::CoordinateRange)
    ));
}

#[test]
fn single_sample_reconstructed_exactly() {
    // a one-sample path has a zero-extent box, stays unchanged, and is
    // reconstructed exactly at every time fraction
    let mut points = vec![pt(2 * UNIT, 3 * UNIT)];
    let set = FourierSet::new(&mut points, 4).unwrap();
    assert_eq!(set.bars, vec![(0, pt(2 * UNIT, 3 * UNIT))]);
    for t in [0u32, 1000, 16384, 40000, 65535] {
        assert_eq!(*set.get_bar_pos(t).last().unwrap(), pt(2 * UNIT, 3 * UNIT));
    }
}

#[test]
fn empty_path_rejected() {
    let mut points: Vec<Point> = Vec::new();
    assert!(matches!(
        FourierSet::new(&mut points, 8),
        Err(PathError::EmptyPath)
    ));
}

#[test]
fn overlong_path_rejected() {
    // 65536 samples would need frequency 32768, outside the 16-bit
    // rotation-rate range
    let mut points: Vec<Point> = Vec::new();
    for i in 0..65536i64 {
        points.push(pt(i % 7, i % 5));
    }
    assert!(matches!(
        FourierSet::new(&mut points, 8),
        Err(PathError::FrequencyRange)
    ));
}

#[test]
fn driver_catches_buffer_up_to_time() {
    let mut points = square();
    let mut set = FourierSet::new(&mut points, 8).unwrap();
    let (chain, outline) = set.draw(32768);
    // the bar chain at t = 1/2
    assert_eq!(
        chain,
        vec![
            pt(32768, 32768),
            pt(65536, 65536),
            pt(65536, 65536),
            pt(65536, 65536),
        ]
    );
    // the buffer caught up to fill fraction 1/2: four of eight slots,
    // each the terminal at the buffer's own fill fraction
    assert_eq!(set.outline_buffer.cursor, 4);
    let real = [pt(0, 0), pt(32768, -13492), pt(65536, 0), pt(79028, 32768)];
    assert_eq!(outline.len(), 8);
    for i in 0..4 {
        assert_eq!(outline[i], real[i]);
    }
    for i in 4..8 {
        assert_eq!(outline[i], real[3]);
    }
    // drawing again at the same time pushes nothing more
    let (_, outline2) = set.draw(32768);
    assert_eq!(set.outline_buffer.cursor, 4);
    assert_eq!(outline2, outline);
}

#[test]
fn driver_fills_buffer_by_cycle_end() {
    let mut points = square();
    let mut set = FourierSet::new(&mut points, 8).unwrap();
    let (_, outline) = set.draw(65536);
    assert_eq!(set.outline_buffer.cursor, 8);
    assert_eq!(outline.len(), 8);
    // a later frame past the cycle boundary changes nothing: the
    // buffer never resets by itself
    set.draw(70000);
    assert_eq!(set.outline_buffer.cursor, 8);
}
