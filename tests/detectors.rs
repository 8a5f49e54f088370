use gnss_guard::cdm::{fit_verdict, DriftVerdict, TimeDriftMethod};
use gnss_guard::edv::TwoLineElement;
use gnss_guard::cnm::CarrierToNoiseDensityMethod;
use gnss_guard::edv::{parse_catalog, CatalogError, LookAngles, OrbitPositionsMethod};
use gnss_guard::ensemble::{DetectionEnsemble, NavigationFix};
use gnss_guard::geofence::{Point, Polygon, PolygonError};
use gnss_guard::pcc::{
    PhysicalEnvironmentLimitMethod, PhysicalHeightLimit, PhysicalRateOfTurnLimit,
    PhysicalSpeedLimit,
};
use gnss_guard::utilities::{minimum_angle_difference, Satellite};

const DEG: i32 = 10_000_000;

fn unit_square() -> Polygon {
    Polygon::new(vec![
        Point::new(0, 0),
        Point::new(0, DEG),
        Point::new(DEG, DEG),
        Point::new(DEG, 0),
    ])
    .unwrap()
}

fn sat(prn: u16, elevation: u8, azimuth: u16, cn0: u8) -> Satellite {
    Satellite {
        pseudo_random_noise: prn,
        elevation,
        azimuth,
        carrier_to_noise_density: cn0,
    }
}

#[test]
fn angle_difference_is_symmetric_and_bounded() {
    let pairs = [(0, 0), (10_000, 350_000), (0, 180_000), (0, 200_000), (-90_000, 720_500), (359_999, 1)];
    for (a, b) in pairs {
        let d = minimum_angle_difference(a, b);
        assert_eq!(d, minimum_angle_difference(b, a));
        assert!((0..=180_000).contains(&d));
        assert_eq!(minimum_angle_difference(a, a), 0);
    }
}

#[test]
fn angle_difference_across_wrap() {
    assert_eq!(minimum_angle_difference(350_000, 10_000), 20_000);
    assert_eq!(minimum_angle_difference(0, 200_000), 160_000);
    assert_eq!(minimum_angle_difference(0, 180_000), 180_000);
    assert_eq!(minimum_angle_difference(359_999, 1), 2);
    assert_eq!(minimum_angle_difference(-90_000, 720_500), 90_500);
}

#[test]
fn polygon_unit_square_inside_and_outside() {
    let square = unit_square();
    assert!(square.is_inside(&Point::new(DEG / 2, DEG / 2)));
    assert!(!square.is_inside(&Point::new(2 * DEG, 2 * DEG)));
    assert!(!square.is_inside(&Point::new(-DEG / 2, DEG / 2)));
    assert!(!square.is_inside(&Point::new(DEG / 2, -DEG / 2)));
}

#[test]
fn polygon_boundary_convention() {
    let square = unit_square();
    // south and east edges inside, north and west edges outside
    assert!(square.is_inside(&Point::new(0, DEG / 2)));
    assert!(square.is_inside(&Point::new(DEG / 2, DEG)));
    assert!(!square.is_inside(&Point::new(DEG, DEG / 2)));
    assert!(!square.is_inside(&Point::new(DEG / 2, 0)));
    // the same answer every time
    assert_eq!(
        square.is_inside(&Point::new(0, 0)),
        square.is_inside(&Point::new(0, 0))
    );
}

#[test]
fn polygon_triangle_with_sloped_edges() {
    let triangle = Polygon::new(vec![
        Point::new(0, 0),
        Point::new(4 * DEG, 2 * DEG),
        Point::new(0, 4 * DEG),
    ])
    .unwrap();
    assert!(triangle.is_inside(&Point::new(DEG, 2 * DEG)));
    assert!(!triangle.is_inside(&Point::new(3 * DEG, DEG / 2)));
    assert!(!triangle.is_inside(&Point::new(3 * DEG, 7 * DEG / 2)));
    assert!(triangle.is_inside(&Point::new(3 * DEG, 2 * DEG)));
}

#[test]
fn polygon_needs_three_vertices() {
    assert!(matches!(
        Polygon::new(vec![Point::new(0, 0), Point::new(1, 1)]),
        Err(PolygonError::TooFewVertices)
    ));
    assert!(matches!(Polygon::new(vec![]), Err(PolygonError::TooFewVertices)));
}

#[test]
fn environment_limit_flags_inside_any_polygon() {
    let far = Polygon::new(vec![
        Point::new(50 * DEG, 50 * DEG),
        Point::new(50 * DEG, 51 * DEG),
        Point::new(51 * DEG, 51 * DEG),
    ])
    .unwrap();
    let method = PhysicalEnvironmentLimitMethod::new(vec![far, unit_square()]);
    assert!(method.is_spoofing_attack(Point::new(DEG / 2, DEG / 2)));
    assert!(!method.is_spoofing_attack(Point::new(20 * DEG, 20 * DEG)));
    let empty = PhysicalEnvironmentLimitMethod::new(vec![]);
    assert!(!empty.is_spoofing_attack(Point::new(DEG / 2, DEG / 2)));
}

#[test]
fn carrier_to_noise_range() {
    let method = CarrierToNoiseDensityMethod::new(20, 50);
    assert!(method.detect_spoofing_attack(&[sat(1, 40, 100, 10)]));
    assert!(!method.detect_spoofing_attack(&[sat(1, 40, 100, 35)]));
    assert!(method.detect_spoofing_attack(&[sat(1, 40, 100, 35), sat(2, 40, 100, 51)]));
    assert!(!method.detect_spoofing_attack(&[sat(1, 40, 100, 20), sat(2, 40, 100, 50)]));
    assert!(!method.detect_spoofing_attack(&[]));
}

#[test]
fn speed_limit() {
    let method = PhysicalSpeedLimit::new(30);
    assert!(method.is_spoofing_attack(31));
    assert!(!method.is_spoofing_attack(30));
}

#[test]
fn height_limit() {
    let method = PhysicalHeightLimit::new(10, -5);
    assert!(method.is_spoofing_attack(11));
    assert!(method.is_spoofing_attack(-6));
    assert!(!method.is_spoofing_attack(10));
    assert!(!method.is_spoofing_attack(-5));
}

#[test]
fn rate_of_turn_flags_fast_turn() {
    let mut method = PhysicalRateOfTurnLimit::new(90_000, 1);
    assert!(!method.is_spoofing_attack(10, 0, 0));
    assert!(method.is_spoofing_attack(10, 1_000, 200_000));
}

#[test]
fn rate_of_turn_allows_slow_turn() {
    let mut method = PhysicalRateOfTurnLimit::new(90_000, 1);
    assert!(!method.is_spoofing_attack(10, 0, 0));
    assert!(!method.is_spoofing_attack(10, 1_000, 10_000));
}

#[test]
fn rate_of_turn_edge_cases() {
    let mut method = PhysicalRateOfTurnLimit::new(90_000, 5);
    assert!(!method.is_spoofing_attack(10, 5_000, 0));
    // the same instant gives no rate
    assert!(!method.is_spoofing_attack(10, 5_000, 170_000));
    // below the minimum speed: skipped, but remembered
    assert!(!method.is_spoofing_attack(4, 6_000, 0));
    assert_eq!(method.previous_course, 0);
    assert_eq!(method.previous_update_time, 6_000);
    // time running backwards still gives a rate
    assert!(method.is_spoofing_attack(10, 5_000, 100_000));
    // exactly at the limit is allowed
    assert!(!method.is_spoofing_attack(10, 6_000, 10_000));
}

#[test]
fn clock_drift_linear_history_never_flags() {
    let mut method = TimeDriftMethod::new(500);
    assert_eq!(method.detect_spoofing_attack(10, 9), DriftVerdict::Inconclusive);
    for k in 2..=10i64 {
        assert_eq!(method.detect_spoofing_attack(10 * k, 9 * k), DriftVerdict::Consistent);
    }
    assert_eq!(method.detect_spoofing_attack(110, 110), DriftVerdict::Suspicious);
}

#[test]
fn clock_drift_outlier_after_long_history() {
    let mut method = TimeDriftMethod::new(1_000);
    for i in 0..10i64 {
        let local = 1_700_000_000 + 10 * i;
        let gps = local - i;
        assert_ne!(method.detect_spoofing_attack(local, gps), DriftVerdict::Suspicious);
    }
    let last_local = 1_700_000_000 + 100;
    assert_eq!(
        method.detect_spoofing_attack(last_local, last_local - 1_000),
        DriftVerdict::Suspicious
    );
}

#[test]
fn clock_drift_verdicts() {
    // after three samples the mean absolute residual is 10/3 s
    let mut method = TimeDriftMethod::new(4_000);
    assert_eq!(method.detect_spoofing_attack(1_000, 1_000), DriftVerdict::Inconclusive);
    // equal drifts give no trend to fit
    assert_eq!(method.detect_spoofing_attack(1_010, 1_010), DriftVerdict::Inconclusive);
    assert_eq!(method.detect_spoofing_attack(1_020, 1_019), DriftVerdict::Consistent);
    // a jump beyond the range of the fit is flagged, and kept
    assert_eq!(
        method.detect_spoofing_attack(1_030, 1_030 - (1 << 30)),
        DriftVerdict::Suspicious
    );
    assert_eq!(method.past_measurements.len(), 4);
    assert_eq!(method.past_measurements[3], (1 << 30, 30));
    let mut strict = TimeDriftMethod::new(3_000);
    strict.detect_spoofing_attack(1_000, 1_000);
    strict.detect_spoofing_attack(1_010, 1_010);
    assert_eq!(strict.detect_spoofing_attack(1_020, 1_019), DriftVerdict::Suspicious);
}

#[test]
fn clock_drift_fit_exact_value() {
    // v on u: (0,0), (1,0), (2,3): slope 3/2, intercept -1/2;
    // residuals 1/2, -1, 1/2, mean 2/3
    let h = vec![(0i128, 0i128), (1, 0), (2, 3)];
    assert_eq!(fit_verdict(&h, 666), DriftVerdict::Suspicious);
    assert_eq!(fit_verdict(&h, 667), DriftVerdict::Consistent);
    assert_eq!(fit_verdict(&vec![(5i128, 1i128)], 0), DriftVerdict::Inconclusive);
}

#[test]
fn clock_drift_history_is_bounded() {
    let mut method = TimeDriftMethod::new(1_000_000);
    for i in 0..100i64 {
        method.detect_spoofing_attack(2_000 + i, 2_000);
    }
    assert_eq!(method.past_measurements.len(), 64);
    assert_eq!(method.past_measurements[0], (36, 36));
    let mut short = TimeDriftMethod::with_capacity(1_000_000, 5);
    for i in 0..20i64 {
        short.detect_spoofing_attack(2_000 + i, 2_000);
    }
    assert_eq!(short.past_measurements.len(), 5);
    assert_eq!(short.past_measurements[0], (15, 15));
}

const L1: &str = "1 25544U 98067A   08264.51782528 -.00002182  00000-0 -11606-4 0  2927";
const L2: &str = "2 25544  51.6416 247.4627 0006703 130.5360 325.0288 15.72125391563537";

fn catalog() -> Vec<u8> {
    format!("5\n{L1}\n{L2}\n12\n{L1}\n{L2}").into_bytes()
}

#[test]
fn catalog_trailing_newline_and_empty_text() {
    let trailing = format!("5\n{L1}\n{L2}\n");
    assert_eq!(parse_catalog(trailing.as_bytes()).unwrap().len(), 1);
    assert_eq!(parse_catalog(b"").unwrap().len(), 0);
}

#[test]
fn catalog_records() {
    let records = parse_catalog(&catalog()).unwrap();
    assert_eq!(records.len(), 2);
    assert_eq!(records[0].pseudo_random_noise, 5);
    assert_eq!(records[0].line1, L1.as_bytes().to_vec());
    assert_eq!(records[1].pseudo_random_noise, 12);
    assert_eq!(records[1].line2, L2.as_bytes().to_vec());
}

#[test]
fn catalog_errors() {
    let bad_id = format!("5\n{L1}\n{L2}\nX7\n{L1}\n{L2}");
    assert_eq!(parse_catalog(bad_id.as_bytes()).err(), Some(CatalogError::BadIdentifier(3)));
    let big_id = format!("70000\n{L1}\n{L2}");
    assert_eq!(parse_catalog(big_id.as_bytes()).err(), Some(CatalogError::BadIdentifier(0)));
    // a blank line between records is a bad code
    let blank = format!("5\n{L1}\n{L2}\n\n7\n{L1}\n{L2}");
    assert_eq!(parse_catalog(blank.as_bytes()).err(), Some(CatalogError::BadIdentifier(3)));
    // a record without its element lines
    assert_eq!(parse_catalog(b"7").err(), Some(CatalogError::BadElementLine(1)));
    let short = format!("7\n{L1}");
    assert_eq!(parse_catalog(short.as_bytes()).err(), Some(CatalogError::BadElementLine(2)));
    // numbers the orbit propagator cannot read
    let ecc = format!("7\n{L1}\n{}", L2.replace("0006703", "-000670"));
    assert_eq!(parse_catalog(ecc.as_bytes()).err(), Some(CatalogError::BadElementLine(2)));
    let motion = format!("7\n{L1}\n{}", L2.replace("15.72125391", "15.72.25391"));
    assert_eq!(parse_catalog(motion.as_bytes()).err(), Some(CatalogError::BadElementLine(2)));
    let number = format!("7\n{}\n{L2}", L1.replacen("25544", "1 2  ", 1));
    assert_eq!(parse_catalog(number.as_bytes()).err(), Some(CatalogError::BadElementLine(1)));
    let nddot = format!("7\n{}\n{L2}", L1.replace(" 00000-0", "-11606-4"));
    assert_eq!(parse_catalog(nddot.as_bytes()).err(), Some(CatalogError::BadElementLine(1)));
    let letters = format!("7\n{L1}\n{}", L2.replace("51.6416", "51.64x6"));
    assert_eq!(parse_catalog(letters.as_bytes()).err(), Some(CatalogError::BadElementLine(2)));
}

#[test]
fn element_lines_checked_on_construction() {
    let t = TwoLineElement::new(3, L1.as_bytes().to_vec(), L2.as_bytes().to_vec()).unwrap();
    assert_eq!(t.pseudo_random_noise, 3);
    assert!(TwoLineElement::new(3, vec![], L2.as_bytes().to_vec()).is_none());
    assert!(TwoLineElement::new(3, L1[..60].as_bytes().to_vec(), L2.as_bytes().to_vec()).is_none());
    assert!(TwoLineElement::new(3, L1[..61].as_bytes().to_vec(), L2[..63].as_bytes().to_vec()).is_some());
    assert!(TwoLineElement::new(3, L1.as_bytes().to_vec(), L2[..62].as_bytes().to_vec()).is_none());
}

fn orbit_method() -> OrbitPositionsMethod {
    OrbitPositionsMethod::from_catalog(10, 5_000, 3_000, &catalog()).unwrap()
}

#[test]
fn orbit_positions_checks() {
    let mut method = orbit_method();
    assert!(method.get_two_line_element(12).is_some());
    assert!(method.get_two_line_element(13).is_none());
    let expected = LookAngles { elevation: 41_000, azimuth: 358_000 };
    assert!(!method.detect_spoofing_attack(&[sat(5, 40, 2, 30)], &[Some(expected)]));
    // azimuth 8 degrees away across north
    assert!(method.detect_spoofing_attack(&[sat(5, 40, 6, 30)], &[Some(expected)]));
    // elevation 4 degrees away
    assert!(method.detect_spoofing_attack(&[sat(5, 37, 358, 30)], &[Some(expected)]));
    // below the mask
    let low = LookAngles { elevation: 9_000, azimuth: 100_000 };
    assert!(method.detect_spoofing_attack(&[sat(5, 9, 100, 30)], &[Some(low)]));
    // not in the catalog: passed over
    assert!(!method.detect_spoofing_attack(&[sat(6, 9, 100, 30)], &[Some(low)]));
    // no prediction: only the elevation mask applies
    assert!(method.detect_spoofing_attack(&[sat(5, 9, 100, 30)], &[None]));
    assert!(!method.detect_spoofing_attack(&[sat(5, 40, 100, 30)], &[None]));
    assert_eq!(
        method.load_two_line_elements(b"x"),
        Err(CatalogError::BadIdentifier(0))
    );
    assert_eq!(method.two_line_elements.len(), 2);
    method.load_two_line_elements(format!("12\n{L1}\n{L2}").as_bytes()).unwrap();
    assert_eq!(method.two_line_elements.len(), 3);
    assert_eq!(method.get_two_line_element(12).map(|t| t.line1.len()), Some(69));
}

fn ensemble() -> DetectionEnsemble {
    let zone = Polygon::new(vec![
        Point::new(10 * DEG, DEG / 2),
        Point::new(10 * DEG, 3 * DEG / 2),
        Point::new(11 * DEG, 3 * DEG / 2),
        Point::new(11 * DEG, DEG / 2),
    ])
    .unwrap();
    DetectionEnsemble::new(
        TimeDriftMethod::new(5_000),
        CarrierToNoiseDensityMethod::new(20, 50),
        orbit_method(),
        PhysicalSpeedLimit::new(30),
        PhysicalHeightLimit::new(10, -10),
        PhysicalRateOfTurnLimit::new(90_000, 1),
        PhysicalEnvironmentLimitMethod::new(vec![zone]),
    )
}

fn fix(t_s: u64, lat: i32, speed: u32, height: i32, course: i32) -> NavigationFix {
    NavigationFix {
        timestamp_ms: t_s * 1_000,
        latitude: lat,
        longitude: DEG,
        height,
        speed_over_ground: speed,
        course,
    }
}

#[test]
fn ensemble_end_to_end() {
    let expected = [Some(LookAngles { elevation: 40_000, azimuth: 120_000 })];
    let good_sats = [sat(5, 40, 120, 35)];
    let run = |f: NavigationFix, sats: &[Satellite]| {
        let mut e = ensemble();
        let base = fix(1_000, DEG, 10, 0, 0);
        assert!(!e.detect_spoofing_attack(1_000, &base, &good_sats, &expected));
        e.detect_spoofing_attack(f.timestamp_ms as i64 / 1_000, &f, sats, &expected)
    };
    assert!(!run(fix(1_001, DEG, 10, 0, 1_000), &good_sats));
    assert!(run(fix(1_001, DEG, 31, 0, 1_000), &good_sats));
    assert!(run(fix(1_001, DEG, 10, 11, 1_000), &good_sats));
    assert!(run(fix(1_001, DEG, 10, 0, 100_000), &good_sats));
    assert!(run(fix(1_001, 10 * DEG + DEG / 2, 10, 0, 1_000), &good_sats));
    assert!(run(fix(1_001, DEG, 10, 0, 1_000), &[sat(5, 40, 120, 10)]));
    assert!(run(fix(1_001, DEG, 10, 0, 1_000), &[sat(5, 40, 140, 35)]));
}

#[test]
fn ensemble_reports_each_method() {
    let mut e = ensemble();
    let expected = [None];
    let v = e.evaluate(1_000, &fix(1_000, DEG, 40, 20, 0), &[sat(9, 40, 120, 60)], &expected);
    assert!(v.speed && v.height && v.carrier_to_noise);
    assert!(!v.orbit_positions && !v.geofence && !v.rate_of_turn);
    assert_eq!(v.clock_drift, DriftVerdict::Inconclusive);
    assert!(v.any());
}

#[test]
fn clock_drift_shifted_times_give_same_verdicts() {
    let mut a = TimeDriftMethod::new(2_000);
    let mut b = TimeDriftMethod::new(2_000);
    let samples = [(100i64, 100i64), (110, 109), (120, 118), (130, 130), (140, 137)];
    for (local, gps) in samples {
        let va = a.detect_spoofing_attack(local, gps);
        let vb = b.detect_spoofing_attack(local + 86_400, gps + 86_400);
        assert_eq!(va, vb);
    }
    assert_eq!(a.past_measurements, b.past_measurements);
}

#[test]
fn clock_drift_larger_deviation_flags_less() {
    let h = vec![(0i128, 0i128), (1, 0), (2, 3), (3, 3)];
    let mut last_flagged = true;
    for max_dev in [0u32, 100, 500, 700, 1_000, 5_000] {
        let flagged = fit_verdict(&h, max_dev) == DriftVerdict::Suspicious;
        assert!(last_flagged || !flagged);
        last_flagged = flagged;
    }
    assert_eq!(fit_verdict(&h, 0), DriftVerdict::Suspicious);
    assert_eq!(fit_verdict(&h, 5_000), DriftVerdict::Consistent);
}

#[test]
fn clock_drift_unset_receiver_clock() {
    // a receiver clock about 56 years behind: drifts are taken from the first
    // one; the three samples leave a mean absolute residual of 10/3 s
    let mut method = TimeDriftMethod::new(4_000);
    assert_eq!(method.detect_spoofing_attack(0, 1_700_000_000), DriftVerdict::Inconclusive);
    assert_eq!(method.detect_spoofing_attack(10, 1_700_000_010), DriftVerdict::Inconclusive);
    assert_eq!(method.detect_spoofing_attack(20, 1_700_000_019), DriftVerdict::Consistent);
    assert_eq!(method.past_measurements[2], (1, 20));
}

#[test]
fn polygon_rotation_keeps_classification() {
    let ring = vec![
        Point::new(0, 0),
        Point::new(0, DEG),
        Point::new(DEG, DEG),
        Point::new(DEG, 0),
    ];
    let queries = [
        Point::new(DEG / 2, DEG / 2),
        Point::new(0, DEG / 2),
        Point::new(DEG, DEG / 2),
        Point::new(DEG / 2, 0),
        Point::new(DEG / 2, DEG),
        Point::new(0, 0),
        Point::new(DEG, DEG),
        Point::new(2 * DEG, 2 * DEG),
    ];
    let base = Polygon::new(ring.clone()).unwrap();
    for k in 0..ring.len() {
        let mut rotated = ring[k..].to_vec();
        rotated.extend_from_slice(&ring[..k]);
        let poly = Polygon::new(rotated).unwrap();
        for q in &queries {
            assert_eq!(poly.is_inside(q), base.is_inside(q));
        }
    }
}
