use penzd::{convert_all, read_survey, to_penzd, Projection, SurveyPoint};

fn point(point: u16, longitude: f64, latitude: f64, ahd: f64) -> SurveyPoint {
    SurveyPoint {
        point,
        longitude: longitude.to_bits(),
        latitude: latitude.to_bits(),
        ahd: ahd.to_bits(),
    }
}

fn project(p: &SurveyPoint) -> Projection {
    let (northing, easting, _) =
        utm::to_utm_wgs84_no_zone(f64::from_bits(p.latitude), f64::from_bits(p.longitude));
    Projection { northing: northing.to_bits(), easting: easting.to_bits() }
}

#[test]
fn record_carries_fields() {
    let p = point(9, 150.0, -30.0, -2.75);
    let g = Projection { northing: 11, easting: 22 };
    let r = to_penzd(&p, &g);
    assert_eq!(r.point, 9);
    assert_eq!(r.level, (-2.75f64).to_bits());
    assert_eq!(r.northing, 11);
    assert_eq!(r.easting, 22);
    assert_eq!(r.description, "");
}

#[test]
fn records_keep_order_and_fields() {
    let points = vec![point(3, 1.0, 2.0, 0.1), point(1, 3.0, 4.0, 0.2), point(3, 5.0, 6.0, 0.3)];
    let projections = vec![
        Projection { northing: 1, easting: 2 },
        Projection { northing: 3, easting: 4 },
        Projection { northing: 5, easting: 6 },
    ];
    let out = convert_all(&points, &projections);
    assert_eq!(out.len(), 3);
    for i in 0..3 {
        assert_eq!(out[i].point, points[i].point);
        assert_eq!(out[i].level, points[i].ahd);
        assert_eq!(out[i].northing, projections[i].northing);
        assert_eq!(out[i].easting, projections[i].easting);
        assert_eq!(out[i].description, "");
    }
}

#[test]
fn no_points_no_records() {
    assert!(convert_all(&vec![], &vec![]).is_empty());
}

#[test]
fn projection_is_deterministic() {
    let p = point(1, 151.2093, -33.8688, 10.5);
    let a = project(&p);
    let b = project(&p);
    assert_eq!(a, b);
}

#[test]
fn sydney_example() {
    let rows = read_survey(b"point,longitude,latitude,ahd\n1,151.2093,-33.8688,10.5\n").unwrap();
    let points: Vec<SurveyPoint> = rows
        .iter()
        .map(|r| {
            point(
                r.point,
                r.longitude.parse().unwrap(),
                r.latitude.parse().unwrap(),
                r.ahd.parse().unwrap(),
            )
        })
        .collect();
    let projections: Vec<Projection> = points.iter().map(project).collect();
    let out = convert_all(&points, &projections);
    assert_eq!(out.len(), 1);
    assert_eq!(out[0].point, 1);
    assert_eq!(f64::from_bits(out[0].level), 10.5);
    assert!((f64::from_bits(out[0].easting) - 334368.634).abs() < 0.01);
    assert!((f64::from_bits(out[0].northing) - 6250948.345).abs() < 0.01);
    assert_eq!(out[0].description, "");
}
