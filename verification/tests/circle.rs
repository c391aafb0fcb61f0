use circumference::circle::{CircleSampling, CircumferencePointSet, GeometryError};
use circumference::point::Point2D;
use circumference::trig::{TrigTable, UnitVector, DEGREES_PER_TURN, UNIT};

fn unit_vectors() -> Vec<UnitVector> {
    (0..360)
        .map(|d| {
            let angle = (d as f64).to_radians();
            UnitVector {
                cos: (UNIT as f64 * angle.cos()).round() as i32,
                sin: (UNIT as f64 * angle.sin()).round() as i32,
            }
        })
        .collect()
}

fn table() -> TrigTable {
    TrigTable::new(unit_vectors()).expect("rounded cosines and sines are unit vectors")
}

fn distance(a: &Point2D, b: &Point2D) -> f64 {
    let dx = a.x as f64 - b.x as f64;
    let dy = a.y as f64 - b.y as f64;
    (dx * dx + dy * dy).sqrt()
}

#[test]
fn constants_of_the_table() {
    assert_eq!(UNIT, 1 << 30);
    assert_eq!(DEGREES_PER_TURN, 360);
}

#[test]
fn table_of_rounded_cosines_is_accepted() {
    let t = table();
    assert_eq!(t.at(0), UnitVector { cos: 1073741824, sin: 0 });
    assert_eq!(t.at(45), UnitVector { cos: 759250125, sin: 759250125 });
    assert_eq!(t.at(90), UnitVector { cos: 0, sin: 1073741824 });
    assert_eq!(t.at(359), UnitVector { cos: 1073578288, sin: -18739379 });
}

#[test]
fn table_of_single_precision_cosines_is_too_coarse() {
    let entries: Vec<UnitVector> = (0..360)
        .map(|d| {
            let angle = (d as f32).to_radians();
            UnitVector {
                cos: (UNIT as f32 * angle.cos()).round() as i32,
                sin: (UNIT as f32 * angle.sin()).round() as i32,
            }
        })
        .collect();
    assert!(entries.iter().any(|u| !u.has_unit_length()));
    assert!(TrigTable::new(entries).is_none());
}

#[test]
fn table_of_wrong_length_is_refused() {
    let mut entries = unit_vectors();
    entries.pop();
    assert!(TrigTable::new(entries).is_none());
    let mut entries = unit_vectors();
    entries.push(UnitVector { cos: UNIT, sin: 0 });
    assert!(TrigTable::new(entries).is_none());
    assert!(TrigTable::new(Vec::new()).is_none());
}

#[test]
fn table_with_an_entry_that_is_no_unit_vector_is_refused() {
    let mut entries = unit_vectors();
    entries[200] = UnitVector { cos: UNIT, sin: UNIT };
    assert!(TrigTable::new(entries).is_none());
    let mut entries = unit_vectors();
    entries[359] = UnitVector { cos: 0, sin: 0 };
    assert!(TrigTable::new(entries).is_none());
}

#[test]
fn unit_length_at_the_edges_of_the_tolerance() {
    assert!(UnitVector { cos: UNIT, sin: 0 }.has_unit_length());
    assert!(UnitVector { cos: UNIT + 1, sin: 0 }.has_unit_length());
    assert!(UnitVector { cos: UNIT - 1, sin: 0 }.has_unit_length());
    assert!(UnitVector { cos: 0, sin: -(UNIT + 1) }.has_unit_length());
    assert!(!UnitVector { cos: UNIT + 2, sin: 0 }.has_unit_length());
    assert!(!UnitVector { cos: UNIT - 2, sin: 0 }.has_unit_length());
    assert!(!UnitVector { cos: UNIT + 1, sin: 1 }.has_unit_length());
    assert!(!UnitVector { cos: 0, sin: 0 }.has_unit_length());
    assert!(!UnitVector { cos: i32::MIN, sin: i32::MIN }.has_unit_length());
    assert!(!UnitVector { cos: i32::MAX, sin: 0 }.has_unit_length());
    assert!(UnitVector { cos: -759250125, sin: 759250125 }.has_unit_length());
    assert!(!UnitVector { cos: -759250125, sin: 759250128 }.has_unit_length());
}

#[test]
fn generated_points_have_the_stated_coordinates() {
    let set = CircumferencePointSet::generate(Point2D::new(0, 0), 300, 2, &table()).unwrap();
    let points = set.points();
    assert_eq!(points[0], Point2D::new(300, 0));
    assert_eq!(points[1], Point2D::new(300, 10));
    assert_eq!(points[15], Point2D::new(260, 150));
    assert_eq!(points[30], Point2D::new(150, 260));
    assert_eq!(points[45], Point2D::new(0, 300));
    assert_eq!(points[90], Point2D::new(-300, 0));
    assert_eq!(points[135], Point2D::new(0, -300));
    assert_eq!(points[179], Point2D::new(300, -10));
    assert_eq!(points[180], Point2D::new(300, 0));
}

#[test]
fn generated_points_follow_the_center() {
    let set = CircumferencePointSet::generate(Point2D::new(100, -50), 300, 45, &table()).unwrap();
    let points = set.points();
    assert_eq!(points.len(), 9);
    assert_eq!(points[0], Point2D::new(400, -50));
    assert_eq!(points[1], Point2D::new(312, 162));
    assert_eq!(points[5], Point2D::new(-112, -262));
    assert_eq!(points[8], Point2D::new(400, -50));
}

#[test]
fn a_half_rounds_up() {
    let set = CircumferencePointSet::generate(Point2D::new(0, 0), 1, 60, &table()).unwrap();
    let points = set.points();
    // half a unit along x at 60 degrees, minus half a unit at 120 degrees
    assert_eq!(points[1], Point2D::new(1, 1));
    assert_eq!(points[2], Point2D::new(0, 1));
    let set = CircumferencePointSet::generate(Point2D::new(0, 0), 7, 100, &table()).unwrap();
    assert_eq!(set.points()[1], Point2D::new(-1, 7));
}

#[test]
fn every_generated_point_lies_on_the_circle() {
    let trig = table();
    let center = Point2D::new(-40, 25);
    for &(radius, step) in &[(300, 2), (300, 1), (1, 1), (4, 3), (19_660_800, 5), (1000, 7)] {
        let set = CircumferencePointSet::generate(center, radius, step, &trig).unwrap();
        for p in set.points() {
            let off = (distance(p, &center) - radius as f64).abs();
            assert!(off <= 3.0, "radius {} step {} point {:?}", radius, step, p);
        }
    }
}

#[test]
fn tolerance_grows_with_the_radius() {
    let trig = table();
    let center = Point2D::new(0, 0);
    let radius = 1_000_000;
    let set = CircumferencePointSet::generate(center, radius, 1, &trig).unwrap();
    assert_eq!(set.points()[33], Point2D::new(838671, 544639));
    for p in set.points() {
        let off = (distance(p, &center) - radius as f64).abs();
        assert!(off <= 3.0);
    }
    let radius = 2_000_000_000;
    let set = CircumferencePointSet::generate(center, radius, 1, &trig).unwrap();
    for p in set.points() {
        let off = (distance(p, &center) - radius as f64).abs();
        assert!(off <= 4.0);
    }
}

#[test]
fn count_is_the_number_of_steps_in_a_turn_and_one() {
    let trig = table();
    let center = Point2D::new(0, 0);
    for &(step, count) in
        &[(1, 361), (2, 181), (7, 52), (90, 5), (180, 3), (181, 2), (359, 2), (360, 2), (361, 1), (i32::MAX, 1)]
    {
        let set = CircumferencePointSet::generate(center, 300, step, &trig).unwrap();
        assert_eq!(set.len(), count, "step {}", step);
        assert_eq!(set.points().len(), count);
        assert_eq!(set.len(), (360 / step) as usize + 1);
        assert!(!set.is_empty());
    }
}

#[test]
fn first_and_last_coincide_where_the_step_divides_the_turn() {
    let trig = table();
    let center = Point2D::new(12, 34);
    for step in 1..=360 {
        let set = CircumferencePointSet::generate(center, 300, step, &trig).unwrap();
        let points = set.points();
        assert_eq!(points[0], Point2D::new(312, 34));
        if 360 % step == 0 {
            assert_eq!(points[points.len() - 1], points[0], "step {}", step);
        }
    }
}

#[test]
fn last_differs_from_first_where_the_step_leaves_a_remainder() {
    let set = CircumferencePointSet::generate(Point2D::new(0, 0), 300, 7, &table()).unwrap();
    let points = set.points();
    // the last sample stands at 357 degrees
    assert_eq!(points[51], Point2D::new(300, -16));
    assert_ne!(points[51], points[0]);
}

#[test]
fn radius_that_is_not_positive_is_refused() {
    let trig = table();
    let center = Point2D::new(0, 0);
    assert_eq!(
        CircumferencePointSet::generate(center, 0, 2, &trig).err(),
        Some(GeometryError::InvalidParameter)
    );
    assert_eq!(
        CircumferencePointSet::generate(center, -300, 2, &trig).err(),
        Some(GeometryError::InvalidParameter)
    );
    assert_eq!(
        CircumferencePointSet::generate(Point2D::new(i32::MAX, i32::MIN), i32::MIN, 2, &trig).err(),
        Some(GeometryError::InvalidParameter)
    );
}

#[test]
fn step_that_is_not_positive_is_refused() {
    let trig = table();
    let center = Point2D::new(0, 0);
    assert_eq!(
        CircumferencePointSet::generate(center, 300, 0, &trig).err(),
        Some(GeometryError::InvalidParameter)
    );
    assert_eq!(
        CircumferencePointSet::generate(center, 300, -2, &trig).err(),
        Some(GeometryError::InvalidParameter)
    );
    assert_eq!(
        CircumferencePointSet::generate(center, 300, i32::MIN, &trig).err(),
        Some(GeometryError::InvalidParameter)
    );
}

#[test]
fn new_set_is_empty() {
    let set = CircumferencePointSet::new();
    assert!(set.is_empty());
    assert_eq!(set.len(), 0);
    assert!(set.points().is_empty());
    assert_eq!(set.sampling(), None);
    let set = CircumferencePointSet::default();
    assert!(set.is_empty());
    assert_eq!(set.sampling(), None);
}

#[test]
fn generated_set_remembers_its_circle() {
    let center = Point2D::new(5, 6);
    let set = CircumferencePointSet::generate(center, 300, 2, &table()).unwrap();
    assert_eq!(set.sampling(), Some(CircleSampling { center, radius: 300, step_degrees: 2 }));
}

#[test]
fn regenerate_replaces_the_whole_set() {
    let trig = table();
    let mut set = CircumferencePointSet::new();
    assert_eq!(set.regenerate(Point2D::new(0, 0), 300, 2, &trig), Ok(()));
    assert_eq!(set.len(), 181);
    assert_eq!(set.regenerate(Point2D::new(10, 10), 50, 90, &trig), Ok(()));
    assert_eq!(set.len(), 5);
    assert_eq!(
        set.points(),
        &vec![
            Point2D::new(60, 10),
            Point2D::new(10, 60),
            Point2D::new(-40, 10),
            Point2D::new(10, -40),
            Point2D::new(60, 10),
        ]
    );
    assert_eq!(
        set.sampling(),
        Some(CircleSampling { center: Point2D::new(10, 10), radius: 50, step_degrees: 90 })
    );
}

#[test]
fn refused_regeneration_leaves_the_set_as_it_was() {
    let trig = table();
    let mut set = CircumferencePointSet::generate(Point2D::new(0, 0), 300, 2, &trig).unwrap();
    let before = set.points().clone();
    let sampling = set.sampling();
    assert_eq!(set.regenerate(Point2D::new(1, 1), 0, 2, &trig), Err(GeometryError::InvalidParameter));
    assert_eq!(set.points(), &before);
    assert_eq!(set.sampling(), sampling);
    assert_eq!(set.regenerate(Point2D::new(1, 1), 10, -1, &trig), Err(GeometryError::InvalidParameter));
    assert_eq!(set.points(), &before);
    assert_eq!(set.sampling(), sampling);
    let mut empty = CircumferencePointSet::new();
    assert_eq!(empty.regenerate(Point2D::new(1, 1), -1, 0, &trig), Err(GeometryError::InvalidParameter));
    assert!(empty.is_empty());
    assert_eq!(empty.sampling(), None);
}

#[test]
fn generation_is_repeatable() {
    let trig = table();
    let a = CircumferencePointSet::generate(Point2D::new(3, 4), 300, 2, &trig).unwrap();
    let b = CircumferencePointSet::generate(Point2D::new(3, 4), 300, 2, &trig).unwrap();
    assert_eq!(a.points(), b.points());
}

#[test]
fn circle_that_reaches_beyond_the_coordinates_is_refused() {
    let trig = table();
    let refused = |x: i32, y: i32, radius: i32| {
        CircumferencePointSet::generate(Point2D::new(x, y), radius, 90, &trig).err()
            == Some(GeometryError::InvalidParameter)
    };
    // a circle of radius 300 may reach 303 units from its center
    assert!(!refused(i32::MAX - 303, 0, 300));
    assert!(refused(i32::MAX - 302, 0, 300));
    assert!(!refused(i32::MIN + 303, 0, 300));
    assert!(refused(i32::MIN + 302, 0, 300));
    assert!(!refused(0, i32::MAX - 303, 300));
    assert!(refused(0, i32::MAX - 302, 300));
    assert!(!refused(0, i32::MIN + 303, 300));
    assert!(refused(0, i32::MIN + 302, 300));
    // and one whose radius is the fixed-point unit, a unit more
    assert!(!refused(i32::MAX - (UNIT + 4), 0, UNIT));
    assert!(refused(i32::MAX - (UNIT + 3), 0, UNIT));
    assert!(!refused(i32::MAX - (UNIT + 2), 0, UNIT - 1));
    assert!(refused(i32::MAX - (UNIT + 1), 0, UNIT - 1));
    assert!(refused(0, 0, i32::MAX));
    assert!(!refused(0, 0, 2_000_000_000));
}

#[test]
fn circle_at_the_edge_of_the_range_is_generated() {
    let center = Point2D::new(i32::MAX - 303, i32::MIN + 303);
    let set = CircumferencePointSet::generate(center, 300, 90, &table()).unwrap();
    assert_eq!(set.points()[0], Point2D::new(i32::MAX - 3, i32::MIN + 303));
    assert_eq!(set.points()[3], Point2D::new(i32::MAX - 303, i32::MIN + 3));
}

#[test]
fn refused_circle_leaves_the_set_as_it_was() {
    let trig = table();
    let mut set = CircumferencePointSet::generate(Point2D::new(0, 0), 300, 90, &trig).unwrap();
    let before = set.points().clone();
    assert_eq!(
        set.regenerate(Point2D::new(i32::MAX, 0), 300, 90, &trig),
        Err(GeometryError::InvalidParameter)
    );
    assert_eq!(set.points(), &before);
}

#[test]
fn table_entries_repeat_with_every_turn() {
    let t = table();
    assert_eq!(t.at(360), t.at(0));
    assert_eq!(t.at(450), t.at(90));
    assert_eq!(t.at(719), t.at(359));
    assert_eq!(t.at(181), UnitVector { cos: -1073578288, sin: -18739379 });
}
