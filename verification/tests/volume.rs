use grafen::direction::Direction;
use grafen::surface::{CylinderCap, Side, Sides};
use grafen::distribution::DistributionError;
use grafen::volume::{fill, gen_coords, FillType};
use rand::distributions::{IndependentSample, Range};
use rand::ThreadRng;
use std::f64::consts::PI;

/// The distance of a point from the axis through the origin along `direction`
/// and its height along that axis.
fn distance_cylindrical(coord: (f64, f64, f64), direction: Direction) -> (f64, f64) {
    let (h, r0, r1) = direction.decompose(coord.0, coord.1, coord.2);
    ((r0 * r0 + r1 * r1).sqrt(), h)
}

fn fill_cylinder(
    radius: f64,
    height: f64,
    alignment: Direction,
    fill_type: FillType<f64>,
) -> Vec<(f64, f64, f64)> {
    let range_radius = Range::new(0.0, radius);
    let range_height = Range::new(0.0, height);
    let range_angle = Range::new(0.0, 2.0 * PI);

    let mut rng = rand::thread_rng();

    let gen_coord = |rng: &mut ThreadRng| {
        let radius = range_radius.ind_sample(rng);
        let angle = range_angle.ind_sample(rng);

        // Generalized coordinates for radial and height positions
        let r0 = radius * angle.cos();
        let r1 = radius * angle.sin();
        let h = range_height.ind_sample(rng);

        (r0, r1, h)
    };

    let volume = PI * radius * radius * height;
    let by_density = |density: f64| (density * volume).round() as u64;
    fill(alignment, fill_type, by_density, &mut rng, gen_coord).unwrap()
}

#[test]
fn fill_cylinder_with_coords() {
    let radius = 2.0;
    let height = 5.0;
    let num_coords = 100;

    // Default alignment: Z
    let coords = fill_cylinder(radius, height, Direction::Z, FillType::NumCoords(num_coords));
    assert_eq!(num_coords as usize, coords.len());

    for coord in coords {
        let (r, h) = distance_cylindrical(coord, Direction::Z);
        assert!(r <= radius);
        assert!(h >= 0.0 && h <= height);
    }

    // Along the other axes
    for coord in fill_cylinder(radius, height, Direction::X, FillType::NumCoords(num_coords)) {
        let (r, h) = distance_cylindrical(coord, Direction::X);
        assert!(r <= radius);
        assert!(h >= 0.0 && h <= height);
    }

    // Along the other axes
    for coord in fill_cylinder(radius, height, Direction::Y, FillType::NumCoords(num_coords)) {
        let (r, h) = distance_cylindrical(coord, Direction::Y);
        assert!(r <= radius);
        assert!(h >= 0.0 && h <= height);
    }
}

#[test]
fn fill_yields_the_number_of_points_asked_for() {
    for &number in &[0u64, 1, 10, 1000] {
        let mut drawn = 0u64;
        let coords = gen_coords(Direction::Z, number, &mut drawn, |drawn: &mut u64| {
            *drawn += 1;
            (*drawn, 2 * *drawn, 3 * *drawn)
        });
        assert_eq!(number as usize, coords.len());
        assert_eq!(number, drawn);
        for (i, coord) in coords.iter().enumerate() {
            let k = i as u64 + 1;
            assert_eq!((k, 2 * k, 3 * k), *coord);
        }
    }
}

#[test]
fn fill_lays_points_out_along_the_alignment() {
    let gen_coord = |_: &mut ()| ("r0", "r1", "h");
    assert_eq!(vec![("h", "r0", "r1"); 2], gen_coords(Direction::X, 2, &mut (), gen_coord));
    assert_eq!(vec![("r0", "h", "r1"); 2], gen_coords(Direction::Y, 2, &mut (), gen_coord));
    assert_eq!(vec![("r0", "r1", "h"); 2], gen_coords(Direction::Z, 2, &mut (), gen_coord));
}

#[test]
fn fill_by_density_takes_the_count_from_the_volume() {
    let radius = 2.0;
    let height = 5.0;
    let density = 1.5;
    let expected = (density * PI * radius * radius * height).round() as usize;
    assert_eq!(94, expected);
    let coords = fill_cylinder(radius, height, Direction::Z, FillType::Density(density));
    assert_eq!(expected, coords.len());
}

#[test]
fn fill_by_a_density_that_gives_no_point_is_empty() {
    let gen_coord = |draws: &mut u32| {
        *draws += 1;
        (0.0, 0.0, 0.0)
    };

    let mut draws = 0;
    let result = fill(Direction::Z, FillType::Density(1e-3), |_| 0, &mut draws, gen_coord);
    assert_eq!(Err(DistributionError::EmptyResult), result);
    assert_eq!(0, draws);

    let result = fill(Direction::Z, FillType::Density(1e-3), |_| 3, &mut draws, gen_coord);
    assert_eq!(Ok(vec![(0.0, 0.0, 0.0); 3]), result);
    assert_eq!(3, draws);

    // No points may be asked for by their number.
    let mut draws = 0;
    let result = fill(Direction::Z, FillType::NumCoords(0), |_: f64| 7, &mut draws, gen_coord);
    assert_eq!(Ok(vec![]), result);
    assert_eq!(0, draws);
}

#[test]
fn fill_type_gives_its_number_of_coordinates() {
    assert_eq!(17, FillType::<f64>::NumCoords(17).to_num_coords(|_| 99));
    assert_eq!(0, FillType::<f64>::NumCoords(0).to_num_coords(|_| 99));
    assert_eq!(99, FillType::Density(0.5).to_num_coords(|_| 99));
    assert_eq!(21, FillType::Density(10.5).to_num_coords(|density: f64| (2.0 * density) as u64));
}

#[test]
fn cylinder_caps_from_selections() {
    assert_eq!(None, CylinderCap::from_selections(&[]));
    assert_eq!(Some(CylinderCap::Bottom), CylinderCap::from_selections(&[0]));
    assert_eq!(Some(CylinderCap::Top), CylinderCap::from_selections(&[1]));
    assert_eq!(Some(CylinderCap::Both), CylinderCap::from_selections(&[0, 1]));
    assert_eq!(Some(CylinderCap::Both), CylinderCap::from_selections(&[1, 0]));
    assert_eq!(None, CylinderCap::from_selections(&[2, 7]));
    assert_eq!(Some(CylinderCap::Top), CylinderCap::from_selections(&[3, 1, 1]));
}

#[test]
fn cuboid_sides_from_selections() {
    let all = [Side::X0, Side::X1, Side::Y0, Side::Y1, Side::Z0, Side::Z1];

    assert_eq!(Sides::empty(), Sides::from_selections(&[]));
    assert_eq!(Sides::all(), Sides::from_selections(&[0, 1, 2, 3, 4, 5]));
    assert_eq!(Sides::all(), Sides::from_selections(&[5, 4, 3, 2, 1, 0, 0]));
    assert_eq!(Sides::empty(), Sides::from_selections(&[6, 100]));

    for (index, side) in all.iter().enumerate() {
        let sides = Sides::from_selections(&[index]);
        for other in all.iter() {
            assert_eq!(other == side, sides.contains(*other));
        }
        let mut inserted = Sides::empty();
        inserted.insert(*side);
        assert_eq!(inserted, sides);
    }

    let sides = Sides::from_selections(&[1, 4]);
    assert!(!sides.contains(Side::X0));
    assert!(sides.contains(Side::X1));
    assert!(!sides.contains(Side::Y0));
    assert!(!sides.contains(Side::Y1));
    assert!(sides.contains(Side::Z0));
    assert!(!sides.contains(Side::Z1));
}

#[test]
fn sides_insert_keeps_what_is_there() {
    let mut sides = Sides::empty();
    sides.insert(Side::Y1);
    sides.insert(Side::Y1);
    sides.insert(Side::X0);
    assert!(sides.contains(Side::Y1));
    assert!(sides.contains(Side::X0));
    assert!(!sides.contains(Side::Z0));
    for side in [Side::X0, Side::X1, Side::Y0, Side::Y1, Side::Z0, Side::Z1] {
        assert!(Sides::all().contains(side));
        assert!(!Sides::empty().contains(side));
    }
}

/// A cylinder as the tests need it: where it stands, how it is aligned and
/// how large it is.
struct Cylinder {
    origin: (f64, f64, f64),
    radius: f64,
    height: f64,
    alignment: Direction,
}

impl Cylinder {
    /// Whether a point lies in the cylinder or on its boundary.
    fn contains(&self, coord: (f64, f64, f64)) -> bool {
        let relative = (coord.0 - self.origin.0, coord.1 - self.origin.1, coord.2 - self.origin.2);
        let (dr, dh) = distance_cylindrical(relative, self.alignment);

        dr <= self.radius && dh >= 0.0 && dh <= self.height
    }
}

#[test]
fn cylinder_contains_coordinates_in_absolute_space_depending_on_direction() {
    let mut cylinder =
        Cylinder { origin: (1.0, 1.0, 1.0), radius: 1.0, height: 2.0, alignment: Direction::X };

    let err = 1e-9;

    // Inside
    assert!(cylinder.contains((1.0 + err, 1.0, 1.0)));
    assert!(cylinder.contains((3.0 - err, 1.0, 1.0)));
    assert!(cylinder.contains((1.0 + err, 2.0 - err, 1.0)));
    assert!(cylinder.contains((1.0 + err, 1.0, 2.0 - err)));

    // Outside
    assert!(!cylinder.contains((1.0 - err, 1.0, 1.0)));
    assert!(!cylinder.contains((3.0 + err, 1.0, 1.0)));
    assert!(!cylinder.contains((1.0 + err, 2.0 + err, 1.0)));
    assert!(!cylinder.contains((1.0 + err, 2.0, 2.0 + err)));

    cylinder.alignment = Direction::Y;

    // Inside
    assert!(cylinder.contains((1.0, 1.0 + err, 1.0)));
    assert!(cylinder.contains((1.0, 3.0 - err, 1.0)));
    assert!(cylinder.contains((2.0 - err, 1.0 + err, 1.0)));
    assert!(cylinder.contains((1.0, 1.0 + err, 2.0 - err)));

    // Outside
    assert!(!cylinder.contains((1.0, 1.0 - err, 1.0)));
    assert!(!cylinder.contains((1.0, 3.0 + err, 1.0)));
    assert!(!cylinder.contains((2.0 + err, 1.0 + err, 1.0)));
    assert!(!cylinder.contains((1.0, 1.0 + err, 2.0 + err)));

    cylinder.alignment = Direction::Z;

    // Inside
    assert!(cylinder.contains((1.0, 1.0, 1.0 + err)));
    assert!(cylinder.contains((1.0, 1.0, 3.0 - err)));
    assert!(cylinder.contains((2.0 - err, 1.0, 1.0 + err)));
    assert!(cylinder.contains((1.0, 2.0 - err, 3.0 - err)));

    // Outside
    assert!(!cylinder.contains((1.0, 1.0, 1.0 - err)));
    assert!(!cylinder.contains((1.0, 1.0, 3.0 + err)));
    assert!(!cylinder.contains((2.0 + err, 1.0, 1.0 + err)));
    assert!(!cylinder.contains((1.0, 2.0 + err, 3.0 - err)));
}

#[test]
fn cylinder_contains_its_boundary() {
    for alignment in [Direction::X, Direction::Y, Direction::Z] {
        let cylinder = Cylinder { origin: (0.5, -2.0, 4.0), radius: 2.0, height: 5.0, alignment };
        let at = |h: f64, r0: f64, r1: f64| {
            let (x, y, z) = alignment.arrange(h, r0, r1);
            (x + cylinder.origin.0, y + cylinder.origin.1, z + cylinder.origin.2)
        };

        // At the radius, and at the height of the bottom and of the top
        assert!(cylinder.contains(at(0.0, 2.0, 0.0)));
        assert!(cylinder.contains(at(5.0, 0.0, 2.0)));
        assert!(cylinder.contains(at(2.5, -2.0, 0.0)));
        assert!(cylinder.contains(at(0.0, 0.0, 0.0)));

        // Beyond the radius, below the bottom and above the top
        assert!(!cylinder.contains(at(2.5, 2.0 + 1e-9, 0.0)));
        assert!(!cylinder.contains(at(5.0 + 1e-9, 0.0, 0.0)));
        assert!(!cylinder.contains(at(-1e-9, 0.0, 0.0)));
    }
}
