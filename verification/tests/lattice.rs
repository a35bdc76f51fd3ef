use grafen::lattice::{translate, Lattice, LatticeType, Site};
use std::f64;

/// Spacing between columns, between rows, and the shift of a row against the
/// one before it, for a crystal with vectors of lengths `a` and `b` that are
/// `gamma` radians apart.
fn spacing(a: f64, b: f64, gamma: f64) -> (f64, f64, f64) {
    (a, b * gamma.sin(), b * gamma.cos())
}

/// The positions of a lattice's sites in the plane.
fn positions(lattice: &Lattice, (dx, dy, dx_per_row): (f64, f64, f64)) -> Vec<(f64, f64, f64)> {
    lattice.coords(|col, row| {
        ((col as f64) * dx + (row as f64) * dx_per_row, (row as f64) * dy, 0.0)
    })
}

fn plus(a: (f64, f64, f64), b: (f64, f64, f64)) -> (f64, f64, f64) {
    (a.0 + b.0, a.1 + b.1, a.2 + b.2)
}

fn box_size(lattice: &Lattice, (dx, dy, _): (f64, f64, f64)) -> (f64, f64, f64) {
    ((lattice.nx as f64) * dx, (lattice.ny as f64) * dy, 0.0)
}

fn site(col: u64, row: u64) -> Site {
    Site { col, row }
}

#[test]
fn triclinic_lattice() {
    let dx = 1.0;
    let angle = f64::consts::PI / 3.0; // 60 degrees
    let lattice = Lattice::new(LatticeType::Triclinic, 3, 2);

    // Calculate shifts for x and y when shifting along y
    let dy = dx * f64::sin(angle);
    let dx_per_y = dx * f64::cos(angle);
    let spacing = spacing(dx, dx, angle);

    // Check the dimensions
    assert_eq!((3.0 * dx, 2.0 * dy, 0.0), box_size(&lattice, spacing));

    // ... and the coordinates
    let coords = positions(&lattice, spacing);
    let mut iter = coords.iter();
    assert_eq!(Some(&(0.0, 0.0, 0.0)), iter.next());
    assert_eq!(Some(&(dx, 0.0, 0.0)), iter.next());
    assert_eq!(Some(&(2.0 * dx, 0.0, 0.0)), iter.next());
    assert_eq!(Some(&(dx_per_y, dy, 0.0)), iter.next());
    assert_eq!(Some(&(dx_per_y + dx, dy, 0.0)), iter.next());
    assert_eq!(Some(&(dx_per_y + 2.0 * dx, dy, 0.0)), iter.next());
    assert_eq!(None, iter.next());
}

#[test]
fn hexagonal_lattice_has_empty_points() {
    let lattice = Lattice::new(LatticeType::Hexagonal, 6, 2);
    let (dx, dy, dx_per_row) = spacing(1.0, 1.0, 2.0 * f64::consts::PI / 3.0);

    // The hexagonal lattice has every third point removed to create
    // a chicken wire fence structure.
    let coords = positions(&lattice, (dx, dy, dx_per_row));
    let mut iter = coords.iter();
    assert_eq!(Some(&(0.0, 0.0, 0.0)), iter.next());
    assert_eq!(Some(&(dx, 0.0, 0.0)), iter.next());
    assert_eq!(Some(&(3.0 * dx, 0.0, 0.0)), iter.next());
    assert_eq!(Some(&(4.0 * dx, 0.0, 0.0)), iter.next());
    assert_eq!(Some(&(dx_per_row, dy, 0.0)), iter.next());
    assert_eq!(Some(&(dx_per_row + 2.0 * dx, dy, 0.0)), iter.next());
    assert_eq!(Some(&(dx_per_row + 3.0 * dx, dy, 0.0)), iter.next());
    assert_eq!(Some(&(dx_per_row + 5.0 * dx, dy, 0.0)), iter.next());
    assert_eq!(None, iter.next());
}

#[test]
fn hexagonal_lattice_has_corrected_periodicity() {
    // To perfectly replicate a hexagonal lattice along x and y
    // we need to account for the chicken wire fence structure
    // which removes every third point. We require that the final
    // nx is evenly divided by 3 and ny by 2.

    // The final shape of this system should be (6, 2).
    let lattice = Lattice::new(LatticeType::Hexagonal, 4, 1);
    let expected = Lattice::new(LatticeType::Hexagonal, 6, 2);

    assert_eq!(expected.sites, lattice.sites);
    assert_eq!((expected.nx, expected.ny), (lattice.nx, lattice.ny));
    assert_eq!((6, 2), (lattice.nx, lattice.ny));

    let spacing = spacing(1.0, 1.0, 2.0 * f64::consts::PI / 3.0);
    assert_eq!(positions(&expected, spacing), positions(&lattice, spacing));
    assert_eq!(box_size(&expected, spacing), box_size(&lattice, spacing));
}

#[test]
fn triclinic_lattice_lists_sites_row_by_row() {
    let lattice = Lattice::new(LatticeType::Triclinic, 3, 2);
    assert_eq!((3, 2), (lattice.nx, lattice.ny));
    assert_eq!(
        vec![site(0, 0), site(1, 0), site(2, 0), site(0, 1), site(1, 1), site(2, 1)],
        lattice.sites
    );
}

#[test]
fn hexagonal_lattice_keeps_two_sites_of_three() {
    let lattice = Lattice::new(LatticeType::Hexagonal, 6, 2);
    assert_eq!(
        vec![
            site(0, 0),
            site(1, 0),
            site(3, 0),
            site(4, 0),
            site(0, 1),
            site(2, 1),
            site(3, 1),
            site(5, 1)
        ],
        lattice.sites
    );
    for site in &lattice.sites {
        assert_ne!(0, (site.col + site.row + 1) % 3);
    }
}

#[test]
fn lattice_point_counts() {
    for &(nx, ny) in &[(0u64, 0u64), (1, 1), (3, 2), (5, 7), (10, 1), (1, 10), (12, 12)] {
        let triclinic = Lattice::new(LatticeType::Triclinic, nx, ny);
        assert_eq!((nx, ny), (triclinic.nx, triclinic.ny));
        assert_eq!((nx * ny) as usize, triclinic.sites.len());

        let hexagonal = Lattice::new(LatticeType::Hexagonal, nx, ny);
        let cols = (nx + 2) / 3 * 3;
        let rows = (ny + 1) / 2 * 2;
        assert_eq!((cols, rows), (hexagonal.nx, hexagonal.ny));
        let removed = (0..rows)
            .flat_map(|row| (0..cols).map(move |col| (col, row)))
            .filter(|(col, row)| (col + row + 1) % 3 == 0)
            .count();
        assert_eq!((cols * rows) as usize - removed, hexagonal.sites.len());
        assert_eq!((2 * cols * rows / 3) as usize, hexagonal.sites.len());
    }
}

#[test]
fn hexagonal_lattice_rounds_counts_up() {
    for nx in 0..10u64 {
        for ny in 0..7u64 {
            let lattice = Lattice::new(LatticeType::Hexagonal, nx, ny);
            let cols = (nx + 2) / 3 * 3;
            let rows = (ny + 1) / 2 * 2;
            let whole = Lattice::new(LatticeType::Hexagonal, cols, rows);
            assert_eq!(0, lattice.nx % 3);
            assert_eq!(0, lattice.ny % 2);
            assert!(nx <= lattice.nx && lattice.nx < nx + 3);
            assert!(ny <= lattice.ny && lattice.ny < ny + 2);
            assert_eq!(whole, lattice);
        }
    }
}

#[test]
fn empty_lattices_have_no_sites() {
    assert!(Lattice::new(LatticeType::Triclinic, 0, 5).sites.is_empty());
    assert!(Lattice::new(LatticeType::Triclinic, 5, 0).sites.is_empty());
    let hexagonal = Lattice::new(LatticeType::Hexagonal, 0, 0);
    assert_eq!((0, 0), (hexagonal.nx, hexagonal.ny));
    assert!(hexagonal.sites.is_empty());

    // The greatest number of columns is a multiple of three.
    let widest = Lattice::new(LatticeType::Hexagonal, u64::MAX - 1, 0);
    assert_eq!((u64::MAX, 0), (widest.nx, widest.ny));
    assert!(widest.sites.is_empty());
}

#[test]
fn translate_lattice() {
    let coords = vec![(0.0, 0.0, 0.0), (2.0, 1.0, 0.0)];
    let coords = translate(&coords, (-0.5, 0.5, 1.0), plus);

    let mut iter = coords.iter();
    assert_eq!(Some(&(-0.5, 0.5, 1.0)), iter.next());
    assert_eq!(Some(&(1.5, 1.5, 1.0)), iter.next());
    assert_eq!(None, iter.next());
}

#[test]
fn translate_there_and_back_restores_positions() {
    let lattice = Lattice::new(LatticeType::Hexagonal, 7, 5);
    let coords = positions(&lattice, spacing(0.142, 0.142, 2.0 * f64::consts::PI / 3.0));
    let shift = (1.25, -0.3, 17.001);
    let back = (-shift.0, -shift.1, -shift.2);

    let moved = translate(&coords, shift, plus);
    let returned = translate(&moved, back, plus);

    assert_eq!(coords.len(), moved.len());
    assert_eq!(coords.len(), returned.len());
    for ((start, moved), returned) in coords.iter().zip(moved.iter()).zip(returned.iter()) {
        assert_eq!(plus(*start, shift), *moved);
        assert!((start.0 - returned.0).abs() < 1e-9);
        assert!((start.1 - returned.1).abs() < 1e-9);
        assert!((start.2 - returned.2).abs() < 1e-9);
    }
}

#[test]
fn lattice_coords_follow_the_sites() {
    let lattice = Lattice::new(LatticeType::Hexagonal, 3, 2);
    let coords = lattice.coords(|col, row| (col, row));
    let sites: Vec<(u64, u64)> = lattice.sites.iter().map(|site| (site.col, site.row)).collect();
    assert_eq!(sites, coords);
    assert_eq!(vec![(0, 0), (1, 0), (0, 1), (2, 1)], coords);
}
