use num_complex::Complex;
use pc_fourier::engine::UnitCellFourier;
use pc_fourier::fourier::{calculate_all_xi, has_side, Coefficient, FourierTable};
use pc_fourier::geometry::{HoleShape, UnitCellBase};
use pc_fourier::material::Material;
use pc_fourier::raster::{DielectricGrid, EngineError};
use std::f64::consts::PI;

/// Metres to picometres, the length unit of these tests.
fn length_units(metres: f64) -> u32 {
    (metres * 1e12).round() as u32
}

/// A dielectric constant in ten-thousandths.
fn epsilon_units(eps: f64) -> u32 {
    (eps * 10_000.0).round() as u32
}

/// The transform with the positive exponent of `field`, divided by the number of
/// pixels: one pass along each axis.
fn spectrum_of(field: &Vec<Vec<i64>>) -> Vec<Vec<Complex<f64>>> {
    let n = field.len();
    let w: Vec<Complex<f64>> =
        (0..n).map(|k| Complex::from_polar(1.0, 2.0 * PI * k as f64 / n as f64)).collect();
    let mut along_j = vec![vec![Complex::new(0.0, 0.0); n]; n];
    for i in 0..n {
        for k in 0..n {
            let mut acc = Complex::new(0.0, 0.0);
            for j in 0..n {
                acc += w[(k * j) % n] * field[i][j] as f64;
            }
            along_j[i][k] = acc;
        }
    }
    let cells = (n * n) as f64;
    let mut out = Vec::new();
    for m in 0..n {
        let mut row = Vec::new();
        for k in 0..n {
            let mut acc = Complex::new(0.0, 0.0);
            for i in 0..n {
                acc += w[(m * i) % n] * along_j[i][k];
            }
            row.push(acc / cells);
        }
        out.push(row);
    }
    out
}

/// The same, rounded to whole parts.
fn transform(field: &Vec<Vec<i64>>) -> Vec<Vec<Coefficient>> {
    spectrum_of(field)
        .iter()
        .map(|row| {
            row.iter().map(|c| Coefficient { re: c.re.round() as i64, im: c.im.round() as i64 }).collect()
        })
        .collect()
}

/// What takes the phase of the half-pixel offset out of the coefficient of order
/// `(m, k)`: the pixel centres lie symmetrically about index `(n - 1) / 2`, not about
/// index 0, where the transform has its origin.
fn to_cell_centre(m: i64, k: i64, n: usize) -> Complex<f64> {
    Complex::from_polar(1.0, -PI * (m + k) as f64 * (n as f64 - 1.0) / n as f64)
}

/// The table of a grid, with every entry as the coefficient it stands for.
fn all_xi(grid: &DielectricGrid, grid_size: usize) -> FourierTable {
    let spectrum = transform(&grid.zero_mean_field());
    calculate_all_xi(grid, grid_size, &spectrum).unwrap()
}

fn xi(table: &FourierTable, m: i64, k: i64) -> Complex<f64> {
    let n = table.size();
    let entry = table.order(m, k).unwrap();
    let unit = (n * n) as f64 * 10_000.0;
    Complex::new(entry.re as f64 / unit, entry.im as f64 / unit)
}

fn circle_grid(ff: f64, center: (i16, i16), grid_size: usize) -> DielectricGrid {
    let a = 295e-9;
    let radius = a * (ff / PI).sqrt();
    let mut base = UnitCellBase::new();
    base.add_atom(
        HoleShape::Circle { radius: length_units(radius) },
        center,
        Material::new_from_eps(epsilon_units(1.0)),
    );
    base.generate_grid(length_units(a), epsilon_units(12.7449), grid_size).unwrap()
}

fn labelled(n: usize) -> Vec<Vec<Coefficient>> {
    (0..n)
        .map(|r| (0..n).map(|c| Coefficient { re: (10 * r + c) as i64, im: -((10 * r + c) as i64) }).collect())
        .collect()
}

#[test]
fn test_fft_centered_circle() {
    let ff = 0.16;
    let grid_size = 64;
    let epsilon_air = 1.0;
    let epsilon_background = 12.7449;
    let grid = circle_grid(ff, (0, 0), grid_size);

    let xi_grid = all_xi(&grid, grid_size);

    // The grid holds 648 air pixels of 4096, as the disc of radius 14.44 pixels does:
    // the mean follows the filling factor as closely as the grid follows the disc.
    let eps_av = ff * epsilon_air + (1.0 - ff) * epsilon_background;
    let xi_00 = xi(&xi_grid, 0, 0);
    let slack = 0.01 * (epsilon_background - epsilon_air);
    assert!((xi_00.re - eps_av).abs() < slack, "xi(0,0) {} was not {}", xi_00.re, eps_av);
    let exact = (648.0 * epsilon_air + 3448.0 * epsilon_background) / 4096.0;
    assert!((xi_00.re - exact).abs() < 1e-12, "xi(0,0) {} was not {}", xi_00.re, exact);
    assert!(xi_00.im.abs() < 1e-9);
    let center = grid_size / 2;
    assert_eq!(xi_grid.get(center, center), xi_grid.order(0, 0).unwrap());

    // About the centre of the cell every coefficient is real: before rounding within
    // 1e-9, in the table within one count of its entries.
    let half = (grid_size / 2) as i64;
    let raw = spectrum_of(&grid.zero_mean_field());
    let unit = (grid_size * grid_size) as f64 * 10_000.0;
    let mut max_imag = f64::MIN;
    let mut max_imag_table = f64::MIN;
    for m in -half..half {
        for k in -half..half {
            let turn = to_cell_centre(m, k, grid_size);
            let at = |o: i64| o.rem_euclid(grid_size as i64) as usize;
            max_imag = max_imag.max((raw[at(m)][at(k)] / unit * turn).im.abs());
            if (m, k) != (0, 0) {
                max_imag_table = max_imag_table.max((xi(&xi_grid, m, k) * turn).im.abs());
            }
        }
    }
    assert!(max_imag < 1e-9, "FFT coefficients should be real, max imag was {}", max_imag);
    assert!(max_imag_table < 1.0 / unit, "max imag in the table was {}", max_imag_table);
    // Taken about pixel 0 they are not: the first harmonic, -1.4326 about the centre of
    // the cell, is turned by pi * 63 / 64.
    let first = xi(&xi_grid, 1, 0);
    assert!((first - Complex::new(1.430_907_24, -0.070_295_96)).norm() < 1e-7, "{}", first);
    let about_centre = first * to_cell_centre(1, 0, grid_size);
    assert!((about_centre.re + 1.432_632_9).abs() < 1e-6, "{}", about_centre);

    let xi_10 = xi(&xi_grid, 1, 0);
    let xi_01 = xi(&xi_grid, 0, 1);
    assert!((xi_10 - xi_01).norm() < 1e-9, "xi(1,0) must equal xi(0,1)");
}

#[test]
fn test_fft_off_center_circle() {
    let grid_size = 64;
    let ff = 0.16;
    let epsilon_air = 1.0;
    let epsilon_background = 12.7449;
    let grid = circle_grid(ff, (2500, 0), grid_size);

    let xi_grid = all_xi(&grid, grid_size);

    let eps_av = ff * epsilon_air + (1.0 - ff) * epsilon_background;
    let xi_00 = xi(&xi_grid, 0, 0);
    let slack = 0.01 * (epsilon_background - epsilon_air);
    assert!((xi_00.re - eps_av).abs() < slack, "xi(0,0) {} was not {}", xi_00.re, eps_av);
    let exact = (648.0 * epsilon_air + 3448.0 * epsilon_background) / 4096.0;
    assert!((xi_00.re - exact).abs() < 1e-12, "xi(0,0) {} was not {}", xi_00.re, exact);

    let xi_10 = xi(&xi_grid, 1, 0);
    assert!(xi_10.im.abs() > 1e-9, "xi(1,0) should be complex");

    // Along y nothing moved: about the centre of the cell xi(0,1) is as real as before.
    let xi_01 = xi(&xi_grid, 0, 1);
    let raw = spectrum_of(&grid.zero_mean_field());
    let unit = (grid_size * grid_size) as f64 * 10_000.0;
    let xi_01_raw = raw[0][1] / unit * to_cell_centre(0, 1, grid_size);
    assert!(xi_01_raw.im.abs() < 1e-9, "xi(0,1) should be real (no shift in y)");
    assert!((xi_01 * to_cell_centre(0, 1, grid_size)).im.abs() < 1.0 / unit);
    let xi_10_raw = raw[1][0] / unit * to_cell_centre(1, 0, grid_size);
    assert!(xi_10_raw.im.abs() > 1e-9, "xi(1,0) should be complex");
    assert!((xi_10 - xi_01).norm() > 1e-9, "xi(1,0) should not equal xi(0,1)");
}

#[test]
fn shift_by_a_quarter_cell_turns_the_first_harmonic_by_a_quarter() {
    let centered = all_xi(&circle_grid(0.16, (0, 0), 64), 64);
    let shifted = all_xi(&circle_grid(0.16, (2500, 0), 64), 64);
    // exp(+2 pi i * 16 / 64) = i: the real coefficient becomes imaginary.
    let before = xi(&centered, 1, 0);
    let after = xi(&shifted, 1, 0);
    assert!((after - before * Complex::new(0.0, 1.0)).norm() < 1e-6, "{} against {}", after, before);
    assert!((xi(&shifted, 0, 1) - xi(&centered, 0, 1)).norm() < 1e-6);
}

#[test]
fn concrete_scenario_average_epsilon() {
    let ff = 0.16;
    let grid_size = 128;
    let grid = circle_grid(ff, (0, 0), grid_size);
    let table = all_xi(&grid, grid_size);
    let expected = ff * 1.0 + (1.0 - ff) * 12.7449;
    let dc = xi(&table, 0, 0);
    // 2624 of the 16384 pixels are air: a filling factor of 0.16016.
    assert_eq!(table.order(0, 0).unwrap().re, 2624 * 10_000 + 13_760 * 127_449);
    assert!((dc.re - 10.863880859375).abs() < 1e-12, "{}", dc.re);
    assert!((dc.re - expected).abs() < 2e-3, "{} against {}", dc.re, expected);
    assert_eq!(dc.im, 0.0);
}

#[test]
fn centre_entry_is_the_exact_sum_whatever_the_transform_left_there() {
    for n in [1usize, 2, 3, 4, 7, 16] {
        let mut base = UnitCellBase::new();
        base.add_atom(HoleShape::Circle { radius: 300 }, (1000, 0), Material::new_from_eps(17));
        let grid = base.generate_grid(1000, 123, n).unwrap();
        let mut total = 0i64;
        for i in 0..n {
            for j in 0..n {
                total += grid.sample(i, j);
            }
        }
        assert_eq!(grid.sum(), total);
        let mut spectrum = labelled(n);
        spectrum[0][0] = Coefficient { re: 999, im: -5 };
        let table = calculate_all_xi(&grid, n, &spectrum).unwrap();
        assert_eq!(table.get(n / 2, n / 2), Coefficient { re: total, im: 0 });
        assert_eq!(table.order(0, 0), Some(Coefficient { re: total, im: 0 }));
    }
}

#[test]
fn zero_mean_field_is_exact() {
    // Lattice constant 8 on a 2 by 2 grid: pixel centres at -2 and 2.
    let mut base = UnitCellBase::new();
    base.add_atom(HoleShape::Circle { radius: 1 }, (2500, 2500), Material::new_from_eps(1));
    let grid = base.generate_grid(8, 9, 2).unwrap();
    assert_eq!(grid.sample(1, 1), 1);
    assert_eq!(grid.sum(), 28);
    // Four times each sample, less the sum.
    assert_eq!(grid.zero_mean_field(), vec![vec![8, 8], vec![8, -24]]);
    let total: i64 = grid.zero_mean_field().iter().flatten().sum();
    assert_eq!(total, 0);
}

#[test]
fn table_is_the_transform_moved_by_half_the_side() {
    let grid = UnitCellBase::new().generate_grid(10, 3, 4).unwrap();
    let table = calculate_all_xi(&grid, 4, &labelled(4)).unwrap();
    let at = |r: usize, c: usize| table.get(r, c).re;
    assert_eq!(
        (0..4).map(|r| (0..4).map(|c| at(r, c)).collect::<Vec<i64>>()).collect::<Vec<_>>(),
        vec![vec![22, 23, 20, 21], vec![32, 33, 30, 31], vec![2, 3, 48, 1], vec![12, 13, 10, 11]]
    );
    assert_eq!(table.get(0, 1), Coefficient { re: 23, im: -23 });
    assert_eq!(table.get(2, 2), Coefficient { re: 48, im: 0 });
    assert_eq!(table.size(), 4);
}

#[test]
fn odd_side_keeps_order_zero_at_half_the_side() {
    let grid = UnitCellBase::new().generate_grid(10, 2, 3).unwrap();
    let table = calculate_all_xi(&grid, 3, &labelled(3)).unwrap();
    let rows: Vec<Vec<i64>> = (0..3).map(|r| (0..3).map(|c| table.get(r, c).re).collect()).collect();
    assert_eq!(rows, vec![vec![22, 20, 21], vec![2, 18, 1], vec![12, 10, 11]]);
    assert_eq!(table.order(-1, -1).unwrap().re, 22);
    assert_eq!(table.order(1, 1).unwrap().re, 11);
    assert_eq!(table.order(2, 0), None);
    assert_eq!(table.order(0, -2), None);
}

#[test]
fn orders_run_from_minus_half_to_below_half() {
    let grid = UnitCellBase::new().generate_grid(10, 2, 4).unwrap();
    let table = calculate_all_xi(&grid, 4, &labelled(4)).unwrap();
    assert_eq!(table.order(-2, -2).unwrap().re, 22);
    assert_eq!(table.order(1, 1).unwrap().re, 11);
    assert_eq!(table.order(1, -2).unwrap().re, 12);
    assert_eq!(table.order(2, 0), None);
    assert_eq!(table.order(-3, 0), None);
    assert_eq!(table.order(0, 2), None);
    assert_eq!(table.order(i64::MIN, i64::MAX), None);
}

#[test]
fn mismatched_grid_size_is_invalid_geometry() {
    let grid = UnitCellBase::new().generate_grid(10, 2, 4).unwrap();
    assert_eq!(calculate_all_xi(&grid, 3, &labelled(3)).err(), Some(EngineError::InvalidGeometry));
    assert_eq!(calculate_all_xi(&grid, 5, &labelled(4)).err(), Some(EngineError::InvalidGeometry));
    assert_eq!(calculate_all_xi(&grid, 0, &labelled(0)).err(), Some(EngineError::InvalidGeometry));
}

#[test]
fn misshapen_spectrum_is_invalid_geometry() {
    let grid = UnitCellBase::new().generate_grid(10, 2, 4).unwrap();
    assert_eq!(calculate_all_xi(&grid, 4, &labelled(3)).err(), Some(EngineError::InvalidGeometry));
    let mut ragged = labelled(4);
    ragged[2].pop();
    assert_eq!(calculate_all_xi(&grid, 4, &ragged).err(), Some(EngineError::InvalidGeometry));
    assert!(has_side(&labelled(4), 4));
    assert!(!has_side(&ragged, 4));
    assert!(has_side(&Vec::new(), 0));
}

fn two_shapes() -> UnitCellBase {
    let mut base = UnitCellBase::new();
    base.add_atom(HoleShape::Circle { radius: 60_000 }, (-1000, 2000), Material::new_from_eps(10_000));
    base.add_atom(
        HoleShape::RightAngledIsosceles { leg: 90_000, rotation_degrees: 90 },
        (2000, 0),
        Material::new_from_eps(21_000),
    );
    base
}

#[test]
fn whole_engine_in_one_call_gives_the_table_of_its_steps() {
    let base = two_shapes();
    let grid = base.generate_grid(295_000, 127_449, 16).unwrap();
    let by_steps = all_xi(&grid, 16);
    let at_once = base.calculate_all_xi(295_000, 127_449, 16, |field: &Vec<Vec<i64>>| transform(field)).unwrap();
    assert_eq!(at_once.size(), 16);
    let mut differing = 0;
    for r in 0..16 {
        for c in 0..16 {
            assert_eq!(at_once.get(r, c), by_steps.get(r, c));
            if at_once.get(r, c) != at_once.get(8, 8) {
                differing += 1;
            }
        }
    }
    assert!(differing > 200);
    assert_eq!(at_once.order(0, 0), Some(Coefficient { re: grid.sum(), im: 0 }));
}

#[test]
fn whole_engine_keeps_the_exact_mean_whatever_the_transform_returns() {
    let base = two_shapes();
    let grid = base.generate_grid(295_000, 127_449, 8).unwrap();
    let junk = |field: &Vec<Vec<i64>>| {
        vec![vec![Coefficient { re: -7, im: 7 }; field.len()]; field.len()]
    };
    let table = base.calculate_all_xi(295_000, 127_449, 8, junk).unwrap();
    assert_eq!(table.get(4, 4), Coefficient { re: grid.sum(), im: 0 });
    assert_eq!(table.get(0, 0), Coefficient { re: -7, im: 7 });
}

#[test]
fn whole_engine_hands_the_zero_mean_field_to_the_transform() {
    let base = two_shapes();
    let expected = base.generate_grid(295_000, 127_449, 8).unwrap().zero_mean_field();
    let seen = std::cell::RefCell::new(Vec::new());
    let spy = |field: &Vec<Vec<i64>>| {
        seen.borrow_mut().push(field.clone());
        transform(field)
    };
    base.calculate_all_xi(295_000, 127_449, 8, spy).unwrap();
    assert_eq!(*seen.borrow(), vec![expected]);
}

#[test]
fn whole_engine_reports_each_failure() {
    let base = two_shapes();
    let good = |field: &Vec<Vec<i64>>| transform(field);
    assert_eq!(base.calculate_all_xi(295_000, 1, 0, good).err(), Some(EngineError::InvalidGeometry));
    assert_eq!(base.calculate_all_xi(0, 1, 8, good).err(), Some(EngineError::InvalidGeometry));
    let short = |field: &Vec<Vec<i64>>| transform(&field[1..].to_vec());
    assert_eq!(base.calculate_all_xi(295_000, 1, 8, short).err(), Some(EngineError::InvalidGeometry));
    let mut tilted = two_shapes();
    tilted.add_atom(HoleShape::Rectangle { width: 5, height: 6 }, (0, 0), Material::new_from_eps(1));
    assert_eq!(tilted.calculate_all_xi(295_000, 1, 8, good).err(), Some(EngineError::UnsupportedShape));
}
