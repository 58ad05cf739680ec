use cpo_analyzer::density::{gaussian_kernel_k, gaussian_std_dev_squared};
use cpo_analyzer::grid::{create_meshgrid, grid_point_is_valid, reversed_rows, Hemisphere};

#[test]
fn meshgrid_repeats_axes() {
    let x: Vec<f64> = vec![-1.5, 0.0, 1.5];
    let y: Vec<f64> = vec![2.0, 4.0, 8.0];
    let (gx, gy) = create_meshgrid(&x, &y);
    assert_eq!(gx.len(), 3);
    assert_eq!(gy.len(), 3);
    for i in 0..3 {
        for j in 0..3 {
            assert_eq!(gx[i][j], x[j]);
            assert_eq!(gy[i][j], y[i]);
        }
    }
}

#[test]
fn reversed_rows_inverts_the_vertical_axis() {
    let m: Vec<Vec<u64>> = vec![vec![1, 2], vec![3, 4], vec![5, 6]];
    let r = reversed_rows(m);
    assert_eq!(r, vec![vec![5, 6], vec![3, 4], vec![1, 2]]);
}

#[test]
fn hemispheres_are_distinct() {
    assert_ne!(Hemisphere::Upper, Hemisphere::Lower);
}

#[test]
fn grid_center_is_valid_and_corner_is_masked() {
    let n = 301;
    // The center has planar radius 0.
    assert!(grid_point_is_valid(n, 150, 150));
    // The corner has planar radius 2 > sqrt(2) + 0.001.
    assert!(!grid_point_is_valid(n, 0, 0));
    // The mid-edge point has planar radius exactly sqrt(2), inside the disk.
    assert!(grid_point_is_valid(n, 150, 0));
}

#[test]
fn grid_mask_cuts_exactly_at_the_disk_boundary() {
    // For n = 301 the cell (i, j) has planar radius
    // sqrt(2 * (a^2 + b^2)) / 300 with a = 2j - 300, b = 300 - 2i; the
    // mask threshold (sqrt(2) + 0.001)^2 corresponds to
    // a^2 + b^2 = 90127.34..., so (300, 10) stays and (300, 12) is masked.
    let n = 301;
    // i = 145: b = 10, j = 300: a = 300; radius 1.41507... < 1.41521...
    assert!(grid_point_is_valid(n, 145, 300));
    // i = 144: b = 12, j = 300: a = 300; radius 1.41534... > 1.41521...
    assert!(!grid_point_is_valid(n, 144, 300));
    // Cross-check the two radii against the float threshold.
    let threshold = 2.0_f64.sqrt() + 0.001;
    let radius_valid = (2.0 * (300.0_f64 * 300.0 + 10.0 * 10.0)).sqrt() / 300.0;
    let radius_masked = (2.0 * (300.0_f64 * 300.0 + 12.0 * 12.0)).sqrt() / 300.0;
    assert!(radius_valid < threshold);
    assert!(radius_masked > threshold);
}

#[test]
fn kernel_parameter_grows_then_caps() {
    // k = 2 * (1 + n / 9) up to the cap of 100.
    assert_eq!(gaussian_kernel_k(1), (20, 9));
    assert_eq!(gaussian_kernel_k(9), (36, 9));
    assert_eq!(gaussian_kernel_k(440), (898, 9));
    assert_eq!(gaussian_kernel_k(441), (100, 1));
    assert_eq!(gaussian_kernel_k(1_000_000), (100, 1));
}

#[test]
fn kernel_parameter_stays_above_two() {
    for n in [1u64, 2, 9, 100, 440, 441, 10_000] {
        let (p, q) = gaussian_kernel_k(n);
        assert!(p > 2 * q);
    }
}

#[test]
fn std_dev_squared_matches_formula() {
    // n = 1: k = 20/9, std_dev^2 = 1 * (k/2 - 1) / k^2 = 0.0225.
    let (num, den) = gaussian_std_dev_squared(1);
    assert_eq!((num, den), (18, 800));
    assert!((num as f64 / den as f64 - 0.0225).abs() < 1e-15);
    // A capped case: k = 100, std_dev^2 = n * 49 / 10000.
    let (num, den) = gaussian_std_dev_squared(500);
    assert_eq!((num, den), (500 * 98, 20000));
    assert!((num as f64 / den as f64 - 500.0 * 49.0 / 10000.0).abs() < 1e-12);
}
