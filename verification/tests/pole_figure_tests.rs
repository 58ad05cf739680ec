use cpo_analyzer::configuration::{
    color_scale, default_false, default_true, figure_output_dir, figure_output_prefix,
    grain_data_file_prefix, particle_data_file_prefix, time_data_file, ColorGradient,
    PoleFiguresConfiguration,
};
use cpo_analyzer::crystal_axis::CrystalAxes;
use cpo_analyzer::minerals::Mineral;
use cpo_analyzer::pole_figure::{assemble_pole_figure_grid, matrix_max, PoleFigure};

fn figure(axis: CrystalAxes, mineral: Mineral, max: f64) -> PoleFigure {
    PoleFigure::new(mineral, axis, vec![vec![max.to_bits()]])
}

#[test]
fn matrix_max_finds_largest_entry() {
    let counts: Vec<Vec<u64>> = vec![vec![3, 9, 1], vec![4, 7, 2]];
    assert_eq!(matrix_max(&counts), 9);
    assert_eq!(matrix_max(&Vec::new()), 0);
}

#[test]
fn pole_figure_records_its_maximum() {
    let pf = PoleFigure::new(
        Mineral::Olivine,
        CrystalAxes::AAxis,
        vec![vec![1, 2], vec![5, 3]],
    );
    assert_eq!(pf.max_count, 5);
}

#[test]
fn assembly_shares_the_column_maximum() {
    // Two crystal axes for one mineral with per-axis maxima 3.0 and 7.0:
    // after assembly both report 7.0.
    let grid = vec![
        vec![figure(CrystalAxes::AAxis, Mineral::Olivine, 3.0)],
        vec![figure(CrystalAxes::BAxis, Mineral::Olivine, 7.0)],
    ];
    let assembled = assemble_pole_figure_grid(grid);
    assert_eq!(f64::from_bits(assembled[0][0].max_count), 7.0);
    assert_eq!(f64::from_bits(assembled[1][0].max_count), 7.0);
}

#[test]
fn assembly_keeps_columns_independent() {
    // Columns are minerals; each mineral keeps its own shared scale.
    let grid = vec![
        vec![
            figure(CrystalAxes::AAxis, Mineral::Olivine, 3.0),
            figure(CrystalAxes::AAxis, Mineral::Enstatite, 11.0),
        ],
        vec![
            figure(CrystalAxes::CAxis, Mineral::Olivine, 8.0),
            figure(CrystalAxes::CAxis, Mineral::Enstatite, 2.0),
        ],
    ];
    let assembled = assemble_pole_figure_grid(grid);
    assert_eq!(f64::from_bits(assembled[0][0].max_count), 8.0);
    assert_eq!(f64::from_bits(assembled[1][0].max_count), 8.0);
    assert_eq!(f64::from_bits(assembled[0][1].max_count), 11.0);
    assert_eq!(f64::from_bits(assembled[1][1].max_count), 11.0);
    // Tags and matrices are untouched.
    assert!(matches!(assembled[1][0].crystal_axis, CrystalAxes::CAxis));
    assert!(matches!(assembled[0][1].mineral, Mineral::Enstatite));
    assert_eq!(assembled[0][0].counts, vec![vec![3.0_f64.to_bits()]]);
}

#[test]
fn configuration_defaults_match_documentation() {
    assert_eq!(time_data_file(), "statistics");
    assert_eq!(particle_data_file_prefix(), "particle_CPO/particles");
    assert_eq!(grain_data_file_prefix(), "particle_CPO/weighted_CPO");
    assert_eq!(figure_output_dir(), "CPO_figures/");
    assert_eq!(figure_output_prefix(), "weighted_LPO");
    assert!(matches!(color_scale(), ColorGradient::Batlow));
    assert!(default_true());
    assert!(!default_false());
}

#[test]
fn default_configuration_is_empty_except_options() {
    let c = PoleFiguresConfiguration::default();
    assert_eq!(c.time_data_file, "statistics");
    assert!(c.elastisity_header);
    assert!(!c.small_figure);
    assert!(!c.no_description_text);
    assert!(c.times.is_empty());
    assert!(c.particle_ids.is_empty());
    assert!(c.axes.is_empty());
    assert!(c.minerals.is_empty());
}

#[test]
fn color_gradient_names() {
    assert_eq!(ColorGradient::Batlow.name(), "Batlow");
    assert_eq!(ColorGradient::Vik.name(), "Vik");
    assert_eq!(ColorGradient::Roma.name(), "Roma");
}
