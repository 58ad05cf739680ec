use vstd::prelude::*;

use crate::crystal_axis::CrystalAxes;
use crate::minerals::Mineral;

verus! {

/// The command-line arguments: the location of the configuration file.
#[derive(Debug)]
pub struct Opt {
    /// File to process.
    pub config_file: String,
}

/// The color gradient used to render a density field.
#[derive(Clone, Copy, PartialEq, Eq, Structural, Debug)]
pub enum ColorGradient {
    Vik,
    Batlow,
    Simple,
    Imola,
    Hawaii,
    Roma,
}

impl ColorGradient {
    /// What `name` returns for each gradient.
    pub open spec fn spec_name(self) -> Seq<char> {
        match self {
            ColorGradient::Vik => "Vik"@,
            ColorGradient::Batlow => "Batlow"@,
            ColorGradient::Simple => "Simple"@,
            ColorGradient::Imola => "Imola"@,
            ColorGradient::Hawaii => "Hawaii"@,
            ColorGradient::Roma => "Roma"@,
        }
    }

    /// The gradient's name, as it appears in configuration files and in the
    /// names of output files.
    pub fn name(&self) -> (r: String)
        ensures
            r@ == self.spec_name(),
    {
        match self {
            ColorGradient::Vik => "Vik".to_owned(),
            ColorGradient::Batlow => "Batlow".to_owned(),
            ColorGradient::Simple => "Simple".to_owned(),
            ColorGradient::Imola => "Imola".to_owned(),
            ColorGradient::Hawaii => "Hawaii".to_owned(),
            ColorGradient::Roma => "Roma".to_owned(),
        }
    }
}

/// The configuration of the pole-figure analysis.
///
/// Requested times are carried in fixed-point time units (the caller picks
/// the scale when it reads the configuration), so that resolving a requested
/// time against the recorded times is exact integer arithmetic.
pub struct PoleFiguresConfiguration {
    /// Name of the data file relating timestep numbers to the time they
    /// represent.
    pub time_data_file: String,
    /// Prefix of the per-timestep files holding global particle data such as
    /// position, deformation type and elasticity information.
    pub particle_data_file_prefix: String,
    /// Prefix of the per-timestep files holding grain data: the particle id
    /// and the Euler angles of each mineral.
    pub grain_data_file_prefix: String,
    /// Directory where the produced pole figures are written.
    pub figure_output_dir: String,
    /// Prefix of the produced pole-figure files.
    pub figure_output_prefix: String,
    /// The color gradient used for the density maps.
    pub color_scale: ColorGradient,
    /// Whether to include elasticity information in the header of the
    /// pole-figure plot.
    pub elastisity_header: bool,
    /// Whether to produce a small figure instead of the normal size.
    pub small_figure: bool,
    /// Whether to omit mineral and axis annotations from the figure.
    pub no_description_text: bool,
    /// The times at which to make pole figures, in fixed-point time units.
    /// Each is resolved to the closest recorded timestep.
    pub times: Vec<i64>,
    /// The ids of the particles to plot; one plot is made per id.
    pub particle_ids: Vec<u64>,
    /// The crystal axes to plot, the horizontal axis of the figure grid.
    pub axes: Vec<CrystalAxes>,
    /// The minerals to plot, the vertical axis of the figure grid.
    pub minerals: Vec<Mineral>,
}

impl Default for PoleFiguresConfiguration {
    /// The configuration with every optional value at its default and no
    /// requested times, particles, axes or minerals.
    fn default() -> (c: Self)
        ensures
            c.time_data_file@ == "statistics"@,
            c.particle_data_file_prefix@ == "particle_CPO/particles"@,
            c.grain_data_file_prefix@ == "particle_CPO/weighted_CPO"@,
            c.figure_output_dir@ == "CPO_figures/"@,
            c.figure_output_prefix@ == "weighted_LPO"@,
            c.color_scale == ColorGradient::Batlow,
            c.elastisity_header == true,
            c.small_figure == false,
            c.no_description_text == false,
            c.times@ == Seq::<i64>::empty(),
            c.particle_ids@ == Seq::<u64>::empty(),
            c.axes@ == Seq::<CrystalAxes>::empty(),
            c.minerals@ == Seq::<Mineral>::empty(),
    {
        PoleFiguresConfiguration {
            time_data_file: "statistics".to_owned(),
            particle_data_file_prefix: "particle_CPO/particles".to_owned(),
            grain_data_file_prefix: "particle_CPO/weighted_CPO".to_owned(),
            figure_output_dir: "CPO_figures/".to_owned(),
            figure_output_prefix: "weighted_LPO".to_owned(),
            color_scale: ColorGradient::Batlow,
            elastisity_header: true,
            small_figure: false,
            no_description_text: false,
            times: Vec::new(),
            particle_ids: Vec::new(),
            axes: Vec::new(),
            minerals: Vec::new(),
        }
    }
}

/// The global configuration: where to find the experiment data, which
/// experiments to analyze, and how.
pub struct Config {
    /// The location which is the basis for all other paths.
    pub base_dir: String,
    /// The directories that contain the experiments' data and receive their
    /// results.
    pub experiment_dirs: Vec<String>,
    /// Pole-figure configuration options.
    pub pole_figures: Option<PoleFiguresConfiguration>,
    /// Whether the grain data has been zlib-compressed.
    pub compressed: bool,
}

/// The default `elastisity_header` flag is the only one that defaults to on.
pub fn default_true() -> (r: bool)
    ensures
        r == true,
{
    true
}

/// Default for the boolean options that are off unless requested.
pub fn default_false() -> (r: bool)
    ensures
        r == false,
{
    false
}

/// Default name of the file relating timestep numbers to times.
pub fn time_data_file() -> (r: String)
    ensures
        r@ == "statistics"@,
{
    PoleFiguresConfiguration::default().time_data_file
}

/// Default prefix of the per-timestep particle-data files.
pub fn particle_data_file_prefix() -> (r: String)
    ensures
        r@ == "particle_CPO/particles"@,
{
    PoleFiguresConfiguration::default().particle_data_file_prefix
}

/// Default prefix of the per-timestep grain-data files.
pub fn grain_data_file_prefix() -> (r: String)
    ensures
        r@ == "particle_CPO/weighted_CPO"@,
{
    PoleFiguresConfiguration::default().grain_data_file_prefix
}

/// Default directory for the produced pole figures.
pub fn figure_output_dir() -> (r: String)
    ensures
        r@ == "CPO_figures/"@,
{
    PoleFiguresConfiguration::default().figure_output_dir
}

/// Default prefix of the produced pole-figure files.
pub fn figure_output_prefix() -> (r: String)
    ensures
        r@ == "weighted_LPO"@,
{
    PoleFiguresConfiguration::default().figure_output_prefix
}

/// Default color gradient.
pub fn color_scale() -> (r: ColorGradient)
    ensures
        r == ColorGradient::Batlow,
{
    PoleFiguresConfiguration::default().color_scale
}

} // verus!
