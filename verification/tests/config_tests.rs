use xray_tile::background::Color;
use xray_tile::config::{
    configure, read_region, read_resolution, read_strategy, required_number, required_single, Arguments,
    ConfigError, Flag, Parsed, TileRequest, DEFAULT_RESOLUTION,
};
use xray_tile::strategy::{ColoringStrategyKind, Single};

fn double(value: f64) -> Parsed<u64> {
    Parsed::Given(value.to_bits())
}

fn float(value: f32) -> Parsed<u32> {
    Parsed::Given(value.to_bits())
}

fn single(value: f32) -> Single {
    Single::from_bits(value.to_bits()).expect("a finite number")
}

fn minimal() -> Arguments {
    Arguments {
        octree_locations: vec![String::from("/data/octree")],
        output_filename: None,
        resolution: Parsed::Absent,
        coloring_strategy: None,
        min_intensity: Parsed::Absent,
        max_intensity: Parsed::Absent,
        max_stddev: Parsed::Absent,
        min_x: double(0.0),
        min_y: double(0.0),
        max_x: double(10.0),
        max_y: double(10.0),
        tile_background_color: None,
    }
}

fn accepted(args: Arguments) -> TileRequest {
    match configure(args) {
        Ok(request) => request,
        Err(error) => panic!("refused: {:?}", error),
    }
}

fn refused(args: Arguments) -> ConfigError {
    match configure(args) {
        Ok(_) => panic!("accepted"),
        Err(error) => error,
    }
}

#[test]
fn default_resolution_is_five_centimeters() {
    assert_eq!(DEFAULT_RESOLUTION, 0.05f64.to_bits());
}

#[test]
fn defaults_are_applied() {
    let request = accepted(minimal());
    assert_eq!(request.octree_locations, vec![String::from("/data/octree")]);
    assert_eq!(request.output_filename, "output.png");
    assert_eq!(request.resolution.get().to_bits(), 0.05f64.to_bits());
    assert_eq!(request.coloring_strategy, ColoringStrategyKind::XRay);
    assert_eq!(request.background, Color { red: 255, green: 255, blue: 255, alpha: 255 });
    assert_eq!(request.region.min().x.to_bits(), 0.0f64.to_bits());
    assert_eq!(request.region.min().y.to_bits(), 0.0f64.to_bits());
    assert_eq!(request.region.max().x.to_bits(), 10.0f64.to_bits());
    assert_eq!(request.region.max().y.to_bits(), 10.0f64.to_bits());
}

#[test]
fn given_values_are_kept() {
    let mut args = minimal();
    args.octree_locations = vec![String::from("a"), String::from("grpc://host:50051")];
    args.output_filename = Some(String::from("tile.png"));
    args.resolution = double(0.25);
    args.coloring_strategy = Some(String::from("colored"));
    args.tile_background_color = Some(String::from("transparent"));
    args.min_x = double(-4.5);
    args.max_y = double(99.0);
    let request = accepted(args);
    assert_eq!(request.octree_locations.len(), 2);
    assert_eq!(request.octree_locations[1], "grpc://host:50051");
    assert_eq!(request.output_filename, "tile.png");
    assert_eq!(request.resolution.get().to_bits(), 0.25f64.to_bits());
    assert_eq!(request.coloring_strategy, ColoringStrategyKind::Colored);
    assert_eq!(request.background.alpha, 0);
    assert_eq!(request.region.min().x.to_bits(), (-4.5f64).to_bits());
    assert_eq!(request.region.max().y.to_bits(), 99.0f64.to_bits());
}

#[test]
fn transparent_xray_needs_no_numbers() {
    let mut args = minimal();
    args.coloring_strategy = Some(String::from("xray"));
    args.tile_background_color = Some(String::from("transparent"));
    let request = accepted(args);
    assert_eq!(request.coloring_strategy, ColoringStrategyKind::XRay);
    assert_eq!(request.background, Color { red: 255, green: 255, blue: 255, alpha: 0 });
}

#[test]
fn corners_given_backwards_are_ordered() {
    let mut args = minimal();
    args.min_x = double(10.0);
    args.max_x = double(-10.0);
    let request = accepted(args);
    assert_eq!(request.region.min().x.to_bits(), (-10.0f64).to_bits());
    assert_eq!(request.region.max().x.to_bits(), 10.0f64.to_bits());
}

#[test]
fn a_run_needs_a_data_source() {
    let mut args = minimal();
    args.octree_locations = Vec::new();
    assert_eq!(refused(args), ConfigError::MissingArgument(Flag::OctreeLocations));
}

#[test]
fn resolution_must_be_positive() {
    for value in [0.0, -0.0, -0.05, -1.0e300, -5e-324] {
        let mut args = minimal();
        args.resolution = double(value);
        assert_eq!(refused(args), ConfigError::NonPositiveResolution, "{}", value);
    }
    let mut args = minimal();
    args.resolution = double(5e-324);
    assert!(configure(args).is_ok());
}

#[test]
fn resolution_must_be_a_number() {
    let mut args = minimal();
    args.resolution = Parsed::Malformed;
    assert_eq!(refused(args), ConfigError::InvalidNumber(Flag::Resolution));
    for value in [f64::NAN, f64::INFINITY, f64::NEG_INFINITY] {
        let mut args = minimal();
        args.resolution = double(value);
        assert_eq!(refused(args), ConfigError::InvalidNumber(Flag::Resolution));
    }
}

#[test]
fn unknown_strategy_is_refused() {
    let mut args = minimal();
    args.coloring_strategy = Some(String::from("sepia"));
    assert_eq!(refused(args), ConfigError::InvalidToken(Flag::ColoringStrategy));
}

#[test]
fn unknown_background_is_refused() {
    let mut args = minimal();
    args.tile_background_color = Some(String::from("black"));
    assert_eq!(refused(args), ConfigError::InvalidToken(Flag::TileBackgroundColor));
}

#[test]
fn intensity_needs_both_bounds() {
    let mut args = minimal();
    args.coloring_strategy = Some(String::from("colored_with_intensity"));
    assert_eq!(refused(args), ConfigError::MissingArgument(Flag::MinIntensity));

    let mut args = minimal();
    args.coloring_strategy = Some(String::from("colored_with_intensity"));
    args.min_intensity = float(0.0);
    assert_eq!(refused(args), ConfigError::MissingArgument(Flag::MaxIntensity));

    let mut args = minimal();
    args.coloring_strategy = Some(String::from("colored_with_intensity"));
    args.max_intensity = float(1.0);
    assert_eq!(refused(args), ConfigError::MissingArgument(Flag::MinIntensity));
}

#[test]
fn intensity_with_both_bounds_is_accepted() {
    let mut args = minimal();
    args.coloring_strategy = Some(String::from("colored_with_intensity"));
    args.min_intensity = float(2.0);
    args.max_intensity = float(250.0);
    args.max_stddev = Parsed::Malformed;
    let request = accepted(args);
    assert_eq!(
        request.coloring_strategy,
        ColoringStrategyKind::ColoredWithIntensity { min_intensity: single(2.0), max_intensity: single(250.0) }
    );
}

#[test]
fn intensity_bounds_must_be_numbers() {
    let mut args = minimal();
    args.coloring_strategy = Some(String::from("colored_with_intensity"));
    args.min_intensity = Parsed::Malformed;
    args.max_intensity = float(1.0);
    assert_eq!(refused(args), ConfigError::InvalidNumber(Flag::MinIntensity));

    let mut args = minimal();
    args.coloring_strategy = Some(String::from("colored_with_intensity"));
    args.min_intensity = float(1.0);
    args.max_intensity = float(f32::NAN);
    assert_eq!(refused(args), ConfigError::InvalidNumber(Flag::MaxIntensity));
}

#[test]
fn height_stddev_needs_its_limit() {
    let mut args = minimal();
    args.coloring_strategy = Some(String::from("colored_with_height_stddev"));
    assert_eq!(refused(args), ConfigError::MissingArgument(Flag::MaxStddev));

    let mut args = minimal();
    args.coloring_strategy = Some(String::from("colored_with_height_stddev"));
    args.max_stddev = float(f32::INFINITY);
    assert_eq!(refused(args), ConfigError::InvalidNumber(Flag::MaxStddev));

    let mut args = minimal();
    args.coloring_strategy = Some(String::from("colored_with_height_stddev"));
    args.max_stddev = float(0.75);
    assert_eq!(
        accepted(args).coloring_strategy,
        ColoringStrategyKind::ColoredWithHeightStddev { max_stddev: single(0.75) }
    );
}

#[test]
fn parameters_of_other_strategies_are_not_looked_at() {
    let mut args = minimal();
    args.min_intensity = Parsed::Malformed;
    args.max_intensity = float(f32::NAN);
    args.max_stddev = Parsed::Malformed;
    assert_eq!(accepted(args).coloring_strategy, ColoringStrategyKind::XRay);
}

#[test]
fn every_bound_of_the_region_is_needed() {
    let mut args = minimal();
    args.min_x = Parsed::Absent;
    assert_eq!(refused(args), ConfigError::MissingArgument(Flag::MinX));
    let mut args = minimal();
    args.min_y = Parsed::Absent;
    assert_eq!(refused(args), ConfigError::MissingArgument(Flag::MinY));
    let mut args = minimal();
    args.max_x = Parsed::Absent;
    assert_eq!(refused(args), ConfigError::MissingArgument(Flag::MaxX));
    let mut args = minimal();
    args.max_y = Parsed::Absent;
    assert_eq!(refused(args), ConfigError::MissingArgument(Flag::MaxY));
}

#[test]
fn every_bound_of_the_region_must_be_a_number() {
    let mut args = minimal();
    args.min_x = Parsed::Malformed;
    assert_eq!(refused(args), ConfigError::InvalidNumber(Flag::MinX));
    let mut args = minimal();
    args.min_y = double(f64::NAN);
    assert_eq!(refused(args), ConfigError::InvalidNumber(Flag::MinY));
    let mut args = minimal();
    args.max_x = double(f64::INFINITY);
    assert_eq!(refused(args), ConfigError::InvalidNumber(Flag::MaxX));
    let mut args = minimal();
    args.max_y = Parsed::Malformed;
    assert_eq!(refused(args), ConfigError::InvalidNumber(Flag::MaxY));
}

#[test]
fn the_first_broken_rule_is_reported() {
    let mut args = minimal();
    args.octree_locations = Vec::new();
    args.resolution = double(-1.0);
    args.coloring_strategy = Some(String::from("sepia"));
    args.min_x = Parsed::Absent;
    args.tile_background_color = Some(String::from("black"));
    assert_eq!(refused(args), ConfigError::MissingArgument(Flag::OctreeLocations));

    let mut args = minimal();
    args.resolution = double(-1.0);
    args.coloring_strategy = Some(String::from("sepia"));
    args.min_x = Parsed::Absent;
    args.tile_background_color = Some(String::from("black"));
    assert_eq!(refused(args), ConfigError::NonPositiveResolution);

    let mut args = minimal();
    args.coloring_strategy = Some(String::from("sepia"));
    args.min_x = Parsed::Absent;
    args.tile_background_color = Some(String::from("black"));
    assert_eq!(refused(args), ConfigError::InvalidToken(Flag::ColoringStrategy));

    let mut args = minimal();
    args.min_x = Parsed::Absent;
    args.max_y = Parsed::Malformed;
    args.tile_background_color = Some(String::from("black"));
    assert_eq!(refused(args), ConfigError::MissingArgument(Flag::MinX));

    let mut args = minimal();
    args.max_y = Parsed::Malformed;
    args.tile_background_color = Some(String::from("black"));
    assert_eq!(refused(args), ConfigError::InvalidNumber(Flag::MaxY));
}

#[test]
fn required_number_reads_finite_numbers() {
    assert_eq!(required_number(Flag::MinX, double(2.5)).map(|value| value.to_bits()), Ok(2.5f64.to_bits()));
    assert_eq!(required_number(Flag::MinX, Parsed::Absent), Err(ConfigError::MissingArgument(Flag::MinX)));
    assert_eq!(required_number(Flag::MaxY, Parsed::Malformed), Err(ConfigError::InvalidNumber(Flag::MaxY)));
    assert_eq!(required_number(Flag::MaxY, double(f64::NAN)), Err(ConfigError::InvalidNumber(Flag::MaxY)));
}

#[test]
fn required_single_reads_finite_numbers() {
    assert_eq!(required_single(Flag::MaxStddev, float(2.5)), Ok(single(2.5)));
    assert_eq!(
        required_single(Flag::MaxStddev, Parsed::Absent),
        Err(ConfigError::MissingArgument(Flag::MaxStddev))
    );
    assert_eq!(
        required_single(Flag::MinIntensity, Parsed::Malformed),
        Err(ConfigError::InvalidNumber(Flag::MinIntensity))
    );
    assert_eq!(
        required_single(Flag::MinIntensity, float(f32::NEG_INFINITY)),
        Err(ConfigError::InvalidNumber(Flag::MinIntensity))
    );
}

#[test]
fn read_resolution_defaults_and_checks() {
    assert_eq!(read_resolution(Parsed::Absent).map(|r| r.get().to_bits()), Ok(0.05f64.to_bits()));
    assert_eq!(read_resolution(double(2.0)).map(|r| r.get().to_bits()), Ok(2.0f64.to_bits()));
    assert_eq!(read_resolution(double(0.0)), Err(ConfigError::NonPositiveResolution));
    assert_eq!(read_resolution(Parsed::Malformed), Err(ConfigError::InvalidNumber(Flag::Resolution)));
}

#[test]
fn read_strategy_and_region_work_alone() {
    let mut args = minimal();
    args.coloring_strategy = Some(String::from("colored"));
    args.min_y = double(-3.0);
    assert_eq!(read_strategy(&args), Ok(ColoringStrategyKind::Colored));
    let region = read_region(&args).expect("a region");
    assert_eq!(region.min().y.to_bits(), (-3.0f64).to_bits());
    args.max_x = Parsed::Absent;
    assert_eq!(read_region(&args).err(), Some(ConfigError::MissingArgument(Flag::MaxX)));
}

#[test]
fn flags_are_named_as_on_the_command_line() {
    assert_eq!(Flag::OctreeLocations.as_str(), "octree_locations");
    assert_eq!(Flag::OutputFilename.as_str(), "output_filename");
    assert_eq!(Flag::Resolution.as_str(), "resolution");
    assert_eq!(Flag::ColoringStrategy.as_str(), "coloring_strategy");
    assert_eq!(Flag::MinIntensity.as_str(), "min_intensity");
    assert_eq!(Flag::MaxIntensity.as_str(), "max_intensity");
    assert_eq!(Flag::MaxStddev.as_str(), "max_stddev");
    assert_eq!(Flag::MinX.as_str(), "min_x");
    assert_eq!(Flag::MinY.as_str(), "min_y");
    assert_eq!(Flag::MaxX.as_str(), "max_x");
    assert_eq!(Flag::MaxY.as_str(), "max_y");
    assert_eq!(Flag::TileBackgroundColor.as_str(), "tile_background_color");
}
