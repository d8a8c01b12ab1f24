use xray_tile::background::Color;
use xray_tile::config::{configure, Arguments, Parsed, TileRequest};
use xray_tile::plan::{Action, Outcome, TilePlan};
use xray_tile::raster::RasterDimensions;
use xray_tile::region::{BoundingBox3D, Point3};
use xray_tile::scalar::Scalar;
use xray_tile::strategy::{ColoringStrategyKind, Single};

fn length(value: f64) -> Scalar {
    Scalar::from_bits(value.to_bits()).expect("a finite number")
}

fn corner(x: f64, y: f64, z: f64) -> Point3 {
    Point3 { x: length(x), y: length(y), z: length(z) }
}

fn extent(min: (f64, f64, f64), max: (f64, f64, f64)) -> BoundingBox3D {
    BoundingBox3D { min: corner(min.0, min.1, min.2), max: corner(max.0, max.1, max.2) }
}

fn request(min_x: f64, min_y: f64, max_x: f64, max_y: f64, resolution: f64) -> TileRequest {
    let args = Arguments {
        octree_locations: vec![String::from("/data/octree")],
        output_filename: None,
        resolution: Parsed::Given(resolution.to_bits()),
        coloring_strategy: Some(String::from("colored_with_height_stddev")),
        min_intensity: Parsed::Absent,
        max_intensity: Parsed::Absent,
        max_stddev: Parsed::Given(2.0f32.to_bits()),
        min_x: Parsed::Given(min_x.to_bits()),
        min_y: Parsed::Given(min_y.to_bits()),
        max_x: Parsed::Given(max_x.to_bits()),
        max_y: Parsed::Given(max_y.to_bits()),
        tile_background_color: Some(String::from("transparent")),
    };
    configure(args).expect("a valid configuration")
}

fn limits(volume: &BoundingBox3D) -> [f64; 6] {
    [
        f64::from_bits(volume.min.x.to_bits()),
        f64::from_bits(volume.min.y.to_bits()),
        f64::from_bits(volume.min.z.to_bits()),
        f64::from_bits(volume.max.x.to_bits()),
        f64::from_bits(volume.max.y.to_bits()),
        f64::from_bits(volume.max.z.to_bits()),
    ]
}

#[test]
fn plan_resolves_sizes_and_selects() {
    let plan = request(0.0, 0.0, 10.0, 10.0, 0.05).plan(&extent((5.0, 5.0, 0.0), (8.0, 8.0, 3.0)));
    assert_eq!(limits(&plan.volume), [5.0, 5.0, 0.0, 8.0, 8.0, 3.0]);
    assert_eq!(plan.dimensions, RasterDimensions { width: 200, height: 200 });
    assert_eq!(plan.output_filename, "output.png");
    assert_eq!(
        plan.coloring_strategy,
        ColoringStrategyKind::ColoredWithHeightStddev {
            max_stddev: Single::from_bits(2.0f32.to_bits()).expect("a finite number")
        }
    );
    assert_eq!(plan.background, Color { red: 255, green: 255, blue: 255, alpha: 0 });
    assert_eq!(plan.action(), Action::Generate);
}

#[test]
fn raster_covers_the_request_not_the_overlap() {
    let plan = request(0.0, 0.0, 10.0, 4.0, 0.5).plan(&extent((9.0, 1.0, 0.0), (20.0, 2.0, 1.0)));
    assert_eq!(limits(&plan.volume), [9.0, 1.0, 0.0, 10.0, 2.0, 1.0]);
    assert_eq!(plan.dimensions, RasterDimensions { width: 20, height: 8 });
    assert_eq!(plan.action(), Action::Generate);
}

#[test]
fn request_outside_the_data_is_skipped() {
    let plan = request(0.0, 0.0, 10.0, 10.0, 0.05).plan(&extent((50.0, 50.0, 0.0), (80.0, 80.0, 3.0)));
    assert!(plan.volume.is_inverted());
    assert_eq!(plan.dimensions, RasterDimensions { width: 200, height: 200 });
    assert_eq!(plan.action(), Action::Skip);
    let outcome = Outcome::of_skip();
    assert_eq!(outcome, Outcome::NoPoints);
    assert_eq!(outcome.notice(), Some("No points in bounding box. No output written."));
    assert_eq!(outcome.exit_code(), 0);
}

#[test]
fn request_without_area_is_skipped() {
    let source = extent((0.0, 0.0, 0.0), (10.0, 10.0, 3.0));
    let line = request(2.0, 0.0, 2.0, 10.0, 0.05).plan(&source);
    assert_eq!(line.dimensions, RasterDimensions { width: 0, height: 200 });
    assert!(!line.volume.is_inverted());
    assert_eq!(line.action(), Action::Skip);
    let dot = request(2.0, 3.0, 2.0, 3.0, 0.05).plan(&source);
    assert_eq!(dot.dimensions, RasterDimensions { width: 0, height: 0 });
    assert_eq!(dot.action(), Action::Skip);
}

#[test]
fn action_follows_volume_and_raster() {
    let base = TilePlan {
        volume: extent((0.0, 0.0, 0.0), (1.0, 1.0, 1.0)),
        output_filename: String::from("output.png"),
        dimensions: RasterDimensions { width: 1, height: 1 },
        coloring_strategy: ColoringStrategyKind::XRay,
        background: Color { red: 255, green: 255, blue: 255, alpha: 255 },
    };
    assert_eq!(base.action(), Action::Generate);
    let mut inverted = base.clone();
    inverted.volume = extent((2.0, 0.0, 0.0), (1.0, 1.0, 1.0));
    assert_eq!(inverted.action(), Action::Skip);
    let mut flat = base.clone();
    flat.dimensions = RasterDimensions { width: 1, height: 0 };
    assert_eq!(flat.action(), Action::Skip);
    let mut upside_down = base.clone();
    upside_down.volume = extent((0.0, 0.0, 5.0), (1.0, 1.0, 1.0));
    assert_eq!(upside_down.action(), Action::Generate);
}

#[test]
fn generation_that_wrote_a_tile_is_silent() {
    let outcome = Outcome::of_generation(true);
    assert_eq!(outcome, Outcome::TileWritten);
    assert_eq!(outcome.notice(), None);
    assert_eq!(outcome.exit_code(), 0);
}

#[test]
fn generation_without_points_is_noticed_not_failed() {
    let outcome = Outcome::of_generation(false);
    assert_eq!(outcome, Outcome::NoPoints);
    assert_eq!(outcome.notice(), Some("No points in bounding box. No output written."));
    assert_eq!(outcome.exit_code(), 0);
}

#[test]
fn image_size_is_width_then_height() {
    let size = RasterDimensions { width: 640, height: 480 }.to_vector();
    assert_eq!(size.x, 640);
    assert_eq!(size.y, 480);
    assert_eq!(size, cgmath::Vector2::new(640, 480));
    let plan = request(0.0, 0.0, 10.0, 4.0, 0.5).plan(&extent((0.0, 0.0, 0.0), (20.0, 20.0, 1.0)));
    assert_eq!(plan.dimensions.to_vector(), cgmath::Vector2::new(20, 8));
}
