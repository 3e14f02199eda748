use mirage::config::{
    ComplexPoint, FractalConfig, STANDARD_HEIGHT, STANDARD_MAX_ITERATIONS, STANDARD_WIDTH,
};

#[test]
fn standard_configuration_has_the_documented_values() {
    let config = FractalConfig::standard(ComplexPoint { re: -0.4f32, im: 0.6 }, 2.0);
    assert_eq!(config.width, 800);
    assert_eq!(config.height, 800);
    assert_eq!(config.max_iterations, 255);
    assert_eq!(config.constant, ComplexPoint { re: -0.4f32, im: 0.6 });
    assert_eq!(config.radius, 2.0);
}

#[test]
fn standard_constants_match_the_standard_configuration() {
    assert_eq!(STANDARD_WIDTH, 800);
    assert_eq!(STANDARD_HEIGHT, 800);
    assert_eq!(STANDARD_MAX_ITERATIONS, 255);
}

#[test]
fn with_dimensions_changes_the_dimensions_only() {
    let config = FractalConfig::standard(ComplexPoint { re: 1i32, im: 2 }, 3).with_dimensions(64, 48);
    assert_eq!(
        config,
        FractalConfig {
            width: 64,
            height: 48,
            constant: ComplexPoint { re: 1, im: 2 },
            radius: 3,
            max_iterations: 255,
        }
    );
}

#[test]
fn with_max_iterations_changes_the_cap_only() {
    let config = FractalConfig::standard(ComplexPoint { re: 1i32, im: 2 }, 3).with_max_iterations(9);
    assert_eq!(
        config,
        FractalConfig {
            width: 800,
            height: 800,
            constant: ComplexPoint { re: 1, im: 2 },
            radius: 3,
            max_iterations: 9,
        }
    );
}
