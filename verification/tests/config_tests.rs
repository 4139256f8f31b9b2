use fluid_sim::config::SimulationConfig;
use fluid_sim::error::{sync_wait_policy, ConfigFault, SimulationError};

#[test]
fn test_default_config_validation() {
    let config = SimulationConfig::default();
    assert!(
        config.validate().is_ok(),
        "Default configuration should be valid"
    );

    assert!(config.grid_size <= config.sph_params.smoothing_radius);
    assert!(config.grid_size > 0);
    assert!(config.sph_params.smoothing_radius > 0);
    assert!(config.min_time_step > 0);
    assert!(config.max_time_step > 0);
    assert!(config.min_time_step < config.max_time_step);
}

#[test]
fn test_preset_configs_validation() {
    let configs = vec![
        ("high_performance", SimulationConfig::high_performance()),
        ("high_quality", SimulationConfig::high_quality()),
        ("large_scale", SimulationConfig::large_scale()),
    ];

    for (name, config) in configs {
        assert!(
            config.validate().is_ok(),
            "{} configuration should be valid",
            name
        );

        // grid_size / smoothing_radius in [0.5, 1.0], in millionths
        let ratio = config.grid_size as i128 * 1_000_000 / config.sph_params.smoothing_radius as i128;
        assert!(
            (500_000..=1_000_000).contains(&ratio),
            "{} config grid size/kernel radius ratio ({}) should be in [0.5, 1.0] range",
            name,
            ratio
        );
    }
}

#[test]
fn test_config_info_display() {
    let config = SimulationConfig::large_scale();

    // 0.1 units and 0.08 units in fixed point
    assert_eq!(config.sph_params.smoothing_radius, 100_000);
    assert_eq!(config.grid_size, 80_000);
    assert_eq!(config.max_neighbors, 64);
    // A [-5, 5]^3 volume and a 1/20 .. 1/120 second time-step band.
    assert_eq!(config.simulation_aabb.min, fluid_sim::fixed::Vec3Fx::new(-5_000_000, -5_000_000, -5_000_000));
    assert_eq!(config.simulation_aabb.max, fluid_sim::fixed::Vec3Fx::new(5_000_000, 5_000_000, 5_000_000));
    assert_eq!(config.max_time_step, 50_000);
    assert_eq!(config.min_time_step, 8_333);
}

#[test]
fn test_grid_size_optimization() {
    let config = SimulationConfig::default();

    let ratio = config.grid_size as i128 * 1_000_000 / config.sph_params.smoothing_radius as i128;
    assert!(
        (600_000..=900_000).contains(&ratio),
        "Grid size should be about 60%-90% of kernel radius, actual ratio (millionths): {}",
        ratio
    );
}

#[test]
fn test_time_step_clamping() {
    let config = SimulationConfig::default();

    // 1ms is below the floor, 100ms above the ceiling, 20ms inside
    assert_eq!(config.clamp_time_step(1_000), config.min_time_step);
    assert_eq!(config.clamp_time_step(100_000), config.max_time_step);
    assert_eq!(config.clamp_time_step(20_000), 20_000);

    let dt_60fps = 16_666;
    let dt_30fps = 33_333;
    let dt_120fps = 8_333;

    assert_eq!(config.clamp_time_step(dt_60fps), dt_60fps);
    assert_eq!(config.clamp_time_step(dt_30fps), dt_30fps);
    assert_eq!(config.clamp_time_step(dt_120fps), dt_120fps);
}

#[test]
fn test_dynamic_time_step_behavior() {
    let scenarios = vec![
        ("Stable 60 FPS", 16_666i64),
        ("Stable 30 FPS", 33_333),
        ("High framerate 120 FPS", 8_333),
        ("Stutter case", 100_000),
        ("Extremely high framerate", 1_000),
    ];

    let config = SimulationConfig::default();

    for (scenario, raw_dt) in scenarios {
        let clamped_dt = config.clamp_time_step(raw_dt);
        assert!(
            clamped_dt >= config.min_time_step,
            "{}: clamped below floor",
            scenario
        );
        assert!(
            clamped_dt <= config.max_time_step,
            "{}: clamped above ceiling",
            scenario
        );
    }
}

#[test]
fn test_validate_rejects_each_fault() {
    let mut config = SimulationConfig::default();
    config.grid_size = 0;
    assert_eq!(
        config.validate(),
        Err(SimulationError::InvalidConfig(ConfigFault::NonPositiveGridSize))
    );

    let mut config = SimulationConfig::default();
    config.sph_params.smoothing_radius = -1;
    assert_eq!(
        config.validate(),
        Err(SimulationError::InvalidConfig(
            ConfigFault::NonPositiveSmoothingRadius
        ))
    );

    let mut config = SimulationConfig::default();
    config.grid_size = config.sph_params.smoothing_radius + 1;
    assert_eq!(
        config.validate(),
        Err(SimulationError::InvalidConfig(
            ConfigFault::GridLargerThanSmoothingRadius
        ))
    );

    let mut config = SimulationConfig::default();
    config.min_time_step = 0;
    assert_eq!(
        config.validate(),
        Err(SimulationError::InvalidConfig(ConfigFault::NonPositiveTimeStep))
    );

    let mut config = SimulationConfig::default();
    config.min_time_step = config.max_time_step;
    assert_eq!(
        config.validate(),
        Err(SimulationError::InvalidConfig(ConfigFault::TimeStepOrder))
    );
}

#[test]
fn test_sync_wait_policy_bounds_retries() {
    let mut attempts = 0u32;
    for _ in 0..3 {
        attempts = sync_wait_policy(attempts, 3).expect("retries remain");
    }
    assert_eq!(attempts, 3);
    assert_eq!(
        sync_wait_policy(attempts, 3),
        Err(SimulationError::SyncTimeoutError)
    );
}

#[test]
fn test_error_messages_nonempty() {
    let errors = vec![
        SimulationError::CapacityExceeded,
        SimulationError::AllocationError,
        SimulationError::SyncTimeoutError,
        SimulationError::InvalidConfig(ConfigFault::NonPositiveGridSize),
        SimulationError::InvalidConfig(ConfigFault::NonPositiveSmoothingRadius),
        SimulationError::InvalidConfig(ConfigFault::GridLargerThanSmoothingRadius),
        SimulationError::InvalidConfig(ConfigFault::NonPositiveTimeStep),
        SimulationError::InvalidConfig(ConfigFault::TimeStepOrder),
    ];
    for e in errors {
        assert!(!e.message().is_empty());
    }
}
