use dmi_assistant::config::{Config, ExplorerSettings};
use dmi_assistant::dmi_utils::{CustomFilterType, Directions};
use dmi_assistant::resize::{effective_resize, StateboxResizing};
use dmi_assistant::shell::{ColorPickerType, Directories, Screens};

#[test]
fn direction_ordinals_round_trip() {
    for d in 0..8u8 {
        let direction = Directions::from(d);
        assert_eq!(u8::from(direction), d);
    }
}

#[test]
fn out_of_range_ordinals_fall_back_to_south() {
    assert_eq!(Directions::from(8), Directions::South);
    assert_eq!(Directions::from(255), Directions::South);
}

#[test]
fn direction_names() {
    assert_eq!(Directions::South.display_name(), "South");
    assert_eq!(Directions::NorthWest.display_name(), "NorthWest");
}

#[test]
fn filter_names() {
    assert_eq!(CustomFilterType::Nearest.display_name(), "Nearest Neighbor");
    assert_eq!(CustomFilterType::Lanczos3.display_name(), "Lanczos with window 3");
}

#[test]
fn effective_resize_clamps_each_dimension() {
    // Height exceeds, width does not: width reverts to the original.
    assert_eq!(
        effective_resize(64, 64, StateboxResizing::Resized { height: 128, width: 32 }),
        StateboxResizing::Resized { height: 128, width: 64 }
    );
    // Width exceeds, height does not.
    assert_eq!(
        effective_resize(64, 64, StateboxResizing::Resized { height: 16, width: 96 }),
        StateboxResizing::Resized { height: 64, width: 96 }
    );
    // Both exceed: taken as requested.
    assert_eq!(
        effective_resize(64, 64, StateboxResizing::Resized { height: 96, width: 96 }),
        StateboxResizing::Resized { height: 96, width: 96 }
    );
}

#[test]
fn effective_resize_rejects_downscales() {
    assert_eq!(
        effective_resize(64, 64, StateboxResizing::Resized { height: 32, width: 32 }),
        StateboxResizing::Original
    );
    assert_eq!(
        effective_resize(64, 64, StateboxResizing::Resized { height: 64, width: 64 }),
        StateboxResizing::Original
    );
    assert_eq!(
        effective_resize(64, 64, StateboxResizing::Resized { height: 128, width: 0 }),
        StateboxResizing::Resized { height: 128, width: 64 }
    );
}

#[test]
fn effective_resize_is_idempotent() {
    let cases = [
        (64u32, 64u32, StateboxResizing::Resized { height: 128, width: 32 }),
        (64, 64, StateboxResizing::Resized { height: 32, width: 128 }),
        (64, 64, StateboxResizing::Resized { height: 16, width: 16 }),
        (64, 64, StateboxResizing::Resized { height: 96, width: 96 }),
        (64, 64, StateboxResizing::Original),
    ];
    for (h, w, request) in cases {
        let once = effective_resize(h, w, request);
        let twice = effective_resize(h, w, once);
        assert_eq!(once, twice);
    }
}

#[test]
fn default_resize_request() {
    assert_eq!(
        StateboxResizing::default(),
        StateboxResizing::Resized { height: 64, width: 64 }
    );
}

#[test]
fn default_filter_is_nearest() {
    assert_eq!(CustomFilterType::default(), CustomFilterType::Nearest);
}

#[test]
fn default_screen_is_the_explorer() {
    assert_eq!(Screens::default(), Screens::Explorer);
}

#[test]
fn default_explorer_settings() {
    let settings = ExplorerSettings::default();
    assert_eq!(settings.page_size, 20);
    assert_eq!(settings.delimeter, ", ");
    assert_eq!(settings.recursion_depth, 20);
}

#[test]
fn config_carries_its_paths() {
    let config = Config {
        path_to_config_file: "/tmp/app/Config.toml".to_string(),
        log_dir: "/tmp/app/logs".to_string(),
        cache_dir: "/tmp/app/cache".to_string(),
        data_dir: "/tmp/app/data".to_string(),
    };
    let copy = config.clone();
    assert_eq!(copy.path_to_config_file, "/tmp/app/Config.toml");
    assert_eq!(copy.log_dir, "/tmp/app/logs");
    assert_eq!(copy.cache_dir, "/tmp/app/cache");
    assert_eq!(copy.data_dir, "/tmp/app/data");
}

#[test]
fn shell_enums_compare_by_variant() {
    assert_ne!(Screens::Explorer, Screens::Viewer);
    assert_eq!(ColorPickerType::DefaultTextColor, ColorPickerType::DefaultTextColor);
    assert_ne!(Directories::Log, Directories::Cache);
    assert_eq!(Directories::Config, Directories::Config);
}
