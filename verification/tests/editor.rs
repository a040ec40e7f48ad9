use wrac::gui::{
    clamp_size, clamp_size_with_limits, pack_size, project_dir_parts, sanitize_plugin_data_dir, unpack_size,
    GuiResizePolicy, GuiSize, GuiSizeLimits, HostFamily, HostGuiLayout, HostGuiPolicy, HostGuiSizeUnit,
    HostPluginFormat,
};

fn limits() -> GuiSizeLimits {
    GuiSizeLimits { min: GuiSize { width: 320, height: 240 }, max: GuiSize { width: 640, height: 480 } }
}

#[test]
fn clamps_host_size_with_physical_limits() {
    let clamped = clamp_size(GuiSize { width: 100, height: 900 }, limits());

    assert_eq!(clamped.width, 320);
    assert_eq!(clamped.height, 480);
}

#[test]
fn sizes_within_limits_are_kept() {
    let size = GuiSize { width: 400, height: 300 };
    assert_eq!(clamp_size_with_limits(size, limits()), size);
}

#[test]
fn packed_sizes_unpack_to_the_same_size() {
    let size = GuiSize { width: 1920, height: 1080 };
    assert_eq!(pack_size(size), (1920u64 << 32) | 1080);
    assert_eq!(unpack_size(pack_size(size)), size);
    let big = GuiSize { width: u32::MAX, height: u32::MAX };
    assert_eq!(unpack_size(pack_size(big)), big);
}

#[test]
fn layout_counts_confirmed_sizes() {
    let mut layout = HostGuiLayout::new(GuiSize { width: 1000, height: 100 }, limits(), GuiResizePolicy::resizable());
    assert_eq!(layout.accepted_size(), GuiSize { width: 640, height: 240 });
    assert_eq!(layout.accepted_size_revision(), 0);
    layout.store_accepted_size(GuiSize { width: 500, height: 400 });
    assert_eq!(layout.accepted_size(), GuiSize { width: 500, height: 400 });
    assert_eq!(layout.accepted_size_revision(), 1);
    assert!(layout.can_resize());
    let hints = layout.resize_hints();
    assert!(hints.can_resize_horizontally && hints.can_resize_vertically && !hints.preserve_aspect_ratio);
    assert_eq!(layout.host_size_unit(), HostGuiSizeUnit::PhysicalPixels);
}

#[test]
fn cubase_vst3_policy_is_scoped_to_cubase_vst3() {
    let cubase_vst3 = HostGuiPolicy { family: HostFamily::SteinbergCubase, plugin_format: HostPluginFormat::Vst3 };
    assert!(cubase_vst3.should_async_resync_bounds_after_set_size());
    assert!(cubase_vst3.needs_cubase_vst3_scale_correction());

    let cubase_au = HostGuiPolicy { family: HostFamily::SteinbergCubase, plugin_format: HostPluginFormat::Au };
    assert!(!cubase_au.should_async_resync_bounds_after_set_size());
    assert!(!cubase_au.needs_cubase_vst3_scale_correction());
}

#[test]
fn host_size_unit_uses_logical_points_for_macos_wrappers() {
    let policy = HostGuiPolicy { family: HostFamily::Unknown, plugin_format: HostPluginFormat::Au };
    assert_eq!(policy.host_size_unit(true), HostGuiSizeUnit::LogicalPoints);
    assert_eq!(policy.host_size_unit(false), HostGuiSizeUnit::PhysicalPixels);
    let clap = HostGuiPolicy { family: HostFamily::Unknown, plugin_format: HostPluginFormat::Clap };
    assert_eq!(clap.host_size_unit(true), HostGuiSizeUnit::PhysicalPixels);
}

#[test]
fn data_dir_names_keep_only_safe_characters() {
    assert_eq!(sanitize_plugin_data_dir("com.example.gain-1"), "com.example.gain-1");
    assert_eq!(sanitize_plugin_data_dir("com.example/gain plugin"), "com.example_gain_plugin");
}

#[test]
fn project_dirs_come_from_reverse_dns_ids() {
    assert_eq!(
        project_dir_parts("com.example.wrac.gain"),
        Some(("com".to_string(), "example".to_string(), "wrac-gain".to_string()))
    );
    assert_eq!(project_dir_parts("com.example"), None);
    assert_eq!(project_dir_parts("com.example."), None);
    assert_eq!(project_dir_parts("plain"), None);
}

#[test]
fn set_size_records_every_size_and_applies_only_changes() {
    let mut layout = HostGuiLayout::new(GuiSize { width: 400, height: 300 }, limits(), GuiResizePolicy::resizable());
    let other = HostGuiPolicy { family: HostFamily::Other, plugin_format: HostPluginFormat::Vst3 };
    let same = layout.set_size(GuiSize { width: 400, height: 300 }, true, other);
    assert_eq!(same.size, GuiSize { width: 400, height: 300 });
    assert!(!same.apply_to_runtime);
    assert!(!same.post_resync);
    assert_eq!(layout.accepted_size_revision(), 1);

    let grown = layout.set_size(GuiSize { width: 5000, height: 310 }, true, other);
    assert_eq!(grown.size, GuiSize { width: 640, height: 310 });
    assert!(grown.apply_to_runtime);
    assert_eq!(layout.accepted_size(), GuiSize { width: 640, height: 310 });

    let cubase = HostGuiPolicy { family: HostFamily::SteinbergCubase, plugin_format: HostPluginFormat::Vst3 };
    let resync = layout.set_size(GuiSize { width: 640, height: 310 }, true, cubase);
    assert!(!resync.apply_to_runtime);
    assert!(resync.post_resync);
    let closed = layout.set_size(GuiSize { width: 500, height: 310 }, false, cubase);
    assert!(!closed.apply_to_runtime);
    assert!(!closed.post_resync);
    assert_eq!(layout.accepted_size(), GuiSize { width: 500, height: 310 });
    assert_eq!(layout.accepted_size_revision(), 4);
}
