use wrac::commands::{ensure_wrapper_resources_supported, WrapperBuild};
use wrac::manifest::{fourcc, vst3_component_id_bytes, PluginFormat};
use wrac::text::replace_all;
use wrac::validators::normalize_windows_aax_validator_main_config;
use wrac::metadata::{PluginMetadata, PluginProductMetadata, ValidationMetadata};
use wrac::packages::{find_package, package_request, select_all, select_single, validate_plugin_layout, PackageRequest};
use wrac::tooling::{
    cmake_help_lists_generator, cmake_visual_studio_generators, parse_vst3_validator_cids,
    select_latest_visual_studio_generator, visual_studio_generator_version,
};

#[test]
fn vst3_component_id_uses_clap_wrapper_inverse_tuid_order() {
    assert_eq!(
        vst3_component_id_bytes("c905bf36-234a-54d0-94f6-70d73f16a08e").unwrap(),
        [
            0x36, 0xbf, 0x05, 0xc9, 0x4a, 0x23, 0xd0, 0x54, 0x94, 0xf6, 0x70, 0xd7, 0x3f, 0x16, 0xa0, 0x8e,
        ]
    );
}

#[test]
fn vst3_component_id_rejects_bad_hex() {
    assert!(vst3_component_id_bytes("c905bf36-234a-54d0-94f6-70d73f16a08").is_err());
    assert!(vst3_component_id_bytes("z905bf36-234a-54d0-94f6-70d73f16a08e").is_err());
}

#[test]
fn fourcc_is_big_endian_ascii() {
    assert_eq!(fourcc("SnCl").unwrap(), 0x536E_436C);
}

#[test]
fn fourcc_needs_four_ascii_bytes() {
    assert_eq!(fourcc("Abc").unwrap_err(), "Abc must be exactly 4 ASCII bytes");
    assert!(fourcc("Abcé").is_err());
}

#[test]
fn parses_vst3_validator_cids_from_logged_output() {
    let output = r#"
* Scanning classes...
  Class Info 0:
    name = WRAC Gain
    cid = 822011CA37EC5CEF92D7EC7E67207195
  Class Info 1:
    name = Companion Controller
    cid = ffff664c-b963-53e6-87cc-2a7ceb29674b
"#;

    assert_eq!(
        parse_vst3_validator_cids(output),
        vec!["822011CA37EC5CEF92D7EC7E67207195".to_string(), "FFFF664CB96353E687CC2A7CEB29674B".to_string(),]
    );
}

#[test]
fn parses_visual_studio_generators_from_cmake_help() {
    let help = r#"
Generators

The following generators are available on this platform (* marks default):
* Visual Studio 18 2026        = Generates Visual Studio 2026 project files.
  Visual Studio 17 2022        = Generates Visual Studio 2022 project files.
  Ninja                        = Generates build.ninja files.
"#;

    assert!(cmake_help_lists_generator(help, "Visual Studio 18 2026"));
    assert!(cmake_help_lists_generator(help, "Visual Studio 17 2022"));
    assert!(!cmake_help_lists_generator(help, "Visual Studio 16 2019"));
    assert_eq!(
        cmake_visual_studio_generators(help),
        vec!["Visual Studio 18 2026".to_owned(), "Visual Studio 17 2022".to_owned(),]
    );
}

#[test]
fn selects_latest_visual_studio_generator_from_cmake_help() {
    let help = r#"
Generators

The following generators are available on this platform (* marks default):
  Visual Studio 17 2022        = Generates Visual Studio 2022 project files.
* Visual Studio 16 2019        = Generates Visual Studio 2019 project files.
  Visual Studio 15 2017 [arch] = Generates Visual Studio 2017 project files.
  Ninja                        = Generates build.ninja files.
"#;

    assert_eq!(select_latest_visual_studio_generator(help), Some("Visual Studio 17 2022".to_owned()));
}

#[test]
fn visual_studio_generator_versions() {
    assert_eq!(visual_studio_generator_version("Visual Studio 17 2022"), Some(17));
    assert_eq!(visual_studio_generator_version("Ninja"), None);
    assert_eq!(select_latest_visual_studio_generator("Ninja = build.ninja\n"), None);
}

fn metadata() -> PluginMetadata {
    PluginMetadata {
        package_name: "test_plugin".to_string(),
        version: "1.0.0".to_string(),
        repository: None,
        company_name: "Example".to_string(),
        auv2_manufacturer_code: "ExCo".to_string(),
        aax_manufacturer_id: None,
        bundle_name: "Test Plugin".to_string(),
        bundle_identifier: "com.example.test-plugin".to_string(),
        homepage_url: "https://example.com".to_string(),
        manual_url: "https://example.com/manual".to_string(),
        support_url: "https://example.com/support".to_string(),
        description: "Test plugin".to_string(),
        copyright: "Copyright Example".to_string(),
        supported_formats: vec![PluginFormat::Clap, PluginFormat::Vst3, PluginFormat::Au],
        plugins: vec![PluginProductMetadata {
            plugin_id: "com.example.test-plugin".to_string(),
            plugin_name: "Test Plugin".to_string(),
            clap_features: vec!["audio-effect".to_string(), "stereo".to_string()],
            vst3_subcategories: "Fx".to_string(),
            vst3_component_id: "5c65bb45-6f84-527b-915a-a51a30ea5854".to_string(),
            standalone_name: "Test Plugin Standalone".to_string(),
            auv2_type: "aufx".to_string(),
            auv2_subtype: "TstP".to_string(),
            aax_categories: None,
            aax_product_id: None,
            aax_stem_configs: Vec::new(),
        }],
        validation: ValidationMetadata { disabled_rules: Vec::new() },
    }
}

#[test]
fn bundle_names_use_bundle_name() {
    let metadata = metadata();
    assert_eq!(metadata.clap_bundle_name(), "Test Plugin.clap");
    assert_eq!(metadata.vst3_bundle_name(), "Test Plugin.vst3");
    assert_eq!(metadata.au_bundle_name(), "Test Plugin.component");
}

#[test]
fn package_options_exclude_each_other() {
    assert_eq!(package_request(Some("gain"), true).unwrap_err(), "--package and --all cannot be used together");
    assert_eq!(package_request(None, true).unwrap(), PackageRequest::All);
    assert_eq!(package_request(Some("gain"), false).unwrap(), PackageRequest::Named("gain".to_string()));
    assert_eq!(package_request(None, false).unwrap(), PackageRequest::Single);
}

#[test]
fn single_package_selection() {
    let none: Vec<String> = Vec::new();
    assert_eq!(select_single(&none).unwrap_err(), "no WRAC plugin packages found in workspace members");
    assert_eq!(select_all(&none).unwrap_err(), "no WRAC plugin packages found in workspace members");
    let one = vec!["gain".to_string()];
    assert_eq!(select_single(&one).unwrap(), "gain");
    let two = vec!["delay".to_string(), "gain".to_string()];
    assert_eq!(
        select_single(&two).unwrap_err(),
        "multiple WRAC plugin packages found: delay, gain. Use -p <PACKAGE> or --all."
    );
    assert_eq!(select_all(&two).unwrap(), two);
}

#[test]
fn unknown_package_lists_the_available_ones() {
    let two = vec!["delay".to_string(), "gain".to_string()];
    assert_eq!(find_package(&two, "gain").unwrap(), 1);
    assert_eq!(find_package(&two, "reverb").unwrap_err(), "unknown WRAC plugin package: reverb. Available: delay, gain");
    assert_eq!(find_package(&Vec::new(), "reverb").unwrap_err(), "unknown WRAC plugin package: reverb");
}

#[test]
fn accepts_conventional_plugin_layout() {
    assert!(validate_plugin_layout(
        Some("src-plugin"),
        "/w/gain/src-plugin",
        false,
        "/w/gain/package.json",
        false,
        "/w/gain/src-plugin/src-gui/package.json",
    )
    .is_ok());
}

#[test]
fn rejects_plugin_crate_outside_src_plugin() {
    let error = validate_plugin_layout(
        Some("plugin"),
        "/w/gain/plugin",
        false,
        "/w/gain/package.json",
        false,
        "/w/gain/plugin/src-gui/package.json",
    )
    .unwrap_err();
    assert!(error.contains("must live at <plugin-root>/src-plugin"));
}

#[test]
fn rejects_frontend_package_at_plugin_root() {
    let error = validate_plugin_layout(
        Some("src-plugin"),
        "/w/gain/src-plugin",
        true,
        "/w/gain/package.json",
        false,
        "/w/gain/src-plugin/src-gui/package.json",
    )
    .unwrap_err();
    assert!(error.contains("src-gui/package.json"));
    assert!(error.ends_with("/w/gain/package.json"));
}

#[test]
fn windows_aax_validator_config_uses_escaped_double_quotes() {
    let content = "args {\n  elem: \"\\'bundle_path=$AAXVAL_PARAM_AAXPLUGIN$\\'\"\n  elem: \"\\'uniq_id=$AAXVAL_PARAM_UNIQ_ID$\\'\"\n}\n";
    let expected = "args {\n  elem: \"\\\"bundle_path=$AAXVAL_PARAM_AAXPLUGIN$\\\"\"\n  elem: \"\\\"uniq_id=$AAXVAL_PARAM_UNIQ_ID$\\\"\"\n}\n";
    assert_eq!(normalize_windows_aax_validator_main_config(content), expected);
    let already = normalize_windows_aax_validator_main_config(expected);
    assert_eq!(already, expected);
    assert_eq!(normalize_windows_aax_validator_main_config("no quotes here"), "no quotes here");
}

#[test]
fn replace_all_matches_str_replace() {
    for (s, p, r) in [("aaaa", "aa", "b"), ("abcabc", "bc", "X"), ("", "x", "y"), ("xyz", "xyz", "")] {
        assert_eq!(replace_all(s, p, r), s.replace(p, r));
    }
}

#[test]
fn wrapper_builds_refuse_plugin_resources() {
    assert_eq!(ensure_wrapper_resources_supported(WrapperBuild::Aax, None), Ok(()));
    assert_eq!(
        ensure_wrapper_resources_supported(WrapperBuild::Aax, Some("target/wrac/staged-resources")),
        Err("plugin resources are not supported for AAX wrapper builds yet; build macOS CLAP or remove plugin resources".to_string())
    );
    let plugins = WrapperBuild::Plugins { vst3: true, au: false };
    assert!(ensure_wrapper_resources_supported(plugins, Some("r")).unwrap_err().contains("wrapper plugin builds"));
    assert!(ensure_wrapper_resources_supported(WrapperBuild::Standalone, Some("r")).unwrap_err().contains("standalone app builds"));
}
