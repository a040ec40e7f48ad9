use clap_sys::ext::params::{
    CLAP_PARAM_IS_BYPASS, CLAP_PARAM_IS_ENUM, CLAP_PARAM_IS_HIDDEN, CLAP_PARAM_IS_READONLY, CLAP_PARAM_IS_STEPPED,
};
use wrac::checks::{
    clap_descriptor_manifest_violations, clap_info_plist_violations, read_info_plist, evaluate_checks, validate_disabled_rules,
    CheckResult, CheckStatus, ParameterSchema, PlistDocument, PlistEntry, PlistValue, PluginSchema,
};
use wrac::manifest::PluginFormat;
use wrac::metadata::{DisabledValidationRule, PluginMetadata, PluginProductMetadata, ValidationMetadata};
use wrac::targets::ValidateTarget;

const RULE_FENDER_SINGLE_KNOB: &str = "fender-studio-pro-generic-editor-single-knob";
const RULE_LUNA_VST3_PARAM_ID_MATCH_INDEX: &str = "luna-vst3-param-id-must-match-index";
const RULE_BYPASS_PARAM_SHAPE: &str = "bypass-param-shape";
const RULE_PLUGIN_REQUIRES_BYPASS: &str = "plugin-requires-bypass";
const RULE_CLAP_DESCRIPTORS_MATCH_MANIFEST: &str = "clap-descriptors-match-manifest";

fn schema(params: Vec<ParameterSchema>) -> PluginSchema {
    PluginSchema {
        plugin_id: "com.example.test".to_string(),
        plugin_name: "Test Plugin".to_string(),
        plugin_vendor: "Example".to_string(),
        plugin_version: "1.0.0".to_string(),
        params,
    }
}

fn product() -> PluginProductMetadata {
    PluginProductMetadata {
        plugin_id: "com.example.test".to_string(),
        plugin_name: "Test Plugin".to_string(),
        clap_features: vec!["audio-effect".to_string()],
        vst3_subcategories: "Fx".to_string(),
        vst3_component_id: "5c65bb45-6f84-527b-915a-a51a30ea5854".to_string(),
        standalone_name: "Test Plugin Standalone".to_string(),
        auv2_type: "aufx".to_string(),
        auv2_subtype: "TstP".to_string(),
        aax_categories: None,
        aax_product_id: None,
        aax_stem_configs: Vec::new(),
    }
}

fn metadata() -> PluginMetadata {
    PluginMetadata {
        package_name: "test_plugin".to_string(),
        version: "1.0.0".to_string(),
        repository: None,
        company_name: "Example".to_string(),
        auv2_manufacturer_code: "ExCo".to_string(),
        aax_manufacturer_id: None,
        bundle_name: "Test Plugin".to_string(),
        bundle_identifier: "com.example.test-plugin".to_string(),
        homepage_url: "https://example.com".to_string(),
        manual_url: "https://example.com/manual".to_string(),
        support_url: "https://example.com/support".to_string(),
        description: "Test plugin".to_string(),
        copyright: "Copyright Example".to_string(),
        supported_formats: vec![PluginFormat::Clap],
        plugins: vec![product()],
        validation: no_disabled_rules(),
    }
}

fn nearly_equal(a: f64, b: f64) -> bool {
    (a - b).abs() < f64::EPSILON
}

/// A parameter as the program edge hands it over: the float range turned
/// into the comparisons the rules make and the text they print.
fn param_with_range(id: u32, flags: u32, min_value: f64, max_value: f64, default_value: f64) -> ParameterSchema {
    ParameterSchema {
        id,
        name: format!("Param {id}"),
        flags,
        min_is_zero: nearly_equal(min_value, 0.0),
        max_is_one: nearly_equal(max_value, 1.0),
        default_is_boolean: nearly_equal(default_value, 0.0) || nearly_equal(default_value, 1.0),
        min_text: format!("{min_value}"),
        max_text: format!("{max_value}"),
        default_text: format!("{default_value}"),
    }
}

fn param(id: u32, flags: u32) -> ParameterSchema {
    param_with_range(id, flags, 0.0, 1.0, 0.0)
}

fn no_disabled_rules() -> ValidationMetadata {
    ValidationMetadata { disabled_rules: Vec::new() }
}

fn status_for<'a>(results: &'a [CheckResult], rule_id: &str) -> &'a CheckStatus {
    &results.iter().find(|result| result.rule_id == rule_id).expect("rule result should exist").status
}

fn rule_failed(results: &[CheckResult], rule_id: &str) -> bool {
    matches!(status_for(results, rule_id), CheckStatus::Failed(_))
}

fn valid_bypass_param(id: u32) -> ParameterSchema {
    param(id, CLAP_PARAM_IS_BYPASS | CLAP_PARAM_IS_STEPPED | CLAP_PARAM_IS_ENUM)
}

fn evaluate(params: Vec<ParameterSchema>, targets: &[ValidateTarget]) -> Vec<CheckResult> {
    evaluate_checks(&schema(params), targets, &no_disabled_rules(), "Cargo.toml")
}

#[test]
fn single_visible_non_bypass_parameter_fails_for_clap_and_vst3() {
    let results = evaluate(vec![param(0, 0), param(1, CLAP_PARAM_IS_BYPASS)], &[ValidateTarget::Clap]);
    assert!(rule_failed(&results, RULE_FENDER_SINGLE_KNOB));
}

#[test]
fn single_visible_non_bypass_parameter_is_skipped_for_au_only() {
    let results = evaluate(vec![param(0, 0), valid_bypass_param(1)], &[ValidateTarget::Au]);
    assert!(matches!(status_for(&results, RULE_FENDER_SINGLE_KNOB), CheckStatus::Skipped(_)));
}

#[test]
fn zero_visible_non_bypass_parameters_are_allowed() {
    let results = evaluate(vec![valid_bypass_param(0)], &[ValidateTarget::Clap]);
    assert!(matches!(status_for(&results, RULE_FENDER_SINGLE_KNOB), CheckStatus::Passed));
}

#[test]
fn two_visible_non_bypass_parameters_are_allowed() {
    let results = evaluate(vec![valid_bypass_param(0), param(1, 0), param(2, 0)], &[ValidateTarget::Clap]);
    assert!(matches!(status_for(&results, RULE_FENDER_SINGLE_KNOB), CheckStatus::Passed));
}

#[test]
fn hidden_readonly_and_bypass_parameters_do_not_count_as_visible_knobs() {
    let results = evaluate(
        vec![valid_bypass_param(0), param(1, CLAP_PARAM_IS_HIDDEN), param(2, CLAP_PARAM_IS_READONLY)],
        &[ValidateTarget::Clap],
    );
    assert!(matches!(status_for(&results, RULE_FENDER_SINGLE_KNOB), CheckStatus::Passed));
}

#[test]
fn disabled_rules_are_reported() {
    let validation = ValidationMetadata {
        disabled_rules: vec![DisabledValidationRule {
            rule_id: RULE_FENDER_SINGLE_KNOB.to_string(),
            reason: "not a supported host workflow".to_string(),
        }],
    };
    let results = evaluate_checks(
        &schema(vec![param(0, 0), param(1, CLAP_PARAM_IS_BYPASS)]),
        &[ValidateTarget::Clap],
        &validation,
        "Cargo.toml",
    );
    assert!(matches!(
        status_for(&results, RULE_FENDER_SINGLE_KNOB),
        CheckStatus::Disabled(reason) if reason == "not a supported host workflow"
    ));
}

#[test]
fn vst3_param_id_must_match_index() {
    let results = evaluate(vec![param(1, 0), param(2, 0)], &[ValidateTarget::Vst3]);
    assert!(rule_failed(&results, RULE_LUNA_VST3_PARAM_ID_MATCH_INDEX));
}

#[test]
fn vst3_only_rule_is_skipped_without_vst3_target() {
    let results = evaluate(vec![valid_bypass_param(0)], &[ValidateTarget::Clap]);
    assert!(matches!(status_for(&results, RULE_LUNA_VST3_PARAM_ID_MATCH_INDEX), CheckStatus::Skipped(_)));
}

#[test]
fn vst3_param_ids_matching_indices_pass() {
    let results = evaluate(vec![valid_bypass_param(0), param(1, 0)], &[ValidateTarget::Vst3]);
    assert!(matches!(status_for(&results, RULE_LUNA_VST3_PARAM_ID_MATCH_INDEX), CheckStatus::Passed));
}

#[test]
fn bypass_shape_requires_stepped_flag() {
    let results = evaluate(vec![param(0, CLAP_PARAM_IS_BYPASS | CLAP_PARAM_IS_ENUM)], &[ValidateTarget::Clap]);
    assert!(rule_failed(&results, RULE_BYPASS_PARAM_SHAPE));
}

#[test]
fn bypass_shape_requires_enum_flag() {
    let results = evaluate(vec![param(0, CLAP_PARAM_IS_BYPASS | CLAP_PARAM_IS_STEPPED)], &[ValidateTarget::Clap]);
    assert!(rule_failed(&results, RULE_BYPASS_PARAM_SHAPE));
}

#[test]
fn bypass_shape_requires_boolean_range() {
    let bypass = param_with_range(0, CLAP_PARAM_IS_BYPASS | CLAP_PARAM_IS_STEPPED | CLAP_PARAM_IS_ENUM, 0.0, 2.0, 0.0);
    let results = evaluate(vec![bypass], &[ValidateTarget::Clap]);
    assert!(rule_failed(&results, RULE_BYPASS_PARAM_SHAPE));
}

#[test]
fn bypass_shape_requires_boolean_default() {
    let bypass = param_with_range(0, CLAP_PARAM_IS_BYPASS | CLAP_PARAM_IS_STEPPED | CLAP_PARAM_IS_ENUM, 0.0, 1.0, 0.5);
    let results = evaluate(vec![bypass], &[ValidateTarget::Clap]);
    assert!(rule_failed(&results, RULE_BYPASS_PARAM_SHAPE));
}

#[test]
fn bypass_shape_allows_one_valid_bypass_parameter() {
    let results = evaluate(vec![valid_bypass_param(0)], &[ValidateTarget::Clap]);
    assert!(matches!(status_for(&results, RULE_BYPASS_PARAM_SHAPE), CheckStatus::Passed));
}

#[test]
fn bypass_shape_rejects_multiple_bypass_parameters() {
    let results = evaluate(vec![valid_bypass_param(0), valid_bypass_param(1)], &[ValidateTarget::Clap]);
    assert!(rule_failed(&results, RULE_BYPASS_PARAM_SHAPE));
}

#[test]
fn plugin_requires_bypass() {
    let results = evaluate(Vec::new(), &[ValidateTarget::Clap]);
    assert!(rule_failed(&results, RULE_PLUGIN_REQUIRES_BYPASS));
}

#[test]
fn plugin_requires_bypass_when_only_non_bypass_parameters_exist() {
    let results = evaluate(vec![param(0, 0), param(1, 0)], &[ValidateTarget::Clap]);
    assert!(rule_failed(&results, RULE_PLUGIN_REQUIRES_BYPASS));
}

#[test]
fn plugin_requires_bypass_passes_with_valid_bypass_parameter() {
    let results = evaluate(vec![valid_bypass_param(0)], &[ValidateTarget::Clap]);
    assert!(matches!(status_for(&results, RULE_PLUGIN_REQUIRES_BYPASS), CheckStatus::Passed));
}

#[test]
fn clap_descriptors_must_match_manifest_metadata() {
    let mut schema = schema(vec![valid_bypass_param(0)]);
    schema.plugin_name = "Wrong Name".to_string();
    let violations = clap_descriptor_manifest_violations(&[schema], &metadata(), "Cargo.toml");

    assert_eq!(violations.len(), 1);
    assert_eq!(violations[0].rule_id, RULE_CLAP_DESCRIPTORS_MATCH_MANIFEST);
    assert!(violations[0].message.contains("name"));
}

#[test]
fn clap_descriptors_pass_when_manifest_metadata_matches() {
    let violations = clap_descriptor_manifest_violations(&[schema(vec![valid_bypass_param(0)])], &metadata(), "Cargo.toml");

    assert!(violations.is_empty());
}

#[test]
fn results_come_in_rule_order_for_the_plugin() {
    let results = evaluate(vec![valid_bypass_param(0)], &[ValidateTarget::Clap, ValidateTarget::Vst3]);
    let ids: Vec<&str> = results.iter().map(|r| r.rule_id).collect();
    assert_eq!(
        ids,
        vec![
            RULE_FENDER_SINGLE_KNOB,
            RULE_LUNA_VST3_PARAM_ID_MATCH_INDEX,
            RULE_BYPASS_PARAM_SHAPE,
            RULE_PLUGIN_REQUIRES_BYPASS,
        ]
    );
    assert!(results.iter().all(|r| r.plugin_id == "com.example.test" && r.plugin_name == "Test Plugin"));
    assert!(results.iter().all(|r| matches!(r.status, CheckStatus::Passed)));
}

#[test]
fn descriptor_count_mismatch_is_reported_first() {
    let violations = clap_descriptor_manifest_violations(&[], &metadata(), "Cargo.toml");
    assert_eq!(violations.len(), 1);
    assert_eq!(
        violations[0].message,
        "CLAP descriptor count must match package.metadata.wrac.plugins. descriptor_count=0 manifest_count=1"
    );
}

#[test]
fn unknown_disabled_rule_is_rejected() {
    let validation = ValidationMetadata {
        disabled_rules: vec![DisabledValidationRule { rule_id: "no-such-rule".to_string(), reason: "x".to_string() }],
    };
    assert!(validate_disabled_rules(&validation).is_err());
    let known = ValidationMetadata {
        disabled_rules: vec![DisabledValidationRule {
            rule_id: RULE_BYPASS_PARAM_SHAPE.to_string(),
            reason: "x".to_string(),
        }],
    };
    assert!(validate_disabled_rules(&known).is_ok());
}

#[test]
fn unreadable_info_plist_is_one_violation() {
    let violations =
        clap_info_plist_violations(&metadata(), "Info.plist", &PlistDocument::Unreadable("missing".to_string()));
    assert_eq!(violations.len(), 1);
    let matching = PlistDocument::Dictionary(vec![PlistEntry {
        key: "CFBundleName".to_string(),
        value: PlistValue::Text("Test Plugin".to_string()),
    }]);
    let violations = clap_info_plist_violations(&metadata(), "Info.plist", &matching);
    assert!(violations.iter().all(|v| !v.message.contains("CFBundleName")));
}

#[test]
fn info_plist_bytes_are_parsed_before_checking() {
    let xml = "<?xml version=\"1.0\" encoding=\"UTF-8\"?>\n<!DOCTYPE plist PUBLIC \"-//Apple//DTD PLIST 1.0//EN\" \"http://www.apple.com/DTDs/PropertyList-1.0.dtd\">\n<plist version=\"1.0\">\n<dict>\n<key>CFBundleExecutable</key><string>Test Plugin</string>\n<key>CFBundleName</key><string>Test Plugin</string>\n<key>CFBundleDisplayName</key><string>Test Plugin</string>\n<key>CFBundleIdentifier</key><string>com.example.test</string>\n<key>CFBundleShortVersionString</key><string>1.0.0</string>\n<key>CFBundleVersion</key><string>1.0.0</string>\n<key>NSHighResolutionCapable</key><true/>\n</dict>\n</plist>\n";
    let violations = clap_info_plist_violations(&metadata(), "Info.plist", &read_info_plist(xml.as_bytes()));
    assert!(violations.is_empty(), "{:?}", violations.iter().map(|v| v.message.clone()).collect::<Vec<_>>());

    let wrong = xml.replace("<true/>", "<false/>");
    let violations = clap_info_plist_violations(&metadata(), "Info.plist", &read_info_plist(wrong.as_bytes()));
    assert_eq!(violations.len(), 1);
    assert!(violations[0].message.contains("NSHighResolutionCapable"));

    let array = "<?xml version=\"1.0\" encoding=\"UTF-8\"?>\n<plist version=\"1.0\"><array/></plist>\n";
    let violations = clap_info_plist_violations(&metadata(), "Info.plist", &read_info_plist(array.as_bytes()));
    assert_eq!(violations[0].message, "CLAP Info.plist must be a dictionary.");

    let violations = clap_info_plist_violations(
        &metadata(),
        "Info.plist",
        &read_info_plist(b"<?xml version=\"1.0\"?><plist version=\"1.0\"><dict><key>CFBundleName</key>"),
    );
    assert_eq!(violations.len(), 1);
    assert!(violations[0].message.starts_with("Failed to read CLAP Info.plist: "));
}
