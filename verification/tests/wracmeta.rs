use wrac::wracmeta::{parse_toml_basic_string, read_toml_string, required_toml_string, WracPackageMetadata};

const MANIFEST: &str = "[package]\nname = \"gain\"\nplugin_id = \"wrong\"\n\n[package.metadata.wrac]\nplugin_id = \"com.example.gain\"\r\nplugin_name = \"Example Gain\"\ncompany_name = \"Example \\\"Audio\\\"\"\nauv2_type = \"aufx\"\nauv2_subtype = \"Gain\"\nauv2_manufacturer_code = \"Exmp\"\nstandalone_name = \"Example Gain App\"\n\n[dependencies]\nstandalone_name = \"ignored\"\n";

#[test]
fn basic_strings_are_unquoted_and_unescaped() {
    assert_eq!(parse_toml_basic_string("\"plain\""), Some("plain".to_string()));
    assert_eq!(parse_toml_basic_string("\"a\\\"b\\\\c\""), Some("a\"b\\c".to_string()));
    assert_eq!(parse_toml_basic_string("\"\""), Some(String::new()));
    assert_eq!(parse_toml_basic_string("\""), None);
    assert_eq!(parse_toml_basic_string("bare"), None);
    assert_eq!(parse_toml_basic_string("\"open"), None);
}

#[test]
fn reads_keys_only_from_the_named_table() {
    assert_eq!(
        read_toml_string(MANIFEST, "package.metadata.wrac", "plugin_id"),
        Some("com.example.gain".to_string())
    );
    assert_eq!(read_toml_string(MANIFEST, "package", "plugin_id"), Some("wrong".to_string()));
    assert_eq!(read_toml_string(MANIFEST, "package.metadata.wrac", "missing"), None);
    assert_eq!(read_toml_string("[t]\nk = 3\nk = \"later\"\n", "t", "k"), None);
    assert_eq!(read_toml_string("k = \"top\"\n[t]\n", "t", "k"), None);
}

#[test]
fn required_keys_report_what_is_missing() {
    assert_eq!(
        required_toml_string(MANIFEST, "company_name"),
        Ok("Example \"Audio\"".to_string())
    );
    assert_eq!(
        required_toml_string(MANIFEST, "aax_product_id"),
        Err("missing package.metadata.wrac.aax_product_id in src-plugin/Cargo.toml".to_string())
    );
}

#[test]
fn metadata_is_read_and_validated() {
    let metadata = WracPackageMetadata::from_manifest(MANIFEST).unwrap();
    assert_eq!(metadata.plugin_id, "com.example.gain");
    assert_eq!(metadata.standalone_name, "Example Gain App");
    assert_eq!(metadata.clap_bundle_name(), "Example Gain.clap");
    assert_eq!(metadata.vst3_bundle_name(), "Example Gain.vst3");
    assert_eq!(metadata.au_bundle_name(), "Example Gain.component");

    let bad_code = MANIFEST.replace("\"Gain\"", "\"Gain2\"");
    assert_eq!(
        WracPackageMetadata::from_manifest(&bad_code).unwrap_err(),
        "package.metadata.wrac.auv2_subtype must be exactly 4 ASCII bytes"
    );
    let missing = MANIFEST.replace("company_name", "company");
    assert_eq!(
        WracPackageMetadata::from_manifest(&missing).unwrap_err(),
        "missing package.metadata.wrac.company_name in src-plugin/Cargo.toml"
    );
}
