//! The plugin metadata that the xtask commands work from, built from a
//! validated WRAC manifest.
use vstd::prelude::*;
use crate::manifest::{AaxStemConfig, ManifestPackageInfo, PluginFormat, PluginManifest, PluginProduct};
use crate::text::{owned, push_str};

verus! {

/// A production-readiness rule that a package turned off, with the reason.
#[derive(Debug, Clone)]
pub struct DisabledValidationRule {
    pub rule_id: String,
    pub reason: String,
}

/// The validation settings of a package.
#[derive(Debug, Clone)]
pub struct ValidationMetadata {
    pub disabled_rules: Vec<DisabledValidationRule>,
}

/// One product of a plugin bundle, as the xtask commands see it.
#[derive(Debug, Clone)]
pub struct PluginProductMetadata {
    pub plugin_id: String,
    pub plugin_name: String,
    pub clap_features: Vec<String>,
    pub vst3_subcategories: String,
    pub vst3_component_id: String,
    pub standalone_name: String,
    pub auv2_type: String,
    pub auv2_subtype: String,
    pub aax_categories: Option<Vec<String>>,
    pub aax_product_id: Option<String>,
    pub aax_stem_configs: Vec<AaxStemConfig>,
}

/// The metadata of a plugin package.
#[derive(Debug, Clone)]
pub struct PluginMetadata {
    pub package_name: String,
    pub version: String,
    pub repository: Option<String>,
    pub company_name: String,
    pub auv2_manufacturer_code: String,
    pub aax_manufacturer_id: Option<String>,
    pub bundle_name: String,
    pub bundle_identifier: String,
    pub homepage_url: String,
    pub manual_url: String,
    pub support_url: String,
    pub description: String,
    pub copyright: String,
    pub supported_formats: Vec<PluginFormat>,
    pub plugins: Vec<PluginProductMetadata>,
    pub validation: ValidationMetadata,
}

/// The metadata of a manifest product.
pub open spec fn product_metadata(p: PluginProduct) -> PluginProductMetadata {
    PluginProductMetadata {
        plugin_id: p.plugin_id,
        plugin_name: p.plugin_name,
        clap_features: p.clap_features,
        vst3_subcategories: p.vst3_subcategories,
        vst3_component_id: p.vst3_component_id,
        standalone_name: p.standalone_name,
        auv2_type: p.auv2_type,
        auv2_subtype: p.auv2_subtype,
        aax_categories: p.aax_categories,
        aax_product_id: p.aax_product_id,
        aax_stem_configs: p.aax_stem_configs,
    }
}

fn convert_product(p: PluginProduct) -> (r: PluginProductMetadata)
    ensures
        r == product_metadata(p),
{
    PluginProductMetadata {
        plugin_id: p.plugin_id,
        plugin_name: p.plugin_name,
        clap_features: p.clap_features,
        vst3_subcategories: p.vst3_subcategories,
        vst3_component_id: p.vst3_component_id,
        standalone_name: p.standalone_name,
        auv2_type: p.auv2_type,
        auv2_subtype: p.auv2_subtype,
        aax_categories: p.aax_categories,
        aax_product_id: p.aax_product_id,
        aax_stem_configs: p.aax_stem_configs,
    }
}

fn convert_products(plugins: Vec<PluginProduct>) -> (r: Vec<PluginProductMetadata>)
    ensures
        r@ == plugins@.map_values(|p: PluginProduct| product_metadata(p)),
{
    let ghost orig = plugins@;
    let mut rest = plugins;
    let mut out: Vec<PluginProductMetadata> = Vec::new();
    while rest.len() > 0
        invariant
            out@.len() + rest@.len() == orig.len(),
            rest@ == orig.skip(out@.len() as int),
            out@ == orig.take(out@.len() as int).map_values(|p: PluginProduct| product_metadata(p)),
        decreases rest.len(),
    {
        let ghost k = out@.len() as int;
        let p = rest.remove(0);
        out.push(convert_product(p));
        proof {
            assert(rest@ =~= orig.skip(k + 1));
            assert(orig.take(k + 1).map_values(|p: PluginProduct| product_metadata(p)) =~= orig.take(k).map_values(
                |p: PluginProduct| product_metadata(p),
            ).push(product_metadata(orig[k])));
        }
    }
    assert(orig.take(orig.len() as int) =~= orig);
    out
}

/// The format of each `bundle.formats` entry, in order.
pub open spec fn formats_of(m: PluginManifest) -> Seq<PluginFormat> {
    m.formats@.map_values(|d: crate::manifest::PluginFormatDefinition| d.format)
}

/// The error when the manifest lacks a package name or version, the name first.
pub open spec fn metadata_error(m: PluginManifest) -> Option<Seq<char>> {
    if m.package.package_name is None {
        Some("WRAC manifest package name is required when used from xtask"@)
    } else if m.package.version is None {
        Some("WRAC manifest package version is required when used from xtask"@)
    } else {
        None
    }
}

impl PluginMetadata {
    /// The xtask metadata of a manifest: every manifest field carries over,
    /// the package name and version must be present, and the validation
    /// settings come with it.
    pub fn from_manifest(manifest: PluginManifest, validation: ValidationMetadata) -> (r: Result<
        PluginMetadata,
        String,
    >)
        ensures
            metadata_error(manifest) matches Some(e) ==> (r matches Err(msg) && msg@ == e),
            metadata_error(manifest) is None ==> (r matches Ok(m) && {
                &&& Some(m.package_name) == manifest.package.package_name
                &&& Some(m.version) == manifest.package.version
                &&& m.repository == manifest.package.repository
                &&& m.company_name == manifest.company_name
                &&& m.auv2_manufacturer_code == manifest.auv2_manufacturer_code
                &&& m.aax_manufacturer_id == manifest.aax_manufacturer_id
                &&& m.bundle_name == manifest.bundle_name
                &&& m.bundle_identifier == manifest.bundle_identifier
                &&& m.homepage_url == manifest.homepage_url
                &&& m.manual_url == manifest.manual_url
                &&& m.support_url == manifest.support_url
                &&& m.description == manifest.description
                &&& m.copyright == manifest.copyright
                &&& m.supported_formats@ == formats_of(manifest)
                &&& m.plugins@ == manifest.plugins@.map_values(|p: PluginProduct| product_metadata(p))
                &&& m.validation == validation
            }),
    {
        let package_name = match manifest.package.package_name {
            Some(n) => n,
            None => {
                return Err(owned("WRAC manifest package name is required when used from xtask"));
            },
        };
        let version = match manifest.package.version {
            Some(v) => v,
            None => {
                return Err(owned("WRAC manifest package version is required when used from xtask"));
            },
        };
        let mut supported_formats: Vec<PluginFormat> = Vec::new();
        let mut i: usize = 0;
        while i < manifest.formats.len()
            invariant
                i <= manifest.formats@.len(),
                supported_formats@ == formats_of(manifest).take(i as int),
            decreases manifest.formats.len() - i,
        {
            supported_formats.push(manifest.formats[i].format);
            proof {
                assert(formats_of(manifest).take(i + 1) =~= formats_of(manifest).take(i as int).push(
                    manifest.formats@[i as int].format,
                ));
            }
            i += 1;
        }
        assert(formats_of(manifest).take(manifest.formats@.len() as int) =~= formats_of(manifest));
        let plugins = convert_products(manifest.plugins);
        Ok(PluginMetadata {
            package_name,
            version,
            repository: manifest.package.repository,
            company_name: manifest.company_name,
            auv2_manufacturer_code: manifest.auv2_manufacturer_code,
            aax_manufacturer_id: manifest.aax_manufacturer_id,
            bundle_name: manifest.bundle_name,
            bundle_identifier: manifest.bundle_identifier,
            homepage_url: manifest.homepage_url,
            manual_url: manifest.manual_url,
            support_url: manifest.support_url,
            description: manifest.description,
            copyright: manifest.copyright,
            supported_formats,
            plugins,
            validation,
        })
    }

    /// `<bundle name>.clap`
    pub fn clap_bundle_name(&self) -> (r: String)
        ensures
            r@ == self.bundle_name@ + ".clap"@,
    {
        let mut s = self.bundle_name.clone();
        push_str(&mut s, ".clap");
        s
    }

    /// `<bundle name>.vst3`
    pub fn vst3_bundle_name(&self) -> (r: String)
        ensures
            r@ == self.bundle_name@ + ".vst3"@,
    {
        let mut s = self.bundle_name.clone();
        push_str(&mut s, ".vst3");
        s
    }

    /// `<bundle name>.aaxplugin`
    pub fn aax_bundle_name(&self) -> (r: String)
        ensures
            r@ == self.bundle_name@ + ".aaxplugin"@,
    {
        let mut s = self.bundle_name.clone();
        push_str(&mut s, ".aaxplugin");
        s
    }

    /// `<bundle name>.component`
    pub fn au_bundle_name(&self) -> (r: String)
        ensures
            r@ == self.bundle_name@ + ".component"@,
    {
        let mut s = self.bundle_name.clone();
        push_str(&mut s, ".component");
        s
    }

    /// The product whose identity the bundle carries: the first one.
    pub fn bundle_identity_plugin(&self) -> (r: &PluginProductMetadata)
        requires
            self.plugins@.len() > 0,
        ensures
            *r == self.plugins@[0],
    {
        &self.plugins[0]
    }
}

/// The manifest with the package fields it leaves out filled in from the
/// Cargo package; a field the manifest sets is kept.
pub fn with_cargo_package_info(manifest: PluginManifest, cargo: ManifestPackageInfo) -> (r: PluginManifest)
    ensures
        r.package.package_name == (if manifest.package.package_name is None {
            cargo.package_name
        } else {
            manifest.package.package_name
        }),
        r.package.version == (if manifest.package.version is None {
            cargo.version
        } else {
            manifest.package.version
        }),
        r.package.repository == (if manifest.package.repository is None {
            cargo.repository
        } else {
            manifest.package.repository
        }),
        r == (PluginManifest { package: r.package, ..manifest }),
{
    let mut manifest = manifest;
    if manifest.package.package_name.is_none() {
        manifest.package.package_name = cargo.package_name;
    }
    if manifest.package.version.is_none() {
        manifest.package.version = cargo.version;
    }
    if manifest.package.repository.is_none() {
        manifest.package.repository = cargo.repository;
    }
    manifest
}

} // verus!
