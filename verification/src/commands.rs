//! The decisions behind the xtask commands: where each plugin format is
//! installed, which installed copies an uninstall looks for, which product a
//! standalone launch or build uses, the CMake targets and arguments of a
//! wrapper build, and the bundle `Info.plist` that packaging writes.
//!
//! Locations are described relative to a base directory that only the
//! program edge can resolve (the home directory, `%LOCALAPPDATA%`,
//! `%CommonProgramFiles%`) or as absolute paths.
use vstd::prelude::*;
use crate::manifest::PluginFormat;
use crate::metadata::{PluginMetadata, PluginProductMetadata};
use crate::targets::{Platform, PluginTarget, plugin_target_format};
use crate::text::{decimal, join, owned, push_decimal, push_joined, push_str, str_eq, string_views};
use crate::xtask::{InstallScope, UninstallScope, XtaskOutputLanguage};

verus! {

/// The directory an install location is relative to.
#[derive(Debug, Clone, Copy, PartialEq, Eq, Structural)]
pub enum InstallBase {
    /// The user's home directory.
    Home,
    /// `%LOCALAPPDATA%`.
    LocalAppData,
    /// `%CommonProgramFiles%`.
    CommonProgramFiles,
    /// The path is absolute.
    Root,
}

/// A directory plugins are installed to: a base and the path components
/// joined onto it, in order.
#[derive(Debug, Clone)]
pub struct InstallLocation {
    pub base: InstallBase,
    pub components: Vec<&'static str>,
}

/// The components of a location as text.
pub open spec fn component_views(c: Seq<&'static str>) -> Seq<Seq<char>> {
    c.map_values(|s: &'static str| s@)
}

/// `InstallScope::Default` resolved for a format: AAX installs system-wide,
/// everything else per user.
pub open spec fn effective_scope(scope: InstallScope, format: PluginFormat) -> InstallScope {
    match (scope, format) {
        (InstallScope::Default, PluginFormat::Aax) => InstallScope::System,
        (InstallScope::Default, _) => InstallScope::User,
        _ => scope,
    }
}

/// Resolves the default install scope for a format.
pub fn effective_install_scope(scope: InstallScope, format: PluginFormat) -> (r: InstallScope)
    ensures
        r == effective_scope(scope, format),
        r != InstallScope::Default,
{
    match (scope, format) {
        (InstallScope::Default, PluginFormat::Aax) => InstallScope::System,
        (InstallScope::Default, _) => InstallScope::User,
        _ => scope,
    }
}

/// Where a format installs on a platform for a resolved scope: the base and
/// the components, or why it cannot be installed there.
pub open spec fn install_location(p: Platform, scope: InstallScope, f: PluginFormat) -> Result<
    (InstallBase, Seq<Seq<char>>),
    Seq<char>,
> {
    let s = effective_scope(scope, f);
    match (p, s, f) {
        (Platform::Macos, InstallScope::User, PluginFormat::Clap) => Ok(
            (InstallBase::Home, seq!["Library/Audio/Plug-Ins/CLAP"@]),
        ),
        (Platform::Macos, InstallScope::User, PluginFormat::Vst3) => Ok(
            (InstallBase::Home, seq!["Library/Audio/Plug-Ins/VST3"@]),
        ),
        (Platform::Macos, InstallScope::User, PluginFormat::Au) => Ok(
            (InstallBase::Home, seq!["Library/Audio/Plug-Ins/Components"@]),
        ),
        (Platform::Macos, InstallScope::User, PluginFormat::Aax) => Err(
            "AAX plugins install to the system-wide Avid folder on macOS; use --scope=system"@,
        ),
        (Platform::Macos, _, PluginFormat::Clap) => Ok((InstallBase::Root, seq!["/Library/Audio/Plug-Ins/CLAP"@])),
        (Platform::Macos, _, PluginFormat::Vst3) => Ok((InstallBase::Root, seq!["/Library/Audio/Plug-Ins/VST3"@])),
        (Platform::Macos, _, PluginFormat::Au) => Ok(
            (InstallBase::Root, seq!["/Library/Audio/Plug-Ins/Components"@]),
        ),
        (Platform::Macos, _, PluginFormat::Aax) => Ok(
            (InstallBase::Root, seq!["/Library/Application Support/Avid/Audio/Plug-Ins"@]),
        ),
        (Platform::Windows, _, PluginFormat::Au) => Err("AU is not supported on Windows"@),
        (Platform::Windows, InstallScope::User, PluginFormat::Clap) => Ok(
            (InstallBase::LocalAppData, seq!["Programs"@, "Common"@, "CLAP"@]),
        ),
        (Platform::Windows, InstallScope::User, PluginFormat::Vst3) => Ok(
            (InstallBase::LocalAppData, seq!["Programs"@, "Common"@, "VST3"@]),
        ),
        (Platform::Windows, InstallScope::User, _) => Err(
            "AAX plugins install to the system-wide Avid folder on Windows; use --scope=system"@,
        ),
        (Platform::Windows, _, PluginFormat::Clap) => Ok((InstallBase::CommonProgramFiles, seq!["CLAP"@])),
        (Platform::Windows, _, PluginFormat::Vst3) => Ok((InstallBase::CommonProgramFiles, seq!["VST3"@])),
        (Platform::Windows, _, _) => Ok(
            (InstallBase::CommonProgramFiles, seq!["Avid"@, "Audio"@, "Plug-Ins"@]),
        ),
        (Platform::Linux, _, PluginFormat::Aax) => Err("AAX is not supported on Linux"@),
        (Platform::Linux, _, PluginFormat::Au) => Err("AU is not supported on Linux"@),
        (Platform::Linux, InstallScope::User, PluginFormat::Clap) => Ok((InstallBase::Home, seq![".clap"@])),
        (Platform::Linux, InstallScope::User, _) => Ok((InstallBase::Home, seq![".vst3"@])),
        (Platform::Linux, _, PluginFormat::Clap) => Ok((InstallBase::Root, seq!["/usr/lib/clap"@])),
        (Platform::Linux, _, _) => Ok((InstallBase::Root, seq!["/usr/lib/vst3"@])),
    }
}

/// The name a format's install folder ends with: `CLAP`/`clap`, `VST3`/
/// `vst3`, `Components` for AU and `Plug-Ins` (the Avid folder) for AAX.
pub open spec fn folder_names_format(folder: Seq<char>, f: PluginFormat) -> bool {
    match f {
        PluginFormat::Clap => crate::text::has_suffix(folder, "CLAP"@) || crate::text::has_suffix(folder, "clap"@),
        PluginFormat::Vst3 => crate::text::has_suffix(folder, "VST3"@) || crate::text::has_suffix(folder, "vst3"@),
        PluginFormat::Au => crate::text::has_suffix(folder, "Components"@),
        PluginFormat::Aax => crate::text::has_suffix(folder, "Plug-Ins"@),
    }
}

/// Each format installs into its own format folder: wherever a format
/// installs, the last path component names that format.
#[verifier::spinoff_prover]
pub proof fn lemma_install_folder_names_format(p: Platform, scope: InstallScope, f: PluginFormat)
    ensures
        install_location(p, scope, f) matches Ok((_, comps)) ==> comps.len() > 0 && folder_names_format(
            comps.last(),
            f,
        ),
{
    reveal_strlit("CLAP");
    reveal_strlit("clap");
    reveal_strlit("VST3");
    reveal_strlit("vst3");
    reveal_strlit("Components");
    reveal_strlit("Plug-Ins");
    reveal_strlit("Library/Audio/Plug-Ins/CLAP");
    reveal_strlit("Library/Audio/Plug-Ins/VST3");
    reveal_strlit("Library/Audio/Plug-Ins/Components");
    reveal_strlit("/Library/Audio/Plug-Ins/CLAP");
    reveal_strlit("/Library/Audio/Plug-Ins/VST3");
    reveal_strlit("/Library/Audio/Plug-Ins/Components");
    reveal_strlit("/Library/Application Support/Avid/Audio/Plug-Ins");
    reveal_strlit("Programs");
    reveal_strlit("Common");
    reveal_strlit("Avid");
    reveal_strlit("Audio");
    reveal_strlit(".clap");
    reveal_strlit(".vst3");
    reveal_strlit("/usr/lib/clap");
    reveal_strlit("/usr/lib/vst3");
    match install_location(p, scope, f) {
        Ok((_, comps)) => {
            let last = comps.last();
            let n = last.len() as int;
            match f {
                PluginFormat::Clap => {
                    if n >= 4 && last.skip(n - 4) =~= "CLAP"@ {
                    } else {
                        assert(last.skip(n - 4) =~= "clap"@);
                    }
                },
                PluginFormat::Vst3 => {
                    if n >= 4 && last.skip(n - 4) =~= "VST3"@ {
                    } else {
                        assert(last.skip(n - 4) =~= "vst3"@);
                    }
                },
                PluginFormat::Au => {
                    assert(last.skip(n - 10) =~= "Components"@);
                },
                PluginFormat::Aax => {
                    assert(last.skip(n - 8) =~= "Plug-Ins"@);
                },
            }
        },
        Err(_) => {},
    }
}

/// Formats never share an install location: on one platform and for one
/// requested scope, two different formats that both install go to
/// different places.
#[verifier::spinoff_prover]
pub proof fn lemma_formats_install_apart(p: Platform, scope: InstallScope, f1: PluginFormat, f2: PluginFormat)
    requires
        f1 != f2,
        install_location(p, scope, f1) is Ok,
        install_location(p, scope, f2) is Ok,
    ensures
        install_location(p, scope, f1) != install_location(p, scope, f2),
{
    lemma_install_folder_names_format(p, scope, f1);
    lemma_install_folder_names_format(p, scope, f2);
    reveal_strlit("CLAP");
    reveal_strlit("clap");
    reveal_strlit("VST3");
    reveal_strlit("vst3");
    reveal_strlit("Components");
    reveal_strlit("Plug-Ins");
    if install_location(p, scope, f1) == install_location(p, scope, f2) {
        let comps = install_location(p, scope, f1)->Ok_0.1;
        let last = comps.last();
        let n = last.len() as int;
        assert(last.skip(n - 1)[0] == last[n - 1]);
        assert(last.skip(n - 2)[0] == last[n - 2]);
        assert("CLAP"@[3] == 'P');
        assert("clap"@[3] == 'p');
        assert("VST3"@[3] == '3');
        assert("vst3"@[3] == '3');
        assert("Components"@[9] == 's' && "Components"@[8] == 't');
        assert("Plug-Ins"@[7] == 's' && "Plug-Ins"@[6] == 'n');
        if crate::text::has_suffix(last, "CLAP"@) {
            assert(last[n - 1] == "CLAP"@[3]);
        }
        if crate::text::has_suffix(last, "clap"@) {
            assert(last[n - 1] == "clap"@[3]);
        }
        if crate::text::has_suffix(last, "VST3"@) {
            assert(last[n - 1] == "VST3"@[3]);
        }
        if crate::text::has_suffix(last, "vst3"@) {
            assert(last[n - 1] == "vst3"@[3]);
        }
        if crate::text::has_suffix(last, "Components"@) {
            assert(last[n - 1] == "Components"@[9]);
            assert(last[n - 2] == "Components"@[8]);
        }
        if crate::text::has_suffix(last, "Plug-Ins"@) {
            assert(last[n - 1] == "Plug-Ins"@[7]);
            assert(last[n - 2] == "Plug-Ins"@[6]);
        }
    }
}

fn location(base: InstallBase, components: Vec<&'static str>) -> (r: Result<InstallLocation, String>)
    ensures
        r matches Ok(l) && l.base == base && l.components@ == components@,
{
    Ok(InstallLocation { base, components })
}

/// Where `format` installs on `platform` for `scope`, the default scope
/// resolved first; formats a platform cannot host, and AAX per user on
/// macOS and Windows, are refused with the reason.
pub fn install_dir(platform: Platform, scope: InstallScope, format: PluginFormat) -> (r: Result<
    InstallLocation,
    String,
>)
    ensures
        match install_location(platform, scope, format) {
            Ok((base, comps)) => r matches Ok(l) && l.base == base && component_views(l.components@) == comps,
            Err(e) => r matches Err(m) && m@ == e,
        },
{
    let scope = effective_install_scope(scope, format);
    let r = match (platform, scope, format) {
        (Platform::Macos, InstallScope::User, PluginFormat::Clap) => location(
            InstallBase::Home,
            vec!["Library/Audio/Plug-Ins/CLAP"],
        ),
        (Platform::Macos, InstallScope::User, PluginFormat::Vst3) => location(
            InstallBase::Home,
            vec!["Library/Audio/Plug-Ins/VST3"],
        ),
        (Platform::Macos, InstallScope::User, PluginFormat::Au) => location(
            InstallBase::Home,
            vec!["Library/Audio/Plug-Ins/Components"],
        ),
        (Platform::Macos, InstallScope::User, PluginFormat::Aax) => Err(
            owned("AAX plugins install to the system-wide Avid folder on macOS; use --scope=system"),
        ),
        (Platform::Macos, _, PluginFormat::Clap) => location(InstallBase::Root, vec!["/Library/Audio/Plug-Ins/CLAP"]),
        (Platform::Macos, _, PluginFormat::Vst3) => location(InstallBase::Root, vec!["/Library/Audio/Plug-Ins/VST3"]),
        (Platform::Macos, _, PluginFormat::Au) => location(
            InstallBase::Root,
            vec!["/Library/Audio/Plug-Ins/Components"],
        ),
        (Platform::Macos, _, PluginFormat::Aax) => location(
            InstallBase::Root,
            vec!["/Library/Application Support/Avid/Audio/Plug-Ins"],
        ),
        (Platform::Windows, _, PluginFormat::Au) => Err(owned("AU is not supported on Windows")),
        (Platform::Windows, InstallScope::User, PluginFormat::Clap) => location(
            InstallBase::LocalAppData,
            vec!["Programs", "Common", "CLAP"],
        ),
        (Platform::Windows, InstallScope::User, PluginFormat::Vst3) => location(
            InstallBase::LocalAppData,
            vec!["Programs", "Common", "VST3"],
        ),
        (Platform::Windows, InstallScope::User, _) => Err(
            owned("AAX plugins install to the system-wide Avid folder on Windows; use --scope=system"),
        ),
        (Platform::Windows, _, PluginFormat::Clap) => location(InstallBase::CommonProgramFiles, vec!["CLAP"]),
        (Platform::Windows, _, PluginFormat::Vst3) => location(InstallBase::CommonProgramFiles, vec!["VST3"]),
        (Platform::Windows, _, _) => location(InstallBase::CommonProgramFiles, vec!["Avid", "Audio", "Plug-Ins"]),
        (Platform::Linux, _, PluginFormat::Aax) => Err(owned("AAX is not supported on Linux")),
        (Platform::Linux, _, PluginFormat::Au) => Err(owned("AU is not supported on Linux")),
        (Platform::Linux, InstallScope::User, PluginFormat::Clap) => location(InstallBase::Home, vec![".clap"]),
        (Platform::Linux, InstallScope::User, _) => location(InstallBase::Home, vec![".vst3"]),
        (Platform::Linux, _, PluginFormat::Clap) => location(InstallBase::Root, vec!["/usr/lib/clap"]),
        (Platform::Linux, _, _) => location(InstallBase::Root, vec!["/usr/lib/vst3"]),
    };
    proof {
        match &r {
            Ok(l) => {
                assert(component_views(l.components@) =~= match install_location(platform, scope, format) {
                    Ok((_, comps)) => comps,
                    Err(_) => component_views(l.components@),
                });
            },
            Err(_) => {},
        }
    }
    r
}

/// The install scopes an uninstall looks in: both for `All` (only the
/// system one for AAX on macOS and Windows, which has no per-user
/// location), or the one named.
pub open spec fn uninstall_scope_list(p: Platform, scope: UninstallScope, f: PluginFormat) -> Seq<InstallScope> {
    match scope {
        UninstallScope::All => if f == PluginFormat::Aax && (p == Platform::Macos || p == Platform::Windows) {
            seq![InstallScope::System]
        } else {
            seq![InstallScope::User, InstallScope::System]
        },
        UninstallScope::User => seq![InstallScope::User],
        UninstallScope::System => seq![InstallScope::System],
    }
}

/// The install scopes an uninstall looks in.
pub fn uninstall_scopes(platform: Platform, scope: UninstallScope, format: PluginFormat) -> (r: Vec<InstallScope>)
    ensures
        r@ == uninstall_scope_list(platform, scope, format),
{
    let r = match scope {
        UninstallScope::All => {
            if format == PluginFormat::Aax && (platform == Platform::Macos || platform == Platform::Windows) {
                vec![InstallScope::System]
            } else {
                vec![InstallScope::User, InstallScope::System]
            }
        },
        UninstallScope::User => vec![InstallScope::User],
        UninstallScope::System => vec![InstallScope::System],
    };
    assert(r@ =~= uninstall_scope_list(platform, scope, format));
    r
}

/// The bundle file name of an install target.
pub open spec fn bundle_file_name(m: PluginMetadata, t: PluginTarget) -> Seq<char> {
    match t {
        PluginTarget::Clap => m.bundle_name@ + ".clap"@,
        PluginTarget::Vst3 => m.bundle_name@ + ".vst3"@,
        PluginTarget::Au => m.bundle_name@ + ".component"@,
    }
}

/// An installed copy of a bundle: the directory and the bundle's file name.
#[derive(Debug, Clone)]
pub struct InstalledArtifact {
    pub dir: InstallLocation,
    pub bundle_name: String,
}

/// The copies an uninstall of `target` looks for: the bundle in the install
/// directory of each scope, in scope order; the first scope whose directory
/// cannot be resolved gives the error.
pub open spec fn installed_artifact_list(
    p: Platform,
    scope: UninstallScope,
    t: PluginTarget,
    m: PluginMetadata,
) -> Result<Seq<(InstallBase, Seq<Seq<char>>, Seq<char>)>, Seq<char>> {
    artifacts_in_scopes(p, uninstall_scope_list(p, scope, plugin_target_format(t)), t, m)
}

pub open spec fn artifacts_in_scopes(
    p: Platform,
    scopes: Seq<InstallScope>,
    t: PluginTarget,
    m: PluginMetadata,
) -> Result<Seq<(InstallBase, Seq<Seq<char>>, Seq<char>)>, Seq<char>>
    decreases scopes.len(),
{
    if scopes.len() == 0 {
        Ok(Seq::empty())
    } else {
        match install_location(p, scopes[0], plugin_target_format(t)) {
            Err(e) => Err(e),
            Ok((base, comps)) => match artifacts_in_scopes(p, scopes.drop_first(), t, m) {
                Err(e) => Err(e),
                Ok(rest) => Ok(seq![(base, comps, bundle_file_name(m, t))] + rest),
            },
        }
    }
}

/// The views of a list of installed copies.
pub open spec fn artifact_views(a: Seq<InstalledArtifact>) -> Seq<(InstallBase, Seq<Seq<char>>, Seq<char>)> {
    a.map_values(|x: InstalledArtifact| (x.dir.base, component_views(x.dir.components@), x.bundle_name@))
}

fn bundle_name_for(metadata: &PluginMetadata, target: PluginTarget) -> (r: String)
    ensures
        r@ == bundle_file_name(*metadata, target),
{
    match target {
        PluginTarget::Clap => metadata.clap_bundle_name(),
        PluginTarget::Vst3 => metadata.vst3_bundle_name(),
        PluginTarget::Au => metadata.au_bundle_name(),
    }
}

/// The installed copies an uninstall of `target` looks for.
pub fn installed_artifacts(
    platform: Platform,
    scope: UninstallScope,
    target: PluginTarget,
    metadata: &PluginMetadata,
) -> (r: Result<Vec<InstalledArtifact>, String>)
    ensures
        match installed_artifact_list(platform, scope, target, *metadata) {
            Ok(list) => r matches Ok(v) && artifact_views(v@) == list,
            Err(e) => r matches Err(m) && m@ == e,
        },
{
    let format = target.format();
    let scopes = uninstall_scopes(platform, scope, format);
    let mut out: Vec<InstalledArtifact> = Vec::new();
    let mut i: usize = 0;
    assert(scopes@.skip(0) =~= scopes@);
    while i < scopes.len()
        invariant
            format == plugin_target_format(target),
            i <= scopes@.len(),
            installed_artifact_list(platform, scope, target, *metadata) == match artifacts_in_scopes(
                platform,
                scopes@.skip(i as int),
                target,
                *metadata,
            ) {
                Ok(rest) => Ok(artifact_views(out@) + rest),
                Err(e) => Err(e),
            },
            scopes@ == uninstall_scope_list(platform, scope, format),
        decreases scopes.len() - i,
    {
        assert(scopes@.skip(i as int).drop_first() =~= scopes@.skip(i + 1));
        assert(scopes@.skip(i as int)[0] == scopes@[i as int]);
        let dir = match install_dir(platform, scopes[i], format) {
            Ok(d) => d,
            Err(e) => {
                return Err(e);
            },
        };
        let a = InstalledArtifact { dir, bundle_name: bundle_name_for(metadata, target) };
        let ghost before = out@;
        out.push(a);
        proof {
            assert(artifact_views(out@) =~= artifact_views(before).push(
                (a.dir.base, component_views(a.dir.components@), a.bundle_name@),
            ));
            match artifacts_in_scopes(platform, scopes@.skip(i + 1), target, *metadata) {
                Ok(rest) => {
                    assert(artifact_views(before) + (seq![
                        (a.dir.base, component_views(a.dir.components@), a.bundle_name@),
                    ] + rest) =~= artifact_views(out@) + rest);
                },
                Err(_) => {},
            }
        }
        i += 1;
    }
    assert(artifact_views(out@) + Seq::empty() =~= artifact_views(out@));
    Ok(out)
}

pub open spec fn missing_text(l: XtaskOutputLanguage) -> Seq<char> {
    match l {
        XtaskOutputLanguage::English => "Not found"@,
        XtaskOutputLanguage::Japanese => "なし"@,
    }
}

/// The label of an installed copy that was not found.
pub fn missing_label(language: XtaskOutputLanguage) -> (r: &'static str)
    ensures
        r@ == missing_text(language),
{
    match language {
        XtaskOutputLanguage::English => "Not found",
        XtaskOutputLanguage::Japanese => "なし",
    }
}

pub open spec fn would_remove_text(l: XtaskOutputLanguage) -> Seq<char> {
    match l {
        XtaskOutputLanguage::English => "Would remove"@,
        XtaskOutputLanguage::Japanese => "削除予定"@,
    }
}

/// The label of an installed copy a dry run would remove.
pub fn would_remove_label(language: XtaskOutputLanguage) -> (r: &'static str)
    ensures
        r@ == would_remove_text(language),
{
    match language {
        XtaskOutputLanguage::English => "Would remove",
        XtaskOutputLanguage::Japanese => "削除予定",
    }
}

pub open spec fn removing_text(l: XtaskOutputLanguage) -> Seq<char> {
    match l {
        XtaskOutputLanguage::English => "Removing"@,
        XtaskOutputLanguage::Japanese => "削除"@,
    }
}

/// The label of an installed copy being removed.
pub fn removing_label(language: XtaskOutputLanguage) -> (r: &'static str)
    ensures
        r@ == removing_text(language),
{
    match language {
        XtaskOutputLanguage::English => "Removing",
        XtaskOutputLanguage::Japanese => "削除",
    }
}

/// The tally of an uninstall: how many copies were (or would be) removed
/// and how many were not found; `exists` says, per copy, whether it is there.
pub open spec fn uninstall_tally(exists: Seq<bool>) -> (nat, nat)
    decreases exists.len(),
{
    if exists.len() == 0 {
        (0, 0)
    } else {
        let (r, m) = uninstall_tally(exists.drop_last());
        if exists.last() {
            (r + 1, m)
        } else {
            (r, m + 1)
        }
    }
}

/// Counts the copies an uninstall removes and those it does not find.
pub fn count_uninstall(exists: &Vec<bool>) -> (r: (usize, usize))
    ensures
        (r.0 as nat, r.1 as nat) == uninstall_tally(exists@),
{
    let mut removed: usize = 0;
    let mut missing: usize = 0;
    let mut i: usize = 0;
    while i < exists.len()
        invariant
            i <= exists.len(),
            (removed as nat, missing as nat) == uninstall_tally(exists@.take(i as int)),
            removed + missing == i,
        decreases exists.len() - i,
    {
        assert(exists@.take(i + 1).drop_last() =~= exists@.take(i as int));
        if exists[i] {
            removed = removed + 1;
        } else {
            missing = missing + 1;
        }
        i += 1;
    }
    assert(exists@.take(exists.len() as int) =~= exists@);
    (removed, missing)
}

/// The index of the first product with the given id.
pub open spec fn product_index(plugins: Seq<PluginProductMetadata>, id: Seq<char>) -> Option<int>
    decreases plugins.len(),
{
    if plugins.len() == 0 {
        None
    } else if plugins.last().plugin_id@ == id && product_index(plugins.drop_last(), id) is None {
        Some(plugins.len() - 1)
    } else {
        product_index(plugins.drop_last(), id)
    }
}

proof fn lemma_product_index(plugins: Seq<PluginProductMetadata>, id: Seq<char>, i: int)
    requires
        0 <= i <= plugins.len(),
        forall|j: int| 0 <= j < i ==> plugins[j].plugin_id@ != id,
        i < plugins.len() ==> plugins[i].plugin_id@ == id,
    ensures
        product_index(plugins, id) == if i < plugins.len() {
            Some(i)
        } else {
            None::<int>
        },
    decreases plugins.len(),
{
    if plugins.len() > 0 {
        if i < plugins.len() - 1 {
            lemma_product_index(plugins.drop_last(), id, i);
        } else {
            lemma_product_index(plugins.drop_last(), id, plugins.len() - 1);
        }
    }
}

fn find_product(plugins: &Vec<PluginProductMetadata>, id: &str) -> (r: Option<usize>)
    ensures
        r matches Some(k) ==> k < plugins@.len() && product_index(plugins@, id@) == Some(k as int),
        r is None ==> product_index(plugins@, id@) is None,
{
    let mut i: usize = 0;
    while i < plugins.len()
        invariant
            i <= plugins@.len(),
            forall|j: int| 0 <= j < i ==> plugins@[j].plugin_id@ != id@,
        decreases plugins.len() - i,
    {
        if str_eq(plugins[i].plugin_id.as_str(), id) {
            proof {
                lemma_product_index(plugins@, id@, i as int);
            }
            return Some(i);
        }
        i += 1;
    }
    proof {
        lemma_product_index(plugins@, id@, plugins@.len() as int);
    }
    None
}

/// The ids of the products, in order.
pub open spec fn product_ids(plugins: Seq<PluginProductMetadata>) -> Seq<Seq<char>> {
    plugins.map_values(|p: PluginProductMetadata| p.plugin_id@)
}

/// The product a standalone launch runs: the one with the requested id, or
/// the only one when none was requested.
pub open spec fn launch_choice(plugins: Seq<PluginProductMetadata>, id: Option<Seq<char>>) -> Result<int, Seq<char>> {
    match id {
        Some(i) => match product_index(plugins, i) {
            Some(k) => Ok(k),
            None => Err("plugin ID not found in WRAC metadata: "@ + i),
        },
        None => if plugins.len() == 1 {
            Ok(0)
        } else {
            Err("multiple plugin products found: "@ + join(product_ids(plugins), ", "@)
                + ". Use --plugin-id <PLUGIN_ID>."@)
        },
    }
}

fn product_id_list(plugins: &Vec<PluginProductMetadata>) -> (r: Vec<String>)
    ensures
        string_views(r@) == product_ids(plugins@),
{
    let mut out: Vec<String> = Vec::new();
    let mut i: usize = 0;
    while i < plugins.len()
        invariant
            i <= plugins@.len(),
            string_views(out@) == product_ids(plugins@.take(i as int)),
        decreases plugins.len() - i,
    {
        let ghost before = out@;
        out.push(plugins[i].plugin_id.clone());
        assert(string_views(out@) =~= string_views(before).push(plugins@[i as int].plugin_id@));
        assert(product_ids(plugins@.take(i + 1)) =~= product_ids(plugins@.take(i as int)).push(
            plugins@[i as int].plugin_id@,
        ));
        i += 1;
    }
    assert(plugins@.take(plugins@.len() as int) =~= plugins@);
    out
}

/// The product a standalone launch runs. Without a requested id, a package
/// with several products is refused rather than launching the first.
pub fn standalone_plugin_to_launch<'a>(plugins: &'a Vec<PluginProductMetadata>, plugin_id: Option<&str>) -> (r:
    Result<&'a PluginProductMetadata, String>)
    ensures
        match launch_choice(
            plugins@,
            match plugin_id {
                Some(s) => Some(s@),
                None => None,
            },
        ) {
            Ok(k) => r matches Ok(p) && *p == plugins@[k],
            Err(e) => r matches Err(m) && m@ == e,
        },
{
    match plugin_id {
        Some(id) => match find_product(plugins, id) {
            Some(k) => Ok(&plugins[k]),
            None => {
                let mut msg = owned("plugin ID not found in WRAC metadata: ");
                push_str(&mut msg, id);
                Err(msg)
            },
        },
        None => {
            if plugins.len() == 1 {
                Ok(&plugins[0])
            } else {
                let ids = product_id_list(plugins);
                let mut msg = owned("multiple plugin products found: ");
                push_joined(&mut msg, &ids, ", ");
                push_str(&mut msg, ". Use --plugin-id <PLUGIN_ID>.");
                Err(msg)
            }
        },
    }
}

/// The products a standalone build covers, by index: the one with the
/// requested id, or all of them.
pub open spec fn standalone_choice(plugins: Seq<PluginProductMetadata>, id: Option<Seq<char>>) -> Result<
    Seq<int>,
    Seq<char>,
> {
    match id {
        Some(i) => match product_index(plugins, i) {
            Some(k) => Ok(seq![k]),
            None => Err("plugin ID not found in WRAC metadata: "@ + i),
        },
        None => Ok(Seq::new(plugins.len(), |k: int| k)),
    }
}

/// The products a standalone build covers, with their indices.
pub fn standalone_products<'a>(plugins: &'a Vec<PluginProductMetadata>, plugin_id: Option<&str>) -> (r: Result<
    Vec<(usize, &'a PluginProductMetadata)>,
    String,
>)
    ensures
        match standalone_choice(
            plugins@,
            match plugin_id {
                Some(s) => Some(s@),
                None => None,
            },
        ) {
            Ok(ks) => r matches Ok(v) && v@.len() == ks.len() && forall|j: int|
                0 <= j < ks.len() ==> (#[trigger] v@[j]).0 == ks[j] && *v@[j].1 == plugins@[ks[j]],
            Err(e) => r matches Err(m) && m@ == e,
        },
{
    match plugin_id {
        Some(id) => match find_product(plugins, id) {
            Some(k) => Ok(vec![(k, &plugins[k])]),
            None => {
                let mut msg = owned("plugin ID not found in WRAC metadata: ");
                push_str(&mut msg, id);
                Err(msg)
            },
        },
        None => {
            let mut out: Vec<(usize, &'a PluginProductMetadata)> = Vec::new();
            let mut i: usize = 0;
            while i < plugins.len()
                invariant
                    i <= plugins@.len(),
                    out@.len() == i,
                    forall|j: int| 0 <= j < i ==> (#[trigger] out@[j]).0 == j && *out@[j].1 == plugins@[j],
                decreases plugins.len() - i,
            {
                out.push((i, &plugins[i]));
                i += 1;
            }
            Ok(out)
        },
    }
}

/// Which Rust library a build produces.
#[derive(Debug, Clone, Copy, PartialEq, Eq, Structural)]
pub enum RustPluginBuild {
    Default,
    Standalone,
}

impl RustPluginBuild {
    /// The build's name, also the directory of its separate target dir.
    pub fn label(self) -> (r: &'static str)
        ensures
            r@ == (match self {
                RustPluginBuild::Default => "default"@,
                RustPluginBuild::Standalone => "standalone"@,
            }),
    {
        match self {
            RustPluginBuild::Default => "default",
            RustPluginBuild::Standalone => "standalone",
        }
    }
}

/// A clap-wrapper configuration. VST3 and AU share one configure; AAX is
/// separate so that VST3 and AU builds do not need the AAX SDK.
#[derive(Debug, Clone, Copy, PartialEq, Eq, Structural)]
pub enum WrapperBuild {
    Plugins { vst3: bool, au: bool },
    Aax,
    Standalone,
}

pub open spec fn purpose_text(b: WrapperBuild) -> Seq<char> {
    match b {
        WrapperBuild::Plugins { .. } => "wrap-plugins"@,
        WrapperBuild::Aax => "wrap-aax"@,
        WrapperBuild::Standalone => "standalone"@,
    }
}

/// `s` with every `from` replaced by `to`.
pub open spec fn replace_char(s: Seq<char>, from: char, to: char) -> Seq<char> {
    s.map_values(|c: char| if c == from { to } else { c })
}

/// The prefix of the CMake target names of a wrapper build.
pub open spec fn target_base(package_name: Seq<char>, b: WrapperBuild) -> Seq<char> {
    package_name + "_"@ + replace_char(purpose_text(b), '-', '_')
}

impl WrapperBuild {
    /// The build's purpose, the name of its build directory.
    pub fn purpose(self) -> (r: &'static str)
        ensures
            r@ == purpose_text(self),
    {
        match self {
            WrapperBuild::Plugins { .. } => "wrap-plugins",
            WrapperBuild::Aax => "wrap-aax",
            WrapperBuild::Standalone => "standalone",
        }
    }

    /// `<package>_<purpose with '_' for '-'>`, from which clap_wrapper_builder
    /// derives its CMake target names.
    pub fn target_name_base(self, package_name: &str) -> (r: String)
        ensures
            r@ == target_base(package_name@, self),
    {
        let mut s = owned(package_name);
        push_str(&mut s, "_");
        let p = crate::text::chars_of(self.purpose());
        let ghost start = s@;
        let mut i: usize = 0;
        while i < p.len()
            invariant
                i <= p.len(),
                p@ == purpose_text(self),
                s@ == start + replace_char(p@.take(i as int), '-', '_'),
            decreases p.len() - i,
        {
            let c = p[i];
            crate::text::push_char(&mut s, if c == '-' { '_' } else { c });
            assert(replace_char(p@.take(i + 1), '-', '_') =~= replace_char(p@.take(i as int), '-', '_').push(
                if c == '-' { '_' } else { c },
            ));
            i += 1;
        }
        assert(p@.take(p.len() as int) =~= p@);
        s
    }

    /// The Rust library the wrapper links.
    pub fn rust_build(self) -> (r: RustPluginBuild)
        ensures
            r == (match self {
                WrapperBuild::Standalone => RustPluginBuild::Standalone,
                _ => RustPluginBuild::Default,
            }),
    {
        match self {
            WrapperBuild::Plugins { .. } | WrapperBuild::Aax => RustPluginBuild::Default,
            WrapperBuild::Standalone => RustPluginBuild::Standalone,
        }
    }
}

/// What a wrapper build produces.
#[derive(Debug, Clone, Copy, PartialEq, Eq, Structural)]
pub enum WrapperTarget {
    Vst3,
    Au,
    Aax,
    Standalone,
}

/// The CMake targets that build a wrapper target.
pub open spec fn wrapper_targets(
    package_name: Seq<char>,
    b: WrapperBuild,
    t: WrapperTarget,
    plugins: Seq<PluginProductMetadata>,
    id: Option<Seq<char>>,
) -> Result<Seq<Seq<char>>, Seq<char>> {
    let base = target_base(package_name, b);
    match t {
        WrapperTarget::Vst3 => Ok(seq![base + "_vst3"@]),
        WrapperTarget::Aax => Ok(seq![base + "_aax"@]),
        WrapperTarget::Au => Ok(seq![base + "_auv2"@]),
        WrapperTarget::Standalone => match standalone_choice(plugins, id) {
            Ok(ks) => Ok(ks.map_values(|k: int| base + "_product_"@ + decimal(k as nat) + "_standalone"@)),
            Err(e) => Err(e),
        },
    }
}

/// Why a wrapper build cannot carry plugin resources yet.
pub open spec fn wrapper_resources_message(b: WrapperBuild) -> Seq<char> {
    match b {
        WrapperBuild::Plugins { .. } =>
            "plugin resources are not supported for wrapper plugin builds yet; build macOS CLAP or remove plugin resources"@,
        WrapperBuild::Aax =>
            "plugin resources are not supported for AAX wrapper builds yet; build macOS CLAP or remove plugin resources"@,
        WrapperBuild::Standalone =>
            "plugin resources are not supported for standalone app builds yet; build macOS CLAP or remove plugin resources"@,
    }
}

/// Refuses a wrapper build when the plugin has a resource directory: the
/// wrappers do not package resources yet, and a bundle without them would
/// pass the build and fail at run time.
pub fn ensure_wrapper_resources_supported(build: WrapperBuild, resource_dir: Option<&str>) -> (r: Result<
    (),
    String,
>)
    ensures
        r is Ok <==> resource_dir is None,
        r matches Err(e) ==> e@ == wrapper_resources_message(build),
{
    if resource_dir.is_none() {
        return Ok(());
    }
    match build {
        WrapperBuild::Plugins { .. } => Err(
            owned(
                "plugin resources are not supported for wrapper plugin builds yet; build macOS CLAP or remove plugin resources",
            ),
        ),
        WrapperBuild::Aax => Err(
            owned(
                "plugin resources are not supported for AAX wrapper builds yet; build macOS CLAP or remove plugin resources",
            ),
        ),
        WrapperBuild::Standalone => Err(
            owned(
                "plugin resources are not supported for standalone app builds yet; build macOS CLAP or remove plugin resources",
            ),
        ),
    }
}

/// The CMake targets that build a wrapper target: one per product for
/// standalone builds.
pub fn cmake_wrapper_targets(
    package_name: &str,
    build: WrapperBuild,
    target: WrapperTarget,
    plugins: &Vec<PluginProductMetadata>,
    standalone_plugin_id: Option<&str>,
) -> (r: Result<Vec<String>, String>)
    ensures
        match wrapper_targets(
            package_name@,
            build,
            target,
            plugins@,
            match standalone_plugin_id {
                Some(s) => Some(s@),
                None => None,
            },
        ) {
            Ok(ts) => r matches Ok(v) && string_views(v@) == ts,
            Err(e) => r matches Err(m) && m@ == e,
        },
{
    let base = build.target_name_base(package_name);
    match target {
        WrapperTarget::Vst3 => {
            let mut s = base;
            push_str(&mut s, "_vst3");
            let v = vec![s];
            assert(string_views(v@) =~= seq![s@]);
            Ok(v)
        },
        WrapperTarget::Aax => {
            let mut s = base;
            push_str(&mut s, "_aax");
            let v = vec![s];
            assert(string_views(v@) =~= seq![s@]);
            Ok(v)
        },
        WrapperTarget::Au => {
            let mut s = base;
            push_str(&mut s, "_auv2");
            let v = vec![s];
            assert(string_views(v@) =~= seq![s@]);
            Ok(v)
        },
        WrapperTarget::Standalone => {
            let products = match standalone_products(plugins, standalone_plugin_id) {
                Ok(p) => p,
                Err(e) => {
                    return Err(e);
                },
            };
            let ghost ks = match standalone_choice(
                plugins@,
                match standalone_plugin_id {
                    Some(s) => Some(s@),
                    None => None,
                },
            ) {
                Ok(ks) => ks,
                Err(_) => Seq::empty(),
            };
            let ghost expected = ks.map_values(
                |k: int| base@ + "_product_"@ + decimal(k as nat) + "_standalone"@,
            );
            let mut out: Vec<String> = Vec::new();
            let mut i: usize = 0;
            while i < products.len()
                invariant
                    products@.len() == ks.len(),
                    forall|j: int| 0 <= j < ks.len() ==> (#[trigger] products@[j]).0 == ks[j],
                    expected == ks.map_values(|k: int| base@ + "_product_"@ + decimal(k as nat) + "_standalone"@),
                    i <= products.len(),
                    string_views(out@) == expected.take(i as int),
                decreases products.len() - i,
            {
                let (k, _) = products[i];
                let mut s = base.clone();
                push_str(&mut s, "_product_");
                push_decimal(&mut s, k);
                push_str(&mut s, "_standalone");
                let ghost before = out@;
                out.push(s);
                assert(string_views(out@) =~= string_views(before).push(s@));
                assert(expected.take(i + 1) =~= expected.take(i as int).push(expected[i as int]));
                i += 1;
            }
            assert(expected.take(products.len() as int) =~= expected);
            Ok(out)
        },
    }
}


/// The `Info.plist` of a macOS CLAP bundle. The bundle has one identity even
/// when it exposes several products, so it carries the bundle name and
/// identifier rather than a product's.
pub open spec fn clap_info_plist_text(m: PluginMetadata) -> Seq<char> {
    "<?xml version=\"1.0\" encoding=\"UTF-8\"?>\n<!DOCTYPE plist PUBLIC \"-//Apple//DTD PLIST 1.0//EN\" \"http://www.apple.com/DTDs/PropertyList-1.0.dtd\">\n<plist>\n  <dict>\n    <key>CFBundleExecutable</key>\n    <string>"@ + m.bundle_name@ + "</string>\n    <key>CFBundleIconFile</key>\n    <string></string>\n    <key>CFBundleIdentifier</key>\n    <string>"@ + m.bundle_identifier@ + "</string>\n    <key>CFBundleName</key>\n    <string>"@ + m.bundle_name@ + "</string>\n    <key>CFBundleDisplayName</key>\n    <string>"@ + m.bundle_name@ + "</string>\n    <key>CFBundlePackageType</key>\n    <string>BNDL</string>\n    <key>CFBundleSignature</key>\n    <string>????</string>\n    <key>CFBundleShortVersionString</key>\n    <string>"@ + m.version@ + "</string>\n    <key>CFBundleVersion</key>\n    <string>"@ + m.version@ + "</string>\n    <key>NSHumanReadableCopyright</key>\n    <string>"@ + m.copyright@ + "</string>\n    <key>NSHighResolutionCapable</key>\n    <true/>\n  </dict>\n</plist>\n"@
}

/// The `Info.plist` text written into a macOS CLAP bundle.
pub fn macos_clap_info_plist(metadata: &PluginMetadata) -> (r: String)
    ensures
        r@ == clap_info_plist_text(*metadata),
{
    let mut s = owned("<?xml version=\"1.0\" encoding=\"UTF-8\"?>\n<!DOCTYPE plist PUBLIC \"-//Apple//DTD PLIST 1.0//EN\" \"http://www.apple.com/DTDs/PropertyList-1.0.dtd\">\n<plist>\n  <dict>\n    <key>CFBundleExecutable</key>\n    <string>");
    push_str(&mut s, metadata.bundle_name.as_str());
    push_str(&mut s, "</string>\n    <key>CFBundleIconFile</key>\n    <string></string>\n    <key>CFBundleIdentifier</key>\n    <string>");
    push_str(&mut s, metadata.bundle_identifier.as_str());
    push_str(&mut s, "</string>\n    <key>CFBundleName</key>\n    <string>");
    push_str(&mut s, metadata.bundle_name.as_str());
    push_str(&mut s, "</string>\n    <key>CFBundleDisplayName</key>\n    <string>");
    push_str(&mut s, metadata.bundle_name.as_str());
    push_str(&mut s, "</string>\n    <key>CFBundlePackageType</key>\n    <string>BNDL</string>\n    <key>CFBundleSignature</key>\n    <string>????</string>\n    <key>CFBundleShortVersionString</key>\n    <string>");
    push_str(&mut s, metadata.version.as_str());
    push_str(&mut s, "</string>\n    <key>CFBundleVersion</key>\n    <string>");
    push_str(&mut s, metadata.version.as_str());
    push_str(&mut s, "</string>\n    <key>NSHumanReadableCopyright</key>\n    <string>");
    push_str(&mut s, metadata.copyright.as_str());
    push_str(&mut s, "</string>\n    <key>NSHighResolutionCapable</key>\n    <true/>\n  </dict>\n</plist>\n");
    s
}

/// One `-D` argument describing a product to clap_wrapper_builder.
pub open spec fn product_arg(index: nat, key: Seq<char>, value: Seq<char>) -> Seq<char> {
    "-DCLAP_WRAPPER_BUILDER_PRODUCT_"@ + crate::text::decimal(index) + "_"@ + key + "="@ + value
}

/// The per-product arguments of one product: AUv2 builds need each
/// product's output name and AudioComponent codes, standalone builds its
/// output name, the plugin id to host and the app name; others need none.
pub open spec fn product_args_of(b: WrapperBuild, index: nat, p: PluginProductMetadata) -> Seq<Seq<char>> {
    match b {
        WrapperBuild::Plugins { au: true, .. } => seq![
            product_arg(index, "OUTPUT_NAME"@, p.plugin_name@),
            product_arg(index, "AUV2_TYPE"@, p.auv2_type@),
            product_arg(index, "AUV2_SUBTYPE"@, p.auv2_subtype@),
        ],
        WrapperBuild::Standalone => seq![
            product_arg(index, "OUTPUT_NAME"@, p.plugin_name@),
            product_arg(index, "PLUGIN_ID"@, p.plugin_id@),
            product_arg(index, "STANDALONE_NAME"@, p.standalone_name@),
        ],
        _ => Seq::empty(),
    }
}

pub open spec fn products_args(b: WrapperBuild, ps: Seq<PluginProductMetadata>) -> Seq<Seq<char>>
    decreases ps.len(),
{
    if ps.len() == 0 {
        Seq::empty()
    } else {
        products_args(b, ps.drop_last()) + product_args_of(b, (ps.len() - 1) as nat, ps.last())
    }
}

/// The product arguments of a wrapper configure: the product count, then
/// each product's arguments in order.
pub open spec fn wrapper_product_args(b: WrapperBuild, ps: Seq<PluginProductMetadata>) -> Seq<Seq<char>> {
    seq!["-DCLAP_WRAPPER_BUILDER_PRODUCT_COUNT="@ + crate::text::decimal(ps.len())] + products_args(b, ps)
}

fn push_product_arg(args: &mut Vec<String>, index: usize, key: &str, value: &str)
    ensures
        string_views(final(args)@) == string_views(old(args)@).push(product_arg(index as nat, key@, value@)),
{
    let mut s = owned("-DCLAP_WRAPPER_BUILDER_PRODUCT_");
    push_decimal(&mut s, index);
    push_str(&mut s, "_");
    push_str(&mut s, key);
    push_str(&mut s, "=");
    push_str(&mut s, value);
    args.push(s);
    assert(string_views(args@) =~= string_views(old(args)@).push(s@));
}

/// The product arguments a wrapper configure passes to CMake.
pub fn add_wrapper_product_args(plugins: &Vec<PluginProductMetadata>, build: WrapperBuild) -> (r: Vec<String>)
    ensures
        string_views(r@) == wrapper_product_args(build, plugins@),
{
    let mut args: Vec<String> = Vec::new();
    let mut first = owned("-DCLAP_WRAPPER_BUILDER_PRODUCT_COUNT=");
    push_decimal(&mut first, plugins.len());
    args.push(first);
    let ghost head = string_views(args@);
    assert(head =~= seq!["-DCLAP_WRAPPER_BUILDER_PRODUCT_COUNT="@ + crate::text::decimal(plugins@.len())]);
    let mut i: usize = 0;
    while i < plugins.len()
        invariant
            i <= plugins@.len(),
            string_views(args@) == head + products_args(build, plugins@.take(i as int)),
        decreases plugins.len() - i,
    {
        let p = &plugins[i];
        assert(plugins@.take(i + 1).drop_last() =~= plugins@.take(i as int));
        let ghost before = string_views(args@);
        match build {
            WrapperBuild::Plugins { au: true, .. } => {
                push_product_arg(&mut args, i, "OUTPUT_NAME", p.plugin_name.as_str());
                push_product_arg(&mut args, i, "AUV2_TYPE", p.auv2_type.as_str());
                push_product_arg(&mut args, i, "AUV2_SUBTYPE", p.auv2_subtype.as_str());
            },
            WrapperBuild::Standalone => {
                push_product_arg(&mut args, i, "OUTPUT_NAME", p.plugin_name.as_str());
                push_product_arg(&mut args, i, "PLUGIN_ID", p.plugin_id.as_str());
                push_product_arg(&mut args, i, "STANDALONE_NAME", p.standalone_name.as_str());
            },
            _ => {},
        }
        assert(string_views(args@) =~= before + product_args_of(build, i as nat, plugins@[i as int]));
        i += 1;
    }
    assert(plugins@.take(plugins@.len() as int) =~= plugins@);
    args
}

/// The names a command is looked up by: on Windows `.cmd`, then `.exe`, then
/// the bare name; elsewhere the bare name.
pub open spec fn command_candidate_list(p: Platform, command: Seq<char>) -> Seq<Seq<char>> {
    if p == Platform::Windows {
        seq![command + ".cmd"@, command + ".exe"@, command]
    } else {
        seq![command]
    }
}

/// The names a command is looked up by on `PATH`; the first one found is
/// run, and the bare name when none is.
pub fn command_candidates(platform: Platform, command: &str) -> (r: Vec<String>)
    ensures
        string_views(r@) == command_candidate_list(platform, command@),
{
    let mut out: Vec<String> = Vec::new();
    if platform == Platform::Windows {
        let mut a = owned(command);
        push_str(&mut a, ".cmd");
        let mut b = owned(command);
        push_str(&mut b, ".exe");
        out.push(a);
        out.push(b);
    }
    out.push(owned(command));
    assert(string_views(out@) =~= command_candidate_list(platform, command@));
    out
}

/// A dependency of a `package.json`: its name and its version when that is a string.
#[derive(Debug, Clone)]
pub struct PackageDependency {
    pub name: String,
    pub version: Option<String>,
}

/// The dependencies that come from the pnpm workspace (`workspace:` versions), in order.
pub open spec fn workspace_deps(ds: Seq<PackageDependency>) -> Seq<Seq<char>>
    decreases ds.len(),
{
    if ds.len() == 0 {
        Seq::empty()
    } else {
        let rest = workspace_deps(ds.drop_last());
        match ds.last().version {
            Some(v) => if crate::text::has_prefix(v@, "workspace:"@) {
                rest.push(ds.last().name@)
            } else {
                rest
            },
            None => rest,
        }
    }
}

/// The names of the workspace dependencies of a `package.json`.
pub fn workspace_dependency_names(dependencies: &Vec<PackageDependency>) -> (r: Vec<String>)
    ensures
        string_views(r@) == workspace_deps(dependencies@),
{
    let mut out: Vec<String> = Vec::new();
    let mut i: usize = 0;
    while i < dependencies.len()
        invariant
            i <= dependencies@.len(),
            string_views(out@) == workspace_deps(dependencies@.take(i as int)),
        decreases dependencies.len() - i,
    {
        assert(dependencies@.take(i + 1).drop_last() =~= dependencies@.take(i as int));
        let d = &dependencies[i];
        match &d.version {
            Some(v) => {
                let chars = crate::text::chars_of(v.as_str());
                if crate::text::starts_with(&chars, "workspace:") {
                    let ghost before = string_views(out@);
                    out.push(d.name.clone());
                    assert(string_views(out@) =~= before.push(d.name@));
                }
            },
            None => {},
        }
        i += 1;
    }
    assert(dependencies@.take(dependencies@.len() as int) =~= dependencies@);
    out
}

} // verus!
