//! Which plugin packages a command works on, and the layout a plugin package
//! must have. Discovering the packages of the workspace is left to the
//! caller; these functions decide on the names it found.
use vstd::prelude::*;
use crate::text::{join, owned, push_joined, push_str, str_eq, string_views};

verus! {

/// What the package options of a command ask for.
#[derive(Debug, Clone, PartialEq, Eq)]
pub enum PackageRequest {
    /// Every plugin package of the workspace (`--all`).
    All,
    /// The package named with `-p`.
    Named(String),
    /// The one plugin package of the workspace.
    Single,
}

/// The error for `--package` together with `--all`.
pub open spec fn package_and_all_message() -> Seq<char> {
    "--package and --all cannot be used together"@
}

/// The error when the workspace has no plugin package.
pub open spec fn no_packages_message() -> Seq<char> {
    "no WRAC plugin packages found in workspace members"@
}

/// The error when a single package is wanted and there are several.
pub open spec fn multiple_packages_message(names: Seq<Seq<char>>) -> Seq<char> {
    "multiple WRAC plugin packages found: "@ + join(names, ", "@) + ". Use -p <PACKAGE> or --all."@
}

/// The error for an unknown package name.
pub open spec fn unknown_package_message(name: Seq<char>, available: Seq<Seq<char>>) -> Seq<char> {
    if available.len() == 0 {
        "unknown WRAC plugin package: "@ + name
    } else {
        "unknown WRAC plugin package: "@ + name + ". Available: "@ + join(available, ", "@)
    }
}

/// The packages a command asks for: `--all` and `-p` exclude each other.
pub fn package_request(package: Option<&str>, all: bool) -> (r: Result<PackageRequest, String>)
    ensures
        all && package is Some ==> (r matches Err(e) && e@ == package_and_all_message()),
        all && package is None ==> r == Ok::<PackageRequest, String>(PackageRequest::All),
        !all && package is Some ==> (r matches Ok(PackageRequest::Named(n)) && n@ == package->0@),
        !all && package is None ==> r == Ok::<PackageRequest, String>(PackageRequest::Single),
{
    if all {
        if package.is_some() {
            return Err(owned("--package and --all cannot be used together"));
        }
        return Ok(PackageRequest::All);
    }
    match package {
        Some(p) => Ok(PackageRequest::Named(owned(p))),
        None => Ok(PackageRequest::Single),
    }
}

/// All the discovered packages, of which there must be one at least.
pub fn select_all(discovered: &Vec<String>) -> (r: Result<Vec<String>, String>)
    ensures
        discovered@.len() == 0 ==> (r matches Err(e) && e@ == no_packages_message()),
        discovered@.len() > 0 ==> (r matches Ok(v) && string_views(v@) == string_views(discovered@)),
{
    if discovered.len() == 0 {
        return Err(owned("no WRAC plugin packages found in workspace members"));
    }
    let mut v: Vec<String> = Vec::new();
    let mut i: usize = 0;
    while i < discovered.len()
        invariant
            i <= discovered@.len(),
            v@.len() == i,
            forall|k: int| 0 <= k < i ==> (#[trigger] v@[k])@ == discovered@[k]@,
        decreases discovered.len() - i,
    {
        let copy = discovered[i].clone();
        v.push(copy);
        i += 1;
    }
    assert(string_views(v@) =~= string_views(discovered@));
    Ok(v)
}

/// The one discovered package; none, or more than one, is an error.
pub fn select_single(discovered: &Vec<String>) -> (r: Result<String, String>)
    ensures
        discovered@.len() == 0 ==> (r matches Err(e) && e@ == no_packages_message()),
        discovered@.len() == 1 ==> (r matches Ok(n) && n@ == discovered@[0]@),
        discovered@.len() > 1 ==> (r matches Err(e) && e@ == multiple_packages_message(string_views(discovered@))),
{
    if discovered.len() == 0 {
        return Err(owned("no WRAC plugin packages found in workspace members"));
    }
    if discovered.len() == 1 {
        return Ok(discovered[0].clone());
    }
    let mut msg = owned("multiple WRAC plugin packages found: ");
    push_joined(&mut msg, discovered, ", ");
    push_str(&mut msg, ". Use -p <PACKAGE> or --all.");
    Err(msg)
}

/// The position of the package named `package_name` among the discovered
/// packages, or the error that lists the available ones.
pub fn find_package(discovered: &Vec<String>, package_name: &str) -> (r: Result<usize, String>)
    ensures
        r matches Ok(i) ==> i < discovered@.len() && discovered@[i as int]@ == package_name@ && forall|j: int|
            0 <= j < i ==> discovered@[j]@ != package_name@,
        r matches Err(e) ==> (forall|j: int| 0 <= j < discovered@.len() ==> discovered@[j]@ != package_name@) && e@
            == unknown_package_message(package_name@, string_views(discovered@)),
        (exists|j: int| 0 <= j < discovered@.len() && discovered@[j]@ == package_name@) ==> r is Ok,
{
    let mut i: usize = 0;
    while i < discovered.len()
        invariant
            i <= discovered@.len(),
            forall|j: int| 0 <= j < i ==> discovered@[j]@ != package_name@,
        decreases discovered.len() - i,
    {
        if str_eq(discovered[i].as_str(), package_name) {
            return Ok(i);
        }
        i += 1;
    }
    let mut msg = owned("unknown WRAC plugin package: ");
    push_str(&mut msg, package_name);
    if discovered.len() > 0 {
        push_str(&mut msg, ". Available: ");
        push_joined(&mut msg, discovered, ", ");
    } else {
        assert(string_views(discovered@).len() == 0);
    }
    Err(msg)
}

/// The error for a plugin crate that is not at `<plugin-root>/src-plugin`.
pub open spec fn plugin_dir_message(package_dir: Seq<char>) -> Seq<char> {
    "WRAC plugin package must live at <plugin-root>/src-plugin, but found "@ + package_dir
}

/// The error for a frontend package found where it must not be.
pub open spec fn frontend_message(found: Seq<char>) -> Seq<char> {
    "WRAC plugin frontend package must live at <plugin-root>/src-gui/package.json, but found "@ + found
}

/// The layout of a plugin package: the crate at `<plugin-root>/src-plugin`,
/// and no frontend package at the plugin root or inside the crate.
/// `package_dir_name` is the last component of the crate's directory, the
/// `*_display` arguments are how the paths are shown in errors, and the
/// `*_exists` arguments say whether the two misplaced `package.json` files
/// exist.
pub fn validate_plugin_layout(
    package_dir_name: Option<&str>,
    package_dir_display: &str,
    root_package_json_exists: bool,
    root_package_json_display: &str,
    nested_package_json_exists: bool,
    nested_package_json_display: &str,
) -> (r: Result<(), String>)
    ensures
        ({
            let in_src_plugin = package_dir_name matches Some(n) && n@ == "src-plugin"@;
            &&& !in_src_plugin ==> (r matches Err(e) && e@ == plugin_dir_message(package_dir_display@))
            &&& in_src_plugin && root_package_json_exists ==> (r matches Err(e) && e@ == frontend_message(
                root_package_json_display@,
            ))
            &&& in_src_plugin && !root_package_json_exists && nested_package_json_exists ==> (r matches Err(e) && e@
                == frontend_message(nested_package_json_display@))
            &&& in_src_plugin && !root_package_json_exists && !nested_package_json_exists ==> r is Ok
        }),
{
    let in_src_plugin = match package_dir_name {
        Some(n) => str_eq(n, "src-plugin"),
        None => false,
    };
    if !in_src_plugin {
        let mut msg = owned("WRAC plugin package must live at <plugin-root>/src-plugin, but found ");
        push_str(&mut msg, package_dir_display);
        return Err(msg);
    }
    if root_package_json_exists {
        let mut msg = owned("WRAC plugin frontend package must live at <plugin-root>/src-gui/package.json, but found ");
        push_str(&mut msg, root_package_json_display);
        return Err(msg);
    }
    if nested_package_json_exists {
        let mut msg = owned("WRAC plugin frontend package must live at <plugin-root>/src-gui/package.json, but found ");
        push_str(&mut msg, nested_package_json_display);
        return Err(msg);
    }
    Ok(())
}

} // verus!
