//! The validator runs of `xtask validate`: the VST3 class-ID comparison,
//! the validator downloads, and the AAX validator's test list, result files
//! and verdict. The validators themselves run at the program edge.
use vstd::prelude::*;
use crate::metadata::PluginProductMetadata;
use crate::targets::Platform;
use crate::text::{
    decimal, has_prefix, has_suffix, join, owned, push_decimal, push_joined, push_str, replace_all, replaced,
    string_views,
};
use crate::tooling::{normalized_cid, vst3_cids};

verus! {

/// `{:?}` of a list of strings that need no escaping, such as class IDs.
pub open spec fn debug_list(items: Seq<Seq<char>>) -> Seq<char> {
    "["@ + join(items.map_values(|s: Seq<char>| "\""@ + s + "\""@), ", "@) + "]"@
}

fn quoted_all(items: &Vec<String>) -> (r: Vec<String>)
    ensures
        string_views(r@) == string_views(items@).map_values(|s: Seq<char>| "\""@ + s + "\""@),
{
    let mut out: Vec<String> = Vec::new();
    let mut i: usize = 0;
    while i < items.len()
        invariant
            i <= items@.len(),
            string_views(out@) == string_views(items@).take(i as int).map_values(|s: Seq<char>| "\""@ + s + "\""@),
        decreases items.len() - i,
    {
        let mut q = owned("\"");
        push_str(&mut q, items[i].as_str());
        push_str(&mut q, "\"");
        let ghost before = string_views(out@);
        out.push(q);
        assert(string_views(out@) =~= before.push(q@));
        assert(string_views(items@).take(i + 1).map_values(|s: Seq<char>| "\""@ + s + "\""@) =~= string_views(
            items@,
        ).take(i as int).map_values(|s: Seq<char>| "\""@ + s + "\""@).push("\""@ + items@[i as int]@ + "\""@));
        i += 1;
    }
    assert(string_views(items@).take(items@.len() as int) =~= string_views(items@));
    out
}

fn push_debug_list(s: &mut String, items: &Vec<String>)
    ensures
        final(s)@ == old(s)@ + debug_list(string_views(items@)),
{
    push_str(s, "[");
    let q = quoted_all(items);
    push_joined(s, &q, ", ");
    push_str(s, "]");
}

/// The class IDs the manifest expects, normalized, in product order.
pub open spec fn expected_cids(plugins: Seq<PluginProductMetadata>) -> Seq<Seq<char>> {
    plugins.map_values(|p: PluginProductMetadata| normalized_cid(p.vst3_component_id@))
}

/// Whether the class IDs the VST3 validator printed (on standard output,
/// then standard error) are exactly those of the manifest products, in order.
pub open spec fn vst3_ids_check(
    plugins: Seq<PluginProductMetadata>,
    bundle: Seq<char>,
    stdout: Seq<char>,
    stderr: Seq<char>,
) -> Result<(), Seq<char>> {
    let actual = vst3_cids(stdout) + vst3_cids(stderr);
    let expected = expected_cids(plugins);
    if actual == expected {
        Ok(())
    } else {
        Err("VST3 component ID mismatch for "@ + bundle + ": metadata="@ + debug_list(expected) + ", validator="@
            + debug_list(actual))
    }
}

fn strings_eq(a: &Vec<String>, b: &Vec<String>) -> (r: bool)
    ensures
        r == (string_views(a@) == string_views(b@)),
{
    if a.len() != b.len() {
        assert(string_views(a@).len() != string_views(b@).len());
        return false;
    }
    let mut i: usize = 0;
    while i < a.len()
        invariant
            a@.len() == b@.len(),
            i <= a@.len(),
            forall|j: int| 0 <= j < i ==> a@[j]@ == b@[j]@,
        decreases a.len() - i,
    {
        if !crate::text::str_eq(a[i].as_str(), b[i].as_str()) {
            assert(string_views(a@)[i as int] != string_views(b@)[i as int]);
            return false;
        }
        i += 1;
    }
    assert(string_views(a@) =~= string_views(b@));
    true
}

/// Checks the VST3 validator's class IDs against the manifest; `bundle` is
/// the bundle path as shown in the error.
pub fn validate_vst3_component_ids(
    plugins: &Vec<PluginProductMetadata>,
    bundle: &str,
    stdout: &str,
    stderr: &str,
) -> (r: Result<(), String>)
    ensures
        match vst3_ids_check(plugins@, bundle@, stdout@, stderr@) {
            Ok(()) => r is Ok,
            Err(e) => r matches Err(m) && m@ == e,
        },
{
    let mut actual = crate::tooling::parse_vst3_validator_cids(stdout);
    let mut more = crate::tooling::parse_vst3_validator_cids(stderr);
    let ghost a0 = string_views(actual@);
    let ghost m0 = string_views(more@);
    actual.append(&mut more);
    assert(string_views(actual@) =~= a0 + m0);
    let mut expected: Vec<String> = Vec::new();
    let mut i: usize = 0;
    while i < plugins.len()
        invariant
            i <= plugins@.len(),
            string_views(expected@) == expected_cids(plugins@.take(i as int)),
        decreases plugins.len() - i,
    {
        let c = crate::tooling::normalize_vst3_cid(plugins[i].vst3_component_id.as_str());
        let ghost before = string_views(expected@);
        expected.push(c);
        assert(string_views(expected@) =~= before.push(c@));
        assert(expected_cids(plugins@.take(i + 1)) =~= expected_cids(plugins@.take(i as int)).push(c@));
        i += 1;
    }
    assert(plugins@.take(plugins@.len() as int) =~= plugins@);
    if strings_eq(&actual, &expected) {
        Ok(())
    } else {
        let mut msg = owned("VST3 component ID mismatch for ");
        push_str(&mut msg, bundle);
        push_str(&mut msg, ": metadata=");
        push_debug_list(&mut msg, &expected);
        push_str(&mut msg, ", validator=");
        push_debug_list(&mut msg, &actual);
        Err(msg)
    }
}

pub open spec fn clap_validator_archive(p: Platform) -> Seq<char> {
    match p {
        Platform::Macos => "clap-validator-0.3.2-macos-universal.tar.gz"@,
        Platform::Windows => "clap-validator-0.3.2-windows.zip"@,
        Platform::Linux => "clap-validator-0.3.2-ubuntu-18.04.tar.gz"@,
    }
}

/// The clap-validator 0.3.2 release archive for a platform.
pub fn clap_validator_archive_name(platform: Platform) -> (r: &'static str)
    ensures
        r@ == clap_validator_archive(platform),
{
    match platform {
        Platform::Macos => "clap-validator-0.3.2-macos-universal.tar.gz",
        Platform::Windows => "clap-validator-0.3.2-windows.zip",
        Platform::Linux => "clap-validator-0.3.2-ubuntu-18.04.tar.gz",
    }
}

/// The path of the clap-validator executable inside its unpacked archive.
pub fn clap_validator_executable(platform: Platform) -> (r: Vec<&'static str>)
    ensures
        r@.map_values(|s: &'static str| s@) == match platform {
            Platform::Macos => seq!["binaries"@, "clap-validator"@],
            Platform::Windows => seq!["clap-validator.exe"@],
            Platform::Linux => seq!["clap-validator"@],
        },
{
    let r = match platform {
        Platform::Macos => vec!["binaries", "clap-validator"],
        Platform::Windows => vec!["clap-validator.exe"],
        Platform::Linux => vec!["clap-validator"],
    };
    assert(r@.map_values(|s: &'static str| s@) =~= match platform {
        Platform::Macos => seq!["binaries"@, "clap-validator"@],
        Platform::Windows => seq!["clap-validator.exe"@],
        Platform::Linux => seq!["clap-validator"@],
    });
    r
}

/// The AAX validator tests that must pass, in run order.
pub open spec fn aax_required_tests() -> Seq<Seq<char>> {
    seq![
        "info.productids"@,
        "info.support.audiosuite"@,
        "info.support.general"@,
        "info.support.s6_feature"@,
        "test.data_model"@,
        "test.describe_validation"@,
        "test.load_unload"@,
        "test.page_table.automation_list"@,
        "test.parameter_traversal.linear"@,
        "test.parameter_traversal.random"@,
        "test.parameter_traversal.random.fast"@,
        "test.parameters"@,
    ]
}

/// The AAX validator tests that must pass, in run order.
pub fn aax_validator_required_tests() -> (r: Vec<&'static str>)
    ensures
        r@.map_values(|s: &'static str| s@) == aax_required_tests(),
{
    let r = vec![
        "info.productids",
        "info.support.audiosuite",
        "info.support.general",
        "info.support.s6_feature",
        "test.data_model",
        "test.describe_validation",
        "test.load_unload",
        "test.page_table.automation_list",
        "test.parameter_traversal.linear",
        "test.parameter_traversal.random",
        "test.parameter_traversal.random.fast",
        "test.parameters",
    ];
    assert(r@.map_values(|s: &'static str| s@) =~= aax_required_tests());
    r
}

/// The AAX validator tests left out, with the reason.
pub fn aax_validator_skipped_tests() -> (r: Vec<(&'static str, &'static str)>)
    ensures
        r@.len() == 2,
        r@[0].0@ == "test.cycle_counts"@,
        r@[0].1@ == "targets DSP/HDX cycle-count validation, which is outside this native local build target"@,
        r@[1].0@ == "test.page_table.load"@,
        r@[1].1@ == "requires page-table XML resources, which this template does not generate"@,
{
    vec![
        (
            "test.cycle_counts",
            "targets DSP/HDX cycle-count validation, which is outside this native local build target",
        ),
        ("test.page_table.load", "requires page-table XML resources, which this template does not generate"),
    ]
}

/// `n` with at least two digits, as `{:02}` writes it.
pub open spec fn two_digits(n: nat) -> Seq<char> {
    if n < 10 {
        "0"@ + decimal(n)
    } else {
        decimal(n)
    }
}

/// `<01-based index, two digits>-<test id with '_' for '.'>`, the name of a
/// test's result directory and, with `.json`, of its result file.
pub open spec fn aax_result_stem(index: nat, test_id: Seq<char>) -> Seq<char> {
    two_digits(index + 1) + "-"@ + crate::commands::replace_char(test_id, '.', '_')
}

/// The name of a test's result directory.
pub fn aax_validator_result_stem(index: usize, test_id: &str) -> (r: String)
    requires
        index < usize::MAX,
    ensures
        r@ == aax_result_stem(index as nat, test_id@),
{
    let mut s = String::new();
    if index + 1 < 10 {
        push_str(&mut s, "0");
    }
    push_decimal(&mut s, index + 1);
    push_str(&mut s, "-");
    let t = crate::text::chars_of(test_id);
    let ghost start = s@;
    let mut i: usize = 0;
    while i < t.len()
        invariant
            i <= t@.len(),
            t@ == test_id@,
            s@ == start + crate::commands::replace_char(t@.take(i as int), '.', '_'),
        decreases t.len() - i,
    {
        let c = t[i];
        crate::text::push_char(&mut s, if c == '.' { '_' } else { c });
        assert(crate::commands::replace_char(t@.take(i + 1), '.', '_') =~= crate::commands::replace_char(
            t@.take(i as int),
            '.',
            '_',
        ).push(if c == '.' { '_' } else { c }));
        i += 1;
    }
    assert(t@.take(t@.len() as int) =~= t@);
    s
}

/// The name of a test's result file.
pub fn aax_validator_result_file_name(index: usize, test_id: &str) -> (r: String)
    requires
        index < usize::MAX,
    ensures
        r@ == aax_result_stem(index as nat, test_id@) + ".json"@,
{
    let mut s = aax_validator_result_stem(index, test_id);
    push_str(&mut s, ".json");
    s
}

/// Whether a result file name belongs to a test.
pub open spec fn is_dtt_result(name: Seq<char>, test_id: Seq<char>) -> bool {
    has_prefix(name, test_id + "__"@) && has_suffix(name, ".json"@)
}

/// Picks the result file DTT wrote for a test among the file names of its
/// result directory `dir`.
pub fn find_aax_validator_dtt_result(names: &Vec<String>, test_id: &str, dir: &str) -> (r: Result<usize, String>)
    ensures
        r matches Ok(k) ==> k < names@.len() && is_dtt_result(names@[k as int]@, test_id@) && forall|j: int|
            0 <= j < names@.len() && j != k ==> !is_dtt_result(#[trigger] names@[j]@, test_id@),
        r matches Err(e) ==> {
            ||| (forall|j: int| 0 <= j < names@.len() ==> !is_dtt_result(#[trigger] names@[j]@, test_id@))
                && e@ == "AAX validator/DTT did not write a JSON result for "@ + test_id@ + " under "@ + dir@
            ||| (exists|a: int, b: int|
                0 <= a < b < names@.len() && is_dtt_result(#[trigger] names@[a]@, test_id@) && is_dtt_result(
                    #[trigger] names@[b]@,
                    test_id@,
                )) && e@ == "AAX validator/DTT wrote multiple JSON results for "@ + test_id@ + " under "@ + dir@
        },
{
    let mut prefix = owned(test_id);
    push_str(&mut prefix, "__");
    let mut found: Option<usize> = None;
    let mut i: usize = 0;
    while i < names.len()
        invariant
            i <= names@.len(),
            prefix@ == test_id@ + "__"@,
            found matches Some(k) ==> k < i && is_dtt_result(names@[k as int]@, test_id@) && forall|j: int|
                0 <= j < i && j != k ==> !is_dtt_result(#[trigger] names@[j]@, test_id@),
            found is None ==> forall|j: int| 0 <= j < i ==> !is_dtt_result(#[trigger] names@[j]@, test_id@),
        decreases names.len() - i,
    {
        let chars = crate::text::chars_of(names[i].as_str());
        if crate::text::starts_with(&chars, prefix.as_str()) && crate::text::ends_with(&chars, ".json") {
            match found {
                Some(k) => {
                    let mut msg = owned("AAX validator/DTT wrote multiple JSON results for ");
                    push_str(&mut msg, test_id);
                    push_str(&mut msg, " under ");
                    push_str(&mut msg, dir);
                    assert(is_dtt_result(names@[k as int]@, test_id@) && is_dtt_result(names@[i as int]@, test_id@));
                    return Err(msg);
                },
                None => {
                    found = Some(i);
                },
            }
        }
        i += 1;
    }
    match found {
        Some(k) => Ok(k),
        None => {
            let mut msg = owned("AAX validator/DTT did not write a JSON result for ");
            push_str(&mut msg, test_id);
            push_str(&mut msg, " under ");
            push_str(&mut msg, dir);
            Err(msg)
        },
    }
}

/// The failures among the AAX validator results: `<test id> (<status>)` for
/// each test whose status is not `E_COMPLETED_PASS`, in order.
pub open spec fn aax_failures(tests: Seq<Seq<char>>, statuses: Seq<Seq<char>>) -> Seq<Seq<char>>
    decreases tests.len(),
{
    if tests.len() == 0 || statuses.len() < tests.len() {
        Seq::empty()
    } else {
        let k = tests.len() - 1;
        let rest = aax_failures(tests.drop_last(), statuses.take(k));
        if statuses[k] == "E_COMPLETED_PASS"@ {
            rest
        } else {
            rest.push(tests[k] + " ("@ + statuses[k] + ")"@)
        }
    }
}

/// The verdict on the AAX validator results: each required test's result
/// status, in order, must be `E_COMPLETED_PASS`.
pub fn assert_aax_validator_results(test_ids: &Vec<&str>, statuses: &Vec<String>) -> (r: Result<(), String>)
    requires
        test_ids@.len() == statuses@.len(),
    ensures
        ({
            let f = aax_failures(test_ids@.map_values(|s: &str| s@), string_views(statuses@));
            &&& f.len() == 0 ==> r is Ok
            &&& f.len() > 0 ==> (r matches Err(e) && e@ == "AAX validator reported failed validation results: "@
                + join(f, ", "@))
        }),
{
    let ghost ts = test_ids@.map_values(|s: &str| s@);
    let ghost ss = string_views(statuses@);
    let mut failed: Vec<String> = Vec::new();
    let mut i: usize = 0;
    while i < test_ids.len()
        invariant
            test_ids@.len() == statuses@.len(),
            ts == test_ids@.map_values(|s: &str| s@),
            ss == string_views(statuses@),
            i <= test_ids@.len(),
            string_views(failed@) == aax_failures(ts.take(i as int), ss.take(i as int)),
        decreases test_ids.len() - i,
    {
        assert(ts.take(i + 1).drop_last() =~= ts.take(i as int));
        assert(ss.take(i + 1).take(i as int) =~= ss.take(i as int));
        if !crate::text::str_eq(statuses[i].as_str(), "E_COMPLETED_PASS") {
            let mut f = owned(test_ids[i]);
            push_str(&mut f, " (");
            push_str(&mut f, statuses[i].as_str());
            push_str(&mut f, ")");
            let ghost before = string_views(failed@);
            failed.push(f);
            assert(string_views(failed@) =~= before.push(f@));
        }
        i += 1;
    }
    assert(ts.take(test_ids@.len() as int) =~= ts);
    assert(ss.take(test_ids@.len() as int) =~= ss);
    if failed.len() > 0 {
        let mut msg = owned("AAX validator reported failed validation results: ");
        push_joined(&mut msg, &failed, ", ");
        Err(msg)
    } else {
        Ok(())
    }
}


/// The `bundle_path` argument as the Windows AAX validator package quotes it.
pub open spec fn posix_bundle_path_arg() -> Seq<char> {
    "elem: \"\\'bundle_path=$AAXVAL_PARAM_AAXPLUGIN$\\'\""@
}

/// The `bundle_path` argument quoted the way `cmd.exe` passes on.
pub open spec fn windows_bundle_path_arg() -> Seq<char> {
    "elem: \"\\\"bundle_path=$AAXVAL_PARAM_AAXPLUGIN$\\\"\""@
}

/// The `uniq_id` argument as the Windows AAX validator package quotes it.
pub open spec fn posix_uniq_id_arg() -> Seq<char> {
    "elem: \"\\'uniq_id=$AAXVAL_PARAM_UNIQ_ID$\\'\""@
}

/// The `uniq_id` argument quoted the way `cmd.exe` passes on.
pub open spec fn windows_uniq_id_arg() -> Seq<char> {
    "elem: \"\\\"uniq_id=$AAXVAL_PARAM_UNIQ_ID$\\\"\""@
}

/// The AAX validator's `Main.valconfig` for Windows: the DTT process
/// arguments that the package wraps in POSIX single quotes, which `cmd.exe`
/// passes through literally, are written with escaped double quotes instead.
pub fn normalize_windows_aax_validator_main_config(content: &str) -> (r: String)
    ensures
        r@ == replaced(
            replaced(content@, posix_bundle_path_arg(), windows_bundle_path_arg()),
            posix_uniq_id_arg(),
            windows_uniq_id_arg(),
        ),
{
    proof {
        reveal_strlit("elem: \"\\'bundle_path=$AAXVAL_PARAM_AAXPLUGIN$\\'\"");
        reveal_strlit("elem: \"\\'uniq_id=$AAXVAL_PARAM_UNIQ_ID$\\'\"");
    }
    let first = replace_all(
        content,
        "elem: \"\\'bundle_path=$AAXVAL_PARAM_AAXPLUGIN$\\'\"",
        "elem: \"\\\"bundle_path=$AAXVAL_PARAM_AAXPLUGIN$\\\"\"",
    );
    replace_all(
        first.as_str(),
        "elem: \"\\'uniq_id=$AAXVAL_PARAM_UNIQ_ID$\\'\"",
        "elem: \"\\\"uniq_id=$AAXVAL_PARAM_UNIQ_ID$\\\"\"",
    )
}

} // verus!
