//! The task plans of the `cargo xtask` commands: which build tasks a set of
//! targets needs, how they depend on one another, and what install,
//! uninstall, validate, launch and clean add on top.
//!
//! Every task id is `<package>:<suffix>`, so plans of different packages
//! never share tasks, and every dependency points from an earlier task to a
//! later one, so a plan always has an execution order.
use vstd::prelude::*;
use crate::plan::{TaskKind, TaskPlan};
use crate::targets::{
    Platform, PluginTarget, Target, ValidateTarget, dedup, dedup_seq, lemma_dedup_properties, no_repeats,
    plugin_target_target, supports_au, supports_vst3, validate_target_target,
};
use crate::text::{owned, push_str};
use crate::workflow::{TaskGraph, TaskId, chosen_at, closed_set, has_cycle, lemma_complete_order_acyclic, range_seq, ready};
use crate::xtask::{InstallScope, UninstallScope};

verus! {

/// `<package>:<suffix>`
pub open spec fn task_id_text(package: Seq<char>, suffix: Seq<char>) -> Seq<char> {
    package + ":"@ + suffix
}

/// The id of a package's task.
pub fn task_id(package_name: &str, suffix: &str) -> (r: TaskId)
    ensures
        r@ == task_id_text(package_name@, suffix@),
{
    let mut s = owned(package_name);
    push_str(&mut s, ":");
    push_str(&mut s, suffix);
    TaskId::new(s)
}

/// Different suffixes give different ids.
pub proof fn lemma_task_id_injective(package: Seq<char>, a: Seq<char>, b: Seq<char>)
    ensures
        task_id_text(package, a) == task_id_text(package, b) ==> a == b,
{
    if task_id_text(package, a) == task_id_text(package, b) {
        let p = package + ":"@;
        assert(a =~= task_id_text(package, a).skip(p.len() as int));
        assert(b =~= task_id_text(package, b).skip(p.len() as int));
    }
}

/// The `Debug` name of an install target.
pub open spec fn plugin_target_name(t: PluginTarget) -> Seq<char> {
    match t {
        PluginTarget::Clap => "Clap"@,
        PluginTarget::Vst3 => "Vst3"@,
        PluginTarget::Au => "Au"@,
    }
}

/// The `Debug` name of an install target.
pub fn plugin_target_debug(t: PluginTarget) -> (r: &'static str)
    ensures
        r@ == plugin_target_name(t),
{
    match t {
        PluginTarget::Clap => "Clap",
        PluginTarget::Vst3 => "Vst3",
        PluginTarget::Au => "Au",
    }
}

/// The `Debug` name of a validation target.
pub open spec fn validate_target_name(t: ValidateTarget) -> Seq<char> {
    match t {
        ValidateTarget::Clap => "Clap"@,
        ValidateTarget::Vst3 => "Vst3"@,
        ValidateTarget::Au => "Au"@,
        ValidateTarget::Standalone => "Standalone"@,
    }
}

/// The `Debug` name of a validation target.
pub fn validate_target_debug(t: ValidateTarget) -> (r: &'static str)
    ensures
        r@ == validate_target_name(t),
{
    match t {
        ValidateTarget::Clap => "Clap",
        ValidateTarget::Vst3 => "Vst3",
        ValidateTarget::Au => "Au",
        ValidateTarget::Standalone => "Standalone",
    }
}

pub open spec fn sfx_clean() -> Seq<char> {
    "clean"@
}

pub open spec fn sfx_gui() -> Seq<char> {
    "build-gui"@
}

pub open spec fn sfx_rust_default() -> Seq<char> {
    "build-rust-default"@
}

pub open spec fn sfx_rust_standalone() -> Seq<char> {
    "build-rust-standalone"@
}

pub open spec fn sfx_clap() -> Seq<char> {
    "package-clap"@
}

pub open spec fn sfx_configure_plugins() -> Seq<char> {
    "configure-wrapper-plugins"@
}

pub open spec fn sfx_vst3() -> Seq<char> {
    "build-vst3"@
}

pub open spec fn sfx_au() -> Seq<char> {
    "build-au"@
}

pub open spec fn sfx_configure_standalone() -> Seq<char> {
    "configure-wrapper-standalone"@
}

pub open spec fn sfx_standalone() -> Seq<char> {
    "build-standalone"@
}

pub open spec fn sfx_check(t: PluginTarget) -> Seq<char> {
    "check-install-scope-"@ + plugin_target_name(t)
}

proof fn lemma_suffix_lengths()
    ensures
        sfx_clean().len() == 5,
        sfx_gui().len() == 9,
        sfx_rust_default().len() == 18,
        sfx_rust_standalone().len() == 21,
        sfx_clap().len() == 12,
        sfx_configure_plugins().len() == 25,
        sfx_vst3().len() == 10,
        sfx_au().len() == 8,
        sfx_configure_standalone().len() == 28,
        sfx_standalone().len() == 16,
        forall|t: PluginTarget| (#[trigger] sfx_check(t)).len() == 22 || sfx_check(t).len() == 24,
        forall|a: PluginTarget, b: PluginTarget| sfx_check(a) == sfx_check(b) ==> a == b,
{
    reveal_strlit("clean");
    reveal_strlit("build-gui");
    reveal_strlit("build-rust-default");
    reveal_strlit("build-rust-standalone");
    reveal_strlit("package-clap");
    reveal_strlit("configure-wrapper-plugins");
    reveal_strlit("build-vst3");
    reveal_strlit("build-au");
    reveal_strlit("configure-wrapper-standalone");
    reveal_strlit("build-standalone");
    reveal_strlit("check-install-scope-");
    reveal_strlit("Clap");
    reveal_strlit("Vst3");
    reveal_strlit("Au");
    assert forall|a: PluginTarget, b: PluginTarget| sfx_check(a) == sfx_check(b) implies a == b by {
        let p = "check-install-scope-"@;
        assert(plugin_target_name(a) =~= sfx_check(a).skip(p.len() as int));
        assert(plugin_target_name(b) =~= sfx_check(b).skip(p.len() as int));
        if a != b {
            if plugin_target_name(a).len() == plugin_target_name(b).len() {
                assert(plugin_target_name(a)[0] != plugin_target_name(b)[0]);
            }
        }
    }
}

/// A task of a plan before its package prefix: suffix and kind.
pub open spec fn opt_task(present: bool, suffix: Seq<char>, kind: TaskKind) -> Seq<(Seq<char>, TaskKind)> {
    if present {
        seq![(suffix, kind)]
    } else {
        Seq::empty()
    }
}

/// Some target of the plan needs the default Rust library.
pub open spec fn needs_default(ts: Seq<Target>) -> bool {
    ts.contains(Target::Clap) || ts.contains(Target::Vst3) || ts.contains(Target::Au)
}

/// The install-scope checks of a plan, once per target.
pub open spec fn check_targets(checks: Option<(Seq<PluginTarget>, InstallScope)>) -> Seq<PluginTarget> {
    match checks {
        Some((ts, _)) => dedup_seq(ts),
        None => Seq::empty(),
    }
}

pub open spec fn check_tasks(checks: Option<(Seq<PluginTarget>, InstallScope)>) -> Seq<(Seq<char>, TaskKind)> {
    match checks {
        Some((ts, scope)) => dedup_seq(ts).map_values(
            |t: PluginTarget| (sfx_check(t), TaskKind::CheckInstallScope { target: t, scope }),
        ),
        None => Seq::empty(),
    }
}

/// The tasks of the build plan for `targets`, in the order they are added:
/// an optional clean, the install-scope checks, the GUI and the Rust
/// libraries the targets need, then each target's packaging or wrapper steps.
pub open spec fn artifact_tasks(
    targets: Seq<Target>,
    clean: bool,
    plugin_id: Option<String>,
    checks: Option<(Seq<PluginTarget>, InstallScope)>,
    p: Platform,
) -> Seq<(Seq<char>, TaskKind)> {
    let nd = needs_default(targets);
    let ns = targets.contains(Target::Standalone);
    opt_task(clean, sfx_clean(), TaskKind::Clean) + check_tasks(checks) + rust_tasks(nd, ns) + clap_tasks(
        targets.contains(Target::Clap),
    ) + plugin_wrapper_tasks(targets.contains(Target::Vst3), targets.contains(Target::Au), p) + standalone_tasks(
        ns,
        plugin_id,
    )
}

/// The position of the first task with this suffix.
pub open spec fn task_pos(tasks: Seq<(Seq<char>, TaskKind)>, s: Seq<char>) -> int
    decreases tasks.len(),
{
    if tasks.len() == 0 {
        -1
    } else if task_pos(tasks.drop_last(), s) >= 0 {
        task_pos(tasks.drop_last(), s)
    } else if tasks.last().0 == s {
        tasks.len() - 1
    } else {
        -1
    }
}

/// Whether the plan checks the install scope of the target built as `t`.
pub open spec fn has_check(checks: Option<(Seq<PluginTarget>, InstallScope)>, t: PluginTarget) -> bool {
    check_targets(checks).contains(t)
}

/// The dependencies of the build plan, in the order they are added: the GUI
/// after a clean, each Rust library after the GUI, the CLAP package and the
/// wrapper configures after their library and their install-scope checks,
/// and each wrapper build after its configure.
pub open spec fn artifact_edges(
    targets: Seq<Target>,
    clean: bool,
    plugin_id: Option<String>,
    checks: Option<(Seq<PluginTarget>, InstallScope)>,
    p: Platform,
) -> Seq<(usize, usize)> {
    let t = artifact_tasks(targets, clean, plugin_id, checks, p);
    let nd = needs_default(targets);
    let ns = targets.contains(Target::Standalone);
    let v = targets.contains(Target::Vst3);
    let a = targets.contains(Target::Au);
    rust_edges(clean, nd, ns, task_pos(t, sfx_clean()), task_pos(t, sfx_gui()), task_pos(t, sfx_rust_default()), task_pos(t, sfx_rust_standalone()))
        + clap_edges(
        targets.contains(Target::Clap),
        task_pos(t, sfx_rust_default()),
        has_check(checks, PluginTarget::Clap),
        task_pos(t, sfx_check(PluginTarget::Clap)),
        task_pos(t, sfx_clap()),
    ) + plugin_edges(
        v,
        a,
        task_pos(t, sfx_rust_default()),
        has_check(checks, PluginTarget::Vst3),
        task_pos(t, sfx_check(PluginTarget::Vst3)),
        has_check(checks, PluginTarget::Au),
        task_pos(t, sfx_check(PluginTarget::Au)),
        task_pos(t, sfx_configure_plugins()),
        task_pos(t, sfx_vst3()),
        task_pos(t, sfx_au()),
    ) + standalone_edges(ns, task_pos(t, sfx_rust_standalone()), task_pos(t, sfx_configure_standalone()), task_pos(t, sfx_standalone()))
}

/// The edges of the GUI and Rust steps.
pub open spec fn rust_edges(clean: bool, nd: bool, ns: bool, c: int, gui: int, rd: int, rs: int) -> Seq<(usize, usize)> {
    node_edge(clean && (nd || ns), c, gui) + node_edge(nd, gui, rd) + node_edge(ns, gui, rs)
}

/// The edges of the CLAP packaging step.
pub open spec fn clap_edges(c: bool, rd: int, checked: bool, check: int, clap: int) -> Seq<(usize, usize)> {
    node_edge(c, rd, clap) + node_edge(c && checked, check, clap)
}

/// The edges of the VST3 and AU wrapper steps.
pub open spec fn plugin_edges(
    v: bool,
    a: bool,
    rd: int,
    checked_vst3: bool,
    check_vst3: int,
    checked_au: bool,
    check_au: int,
    conf: int,
    vst3: int,
    au: int,
) -> Seq<(usize, usize)> {
    node_edge(v || a, rd, conf) + node_edge((v || a) && checked_vst3, check_vst3, conf) + node_edge(
        (v || a) && checked_au,
        check_au,
        conf,
    ) + node_edge(v, conf, vst3) + node_edge(a, conf, au)
}

/// The edges of the standalone wrapper steps.
pub open spec fn standalone_edges(ns: bool, rs: int, conf: int, sa: int) -> Seq<(usize, usize)> {
    node_edge(ns, rs, conf) + node_edge(ns, conf, sa)
}

/// The build tasks of a plan by target.
#[derive(Debug, Clone, Copy)]
pub struct BuildNodes {
    pub clap: Option<usize>,
    pub vst3: Option<usize>,
    pub au: Option<usize>,
    pub standalone: Option<usize>,
}

impl BuildNodes {
    /// The task that builds `target`, when the plan builds it.
    pub open spec fn get_spec(&self, target: Target) -> Option<usize> {
        match target {
            Target::Clap => self.clap,
            Target::Vst3 => self.vst3,
            Target::Au => self.au,
            Target::Standalone => self.standalone,
        }
    }

    /// The task that builds `target`, when the plan builds it.
    pub fn get(&self, target: Target) -> (r: Option<usize>)
        ensures
            r == self.get_spec(target),
    {
        match target {
            Target::Clap => self.clap,
            Target::Vst3 => self.vst3,
            Target::Au => self.au,
            Target::Standalone => self.standalone,
        }
    }
}

/// A build plan and the task that builds each target.
pub struct ArtifactPlan {
    pub graph: TaskPlan,
    pub build_by_target: BuildNodes,
}

/// The ids of a list of tasks of a package.
pub open spec fn task_ids(package: Seq<char>, tasks: Seq<(Seq<char>, TaskKind)>) -> Seq<Seq<char>> {
    tasks.map_values(|t: (Seq<char>, TaskKind)| task_id_text(package, t.0))
}

/// The kinds of a list of tasks.
pub open spec fn task_kinds(tasks: Seq<(Seq<char>, TaskKind)>) -> Seq<TaskKind> {
    tasks.map_values(|t: (Seq<char>, TaskKind)| t.1)
}

/// The graph holds exactly these tasks of the package and these edges.
pub open spec fn holds(g: TaskPlan, package: Seq<char>, tasks: Seq<(Seq<char>, TaskKind)>, edges: Seq<(usize, usize)>) -> bool {
    &&& g.wf()
    &&& g.ids() == task_ids(package, tasks)
    &&& g.kinds() == task_kinds(tasks)
    &&& g.edges() == edges
}

proof fn lemma_pos_of_unique(tasks: Seq<(Seq<char>, TaskKind)>, s: Seq<char>, i: int)
    requires
        0 <= i < tasks.len(),
        tasks[i].0 == s,
        forall|j: int| 0 <= j < tasks.len() && j != i ==> tasks[j].0 != s,
    ensures
        task_pos(tasks, s) == i,
    decreases tasks.len(),
{
    if i < tasks.len() - 1 {
        lemma_pos_of_unique(tasks.drop_last(), s, i);
    } else {
        lemma_pos_absent(tasks.drop_last(), s);
    }
}

proof fn lemma_pos_absent(tasks: Seq<(Seq<char>, TaskKind)>, s: Seq<char>)
    requires
        forall|j: int| 0 <= j < tasks.len() ==> tasks[j].0 != s,
    ensures
        task_pos(tasks, s) == -1,
    decreases tasks.len(),
{
    if tasks.len() > 0 {
        lemma_pos_absent(tasks.drop_last(), s);
    }
}

proof fn lemma_pos_prefix(tasks: Seq<(Seq<char>, TaskKind)>, more: Seq<(Seq<char>, TaskKind)>, s: Seq<char>)
    requires
        task_pos(tasks, s) >= 0,
    ensures
        task_pos(tasks + more, s) == task_pos(tasks, s),
    decreases more.len(),
{
    if more.len() > 0 {
        lemma_pos_prefix(tasks, more.drop_last(), s);
        assert((tasks + more).drop_last() =~= tasks + more.drop_last());
    } else {
        assert(tasks + more =~= tasks);
    }
}

/// A list of install targets without repeats has at most three.
proof fn lemma_three_targets(s: Seq<PluginTarget>)
    requires
        no_repeats(s),
    ensures
        s.len() <= 3,
{
    if s.len() > 3 {
        assert(s[0] != s[1] && s[0] != s[2] && s[0] != s[3] && s[1] != s[2] && s[1] != s[3] && s[2] != s[3]);
    }
}

/// Adds a task whose id is new and returns its node.
fn add_task(
    graph: &mut TaskPlan,
    package_name: &str,
    suffix: &str,
    kind: TaskKind,
    Ghost(tasks): Ghost<Seq<(Seq<char>, TaskKind)>>,
    Ghost(edges): Ghost<Seq<(usize, usize)>>,
) -> (node: usize)
    requires
        holds(*old(graph), package_name@, tasks, edges),
        forall|j: int| 0 <= j < tasks.len() ==> tasks[j].0 != suffix@,
        tasks.len() < 64,
    ensures
        holds(*final(graph), package_name@, tasks.push((suffix@, kind)), edges),
        node == tasks.len(),
        task_pos(tasks.push((suffix@, kind)), suffix@) == node,
        forall|x: Seq<char>| task_pos(tasks, x) >= 0 ==> #[trigger] task_pos(tasks.push((suffix@, kind)), x) == task_pos(tasks, x),
{
    let id = task_id(package_name, suffix);
    proof {
        if old(graph).ids().contains(id@) {
            let j = choose|j: int| 0 <= j < old(graph).ids().len() && old(graph).ids()[j] == id@;
            lemma_task_id_injective(package_name@, tasks[j].0, suffix@);
        }
    }
    let ghost k = kind;
    let node = graph.task(id, kind);
    proof {
        assert(graph.ids() =~= task_ids(package_name@, tasks.push((suffix@, k))));
        assert(graph.kinds() =~= task_kinds(tasks.push((suffix@, k))));
        lemma_pos_of_unique(tasks.push((suffix@, k)), suffix@, tasks.len() as int);
        assert forall|x: Seq<char>| task_pos(tasks, x) >= 0 implies #[trigger] task_pos(tasks.push((suffix@, k)), x) == task_pos(tasks, x) by {
            assert(tasks.push((suffix@, k)).drop_last() =~= tasks);
        }
    }
    node
}

fn add_edge(
    graph: &mut TaskPlan,
    task: usize,
    dependency: usize,
    Ghost(package): Ghost<Seq<char>>,
    Ghost(tasks): Ghost<Seq<(Seq<char>, TaskKind)>>,
    Ghost(edges): Ghost<Seq<(usize, usize)>>,
)
    requires
        holds(*old(graph), package, tasks, edges),
        task < tasks.len(),
        dependency < tasks.len(),
        edges.len() < 64,
    ensures
        holds(*final(graph), package, tasks, edges.push((dependency, task))),
{
    graph.depends_on(task, dependency);
}

/// Every task suffix has one of the given lengths.
pub open spec fn lens_ok(tasks: Seq<(Seq<char>, TaskKind)>, allowed: Seq<nat>) -> bool {
    forall|j: int| 0 <= j < tasks.len() ==> allowed.contains(#[trigger] tasks[j].0.len())
}

/// Every edge runs from an earlier task to a later one that exists.
pub open spec fn forward(edges: Seq<(usize, usize)>, n: nat) -> bool {
    forall|k: int| 0 <= k < edges.len() ==> (#[trigger] edges[k]).0 < edges[k].1 && edges[k].1 < n
}

/// Positions that exist stay where they are when tasks are added.
pub open spec fn keeps_positions(before: Seq<(Seq<char>, TaskKind)>, after: Seq<(Seq<char>, TaskKind)>) -> bool {
    forall|x: Seq<char>| task_pos(before, x) >= 0 ==> #[trigger] task_pos(after, x) == task_pos(before, x)
}

/// The install-scope check nodes of a plan.
pub struct CheckNodes {
    pub clap: Option<usize>,
    pub vst3: Option<usize>,
    pub au: Option<usize>,
}

pub open spec fn check_node_ok(
    n: Option<usize>,
    tasks: Seq<(Seq<char>, TaskKind)>,
    checks: Option<(Seq<PluginTarget>, InstallScope)>,
    t: PluginTarget,
) -> bool {
    match n {
        Some(k) => has_check(checks, t) && task_pos(tasks, sfx_check(t)) == k && k < tasks.len(),
        None => !has_check(checks, t),
    }
}

/// The install-scope checks as plain values.
pub open spec fn checks_view(install_checks: Option<(&[PluginTarget], InstallScope)>) -> Option<(Seq<PluginTarget>, InstallScope)> {
    match install_checks {
        Some((ts, scope)) => Some((ts@, scope)),
        None => None,
    }
}

fn add_checks(
    graph: &mut TaskPlan,
    package_name: &str,
    install_checks: Option<(&[PluginTarget], InstallScope)>,
    Ghost(tasks): Ghost<Seq<(Seq<char>, TaskKind)>>,
) -> (r: CheckNodes)
    requires
        holds(*old(graph), package_name@, tasks, Seq::empty()),
        tasks.len() <= 1,
        lens_ok(tasks, seq![5nat]),
    ensures
        ({
            let checks = checks_view(install_checks);
            let after = tasks + check_tasks(checks);
            &&& holds(*final(graph), package_name@, after, Seq::empty())
            &&& after.len() <= 4
            &&& lens_ok(after, seq![5nat, 22nat, 24nat])
            &&& keeps_positions(tasks, after)
            &&& check_node_ok(r.clap, after, checks, PluginTarget::Clap)
            &&& check_node_ok(r.vst3, after, checks, PluginTarget::Vst3)
            &&& check_node_ok(r.au, after, checks, PluginTarget::Au)
        }),
{
    proof {
        lemma_suffix_lengths();
    }
    let ghost checks = checks_view(install_checks);
    let ghost pkg = package_name@;
    let ghost before_checks = tasks;
    let ghost mut tasks = tasks;
    let mut check_clap: Option<usize> = None;
    let mut check_vst3: Option<usize> = None;
    let mut check_au: Option<usize> = None;
    match install_checks {
        Some((ts, scope)) => {
            let mut v: Vec<PluginTarget> = Vec::new();
            let mut i: usize = 0;
            while i < ts.len()
                invariant
                    i <= ts@.len(),
                    v@ == ts@.take(i as int),
                decreases ts.len() - i,
            {
                v.push(ts[i]);
                assert(ts@.take(i + 1) =~= ts@.take(i as int).push(ts@[i as int]));
                i += 1;
            }
            assert(ts@.take(ts@.len() as int) =~= ts@);
            let unique = dedup(v);
            proof {
                lemma_dedup_properties(ts@);
                lemma_three_targets(unique@);
            }
            let mut j: usize = 0;
            while j < unique.len()
                invariant
                    checks == Some((ts@, scope)),
                    unique@ == dedup_seq(ts@),
                    no_repeats(unique@),
                    j <= unique@.len(),
                    unique@.len() <= 3,
                    tasks == before_checks + unique@.take(j as int).map_values(
                        |t: PluginTarget| (sfx_check(t), TaskKind::CheckInstallScope { target: t, scope }),
                    ),
                    before_checks.len() <= 1,
                    lens_ok(before_checks, seq![5nat]),
                    holds(*graph, pkg, tasks, Seq::empty()),
                    pkg == package_name@,
                    keeps_positions(before_checks, tasks),
                    check_clap matches Some(n) ==> unique@.take(j as int).contains(PluginTarget::Clap) && n
                        == task_pos(tasks, sfx_check(PluginTarget::Clap)) && n < tasks.len(),
                    check_clap is None ==> !unique@.take(j as int).contains(PluginTarget::Clap),
                    check_vst3 matches Some(n) ==> unique@.take(j as int).contains(PluginTarget::Vst3) && n
                        == task_pos(tasks, sfx_check(PluginTarget::Vst3)) && n < tasks.len(),
                    check_vst3 is None ==> !unique@.take(j as int).contains(PluginTarget::Vst3),
                    check_au matches Some(n) ==> unique@.take(j as int).contains(PluginTarget::Au) && n
                        == task_pos(tasks, sfx_check(PluginTarget::Au)) && n < tasks.len(),
                    check_au is None ==> !unique@.take(j as int).contains(PluginTarget::Au),
                    forall|t: PluginTarget| (#[trigger] sfx_check(t)).len() == 22 || sfx_check(t).len() == 24,
                    forall|a: PluginTarget, b: PluginTarget| sfx_check(a) == sfx_check(b) ==> a == b,
                decreases unique.len() - j,
            {
                let t = unique[j];
                let mut suffix = owned("check-install-scope-");
                push_str(&mut suffix, plugin_target_debug(t));
                let ghost old_tasks = tasks;
                let ghost elem = (sfx_check(t), TaskKind::CheckInstallScope { target: t, scope });
                proof {
                    assert forall|k: int| 0 <= k < old_tasks.len() implies old_tasks[k].0 != suffix@ by {
                        if k >= before_checks.len() {
                            let m = k - before_checks.len();
                            assert(old_tasks[k].0 == sfx_check(unique@[m]));
                            assert(unique@[m] != t);
                        } else {
                            assert(seq![5nat].contains(before_checks[k].0.len()));
                        }
                    }
                }
                let n = add_task(
                    graph,
                    package_name,
                    suffix.as_str(),
                    TaskKind::CheckInstallScope { target: t, scope },
                    Ghost(tasks),
                    Ghost(Seq::empty()),
                );
                proof {
                    tasks = tasks.push(elem);
                    assert(unique@.take(j + 1) =~= unique@.take(j as int).push(t));
                    assert(tasks =~= before_checks + unique@.take(j + 1).map_values(
                        |t: PluginTarget| (sfx_check(t), TaskKind::CheckInstallScope { target: t, scope }),
                    ));
                }
                match t {
                    PluginTarget::Clap => {
                        check_clap = Some(n);
                    },
                    PluginTarget::Vst3 => {
                        check_vst3 = Some(n);
                    },
                    PluginTarget::Au => {
                        check_au = Some(n);
                    },
                }
                j += 1;
            }
            assert(unique@.take(unique@.len() as int) =~= unique@);
        },
        None => {},
    }
    proof {
        assert(tasks =~= before_checks + check_tasks(checks));
        lemma_three_targets(check_targets(checks));
        assert forall|j: int| 0 <= j < tasks.len() implies seq![5nat, 22nat, 24nat].contains(#[trigger] tasks[j].0.len()) by {
            if j < before_checks.len() {
                assert(seq![5nat].contains(before_checks[j].0.len()));
            } else {
                assert(tasks[j].0 == sfx_check(check_targets(checks)[j - before_checks.len()]));
            }
        }
    }
    CheckNodes { clap: check_clap, vst3: check_vst3, au: check_au }
}

/// The GUI and Rust library steps of a build plan.
pub open spec fn rust_tasks(nd: bool, ns: bool) -> Seq<(Seq<char>, TaskKind)> {
    opt_task(nd || ns, sfx_gui(), TaskKind::BuildGui) + opt_task(nd, sfx_rust_default(), TaskKind::BuildRustDefault)
        + opt_task(ns, sfx_rust_standalone(), TaskKind::BuildRustStandalone)
}

fn add_rust_steps(
    graph: &mut TaskPlan,
    package_name: &str,
    nd: bool,
    ns: bool,
    clean: Option<usize>,
    Ghost(tasks): Ghost<Seq<(Seq<char>, TaskKind)>>,
) -> (r: (usize, usize))
    requires
        holds(*old(graph), package_name@, tasks, Seq::empty()),
        tasks.len() <= 4,
        lens_ok(tasks, seq![5nat, 22nat, 24nat]),
        clean matches Some(c) ==> c < tasks.len(),
    ensures
        ({
            let after = tasks + rust_tasks(nd, ns);
            let e = rust_edges(
                clean is Some,
                nd,
                ns,
                match clean {
                    Some(c) => c as int,
                    None => -1,
                },
                task_pos(after, sfx_gui()),
                task_pos(after, sfx_rust_default()),
                task_pos(after, sfx_rust_standalone()),
            );
            &&& holds(*final(graph), package_name@, after, e)
            &&& after.len() <= 7
            &&& lens_ok(after, seq![5nat, 22nat, 24nat, 9nat, 18nat, 21nat])
            &&& keeps_positions(tasks, after)
            &&& forward(e, after.len())
            &&& nd ==> r.0 == task_pos(after, sfx_rust_default()) && r.0 < after.len()
            &&& ns ==> r.1 == task_pos(after, sfx_rust_standalone()) && r.1 < after.len()
            &&& (nd || ns) ==> task_pos(after, sfx_gui()) >= 0
        }),
{
    proof {
        lemma_suffix_lengths();
    }
    let ghost pkg = package_name@;
    let ghost start = tasks;
    let ghost mut tasks = tasks;
    let ghost mut edges: Seq<(usize, usize)> = Seq::empty();
    let mut gui: usize = 0;
    if nd || ns {
        assert(forall|j: int| 0 <= j < tasks.len() ==> tasks[j].0 != sfx_gui()) by {
            assert forall|j: int| 0 <= j < tasks.len() implies tasks[j].0 != sfx_gui() by {
                assert(seq![5nat, 22nat, 24nat].contains(tasks[j].0.len()));
            }
        }
        gui = add_task(graph, package_name, "build-gui", TaskKind::BuildGui, Ghost(tasks), Ghost(edges));
        proof {
            tasks = tasks.push((sfx_gui(), TaskKind::BuildGui));
        }
        match clean {
            Some(c) => {
                add_edge(graph, gui, c, Ghost(pkg), Ghost(tasks), Ghost(edges));
                proof {
                    edges = edges.push((c, gui));
                }
            },
            None => {},
        }
    }
    let ghost t1 = tasks;
    let mut rd: usize = 0;
    if nd {
        assert forall|j: int| 0 <= j < tasks.len() implies tasks[j].0 != sfx_rust_default() by {
            if j < start.len() {
                assert(seq![5nat, 22nat, 24nat].contains(start[j].0.len()));
            }
        }
        rd = add_task(graph, package_name, "build-rust-default", TaskKind::BuildRustDefault, Ghost(tasks), Ghost(edges));
        proof {
            tasks = tasks.push((sfx_rust_default(), TaskKind::BuildRustDefault));
        }
        add_edge(graph, rd, gui, Ghost(pkg), Ghost(tasks), Ghost(edges));
        proof {
            edges = edges.push((gui, rd));
        }
    }
    let mut rs: usize = 0;
    if ns {
        assert forall|j: int| 0 <= j < tasks.len() implies tasks[j].0 != sfx_rust_standalone() by {
            if j < start.len() {
                assert(seq![5nat, 22nat, 24nat].contains(start[j].0.len()));
            }
        }
        rs = add_task(
            graph,
            package_name,
            "build-rust-standalone",
            TaskKind::BuildRustStandalone,
            Ghost(tasks),
            Ghost(edges),
        );
        proof {
            tasks = tasks.push((sfx_rust_standalone(), TaskKind::BuildRustStandalone));
        }
        add_edge(graph, rs, gui, Ghost(pkg), Ghost(tasks), Ghost(edges));
        proof {
            edges = edges.push((gui, rs));
        }
    }
    proof {
        assert(tasks =~= start + rust_tasks(nd, ns));
        let after = tasks;
        if nd || ns {
            assert(task_pos(after, sfx_gui()) == gui);
        }
        assert(edges =~= rust_edges(
            clean is Some,
            nd,
            ns,
            match clean {
                Some(c) => c as int,
                None => -1,
            },
            task_pos(after, sfx_gui()),
            task_pos(after, sfx_rust_default()),
            task_pos(after, sfx_rust_standalone()),
        ));
        assert forall|j: int| 0 <= j < tasks.len() implies seq![5nat, 22nat, 24nat, 9nat, 18nat, 21nat].contains(
            #[trigger] tasks[j].0.len(),
        ) by {
            if j < start.len() {
                assert(seq![5nat, 22nat, 24nat].contains(start[j].0.len()));
            }
        }
    }
    (rd, rs)
}

/// The CLAP packaging step of a build plan.
pub open spec fn clap_tasks(c: bool) -> Seq<(Seq<char>, TaskKind)> {
    opt_task(c, sfx_clap(), TaskKind::PackageClap)
}

/// The wrapper configure and wrapper build steps for VST3 and AU.
pub open spec fn plugin_wrapper_tasks(v: bool, a: bool, p: Platform) -> Seq<(Seq<char>, TaskKind)> {
    opt_task(
        v || a,
        sfx_configure_plugins(),
        TaskKind::ConfigureWrapperPlugins { vst3: v || supports_vst3(p), au: a || supports_au(p) },
    ) + opt_task(v, sfx_vst3(), TaskKind::BuildVst3Bundle) + opt_task(a, sfx_au(), TaskKind::BuildAuBundle)
}

/// The standalone wrapper steps.
pub open spec fn standalone_tasks(ns: bool, plugin_id: Option<String>) -> Seq<(Seq<char>, TaskKind)> {
    opt_task(ns, sfx_configure_standalone(), TaskKind::ConfigureWrapperStandalone) + opt_task(
        ns,
        sfx_standalone(),
        TaskKind::BuildStandaloneBundle { plugin_id },
    )
}

pub open spec fn node_edge(present: bool, dep: int, task: int) -> Seq<(usize, usize)> {
    if present {
        seq![(dep as usize, task as usize)]
    } else {
        Seq::empty()
    }
}

fn add_clap_step(
    graph: &mut TaskPlan,
    package_name: &str,
    c: bool,
    rust_default: usize,
    check: Option<usize>,
    Ghost(tasks): Ghost<Seq<(Seq<char>, TaskKind)>>,
    Ghost(edges): Ghost<Seq<(usize, usize)>>,
) -> (r: Option<usize>)
    requires
        holds(*old(graph), package_name@, tasks, edges),
        tasks.len() <= 7,
        edges.len() <= 3,
        lens_ok(tasks, seq![5nat, 22nat, 24nat, 9nat, 18nat, 21nat]),
        forward(edges, tasks.len()),
        c ==> rust_default < tasks.len(),
        check matches Some(k) ==> k < tasks.len(),
    ensures
        ({
            let after = tasks + clap_tasks(c);
            let p = task_pos(after, sfx_clap());
            let e = edges + clap_edges(
                c,
                rust_default as int,
                check is Some,
                match check {
                    Some(k) => k as int,
                    None => -1,
                },
                p,
            );
            &&& holds(*final(graph), package_name@, after, e)
            &&& after.len() <= 8
            &&& e.len() <= 5
            &&& lens_ok(after, seq![5nat, 22nat, 24nat, 9nat, 18nat, 21nat, 12nat])
            &&& keeps_positions(tasks, after)
            &&& forward(e, after.len())
            &&& r == if c { Some(p as usize) } else { None::<usize> }
            &&& c ==> p >= 0
        }),
{
    proof {
        lemma_suffix_lengths();
    }
    let ghost pkg = package_name@;
    let ghost start = tasks;
    let ghost start_edges = edges;
    let ghost mut tasks = tasks;
    let ghost mut edges = edges;
    if !c {
        assert(tasks + clap_tasks(c) =~= tasks);
        assert(edges + clap_edges(
            c,
            rust_default as int,
            check is Some,
            match check {
                Some(k) => k as int,
                None => -1,
            },
            task_pos(tasks + clap_tasks(c), sfx_clap()),
        ) =~= edges);
        proof {
            assert forall|j: int| 0 <= j < tasks.len() implies seq![5nat, 22nat, 24nat, 9nat, 18nat, 21nat, 12nat].contains(
                #[trigger] tasks[j].0.len(),
            ) by {
                assert(seq![5nat, 22nat, 24nat, 9nat, 18nat, 21nat].contains(tasks[j].0.len()));
            }
        }
        return None;
    }
    assert forall|j: int| 0 <= j < tasks.len() implies tasks[j].0 != sfx_clap() by {
        assert(seq![5nat, 22nat, 24nat, 9nat, 18nat, 21nat].contains(tasks[j].0.len()));
    }
    let n = add_task(graph, package_name, "package-clap", TaskKind::PackageClap, Ghost(tasks), Ghost(edges));
    proof {
        tasks = tasks.push((sfx_clap(), TaskKind::PackageClap));
    }
    add_edge(graph, n, rust_default, Ghost(pkg), Ghost(tasks), Ghost(edges));
    proof {
        edges = edges.push((rust_default, n));
    }
    match check {
        Some(k) => {
            add_edge(graph, n, k, Ghost(pkg), Ghost(tasks), Ghost(edges));
            proof {
                edges = edges.push((k, n));
            }
        },
        None => {},
    }
    proof {
        assert(tasks =~= start + clap_tasks(c));
        let p = task_pos(tasks, sfx_clap());
        assert(edges =~= start_edges + clap_edges(
            c,
            rust_default as int,
            check is Some,
            match check {
                Some(k) => k as int,
                None => -1,
            },
            p,
        ));
        assert forall|j: int| 0 <= j < tasks.len() implies seq![5nat, 22nat, 24nat, 9nat, 18nat, 21nat, 12nat].contains(
            #[trigger] tasks[j].0.len(),
        ) by {
            if j < start.len() {
                assert(seq![5nat, 22nat, 24nat, 9nat, 18nat, 21nat].contains(start[j].0.len()));
            }
        }
    }
    Some(n)
}

#[verifier::rlimit(50)]
#[verifier::spinoff_prover]
fn add_plugin_wrapper_steps(
    graph: &mut TaskPlan,
    package_name: &str,
    v: bool,
    a: bool,
    platform: Platform,
    rust_default: usize,
    check_vst3: Option<usize>,
    check_au: Option<usize>,
    Ghost(tasks): Ghost<Seq<(Seq<char>, TaskKind)>>,
    Ghost(edges): Ghost<Seq<(usize, usize)>>,
) -> (r: (Option<usize>, Option<usize>))
    requires
        holds(*old(graph), package_name@, tasks, edges),
        tasks.len() <= 8,
        edges.len() <= 5,
        lens_ok(tasks, seq![5nat, 22nat, 24nat, 9nat, 18nat, 21nat, 12nat]),
        forward(edges, tasks.len()),
        (v || a) ==> rust_default < tasks.len(),
        check_vst3 matches Some(k) ==> k < tasks.len(),
        check_au matches Some(k) ==> k < tasks.len(),
    ensures
        ({
            let after = tasks + plugin_wrapper_tasks(v, a, platform);
            let conf = task_pos(after, sfx_configure_plugins());
            let e = edges + plugin_edges(
                v,
                a,
                rust_default as int,
                check_vst3 is Some,
                match check_vst3 {
                    Some(k) => k as int,
                    None => -1,
                },
                check_au is Some,
                match check_au {
                    Some(k) => k as int,
                    None => -1,
                },
                conf,
                task_pos(after, sfx_vst3()),
                task_pos(after, sfx_au()),
            );
            &&& holds(*final(graph), package_name@, after, e)
            &&& after.len() <= 11
            &&& e.len() <= 10
            &&& lens_ok(after, seq![5nat, 22nat, 24nat, 9nat, 18nat, 21nat, 12nat, 25nat, 10nat, 8nat])
            &&& keeps_positions(tasks, after)
            &&& forward(e, after.len())
            &&& r.0 == if v { Some(task_pos(after, sfx_vst3()) as usize) } else { None::<usize> }
            &&& r.1 == if a { Some(task_pos(after, sfx_au()) as usize) } else { None::<usize> }
            &&& (v || a) ==> conf >= 0
            &&& v ==> task_pos(after, sfx_vst3()) >= 0
            &&& a ==> task_pos(after, sfx_au()) >= 0
        }),
{
    proof {
        lemma_suffix_lengths();
    }
    let ghost pkg = package_name@;
    let ghost start = tasks;
    let ghost start_edges = edges;
    let ghost mut tasks = tasks;
    let ghost mut edges = edges;
    let ghost lens0 = seq![5nat, 22nat, 24nat, 9nat, 18nat, 21nat, 12nat];
    if !(v || a) {
        assert(tasks + plugin_wrapper_tasks(v, a, platform) =~= tasks);
        proof {
            assert forall|j: int| 0 <= j < tasks.len() implies seq![5nat, 22nat, 24nat, 9nat, 18nat, 21nat, 12nat, 25nat, 10nat, 8nat].contains(
                #[trigger] tasks[j].0.len(),
            ) by {
                assert(lens0.contains(tasks[j].0.len()));
            }
            let after = tasks + plugin_wrapper_tasks(v, a, platform);
            assert(edges + plugin_edges(
                v,
                a,
                rust_default as int,
                check_vst3 is Some,
                match check_vst3 {
                    Some(k) => k as int,
                    None => -1,
                },
                check_au is Some,
                match check_au {
                    Some(k) => k as int,
                    None => -1,
                },
                task_pos(after, sfx_configure_plugins()),
                task_pos(after, sfx_vst3()),
                task_pos(after, sfx_au()),
            ) =~= edges);
        }
        return (None, None);
    }
    assert forall|j: int| 0 <= j < tasks.len() implies tasks[j].0 != sfx_configure_plugins() by {
        assert(lens0.contains(tasks[j].0.len()));
    }
    let kind = TaskKind::ConfigureWrapperPlugins { vst3: v || platform.supports_vst3(), au: a || platform.supports_au() };
    let ghost k0 = kind;
    let conf = add_task(graph, package_name, "configure-wrapper-plugins", kind, Ghost(tasks), Ghost(edges));
    proof {
        tasks = tasks.push((sfx_configure_plugins(), k0));
    }
    add_edge(graph, conf, rust_default, Ghost(pkg), Ghost(tasks), Ghost(edges));
    proof {
        edges = edges.push((rust_default, conf));
    }
    match check_vst3 {
        Some(k) => {
            add_edge(graph, conf, k, Ghost(pkg), Ghost(tasks), Ghost(edges));
            proof {
                edges = edges.push((k, conf));
            }
        },
        None => {},
    }
    match check_au {
        Some(k) => {
            add_edge(graph, conf, k, Ghost(pkg), Ghost(tasks), Ghost(edges));
            proof {
                edges = edges.push((k, conf));
            }
        },
        None => {},
    }
    let mut vst3_node: Option<usize> = None;
    if v {
        assert forall|j: int| 0 <= j < tasks.len() implies tasks[j].0 != sfx_vst3() by {
            if j < start.len() {
                assert(lens0.contains(start[j].0.len()));
            }
        }
        let n = add_task(graph, package_name, "build-vst3", TaskKind::BuildVst3Bundle, Ghost(tasks), Ghost(edges));
        proof {
            tasks = tasks.push((sfx_vst3(), TaskKind::BuildVst3Bundle));
        }
        add_edge(graph, n, conf, Ghost(pkg), Ghost(tasks), Ghost(edges));
        proof {
            edges = edges.push((conf, n));
        }
        vst3_node = Some(n);
    }
    let mut au_node: Option<usize> = None;
    if a {
        assert forall|j: int| 0 <= j < tasks.len() implies tasks[j].0 != sfx_au() by {
            if j < start.len() {
                assert(lens0.contains(start[j].0.len()));
            }
        }
        let n = add_task(graph, package_name, "build-au", TaskKind::BuildAuBundle, Ghost(tasks), Ghost(edges));
        proof {
            tasks = tasks.push((sfx_au(), TaskKind::BuildAuBundle));
        }
        add_edge(graph, n, conf, Ghost(pkg), Ghost(tasks), Ghost(edges));
        proof {
            edges = edges.push((conf, n));
        }
        au_node = Some(n);
    }
    proof {
        assert(tasks =~= start + plugin_wrapper_tasks(v, a, platform));
        let after = tasks;
        let c = task_pos(after, sfx_configure_plugins());
        assert(c == conf);
        assert(edges =~= start_edges + plugin_edges(
            v,
            a,
            rust_default as int,
            check_vst3 is Some,
            match check_vst3 {
                Some(k) => k as int,
                None => -1,
            },
            check_au is Some,
            match check_au {
                Some(k) => k as int,
                None => -1,
            },
            c,
            task_pos(after, sfx_vst3()),
            task_pos(after, sfx_au()),
        ));
        assert forall|j: int| 0 <= j < tasks.len() implies seq![5nat, 22nat, 24nat, 9nat, 18nat, 21nat, 12nat, 25nat, 10nat, 8nat].contains(
            #[trigger] tasks[j].0.len(),
        ) by {
            if j < start.len() {
                assert(lens0.contains(start[j].0.len()));
            }
        }
    }
    (vst3_node, au_node)
}

fn add_standalone_steps(
    graph: &mut TaskPlan,
    package_name: &str,
    ns: bool,
    plugin_id: Option<String>,
    rust_standalone: usize,
    Ghost(tasks): Ghost<Seq<(Seq<char>, TaskKind)>>,
    Ghost(edges): Ghost<Seq<(usize, usize)>>,
) -> (r: Option<usize>)
    requires
        holds(*old(graph), package_name@, tasks, edges),
        tasks.len() <= 11,
        edges.len() <= 10,
        lens_ok(tasks, seq![5nat, 22nat, 24nat, 9nat, 18nat, 21nat, 12nat, 25nat, 10nat, 8nat]),
        forward(edges, tasks.len()),
        ns ==> rust_standalone < tasks.len(),
    ensures
        ({
            let after = tasks + standalone_tasks(ns, plugin_id);
            let conf = task_pos(after, sfx_configure_standalone());
            let e = edges + standalone_edges(ns, rust_standalone as int, conf, task_pos(after, sfx_standalone()));
            &&& holds(*final(graph), package_name@, after, e)
            &&& keeps_positions(tasks, after)
            &&& forward(e, after.len())
            &&& r == if ns { Some(task_pos(after, sfx_standalone()) as usize) } else { None::<usize> }
            &&& ns ==> conf >= 0 && task_pos(after, sfx_standalone()) >= 0
        }),
{
    proof {
        lemma_suffix_lengths();
    }
    let ghost pkg = package_name@;
    let ghost start = tasks;
    let ghost start_edges = edges;
    let ghost mut tasks = tasks;
    let ghost mut edges = edges;
    let ghost lens0 = seq![5nat, 22nat, 24nat, 9nat, 18nat, 21nat, 12nat, 25nat, 10nat, 8nat];
    if !ns {
        proof {
            assert(tasks + standalone_tasks(ns, plugin_id) =~= tasks);
            let after = tasks + standalone_tasks(ns, plugin_id);
            assert(edges + standalone_edges(
                ns,
                rust_standalone as int,
                task_pos(after, sfx_configure_standalone()),
                task_pos(after, sfx_standalone()),
            ) =~= edges);
        }
        return None;
    }
    assert forall|j: int| 0 <= j < tasks.len() implies tasks[j].0 != sfx_configure_standalone() by {
        assert(lens0.contains(tasks[j].0.len()));
    }
    let conf = add_task(
        graph,
        package_name,
        "configure-wrapper-standalone",
        TaskKind::ConfigureWrapperStandalone,
        Ghost(tasks),
        Ghost(edges),
    );
    proof {
        tasks = tasks.push((sfx_configure_standalone(), TaskKind::ConfigureWrapperStandalone));
    }
    add_edge(graph, conf, rust_standalone, Ghost(pkg), Ghost(tasks), Ghost(edges));
    proof {
        edges = edges.push((rust_standalone, conf));
    }
    assert forall|j: int| 0 <= j < tasks.len() implies tasks[j].0 != sfx_standalone() by {
        if j < start.len() {
            assert(lens0.contains(start[j].0.len()));
        }
    }
    let kind = TaskKind::BuildStandaloneBundle { plugin_id };
    let ghost k0 = kind;
    let n = add_task(graph, package_name, "build-standalone", kind, Ghost(tasks), Ghost(edges));
    proof {
        tasks = tasks.push((sfx_standalone(), k0));
    }
    add_edge(graph, n, conf, Ghost(pkg), Ghost(tasks), Ghost(edges));
    proof {
        edges = edges.push((conf, n));
        assert(tasks =~= start + standalone_tasks(ns, plugin_id));
        assert(edges =~= start_edges + standalone_edges(ns, rust_standalone as int, conf as int, n as int));
    }
    Some(n)
}

/// Where a suffix is found, it is there.
proof fn lemma_pos_bounds(tasks: Seq<(Seq<char>, TaskKind)>, s: Seq<char>)
    ensures
        -1 <= task_pos(tasks, s) < tasks.len(),
        task_pos(tasks, s) >= 0 ==> tasks[task_pos(tasks, s)].0 == s,
    decreases tasks.len(),
{
    if tasks.len() > 0 {
        lemma_pos_bounds(tasks.drop_last(), s);
    }
}

/// A build plan has at most thirteen tasks.
proof fn lemma_artifact_len(
    targets: Seq<Target>,
    clean: bool,
    plugin_id: Option<String>,
    checks: Option<(Seq<PluginTarget>, InstallScope)>,
    p: Platform,
)
    ensures
        artifact_tasks(targets, clean, plugin_id, checks, p).len() <= 13,
{
    match checks {
        Some((ts, _)) => {
            lemma_dedup_properties(ts);
            lemma_three_targets(dedup_seq(ts));
        },
        None => {},
    }
}

/// A graph whose every dependency runs from an earlier task to a later one
/// has no cycle: its tasks in the order they were added are an execution order.
pub proof fn lemma_forward_acyclic(n: nat, edges: Seq<(usize, usize)>)
    requires
        forward(edges, n),
        n <= usize::MAX,
    ensures
        !has_cycle(n, edges),
{
    let order = range_seq(n);
    assert forall|i: int| 0 <= i < order.len() implies #[trigger] chosen_at(n, edges, order, i) by {
        let done = order.take(i);
        assert forall|k: int| 0 <= k < edges.len() && (#[trigger] edges[k]).1 == order[i] implies done.contains(
            edges[k].0,
        ) by {
            assert(done[edges[k].0 as int] == edges[k].0);
        }
        if done.contains(order[i]) {
            let j = choose|j: int| 0 <= j < done.len() && done[j] == order[i];
        }
        assert forall|w: usize| w < order[i] implies !ready(n, edges, done, w) by {
            assert(done[w as int] == w);
        }
    }
    lemma_complete_order_acyclic(n, edges, order);
}

/// The stages of a build plan put together give the plan of `artifact_tasks`
/// and `artifact_edges`.
proof fn lemma_compose(
    targets: Seq<Target>,
    clean_first: bool,
    plugin_id: Option<String>,
    checks: Option<(Seq<PluginTarget>, InstallScope)>,
    p: Platform,
    clean: Option<usize>,
    cn: CheckNodes,
    rd: usize,
    rs: usize,
    t0: Seq<(Seq<char>, TaskKind)>,
    t1: Seq<(Seq<char>, TaskKind)>,
    t2: Seq<(Seq<char>, TaskKind)>,
    t3: Seq<(Seq<char>, TaskKind)>,
    t4: Seq<(Seq<char>, TaskKind)>,
    t5: Seq<(Seq<char>, TaskKind)>,
)
    requires
        t0 == opt_task(clean_first, sfx_clean(), TaskKind::Clean),
        clean_first ==> clean == Some(0usize) && task_pos(t0, sfx_clean()) == 0,
        !clean_first ==> clean is None,
        t1 == t0 + check_tasks(checks),
        keeps_positions(t0, t1),
        check_node_ok(cn.clap, t1, checks, PluginTarget::Clap),
        check_node_ok(cn.vst3, t1, checks, PluginTarget::Vst3),
        check_node_ok(cn.au, t1, checks, PluginTarget::Au),
        t2 == t1 + rust_tasks(needs_default(targets), targets.contains(Target::Standalone)),
        keeps_positions(t1, t2),
        needs_default(targets) ==> rd == task_pos(t2, sfx_rust_default()) && rd < t2.len(),
        targets.contains(Target::Standalone) ==> rs == task_pos(t2, sfx_rust_standalone()) && rs < t2.len(),
        (needs_default(targets) || targets.contains(Target::Standalone)) ==> task_pos(t2, sfx_gui()) >= 0,
        t3 == t2 + clap_tasks(targets.contains(Target::Clap)),
        keeps_positions(t2, t3),
        targets.contains(Target::Clap) ==> task_pos(t3, sfx_clap()) >= 0,
        t4 == t3 + plugin_wrapper_tasks(targets.contains(Target::Vst3), targets.contains(Target::Au), p),
        keeps_positions(t3, t4),
        (targets.contains(Target::Vst3) || targets.contains(Target::Au)) ==> task_pos(t4, sfx_configure_plugins()) >= 0,
        targets.contains(Target::Vst3) ==> task_pos(t4, sfx_vst3()) >= 0,
        targets.contains(Target::Au) ==> task_pos(t4, sfx_au()) >= 0,
        t5 == t4 + standalone_tasks(targets.contains(Target::Standalone), plugin_id),
        keeps_positions(t4, t5),
        targets.contains(Target::Standalone) ==> task_pos(t5, sfx_standalone()) >= 0,
    ensures
        t5.len() <= 13,
        forall|t: Target| targets.contains(t) ==> 0 <= #[trigger] task_pos(t5, build_suffix(t)) < t5.len(),
        t5 == artifact_tasks(targets, clean_first, plugin_id, checks, p),
        rust_edges(
            clean is Some,
            needs_default(targets),
            targets.contains(Target::Standalone),
            match clean {
                Some(c) => c as int,
                None => -1,
            },
            task_pos(t2, sfx_gui()),
            task_pos(t2, sfx_rust_default()),
            task_pos(t2, sfx_rust_standalone()),
        ) + clap_edges(
            targets.contains(Target::Clap),
            rd as int,
            cn.clap is Some,
            match cn.clap {
                Some(k) => k as int,
                None => -1,
            },
            task_pos(t3, sfx_clap()),
        ) + plugin_edges(
            targets.contains(Target::Vst3),
            targets.contains(Target::Au),
            rd as int,
            cn.vst3 is Some,
            match cn.vst3 {
                Some(k) => k as int,
                None => -1,
            },
            cn.au is Some,
            match cn.au {
                Some(k) => k as int,
                None => -1,
            },
            task_pos(t4, sfx_configure_plugins()),
            task_pos(t4, sfx_vst3()),
            task_pos(t4, sfx_au()),
        ) + standalone_edges(
            targets.contains(Target::Standalone),
            rs as int,
            task_pos(t5, sfx_configure_standalone()),
            task_pos(t5, sfx_standalone()),
        ) == artifact_edges(targets, clean_first, plugin_id, checks, p),
        targets.contains(Target::Clap) ==> task_pos(t5, sfx_clap()) == task_pos(t3, sfx_clap()),
        targets.contains(Target::Vst3) ==> task_pos(t5, sfx_vst3()) == task_pos(t4, sfx_vst3()),
        targets.contains(Target::Au) ==> task_pos(t5, sfx_au()) == task_pos(t4, sfx_au()),
{
    let t = t5;
    let nd = needs_default(targets);
    let ns = targets.contains(Target::Standalone);
    assert(t =~= artifact_tasks(targets, clean_first, plugin_id, checks, p));
    if clean_first {
        assert(task_pos(t, sfx_clean()) == 0);
    }
    if nd || ns {
        assert(task_pos(t, sfx_gui()) == task_pos(t2, sfx_gui()));
    }
    if nd {
        assert(task_pos(t, sfx_rust_default()) == task_pos(t2, sfx_rust_default()));
    }
    if ns {
        assert(task_pos(t, sfx_rust_standalone()) == task_pos(t2, sfx_rust_standalone()));
    }
    match cn.clap {
        Some(k) => {
            assert(task_pos(t, sfx_check(PluginTarget::Clap)) == k);
        },
        None => {},
    }
    match cn.vst3 {
        Some(k) => {
            assert(task_pos(t, sfx_check(PluginTarget::Vst3)) == k);
        },
        None => {},
    }
    match cn.au {
        Some(k) => {
            assert(task_pos(t, sfx_check(PluginTarget::Au)) == k);
        },
        None => {},
    }
    if targets.contains(Target::Vst3) || targets.contains(Target::Au) {
        assert(task_pos(t, sfx_configure_plugins()) == task_pos(t4, sfx_configure_plugins()));
    }
    if targets.contains(Target::Clap) {
        assert(task_pos(t, sfx_clap()) == task_pos(t3, sfx_clap()));
    }
    if targets.contains(Target::Vst3) {
        assert(task_pos(t, sfx_vst3()) == task_pos(t4, sfx_vst3()));
    }
    if targets.contains(Target::Au) {
        assert(task_pos(t, sfx_au()) == task_pos(t4, sfx_au()));
    }
    lemma_artifact_len(targets, clean_first, plugin_id, checks, p);
    assert forall|x: Target| targets.contains(x) implies 0 <= #[trigger] task_pos(t5, build_suffix(x)) < t5.len() by {
        lemma_pos_bounds(t5, build_suffix(x));
    }
}

#[verifier::rlimit(100)]
#[verifier::spinoff_prover]
/// The build plan for `targets` of a package: the tasks that build each
/// requested target, optionally after a clean and after install-scope checks
/// of the given install targets.
pub fn build_artifact_plan(
    package_name: &str,
    platform: Platform,
    targets: &[Target],
    clean_first: bool,
    standalone_plugin_id: Option<String>,
    install_checks: Option<(&[PluginTarget], InstallScope)>,
) -> (r: ArtifactPlan)
    ensures
        ({
            let checks = checks_view(install_checks);
            let tasks = artifact_tasks(targets@, clean_first, standalone_plugin_id, checks, platform);
            &&& holds(
                r.graph,
                package_name@,
                tasks,
                artifact_edges(targets@, clean_first, standalone_plugin_id, checks, platform),
            )
            &&& r.build_by_target.clap == if targets@.contains(Target::Clap) {
                Some(task_pos(tasks, sfx_clap()) as usize)
            } else {
                None
            }
            &&& r.build_by_target.vst3 == if targets@.contains(Target::Vst3) {
                Some(task_pos(tasks, sfx_vst3()) as usize)
            } else {
                None
            }
            &&& r.build_by_target.au == if targets@.contains(Target::Au) {
                Some(task_pos(tasks, sfx_au()) as usize)
            } else {
                None
            }
            &&& r.build_by_target.standalone == if targets@.contains(Target::Standalone) {
                Some(task_pos(tasks, sfx_standalone()) as usize)
            } else {
                None
            }
            &&& forward(r.graph.edges(), tasks.len())
            &&& !has_cycle(r.graph.len(), r.graph.edges())
            &&& tasks.len() <= 13
            &&& forall|t: Target|
                targets@.contains(t) ==> 0 <= #[trigger] task_pos(tasks, build_suffix(t)) < tasks.len()
        }),
{
    proof {
        lemma_suffix_lengths();
    }
    let ghost checks = checks_view(install_checks);
    let ghost pkg = package_name@;
    let ghost plugin_id = standalone_plugin_id;
    let mut graph: TaskPlan = TaskGraph::new();
    let ghost mut tasks: Seq<(Seq<char>, TaskKind)> = Seq::empty();
    assert(graph.ids() =~= task_ids(pkg, tasks));
    assert(graph.kinds() =~= task_kinds(tasks));
    let clean = if clean_first {
        let n = add_task(&mut graph, package_name, "clean", TaskKind::Clean, Ghost(tasks), Ghost(Seq::empty()));
        proof {
            tasks = tasks.push((sfx_clean(), TaskKind::Clean));
        }
        Some(n)
    } else {
        None
    };
    let ghost t0 = tasks;
    assert(lens_ok(tasks, seq![5nat])) by {
        assert forall|j: int| 0 <= j < tasks.len() implies seq![5nat].contains(#[trigger] tasks[j].0.len()) by {
            assert(seq![5nat][0] == 5nat);
        }
    }
    let cn = add_checks(&mut graph, package_name, install_checks, Ghost(tasks));
    proof {
        tasks = tasks + check_tasks(checks);
    }
    let ghost t1 = tasks;
    let nd = contains(targets, Target::Clap) || contains(targets, Target::Vst3) || contains(targets, Target::Au);
    let ns = contains(targets, Target::Standalone);
    let wants_clap = contains(targets, Target::Clap);
    let wants_vst3 = contains(targets, Target::Vst3);
    let wants_au = contains(targets, Target::Au);
    let (rust_default, rust_standalone) = add_rust_steps(&mut graph, package_name, nd, ns, clean, Ghost(tasks));
    let ghost e1 = graph.edges();
    proof {
        tasks = tasks + rust_tasks(nd, ns);
    }
    let ghost t2 = tasks;
    let clap = add_clap_step(&mut graph, package_name, wants_clap, rust_default, cn.clap, Ghost(tasks), Ghost(e1));
    let ghost e2 = graph.edges();
    proof {
        tasks = tasks + clap_tasks(wants_clap);
    }
    let ghost t3 = tasks;
    let (vst3, au) = add_plugin_wrapper_steps(
        &mut graph,
        package_name,
        wants_vst3,
        wants_au,
        platform,
        rust_default,
        cn.vst3,
        cn.au,
        Ghost(tasks),
        Ghost(e2),
    );
    let ghost e3 = graph.edges();
    proof {
        tasks = tasks + plugin_wrapper_tasks(wants_vst3, wants_au, platform);
    }
    let ghost t4 = tasks;
    let standalone = add_standalone_steps(
        &mut graph,
        package_name,
        ns,
        standalone_plugin_id,
        rust_standalone,
        Ghost(tasks),
        Ghost(e3),
    );
    proof {
        tasks = tasks + standalone_tasks(ns, plugin_id);
        lemma_compose(
            targets@,
            clean_first,
            plugin_id,
            checks,
            platform,
            clean,
            cn,
            rust_default,
            rust_standalone,
            t0,
            t1,
            t2,
            t3,
            t4,
            tasks,
        );
    }
    assert(!has_cycle(graph.len(), graph.edges())) by {
        lemma_forward_acyclic(graph.len(), graph.edges());
    }
    ArtifactPlan { graph, build_by_target: BuildNodes { clap, vst3, au, standalone } }
}

fn contains(targets: &[Target], t: Target) -> (r: bool)
    ensures
        r == targets@.contains(t),
{
    let mut i: usize = 0;
    while i < targets.len()
        invariant
            i <= targets@.len(),
            forall|j: int| 0 <= j < i ==> targets@[j] != t,
        decreases targets.len() - i,
    {
        if targets[i] == t {
            return true;
        }
        i += 1;
    }
    false
}


/// Every task suffix starts with one of the given characters.
pub open spec fn starts_among(tasks: Seq<(Seq<char>, TaskKind)>, cs: Seq<char>) -> bool {
    forall|j: int| 0 <= j < tasks.len() ==> (#[trigger] tasks[j]).0.len() > 0 && cs.contains(tasks[j].0[0])
}

proof fn lemma_starts_concat(a: Seq<(Seq<char>, TaskKind)>, b: Seq<(Seq<char>, TaskKind)>, cs: Seq<char>)
    requires
        starts_among(a, cs),
        starts_among(b, cs),
    ensures
        starts_among(a + b, cs),
{
    assert forall|j: int| 0 <= j < (a + b).len() implies (#[trigger] (a + b)[j]).0.len() > 0 && cs.contains((a + b)[j].0[0]) by {
        if j < a.len() {
            assert((a + b)[j] == a[j]);
        } else {
            assert((a + b)[j] == b[j - a.len()]);
        }
    }
}

/// The suffixes of a build plan start with `b`, `c` or `p`.
proof fn lemma_artifact_starts(
    targets: Seq<Target>,
    clean: bool,
    plugin_id: Option<String>,
    checks: Option<(Seq<PluginTarget>, InstallScope)>,
    p: Platform,
)
    ensures
        starts_among(artifact_tasks(targets, clean, plugin_id, checks, p), seq!['b', 'c', 'p']),
{
    reveal_strlit("clean");
    reveal_strlit("build-gui");
    reveal_strlit("build-rust-default");
    reveal_strlit("build-rust-standalone");
    reveal_strlit("package-clap");
    reveal_strlit("configure-wrapper-plugins");
    reveal_strlit("build-vst3");
    reveal_strlit("build-au");
    reveal_strlit("configure-wrapper-standalone");
    reveal_strlit("build-standalone");
    reveal_strlit("check-install-scope-");
    let cs = seq!['b', 'c', 'p'];
    assert(cs[0] == 'b' && cs[1] == 'c' && cs[2] == 'p');
    let nd = needs_default(targets);
    let ns = targets.contains(Target::Standalone);
    let c0 = opt_task(clean, sfx_clean(), TaskKind::Clean);
    let c1 = check_tasks(checks);
    assert forall|j: int| 0 <= j < c1.len() implies (#[trigger] c1[j]).0.len() > 0 && cs.contains(c1[j].0[0]) by {
        let t = check_targets(checks)[j];
        assert(c1[j].0 == sfx_check(t));
        assert(sfx_check(t)[0] == 'c');
    }
    let c2 = rust_tasks(nd, ns);
    let c3 = clap_tasks(targets.contains(Target::Clap));
    let c4 = plugin_wrapper_tasks(targets.contains(Target::Vst3), targets.contains(Target::Au), p);
    let c5 = standalone_tasks(ns, plugin_id);
    assert(starts_among(c0, cs));
    assert(starts_among(c2, cs));
    assert(starts_among(c3, cs));
    assert(starts_among(c4, cs));
    assert(starts_among(c5, cs));
    lemma_starts_concat(c0, c1, cs);
    lemma_starts_concat(c0 + c1, c2, cs);
    lemma_starts_concat(c0 + c1 + c2, c3, cs);
    lemma_starts_concat(c0 + c1 + c2 + c3, c4, cs);
    lemma_starts_concat(c0 + c1 + c2 + c3 + c4, c5, cs);
}

/// The suffix of the task that builds a target.
pub open spec fn build_suffix(t: Target) -> Seq<char> {
    match t {
        Target::Clap => sfx_clap(),
        Target::Vst3 => sfx_vst3(),
        Target::Au => sfx_au(),
        Target::Standalone => sfx_standalone(),
    }
}

/// The install tasks of `xtask install`, one per target.
pub open spec fn install_tasks(targets: Seq<PluginTarget>, scope: InstallScope) -> Seq<(Seq<char>, TaskKind)> {
    targets.map_values(
        |t: PluginTarget| ("install-"@ + plugin_target_name(t), TaskKind::InstallBundle { target: t, scope }),
    )
}

/// Each install task depends on the task that builds its target.
pub open spec fn install_edges(base: Seq<(Seq<char>, TaskKind)>, targets: Seq<PluginTarget>) -> Seq<(usize, usize)> {
    Seq::new(
        targets.len(),
        |i: int| (task_pos(base, build_suffix(plugin_target_target(targets[i]))) as usize, (base.len() + i) as usize),
    )
}

/// The build targets behind install targets.
pub open spec fn install_build_targets(targets: Seq<PluginTarget>) -> Seq<Target> {
    targets.map_values(|t: PluginTarget| plugin_target_target(t))
}

proof fn lemma_prefixed_names_distinct(prefix: Seq<char>)
    ensures
        forall|a: PluginTarget, b: PluginTarget|
            #![trigger prefix + plugin_target_name(a), prefix + plugin_target_name(b)]
            prefix + plugin_target_name(a) == prefix + plugin_target_name(b) ==> a == b,
{
    reveal_strlit("Clap");
    reveal_strlit("Vst3");
    reveal_strlit("Au");
    assert forall|a: PluginTarget, b: PluginTarget| prefix + plugin_target_name(a) == prefix + plugin_target_name(b) implies a == b by {
        assert(plugin_target_name(a) =~= (prefix + plugin_target_name(a)).skip(prefix.len() as int));
        assert(plugin_target_name(b) =~= (prefix + plugin_target_name(b)).skip(prefix.len() as int));
        if a != b {
            if plugin_target_name(a).len() == plugin_target_name(b).len() {
                assert(plugin_target_name(a)[0] != plugin_target_name(b)[0]);
            }
        }
    }
}

/// The plan of `xtask install`: the build plan of the targets, with their
/// install-scope checks, and one install task per target after its build.
pub fn install_plan(package_name: &str, platform: Platform, targets: &[PluginTarget], scope: InstallScope) -> (r:
    TaskPlan)
    requires
        no_repeats(targets@),
    ensures
        ({
            let base = artifact_tasks(install_build_targets(targets@), false, None, Some((targets@, scope)), platform);
            holds(
                r,
                package_name@,
                base + install_tasks(targets@, scope),
                artifact_edges(install_build_targets(targets@), false, None, Some((targets@, scope)), platform)
                    + install_edges(base, targets@),
            )
        }),
        !has_cycle(r.len(), r.edges()),
{
    let mut build_targets: Vec<Target> = Vec::new();
    let mut i: usize = 0;
    while i < targets.len()
        invariant
            i <= targets@.len(),
            build_targets@ == install_build_targets(targets@.take(i as int)),
        decreases targets.len() - i,
    {
        build_targets.push(targets[i].target());
        assert(install_build_targets(targets@.take(i + 1)) =~= install_build_targets(targets@.take(i as int)).push(
            plugin_target_target(targets@[i as int]),
        ));
        i += 1;
    }
    assert(targets@.take(targets@.len() as int) =~= targets@);
    let bt = build_targets.as_slice();
    assert(bt@ == install_build_targets(targets@));
    let plan = build_artifact_plan(package_name, platform, bt, false, None, Some((targets, scope)));
    let ghost base = artifact_tasks(install_build_targets(targets@), false, None, Some((targets@, scope)), platform);
    let ghost base_edges = artifact_edges(install_build_targets(targets@), false, None, Some((targets@, scope)), platform);
    let nodes = plan.build_by_target;
    let mut graph = plan.graph;
    proof {
        lemma_artifact_starts(install_build_targets(targets@), false, None, Some((targets@, scope)), platform);
        lemma_prefixed_names_distinct("install-"@);
        reveal_strlit("install-");
        lemma_three_targets(targets@);
        assert forall|t: Target| install_build_targets(targets@).contains(t) implies #[trigger] nodes.get_spec(t) == Some(
            task_pos(base, build_suffix(t)) as usize,
        ) && 0 <= task_pos(base, build_suffix(t)) < base.len() by {
            assert(bt@.contains(t));
            let tk = artifact_tasks(bt@, false, None, Some((targets@, scope)), platform);
            assert(0 <= task_pos(tk, build_suffix(t)) < tk.len());
            assert(tk == base);
            assert(0 <= task_pos(base, build_suffix(t)) < base.len());
            match t {
                Target::Clap => {},
                Target::Vst3 => {},
                Target::Au => {},
                Target::Standalone => {},
            }
        }
    }
    let mut j: usize = 0;
    while j < targets.len()
        invariant
            no_repeats(targets@),
            targets@.len() <= 3,
            j <= targets@.len(),
            base.len() <= 13,
            base == artifact_tasks(install_build_targets(targets@), false, None, Some((targets@, scope)), platform),
            starts_among(base, seq!['b', 'c', 'p']),
            "install-"@.len() == 8 && "install-"@[0] == 'i',
            holds(
                graph,
                package_name@,
                base + install_tasks(targets@.take(j as int), scope),
                base_edges + install_edges(base, targets@.take(j as int)),
            ),
            base_edges.len() <= 12,
            forward(base_edges + install_edges(base, targets@.take(j as int)), (base.len() + j) as nat),
            forall|a: PluginTarget, b: PluginTarget|
                #![trigger "install-"@ + plugin_target_name(a), "install-"@ + plugin_target_name(b)]
                "install-"@ + plugin_target_name(a) == "install-"@ + plugin_target_name(b) ==> a == b,
            forall|t: Target| install_build_targets(targets@).contains(t) ==> #[trigger] nodes.get_spec(t) == Some(
                task_pos(base, build_suffix(t)) as usize,
            ) && 0 <= task_pos(base, build_suffix(t)) < base.len(),
        decreases targets.len() - j,
    {
        let t = targets[j];
        let mut suffix = owned("install-");
        push_str(&mut suffix, plugin_target_debug(t));
        let ghost cur = base + install_tasks(targets@.take(j as int), scope);
        let ghost cur_edges = base_edges + install_edges(base, targets@.take(j as int));
        proof {
            assert forall|k: int| 0 <= k < cur.len() implies cur[k].0 != suffix@ by {
                if k < base.len() {
                    assert(cur[k] == base[k]);
                    assert(seq!['b', 'c', 'p'].contains(base[k].0[0]));
                    assert(suffix@[0] == 'i');
                } else {
                    let m = k - base.len();
                    assert(cur[k].0 == "install-"@ + plugin_target_name(targets@[m]));
                    assert(targets@[m] != t);
                }
            }
            assert(install_build_targets(targets@)[j as int] == plugin_target_target(t));
        }
        let build = match nodes.get(t.target()) {
            Some(b) => b,
            None => {
                proof {
                    assert(false);
                }
                0
            },
        };
        let n = add_task(&mut graph, package_name, suffix.as_str(), TaskKind::InstallBundle { target: t, scope }, Ghost(cur), Ghost(cur_edges));
        add_edge(
            &mut graph,
            n,
            build,
            Ghost(package_name@),
            Ghost(cur.push((suffix@, TaskKind::InstallBundle { target: t, scope }))),
            Ghost(cur_edges),
        );
        proof {
            assert(targets@.take(j + 1) =~= targets@.take(j as int).push(t));
            assert(base + install_tasks(targets@.take(j + 1), scope) =~= cur.push((suffix@, TaskKind::InstallBundle { target: t, scope })));
            assert(base_edges + install_edges(base, targets@.take(j + 1)) =~= cur_edges.push((build, n)));
        }
        j += 1;
    }
    assert(targets@.take(targets@.len() as int) =~= targets@);
    assert(!has_cycle(graph.len(), graph.edges())) by {
        lemma_forward_acyclic(graph.len(), graph.edges());
    }
    graph
}


/// The uninstall tasks of `xtask uninstall`, one per target.
pub open spec fn uninstall_tasks(targets: Seq<PluginTarget>, scope: UninstallScope, dry_run: bool) -> Seq<
    (Seq<char>, TaskKind),
> {
    targets.map_values(
        |t: PluginTarget|
            ("uninstall-"@ + plugin_target_name(t), TaskKind::UninstallBundle { target: t, scope, dry_run }),
    )
}

/// The plan of `xtask uninstall`: one independent uninstall task per target.
pub fn uninstall_plan(package_name: &str, targets: &[PluginTarget], scope: UninstallScope, dry_run: bool) -> (r:
    TaskPlan)
    requires
        no_repeats(targets@),
    ensures
        holds(r, package_name@, uninstall_tasks(targets@, scope, dry_run), Seq::empty()),
        !has_cycle(r.len(), r.edges()),
{
    let mut graph: TaskPlan = TaskGraph::new();
    proof {
        lemma_prefixed_names_distinct("uninstall-"@);
        lemma_three_targets(targets@);
        assert(graph.ids() =~= task_ids(package_name@, uninstall_tasks(targets@.take(0), scope, dry_run)));
        assert(graph.kinds() =~= task_kinds(uninstall_tasks(targets@.take(0), scope, dry_run)));
    }
    let mut j: usize = 0;
    while j < targets.len()
        invariant
            no_repeats(targets@),
            targets@.len() <= 3,
            j <= targets@.len(),
            holds(graph, package_name@, uninstall_tasks(targets@.take(j as int), scope, dry_run), Seq::empty()),
            forall|a: PluginTarget, b: PluginTarget|
                #![trigger "uninstall-"@ + plugin_target_name(a), "uninstall-"@ + plugin_target_name(b)]
                "uninstall-"@ + plugin_target_name(a) == "uninstall-"@ + plugin_target_name(b) ==> a == b,
        decreases targets.len() - j,
    {
        let t = targets[j];
        let mut suffix = owned("uninstall-");
        push_str(&mut suffix, plugin_target_debug(t));
        let ghost cur = uninstall_tasks(targets@.take(j as int), scope, dry_run);
        proof {
            assert forall|k: int| 0 <= k < cur.len() implies cur[k].0 != suffix@ by {
                assert(cur[k].0 == "uninstall-"@ + plugin_target_name(targets@[k]));
                assert(targets@[k] != t);
            }
        }
        add_task(
            &mut graph,
            package_name,
            suffix.as_str(),
            TaskKind::UninstallBundle { target: t, scope, dry_run },
            Ghost(cur),
            Ghost(Seq::empty()),
        );
        proof {
            assert(targets@.take(j + 1) =~= targets@.take(j as int).push(t));
            assert(uninstall_tasks(targets@.take(j + 1), scope, dry_run) =~= cur.push(
                (suffix@, TaskKind::UninstallBundle { target: t, scope, dry_run }),
            ));
        }
        j += 1;
    }
    assert(targets@.take(targets@.len() as int) =~= targets@);
    assert(!has_cycle(graph.len(), graph.edges())) by {
        lemma_forward_acyclic(graph.len(), graph.edges());
    }
    graph
}

/// The plan of `xtask clean`: the clean task alone.
pub fn clean_plan(package_name: &str) -> (r: TaskPlan)
    ensures
        holds(r, package_name@, seq![(sfx_clean(), TaskKind::Clean)], Seq::empty()),
        !has_cycle(r.len(), r.edges()),
{
    let mut graph: TaskPlan = TaskGraph::new();
    proof {
        assert(graph.ids() =~= task_ids(package_name@, Seq::empty()));
        assert(graph.kinds() =~= task_kinds(Seq::empty()));
    }
    add_task(&mut graph, package_name, "clean", TaskKind::Clean, Ghost(Seq::empty()), Ghost(Seq::empty()));
    assert(Seq::<(Seq<char>, TaskKind)>::empty().push((sfx_clean(), TaskKind::Clean)) =~= seq![(sfx_clean(), TaskKind::Clean)]);
    assert(!has_cycle(graph.len(), graph.edges())) by {
        lemma_forward_acyclic(graph.len(), graph.edges());
    }
    graph
}

/// The task that launches the standalone app.
pub open spec fn launch_task(plugin_id: Option<String>) -> (Seq<char>, TaskKind) {
    ("launch-standalone"@, TaskKind::LaunchStandalone { plugin_id })
}

fn copy_plugin_id(plugin_id: &Option<String>) -> (r: Option<String>)
    ensures
        r == *plugin_id,
{
    match plugin_id {
        Some(s) => Some(s.clone()),
        None => None,
    }
}

/// The plan of `xtask launch`: the standalone build plan, then the launch
/// after the standalone bundle.
pub fn launch_plan(package_name: &str, platform: Platform, plugin_id: Option<String>) -> (r: TaskPlan)
    ensures
        ({
            let base = artifact_tasks(seq![Target::Standalone], false, plugin_id, None, platform);
            &&& holds(
                r,
                package_name@,
                base.push(launch_task(plugin_id)),
                artifact_edges(seq![Target::Standalone], false, plugin_id, None, platform).push(
                    (task_pos(base, sfx_standalone()) as usize, base.len() as usize),
                ),
            )
            &&& !has_cycle(r.len(), r.edges())
        }),
{
    let targets = [Target::Standalone];
    let ts = targets.as_slice();
    assert(ts@ =~= seq![Target::Standalone]);
    let ghost pid = plugin_id;
    let plan = build_artifact_plan(package_name, platform, ts, false, copy_plugin_id(&plugin_id), None);
    let ghost base = artifact_tasks(seq![Target::Standalone], false, pid, None, platform);
    let ghost base_edges = artifact_edges(seq![Target::Standalone], false, pid, None, platform);
    let mut graph = plan.graph;
    proof {
        assert(checks_view(None) == None::<(Seq<PluginTarget>, InstallScope)>);
        assert(ts@.contains(Target::Standalone)) by {
            assert(ts@[0] == Target::Standalone);
        }
        lemma_artifact_starts(seq![Target::Standalone], false, pid, None, platform);
        reveal_strlit("launch-standalone");
    }
    let build = match plan.build_by_target.standalone {
        Some(b) => b,
        None => {
            proof {
                assert(false);
            }
            0
        },
    };
    proof {
        assert forall|k: int| 0 <= k < base.len() implies base[k].0 != "launch-standalone"@ by {
            assert(seq!['b', 'c', 'p'].contains(base[k].0[0]));
        }
        lemma_pos_bounds(base, sfx_standalone());
    }
    let n = add_task(
        &mut graph,
        package_name,
        "launch-standalone",
        TaskKind::LaunchStandalone { plugin_id },
        Ghost(base),
        Ghost(base_edges),
    );
    add_edge(&mut graph, n, build, Ghost(package_name@), Ghost(base.push(launch_task(pid))), Ghost(base_edges));
    assert(!has_cycle(graph.len(), graph.edges())) by {
        assert(forward(base_edges, base.len()));
        lemma_forward_acyclic(graph.len(), graph.edges());
    }
    graph
}


/// Which validation kinds `xtask validate` runs.
#[derive(Debug, Clone, Copy, PartialEq, Eq)]
pub enum ValidateCheck {
    BuildArtifacts,
    ExternalValidators,
    ProductionReadiness,
}

/// The validation kinds that run.
#[derive(Debug, Clone, Copy)]
pub struct ValidateChecks {
    pub run_external_validators: bool,
    pub run_production_readiness: bool,
}

/// The validation kinds chosen on the command line: both when none is named,
/// else exactly those named.
pub fn validate_checks(checks: &[ValidateCheck]) -> (r: ValidateChecks)
    ensures
        r.run_external_validators == (checks@.len() == 0 || checks@.contains(ValidateCheck::ExternalValidators)),
        r.run_production_readiness == (checks@.len() == 0 || checks@.contains(ValidateCheck::ProductionReadiness)),
{
    if checks.len() == 0 {
        return ValidateChecks { run_external_validators: true, run_production_readiness: true };
    }
    let mut external = false;
    let mut readiness = false;
    let mut i: usize = 0;
    while i < checks.len()
        invariant
            i <= checks@.len(),
            external == checks@.take(i as int).contains(ValidateCheck::ExternalValidators),
            readiness == checks@.take(i as int).contains(ValidateCheck::ProductionReadiness),
        decreases checks.len() - i,
    {
        let c = checks[i];
        proof {
            assert(checks@.take(i + 1) =~= checks@.take(i as int).push(c));
            vstd::seq_lib::lemma_seq_contains_after_push(checks@.take(i as int), c, ValidateCheck::ExternalValidators);
            vstd::seq_lib::lemma_seq_contains_after_push(checks@.take(i as int), c, ValidateCheck::ProductionReadiness);
        }
        match c {
            ValidateCheck::ExternalValidators => {
                external = true;
            },
            ValidateCheck::ProductionReadiness => {
                readiness = true;
            },
            ValidateCheck::BuildArtifacts => {},
        }
        i += 1;
    }
    assert(checks@.take(checks@.len() as int) =~= checks@);
    ValidateChecks { run_external_validators: external, run_production_readiness: readiness }
}

/// The targets a validation builds: those validated, and CLAP for the rule
/// checks.
pub open spec fn validate_build_targets(vts: Seq<ValidateTarget>, readiness: bool) -> Seq<Target> {
    let b = vts.map_values(|t: ValidateTarget| validate_target_target(t));
    if readiness && !b.contains(Target::Clap) {
        b.push(Target::Clap)
    } else {
        b
    }
}

/// The suffix of the validation task of a target.
pub open spec fn validate_suffix(t: ValidateTarget) -> Seq<char> {
    "validate-"@ + validate_target_name(t)
}

/// The task that installs the AU bundle for the AU validator.
pub open spec fn au_install_task() -> (Seq<char>, TaskKind) {
    ("install-Au-for-validation"@, TaskKind::InstallBundle { target: PluginTarget::Au, scope: InstallScope::User })
}

/// The tasks that validate one target: the validation, and for AU the install
/// that the validator needs.
pub open spec fn validate_block(t: ValidateTarget) -> Seq<(Seq<char>, TaskKind)> {
    seq![(validate_suffix(t), TaskKind::ValidateBundle { target: t })] + if t == ValidateTarget::Au {
        seq![au_install_task()]
    } else {
        Seq::empty()
    }
}

/// The validation tasks of the targets, in order.
pub open spec fn validate_blocks(vts: Seq<ValidateTarget>) -> Seq<(Seq<char>, TaskKind)>
    decreases vts.len(),
{
    if vts.len() == 0 {
        Seq::empty()
    } else {
        validate_blocks(vts.drop_last()) + validate_block(vts.last())
    }
}

/// The dependencies of the validation of `t`, whose task is at `start`: the
/// rule checks, when they run, and the bundle it validates (for AU, through
/// its install).
pub open spec fn validate_block_edges(
    base: Seq<(Seq<char>, TaskKind)>,
    rules: Option<int>,
    t: ValidateTarget,
    start: int,
) -> Seq<(usize, usize)> {
    (match rules {
        Some(r) => seq![(r as usize, start as usize)],
        None => Seq::empty(),
    }) + if t == ValidateTarget::Au {
        seq![(task_pos(base, sfx_au()) as usize, (start + 1) as usize), ((start + 1) as usize, start as usize)]
    } else {
        seq![(task_pos(base, build_suffix(validate_target_target(t))) as usize, start as usize)]
    }
}

/// The dependencies of the validation tasks, which start at `offset`.
pub open spec fn validate_edges(
    base: Seq<(Seq<char>, TaskKind)>,
    rules: Option<int>,
    offset: int,
    vts: Seq<ValidateTarget>,
) -> Seq<(usize, usize)>
    decreases vts.len(),
{
    if vts.len() == 0 {
        Seq::empty()
    } else {
        validate_edges(base, rules, offset, vts.drop_last()) + validate_block_edges(
            base,
            rules,
            vts.last(),
            offset + validate_blocks(vts.drop_last()).len(),
        )
    }
}

proof fn lemma_rank_floor(n: nat, edges: Seq<(usize, usize)>, rank: spec_fn(usize) -> nat, s: Set<usize>, m: nat)
    requires
        closed_set(n, edges, s),
        forall|k: int| 0 <= k < edges.len() ==> rank((#[trigger] edges[k]).0) < rank(edges[k].1),
    ensures
        forall|w: usize| s.contains(w) ==> rank(w) >= m,
    decreases m,
{
    if m > 0 {
        lemma_rank_floor(n, edges, rank, s, (m - 1) as nat);
        assert forall|w: usize| s.contains(w) implies rank(w) >= m by {
            let k = choose|k: int| 0 <= k < edges.len() && (#[trigger] edges[k]).1 == w && s.contains(edges[k].0);
            assert(rank(edges[k].0) >= m - 1);
        }
    }
}

/// A graph whose every dependency goes up in some ranking of its tasks has no
/// cycle.
pub proof fn lemma_ranked_acyclic(n: nat, edges: Seq<(usize, usize)>, rank: spec_fn(usize) -> nat)
    requires
        forall|k: int| 0 <= k < edges.len() ==> rank((#[trigger] edges[k]).0) < rank(edges[k].1),
    ensures
        !has_cycle(n, edges),
{
    if has_cycle(n, edges) {
        let s = choose|s: Set<usize>| closed_set(n, edges, s);
        let v = choose|v: usize| s.contains(v);
        lemma_rank_floor(n, edges, rank, s, rank(v) + 1);
    }
}


/// The rule-check node as a position.
pub open spec fn opt_int(n: Option<usize>) -> Option<int> {
    match n {
        Some(v) => Some(v as int),
        None => None,
    }
}

/// Adds the validation of `t` after `tasks`: the validation task, for AU the
/// install it needs, and their dependencies.
fn add_validation_block(
    graph: &mut TaskPlan,
    package_name: &str,
    t: ValidateTarget,
    rules: Option<usize>,
    build: usize,
    Ghost(base): Ghost<Seq<(Seq<char>, TaskKind)>>,
    Ghost(tasks): Ghost<Seq<(Seq<char>, TaskKind)>>,
    Ghost(edges): Ghost<Seq<(usize, usize)>>,
)
    requires
        holds(*old(graph), package_name@, tasks, edges),
        tasks.len() + 2 < 64,
        edges.len() + 3 < 64,
        forall|k: int| 0 <= k < tasks.len() ==> tasks[k].0 != validate_suffix(t),
        t == ValidateTarget::Au ==> forall|k: int| 0 <= k < tasks.len() ==> tasks[k].0 != au_install_task().0,
        rules matches Some(r) ==> r < tasks.len(),
        build < tasks.len(),
        build == task_pos(base, build_suffix(validate_target_target(t))),
    ensures
        holds(
            *final(graph),
            package_name@,
            tasks + validate_block(t),
            edges + validate_block_edges(base, opt_int(rules), t, tasks.len() as int),
        ),
{
    let mut suffix = owned("validate-");
    push_str(&mut suffix, validate_target_debug(t));
    let n = add_task(
        graph,
        package_name,
        suffix.as_str(),
        TaskKind::ValidateBundle { target: t },
        Ghost(tasks),
        Ghost(edges),
    );
    let ghost t1 = tasks.push((validate_suffix(t), TaskKind::ValidateBundle { target: t }));
    let ghost mut e1 = edges;
    match rules {
        Some(r) => {
            add_edge(graph, n, r, Ghost(package_name@), Ghost(t1), Ghost(edges));
            proof {
                e1 = edges.push((r, n));
            }
        },
        None => {},
    }
    proof {
        assert(e1 == edges + match opt_int(rules) {
            Some(r) => seq![(r as usize, tasks.len() as usize)],
            None => Seq::<(usize, usize)>::empty(),
        });
    }
    if t == ValidateTarget::Au {
        proof {
            reveal_strlit("install-Au-for-validation");
            reveal_strlit("validate-");
            assert(validate_suffix(t)[0] == 'v');
            assert forall|k: int| 0 <= k < t1.len() implies t1[k].0 != au_install_task().0 by {
                if k == tasks.len() {
                    assert(t1[k].0[0] == 'v');
                }
            }
        }
        let i = add_task(
            graph,
            package_name,
            "install-Au-for-validation",
            TaskKind::InstallBundle { target: PluginTarget::Au, scope: InstallScope::User },
            Ghost(t1),
            Ghost(e1),
        );
        let ghost t2 = t1.push(au_install_task());
        add_edge(graph, i, build, Ghost(package_name@), Ghost(t2), Ghost(e1));
        add_edge(graph, n, i, Ghost(package_name@), Ghost(t2), Ghost(e1.push((build, i))));
        proof {
            assert(t2 =~= tasks + validate_block(t));
            assert(e1.push((build, i)).push((i, n)) =~= edges + validate_block_edges(
                base,
                opt_int(rules),
                t,
                tasks.len() as int,
            ));
        }
    } else {
        add_edge(graph, n, build, Ghost(package_name@), Ghost(t1), Ghost(e1));
        proof {
            assert(t1 =~= tasks + validate_block(t));
            assert(e1.push((build, n)) =~= edges + validate_block_edges(base, opt_int(rules), t, tasks.len() as int));
        }
    }
}


/// A ranking of tasks in which every task keeps its position, but for the
/// AU validation, which ranks just after the install that follows it.
pub open spec fn vrank(au: Option<usize>, v: usize) -> nat {
    if au == Some(v) {
        (2 * v + 3) as nat
    } else {
        (2 * v) as nat
    }
}

/// Every dependency goes up in the ranking.
pub open spec fn au_ranked(edges: Seq<(usize, usize)>, au: Option<usize>) -> bool {
    forall|k: int| 0 <= k < edges.len() ==> vrank(au, (#[trigger] edges[k]).0) < vrank(au, edges[k].1)
}

proof fn lemma_rank_step(
    edges: Seq<(usize, usize)>,
    n: nat,
    au: Option<usize>,
    head_len: nat,
    base: Seq<(Seq<char>, TaskKind)>,
    rules: Option<int>,
    t: ValidateTarget,
)
    requires
        au_ranked(edges, au),
        forall|k: int| 0 <= k < edges.len() ==> (#[trigger] edges[k]).0 < n && edges[k].1 < n,
        au matches Some(a) ==> head_len <= a < n,
        t == ValidateTarget::Au ==> au is None,
        rules matches Some(r) ==> 0 <= r < head_len,
        head_len <= n,
        0 <= task_pos(base, build_suffix(validate_target_target(t))) < head_len,
        n + 2 < 0xFFFF_FFFF,
    ensures
        au_ranked(
            edges + validate_block_edges(base, rules, t, n as int),
            if t == ValidateTarget::Au {
                Some(n as usize)
            } else {
                au
            },
        ),
{
    let au2 = if t == ValidateTarget::Au {
        Some(n as usize)
    } else {
        au
    };
    let more = validate_block_edges(base, rules, t, n as int);
    let all = edges + more;
    assert forall|k: int| 0 <= k < all.len() implies vrank(au2, (#[trigger] all[k]).0) < vrank(au2, all[k].1) by {
        if k < edges.len() {
            assert(all[k] == edges[k]);
            assert(vrank(au2, edges[k].0) == vrank(au, edges[k].0));
            assert(vrank(au2, edges[k].1) == vrank(au, edges[k].1));
        } else {
            assert(all[k] == more[k - edges.len()]);
        }
    }
}

/// The suffixes of the validation tasks: each validates one of the targets,
/// or installs AU when AU is among them.
proof fn lemma_blocks_shape(vts: Seq<ValidateTarget>)
    ensures
        forall|k: int|
            0 <= k < validate_blocks(vts).len() ==> {
                ||| exists|m: int| 0 <= m < vts.len() && (#[trigger] validate_blocks(vts)[k]).0 == validate_suffix(vts[m])
                ||| validate_blocks(vts)[k] == au_install_task() && vts.contains(ValidateTarget::Au)
            },
        validate_blocks(vts).len() <= 2 * vts.len(),
    decreases vts.len(),
{
    if vts.len() > 0 {
        let p = vts.drop_last();
        lemma_blocks_shape(p);
        let b = validate_blocks(vts);
        assert forall|k: int| 0 <= k < b.len() implies {
            ||| exists|m: int| 0 <= m < vts.len() && (#[trigger] b[k]).0 == validate_suffix(vts[m])
            ||| b[k] == au_install_task() && vts.contains(ValidateTarget::Au)
        } by {
            let pb = validate_blocks(p);
            if k < pb.len() {
                assert(b[k] == pb[k]);
                if exists|m: int| 0 <= m < p.len() && pb[k].0 == validate_suffix(p[m]) {
                    let m = choose|m: int| 0 <= m < p.len() && pb[k].0 == validate_suffix(p[m]);
                    assert(p[m] == vts[m]);
                } else {
                    let m = choose|m: int| 0 <= m < p.len() && p[m] == ValidateTarget::Au;
                    assert(vts[m] == ValidateTarget::Au);
                }
            } else if k == pb.len() {
                assert(b[k].0 == validate_suffix(vts[vts.len() - 1]));
            } else {
                assert(vts[vts.len() - 1] == ValidateTarget::Au);
            }
        }
    }
}

proof fn lemma_validate_names_distinct()
    ensures
        forall|a: ValidateTarget, b: ValidateTarget|
            #![trigger validate_suffix(a), validate_suffix(b)]
            validate_suffix(a) == validate_suffix(b) ==> a == b,
        forall|a: ValidateTarget| #![trigger validate_suffix(a)] validate_suffix(a).len() > 9 && validate_suffix(a)[0] == 'v',
        forall|a: ValidateTarget| #[trigger] validate_suffix(a) != "validate-wrac-rules"@,
{
    reveal_strlit("Clap");
    reveal_strlit("Vst3");
    reveal_strlit("Au");
    reveal_strlit("Standalone");
    reveal_strlit("validate-");
    reveal_strlit("validate-wrac-rules");
    let prefix = "validate-"@;
    assert forall|a: ValidateTarget, b: ValidateTarget| validate_suffix(a) == validate_suffix(b) implies a == b by {
        assert(validate_target_name(a) =~= validate_suffix(a).skip(prefix.len() as int));
        assert(validate_target_name(b) =~= validate_suffix(b).skip(prefix.len() as int));
        if a != b {
            if validate_target_name(a).len() == validate_target_name(b).len() {
                assert(validate_target_name(a)[0] != validate_target_name(b)[0]);
            }
        }
    }
    assert forall|a: ValidateTarget| #[trigger] validate_suffix(a) != "validate-wrac-rules"@ by {
        assert(validate_suffix(a)[9] == validate_target_name(a)[0]);
        assert("validate-wrac-rules"@[9] == 'w');
    }
}


/// The tasks of a validation before the per-target validations: the build
/// plan and, when the rule checks run, their task with the given kind.
pub open spec fn validate_head(base: Seq<(Seq<char>, TaskKind)>, readiness: bool, rules_kind: TaskKind) -> Seq<
    (Seq<char>, TaskKind),
> {
    if readiness {
        base.push(("validate-wrac-rules"@, rules_kind))
    } else {
        base
    }
}

/// The dependency of the rule checks on the CLAP bundle, when they run.
pub open spec fn rules_edges(base: Seq<(Seq<char>, TaskKind)>, readiness: bool) -> Seq<(usize, usize)> {
    if readiness {
        seq![(task_pos(base, sfx_clap()) as usize, base.len() as usize)]
    } else {
        Seq::empty()
    }
}

/// The build targets of a validation, as `validate_build_targets` gives them.
fn validate_build_target_list(targets: &[ValidateTarget], rd: bool) -> (r: Vec<Target>)
    ensures
        r@ == validate_build_targets(targets@, rd),
        forall|t: ValidateTarget| #[trigger] targets@.contains(t) ==> r@.contains(validate_target_target(t)),
        rd ==> r@.contains(Target::Clap),
{
    let mut bt: Vec<Target> = Vec::new();
    let mut i: usize = 0;
    while i < targets.len()
        invariant
            i <= targets@.len(),
            bt@ == targets@.take(i as int).map_values(|t: ValidateTarget| validate_target_target(t)),
        decreases targets.len() - i,
    {
        bt.push(targets[i].target());
        assert(targets@.take(i + 1).map_values(|t: ValidateTarget| validate_target_target(t)) =~= targets@.take(
            i as int,
        ).map_values(|t: ValidateTarget| validate_target_target(t)).push(validate_target_target(targets@[i as int])));
        i += 1;
    }
    assert(targets@.take(targets@.len() as int) =~= targets@);
    let ghost b = bt@;
    if rd && !contains(bt.as_slice(), Target::Clap) {
        bt.push(Target::Clap);
    }
    proof {
        let btv = validate_build_targets(targets@, rd);
        assert forall|t: ValidateTarget| #[trigger] targets@.contains(t) implies btv.contains(validate_target_target(t)) by {
            let m = choose|m: int| 0 <= m < targets@.len() && targets@[m] == t;
            assert(b[m] == validate_target_target(t));
            if rd && !b.contains(Target::Clap) {
                assert(btv[m] == b[m]);
            }
        }
        if rd {
            if !b.contains(Target::Clap) {
                assert(btv[btv.len() - 1] == Target::Clap);
            }
        }
    }
    bt
}

fn copy_validate_targets(targets: &[ValidateTarget]) -> (r: Vec<ValidateTarget>)
    ensures
        r@ == targets@,
{
    let mut v: Vec<ValidateTarget> = Vec::new();
    let mut k: usize = 0;
    while k < targets.len()
        invariant
            k <= targets@.len(),
            v@ == targets@.take(k as int),
        decreases targets.len() - k,
    {
        v.push(targets[k]);
        assert(targets@.take(k + 1) =~= targets@.take(k as int).push(targets@[k as int]));
        k += 1;
    }
    assert(targets@.take(targets@.len() as int) =~= targets@);
    v
}

/// The part of a validation plan before the per-target validations.
#[verifier::rlimit(30)]
fn validate_head_plan(package_name: &str, platform: Platform, targets: &[ValidateTarget], rd: bool) -> (r: (
    TaskPlan,
    BuildNodes,
    Option<usize>,
))
    requires
        no_repeats(targets@),
    ensures
        ({
            let btv = validate_build_targets(targets@, rd);
            let base = artifact_tasks(btv, false, None, None, platform);
            let head = validate_head(base, rd, r.0.kinds()[base.len() as int]);
            let head_edges = artifact_edges(btv, false, None, None, platform) + rules_edges(base, rd);
            &&& holds(r.0, package_name@, head, head_edges)
            &&& rd ==> (r.0.kinds()[base.len() as int] matches TaskKind::ValidateWracRules { targets: v } && v@
                == targets@)
            &&& r.2 == if rd {
                Some(base.len() as usize)
            } else {
                None
            }
            &&& forward(head_edges, head.len())
            &&& base.len() <= 13
            &&& head_edges.len() <= 13
            &&& starts_among(base, seq!['b', 'c', 'p'])
            &&& forall|t: ValidateTarget| #[trigger] targets@.contains(t) ==> btv.contains(validate_target_target(t))
            &&& forall|t: Target|
                btv.contains(t) ==> #[trigger] r.1.get_spec(t) == Some(task_pos(base, build_suffix(t)) as usize) && 0
                    <= task_pos(base, build_suffix(t)) < base.len()
        }),
{
    let bt = validate_build_target_list(targets, rd);
    let ghost btv = validate_build_targets(targets@, rd);
    let plan = build_artifact_plan(package_name, platform, bt.as_slice(), false, None, None);
    let ghost base = artifact_tasks(btv, false, None, None, platform);
    let ghost base_edges = artifact_edges(btv, false, None, None, platform);
    let nodes = plan.build_by_target;
    let mut graph = plan.graph;
    proof {
        assert(checks_view(None) == None::<(Seq<PluginTarget>, InstallScope)>);
        lemma_artifact_starts(btv, false, None, None, platform);
        reveal_strlit("validate-wrac-rules");
        assert forall|t: Target| btv.contains(t) implies #[trigger] nodes.get_spec(t) == Some(
            task_pos(base, build_suffix(t)) as usize,
        ) && 0 <= task_pos(base, build_suffix(t)) < base.len() by {
            assert(bt@.contains(t));
            match t {
                Target::Clap => {},
                Target::Vst3 => {},
                Target::Au => {},
                Target::Standalone => {},
            }
        }
    }
    let rules: Option<usize> = if rd {
        let v = copy_validate_targets(targets);
        proof {
            assert(nodes.get_spec(Target::Clap) == Some(task_pos(base, build_suffix(Target::Clap)) as usize));
        }
        let clap = match nodes.get(Target::Clap) {
            Some(b) => b,
            None => {
                proof {
                    assert(false);
                }
                0
            },
        };
        proof {
            assert forall|k: int| 0 <= k < base.len() implies base[k].0 != "validate-wrac-rules"@ by {
                assert(seq!['b', 'c', 'p'].contains(base[k].0[0]));
            }
        }
        let n = add_task(
            &mut graph,
            package_name,
            "validate-wrac-rules",
            TaskKind::ValidateWracRules { targets: v },
            Ghost(base),
            Ghost(base_edges),
        );
        let ghost rk = graph.kinds()[n as int];
        add_edge(
            &mut graph,
            n,
            clap,
            Ghost(package_name@),
            Ghost(base.push(("validate-wrac-rules"@, rk))),
            Ghost(base_edges),
        );
        proof {
            assert(base_edges.push((clap, n)) =~= base_edges + rules_edges(base, rd));
        }
        Some(n)
    } else {
        None
    };
    proof {
        if !rd {
            assert(base_edges + rules_edges(base, rd) =~= base_edges);
        }
    }
    (graph, nodes, rules)
}

/// Adds the validation of each target after the head of a validation plan.
#[verifier::rlimit(50)]
fn add_validations(
    graph: &mut TaskPlan,
    package_name: &str,
    targets: &[ValidateTarget],
    rules: Option<usize>,
    nodes: BuildNodes,
    Ghost(base): Ghost<Seq<(Seq<char>, TaskKind)>>,
    Ghost(btv): Ghost<Seq<Target>>,
    Ghost(head): Ghost<Seq<(Seq<char>, TaskKind)>>,
    Ghost(head_edges): Ghost<Seq<(usize, usize)>>,
)
    requires
        no_repeats(targets@),
        holds(*old(graph), package_name@, head, head_edges),
        base.len() <= 13,
        base.len() <= head.len() <= base.len() + 1,
        forall|k: int| 0 <= k < base.len() ==> head[k] == base[k],
        forall|k: int| base.len() <= k < head.len() ==> head[k].0 == "validate-wrac-rules"@,
        head_edges.len() <= 13,
        forward(head_edges, head.len()),
        rules matches Some(r) ==> r < head.len(),
        starts_among(base, seq!['b', 'c', 'p']),
        forall|t: ValidateTarget| #[trigger] targets@.contains(t) ==> btv.contains(validate_target_target(t)),
        forall|t: Target|
            btv.contains(t) ==> #[trigger] nodes.get_spec(t) == Some(task_pos(base, build_suffix(t)) as usize) && 0
                <= task_pos(base, build_suffix(t)) < base.len(),
    ensures
        holds(
            *final(graph),
            package_name@,
            head + validate_blocks(targets@),
            head_edges + validate_edges(base, opt_int(rules), head.len() as int, targets@),
        ),
        !has_cycle(final(graph).len(), final(graph).edges()),
{
    let ghost mut au: Option<usize> = None;
    let mut j: usize = 0;
    proof {
        lemma_validate_names_distinct();
        lemma_three_validate(targets@);
        reveal_strlit("validate-wrac-rules");
        reveal_strlit("install-Au-for-validation");
        assert(head + validate_blocks(targets@.take(0)) =~= head);
        assert(head_edges + validate_edges(base, opt_int(rules), head.len() as int, targets@.take(0)) =~= head_edges);
    }
    while j < targets.len()
        invariant
            no_repeats(targets@),
            targets@.len() <= 4,
            j <= targets@.len(),
            base.len() <= 13,
            base.len() <= head.len() <= base.len() + 1,
            forall|k: int| 0 <= k < base.len() ==> head[k] == base[k],
            forall|k: int| base.len() <= k < head.len() ==> head[k].0 == "validate-wrac-rules"@,
            rules matches Some(r) ==> r < head.len(),
            starts_among(base, seq!['b', 'c', 'p']),
            head_edges.len() <= 13,
            holds(
                *graph,
                package_name@,
                head + validate_blocks(targets@.take(j as int)),
                head_edges + validate_edges(base, opt_int(rules), head.len() as int, targets@.take(j as int)),
            ),
            validate_edges(base, opt_int(rules), head.len() as int, targets@.take(j as int)).len() <= 3 * j,
            au_ranked(graph.edges(), au),
            au matches Some(a) ==> head.len() <= a < graph.len(),
            (au is Some) == targets@.take(j as int).contains(ValidateTarget::Au),
            forall|t: ValidateTarget| #[trigger] targets@.contains(t) ==> btv.contains(validate_target_target(t)),
            forall|t: Target|
                btv.contains(t) ==> #[trigger] nodes.get_spec(t) == Some(task_pos(base, build_suffix(t)) as usize) && 0
                    <= task_pos(base, build_suffix(t)) < base.len(),
            forall|a: ValidateTarget, b: ValidateTarget|
                #![trigger validate_suffix(a), validate_suffix(b)]
                validate_suffix(a) == validate_suffix(b) ==> a == b,
            forall|a: ValidateTarget|
                #![trigger validate_suffix(a)]
                validate_suffix(a).len() > 9 && validate_suffix(a)[0] == 'v',
            forall|a: ValidateTarget| #[trigger] validate_suffix(a) != "validate-wrac-rules"@,
            au_install_task().0[0] == 'i',
            "validate-wrac-rules"@[0] == 'v',
        decreases targets.len() - j,
    {
        let t = targets[j];
        let ghost pre = targets@.take(j as int);
        let ghost cur = head + validate_blocks(pre);
        let ghost cur_edges = head_edges + validate_edges(base, opt_int(rules), head.len() as int, pre);
        proof {
            lemma_blocks_shape(pre);
            assert(targets@.contains(t)) by {
                assert(targets@[j as int] == t);
            }
            assert(!pre.contains(t)) by {
                if pre.contains(t) {
                    let m = choose|m: int| 0 <= m < pre.len() && pre[m] == t;
                    assert(targets@[m] == targets@[j as int]);
                }
            }
            lemma_validation_fresh(base, head, pre, t);
            graph.lemma_wf();
        }
        let build = match nodes.get(t.target()) {
            Some(b) => b,
            None => {
                proof {
                    assert(false);
                }
                0
            },
        };
        proof {
            lemma_rank_step(cur_edges, cur.len(), au, head.len(), base, opt_int(rules), t);
        }
        add_validation_block(graph, package_name, t, rules, build, Ghost(base), Ghost(cur), Ghost(cur_edges));
        proof {
            assert(targets@.take(j + 1).drop_last() =~= pre);
            assert(cur + validate_block(t) =~= head + validate_blocks(targets@.take(j + 1)));
            assert(cur_edges + validate_block_edges(base, opt_int(rules), t, cur.len() as int) =~= head_edges
                + validate_edges(base, opt_int(rules), head.len() as int, targets@.take(j + 1)));
            assert(validate_block_edges(base, opt_int(rules), t, cur.len() as int).len() <= 3);
            vstd::seq_lib::lemma_seq_contains_after_push(pre, t, ValidateTarget::Au);
            assert(targets@.take(j + 1) =~= pre.push(t));
            if t == ValidateTarget::Au {
                au = Some(cur.len() as usize);
            }
        }
        j += 1;
    }
    proof {
        assert(targets@.take(targets@.len() as int) =~= targets@);
        lemma_ranked_acyclic(graph.len(), graph.edges(), |v: usize| vrank(au, v));
    }
}

/// A new validation's tasks do not repeat a suffix that is already there.
proof fn lemma_validation_fresh(
    base: Seq<(Seq<char>, TaskKind)>,
    head: Seq<(Seq<char>, TaskKind)>,
    pre: Seq<ValidateTarget>,
    t: ValidateTarget,
)
    requires
        !pre.contains(t),
        base.len() <= head.len() <= base.len() + 1,
        forall|k: int| 0 <= k < base.len() ==> head[k] == base[k],
        forall|k: int| base.len() <= k < head.len() ==> head[k].0 == "validate-wrac-rules"@,
        starts_among(base, seq!['b', 'c', 'p']),
        forall|a: ValidateTarget, b: ValidateTarget|
            #![trigger validate_suffix(a), validate_suffix(b)]
            validate_suffix(a) == validate_suffix(b) ==> a == b,
        forall|a: ValidateTarget|
            #![trigger validate_suffix(a)]
            validate_suffix(a).len() > 9 && validate_suffix(a)[0] == 'v',
        forall|a: ValidateTarget| #[trigger] validate_suffix(a) != "validate-wrac-rules"@,
        au_install_task().0[0] == 'i',
        "validate-wrac-rules"@[0] == 'v',
    ensures
        forall|k: int|
            0 <= k < (head + validate_blocks(pre)).len() ==> (head + validate_blocks(pre))[k].0 != validate_suffix(t),
        t == ValidateTarget::Au ==> forall|k: int|
            0 <= k < (head + validate_blocks(pre)).len() ==> (head + validate_blocks(pre))[k].0 != au_install_task().0,
{
    lemma_blocks_shape(pre);
    let cur = head + validate_blocks(pre);
    let blocks = validate_blocks(pre);
    assert forall|k: int| 0 <= k < cur.len() implies cur[k].0 != validate_suffix(t) && (t == ValidateTarget::Au
        ==> cur[k].0 != au_install_task().0) by {
        if k < base.len() {
            assert(cur[k] == base[k]);
            assert(seq!['b', 'c', 'p'].contains(base[k].0[0]));
            assert(validate_suffix(t)[0] == 'v');
        } else if k < head.len() {
            assert(cur[k].0 == "validate-wrac-rules"@);
        } else {
            assert(cur[k] == blocks[k - head.len()]);
            if exists|m: int| 0 <= m < pre.len() && (#[trigger] blocks[k - head.len()]).0 == validate_suffix(pre[m]) {
                let m = choose|m: int| 0 <= m < pre.len() && blocks[k - head.len()].0 == validate_suffix(pre[m]);
                assert(pre[m] != t);
                assert(validate_suffix(pre[m])[0] == 'v');
            } else {
                assert(blocks[k - head.len()] == au_install_task());
                assert(validate_suffix(t)[0] == 'v');
            }
        }
    }
}

/// The plan of `xtask validate`: the build plan of the validated targets
/// (and of CLAP for the rule checks), the rule checks after the CLAP bundle,
/// and each validation after its bundle and after the rule checks; the AU
/// validation runs on the bundle installed for the user.
pub fn validate_plan(package_name: &str, platform: Platform, targets: &[ValidateTarget], checks: ValidateChecks) -> (r:
    TaskPlan)
    requires
        no_repeats(targets@),
    ensures
        ({
            let rd = checks.run_production_readiness;
            let ex = checks.run_external_validators;
            let bt = validate_build_targets(targets@, rd);
            let base = artifact_tasks(bt, false, None, None, platform);
            let head = validate_head(base, rd, r.kinds()[base.len() as int]);
            let rules = if rd {
                Some(base.len() as int)
            } else {
                None
            };
            &&& holds(
                r,
                package_name@,
                head + if ex {
                    validate_blocks(targets@)
                } else {
                    Seq::empty()
                },
                artifact_edges(bt, false, None, None, platform) + rules_edges(base, rd) + if ex {
                    validate_edges(base, rules, head.len() as int, targets@)
                } else {
                    Seq::empty()
                },
            )
            &&& rd ==> (r.kinds()[base.len() as int] matches TaskKind::ValidateWracRules { targets: v } && v@
                == targets@)
            &&& !has_cycle(r.len(), r.edges())
        }),
{
    let rd = checks.run_production_readiness;
    let ex = checks.run_external_validators;
    let (mut graph, nodes, rules) = validate_head_plan(package_name, platform, targets, rd);
    let ghost btv = validate_build_targets(targets@, rd);
    let ghost base = artifact_tasks(btv, false, None, None, platform);
    let ghost rk = graph.kinds()[base.len() as int];
    let ghost head = validate_head(base, rd, rk);
    let ghost head_edges = artifact_edges(btv, false, None, None, platform) + rules_edges(base, rd);
    if ex {
        proof {
            assert forall|k: int| 0 <= k < base.len() implies head[k] == base[k] by {}
        }
        add_validations(
            &mut graph,
            package_name,
            targets,
            rules,
            nodes,
            Ghost(base),
            Ghost(btv),
            Ghost(head),
            Ghost(head_edges),
        );
        proof {
            assert(validate_head(base, rd, graph.kinds()[base.len() as int]) == head) by {
                if rd {
                    assert((head + validate_blocks(targets@))[base.len() as int] == head[base.len() as int]);
                }
            }
            assert(opt_int(rules) == (if rd { Some(base.len() as int) } else { None::<int> }));
        }
    } else {
        proof {
            assert(head + Seq::<(Seq<char>, TaskKind)>::empty() =~= head);
            assert(head_edges + Seq::<(usize, usize)>::empty() =~= head_edges);
            lemma_forward_acyclic(graph.len(), graph.edges());
        }
    }
    graph
}

proof fn lemma_three_validate(s: Seq<ValidateTarget>)
    requires
        no_repeats(s),
    ensures
        s.len() <= 4,
{
    if s.len() > 4 {
        assert(s[0] != s[1] && s[0] != s[2] && s[0] != s[3] && s[0] != s[4] && s[1] != s[2] && s[1] != s[3]
            && s[1] != s[4] && s[2] != s[3] && s[2] != s[4] && s[3] != s[4]);
    }
}

} // verus!
