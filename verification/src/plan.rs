//! The WRAC build task kinds, their labels, and the decisions of the plan
//! executor: which task runs next, which is skipped, and when to stop.
use vstd::prelude::*;
use crate::targets::{PluginTarget, ValidateTarget, target_display, plugin_target_target, validate_target_target};
use crate::xtask::{InstallScope, UninstallScope, XtaskOutputLanguage, install_scope_name};
use crate::workflow::{
    FailurePolicy, TaskGraph, TaskId, TaskStatus, failed_ids, has_cycle, incoming_sources, stable_order, views_of_ids,
};
use crate::text::{join, owned, push_joined, push_str, string_views};

verus! {

/// The work a build task performs.
#[derive(Debug, Clone)]
pub enum TaskKind {
    Clean,
    BuildGui,
    BuildRustDefault,
    BuildRustStandalone,
    PackageClap,
    ConfigureWrapperPlugins { vst3: bool, au: bool },
    ConfigureWrapperAax,
    ConfigureWrapperStandalone,
    BuildVst3Bundle,
    BuildAuBundle,
    BuildAaxBundle,
    BuildStandaloneBundle { plugin_id: Option<String> },
    LaunchStandalone { plugin_id: Option<String> },
    CheckInstallScope { target: PluginTarget, scope: InstallScope },
    InstallBundle { target: PluginTarget, scope: InstallScope },
    UninstallBundle { target: PluginTarget, scope: UninstallScope, dry_run: bool },
    ValidateWracRules { targets: Vec<ValidateTarget> },
    ValidateBundle { target: ValidateTarget },
}

/// The plan of build tasks.
pub type TaskPlan = TaskGraph<TaskKind>;

/// The wrapper formats a wrapper configure step covers.
pub open spec fn wrapper_formats(vst3: bool, au: bool) -> Seq<Seq<char>> {
    (if vst3 { seq!["VST3"@] } else { Seq::empty() }) + (if au { seq!["AU"@] } else { Seq::empty() })
}

/// The display names of validation targets.
pub open spec fn validate_target_names(ts: Seq<ValidateTarget>) -> Seq<Seq<char>> {
    ts.map_values(|t: ValidateTarget| target_display(validate_target_target(t)))
}

/// A label with an optional plugin id in parentheses.
pub open spec fn with_plugin_id(base: Seq<char>, id: Option<String>) -> Seq<char> {
    match id {
        Some(p) => base + " ("@ + p@ + ")"@,
        None => base,
    }
}

/// The label of a task kind.
pub open spec fn kind_label(l: XtaskOutputLanguage, k: TaskKind) -> Seq<char> {
    let en = l == XtaskOutputLanguage::English;
    match k {
        TaskKind::Clean => if en { "clean generated artifacts"@ } else { "生成済み成果物を削除"@ },
        TaskKind::BuildGui => if en { "build GUI"@ } else { "GUI をビルド"@ },
        TaskKind::BuildRustDefault => if en { "build Rust plugin library"@ } else { "Rust プラグインライブラリをビルド"@ },
        TaskKind::BuildRustStandalone => if en { "build Rust standalone library"@ } else { "Rust standalone ライブラリをビルド"@ },
        TaskKind::PackageClap => if en { "package CLAP bundle"@ } else { "CLAP bundle をパッケージ"@ },
        TaskKind::ConfigureWrapperPlugins { vst3, au } => (if en { "configure clap-wrapper ("@ } else {
            "clap-wrapper を設定 ("@
        }) + join(wrapper_formats(vst3, au), ", "@) + ")"@,
        TaskKind::ConfigureWrapperAax => if en { "configure clap-wrapper (AAX)"@ } else { "clap-wrapper を設定 (AAX)"@ },
        TaskKind::ConfigureWrapperStandalone => if en { "configure clap-wrapper (standalone)"@ } else {
            "clap-wrapper を設定 (standalone)"@
        },
        TaskKind::BuildVst3Bundle => if en { "build VST3 bundle"@ } else { "VST3 bundle をビルド"@ },
        TaskKind::BuildAuBundle => if en { "build AU bundle"@ } else { "AU bundle をビルド"@ },
        TaskKind::BuildAaxBundle => if en { "build AAX bundle"@ } else { "AAX bundle をビルド"@ },
        TaskKind::BuildStandaloneBundle { plugin_id } => with_plugin_id(
            if en { "build standalone artifact"@ } else { "standalone 成果物をビルド"@ },
            plugin_id,
        ),
        TaskKind::LaunchStandalone { plugin_id } => with_plugin_id(
            if en { "launch standalone artifact"@ } else { "standalone artifact を起動"@ },
            plugin_id,
        ),
        TaskKind::CheckInstallScope { target, scope } => if en {
            "check install scope for "@ + target_display(plugin_target_target(target)) + " ("@
                + install_scope_name(scope) + ")"@
        } else {
            target_display(plugin_target_target(target)) + " のインストール先を確認"@ + " ("@
                + install_scope_name(scope) + ")"@
        },
        TaskKind::InstallBundle { target, scope } => if en {
            "install "@ + target_display(plugin_target_target(target)) + " ("@ + install_scope_name(scope)
                + ")"@
        } else {
            target_display(plugin_target_target(target)) + " をインストール"@ + " ("@ + install_scope_name(scope)
                + ")"@
        },
        TaskKind::UninstallBundle { target, scope, dry_run } => {
            let t = target_display(plugin_target_target(target));
            if en {
                if dry_run { "plan uninstall "@ + t } else { "uninstall "@ + t }
            } else {
                if dry_run { t + " のアンインストール内容を確認"@ } else { t + " をアンインストール"@ }
            }
        },
        TaskKind::ValidateWracRules { targets } => (if en { "run WRAC production-readiness checks ("@ } else {
            "WRAC production-readiness checks を実行 ("@
        }) + join(validate_target_names(targets@), ", "@) + ")"@,
        TaskKind::ValidateBundle { target } => if en {
            "validate "@ + target_display(validate_target_target(target))
        } else {
            target_display(validate_target_target(target)) + " を検証"@
        },
    }
}

fn push_plugin_id(s: &mut String, plugin_id: &Option<String>)
    ensures
        final(s)@ == with_plugin_id(old(s)@, *plugin_id),
{
    match plugin_id {
        Some(p) => {
            push_str(s, " (");
            push_str(s, p.as_str());
            push_str(s, ")");
        },
        None => {},
    }
}

fn validate_names(targets: &Vec<ValidateTarget>) -> (r: Vec<String>)
    ensures
        string_views(r@) == validate_target_names(targets@),
{
    let mut out: Vec<String> = Vec::new();
    let mut i: usize = 0;
    while i < targets.len()
        invariant
            i <= targets.len(),
            string_views(out@) == validate_target_names(targets@.take(i as int)),
        decreases targets.len() - i,
    {
        let ghost before = out@;
        out.push(owned(targets[i].display()));
        proof {
            assert(string_views(out@) =~= string_views(before).push(out@[i as int]@));
            assert(validate_target_names(targets@.take(i + 1)) =~= validate_target_names(targets@.take(i as int)).push(target_display(validate_target_target(targets@[i as int]))));
        }
        i += 1;
    }
    assert(targets@.take(targets.len() as int) =~= targets@);
    out
}

impl TaskKind {
    /// The label of the task in the given language.
    pub fn label(&self, language: XtaskOutputLanguage) -> (r: String)
        ensures
            r@ == kind_label(language, *self),
    {
        let en = language == XtaskOutputLanguage::English;
        match self {
            TaskKind::Clean => if en { owned("clean generated artifacts") } else { owned("生成済み成果物を削除") },
            TaskKind::BuildGui => if en { owned("build GUI") } else { owned("GUI をビルド") },
            TaskKind::BuildRustDefault => if en { owned("build Rust plugin library") } else { owned("Rust プラグインライブラリをビルド") },
            TaskKind::BuildRustStandalone => if en { owned("build Rust standalone library") } else { owned("Rust standalone ライブラリをビルド") },
            TaskKind::PackageClap => if en { owned("package CLAP bundle") } else { owned("CLAP bundle をパッケージ") },
            TaskKind::ConfigureWrapperPlugins { vst3, au } => {
                let mut formats: Vec<String> = Vec::new();
                if *vst3 {
                    formats.push(owned("VST3"));
                }
                if *au {
                    formats.push(owned("AU"));
                }
                assert(string_views(formats@) =~= wrapper_formats(*vst3, *au));
                let mut s = if en { owned("configure clap-wrapper (") } else { owned("clap-wrapper を設定 (") };
                push_joined(&mut s, &formats, ", ");
                push_str(&mut s, ")");
                s
            },
            TaskKind::ConfigureWrapperAax => if en { owned("configure clap-wrapper (AAX)") } else { owned("clap-wrapper を設定 (AAX)") },
            TaskKind::ConfigureWrapperStandalone => if en { owned("configure clap-wrapper (standalone)") } else { owned("clap-wrapper を設定 (standalone)") },
            TaskKind::BuildVst3Bundle => if en { owned("build VST3 bundle") } else { owned("VST3 bundle をビルド") },
            TaskKind::BuildAuBundle => if en { owned("build AU bundle") } else { owned("AU bundle をビルド") },
            TaskKind::BuildAaxBundle => if en { owned("build AAX bundle") } else { owned("AAX bundle をビルド") },
            TaskKind::BuildStandaloneBundle { plugin_id } => {
                let mut s = if en { owned("build standalone artifact") } else { owned("standalone 成果物をビルド") };
                push_plugin_id(&mut s, plugin_id);
                s
            },
            TaskKind::LaunchStandalone { plugin_id } => {
                let mut s = if en { owned("launch standalone artifact") } else { owned("standalone artifact を起動") };
                push_plugin_id(&mut s, plugin_id);
                s
            },
            TaskKind::CheckInstallScope { target, scope } => {
                let mut s = if en {
                    let mut s = owned("check install scope for ");
                    push_str(&mut s, target.display());
                    s
                } else {
                    let mut s = owned(target.display());
                    push_str(&mut s, " のインストール先を確認");
                    s
                };
                push_str(&mut s, " (");
                push_str(&mut s, scope.name());
                push_str(&mut s, ")");
                s
            },
            TaskKind::InstallBundle { target, scope } => {
                let mut s = if en {
                    let mut s = owned("install ");
                    push_str(&mut s, target.display());
                    s
                } else {
                    let mut s = owned(target.display());
                    push_str(&mut s, " をインストール");
                    s
                };
                push_str(&mut s, " (");
                push_str(&mut s, scope.name());
                push_str(&mut s, ")");
                s
            },
            TaskKind::UninstallBundle { target, dry_run, .. } => {
                if en {
                    let mut s = owned(if *dry_run { "plan uninstall " } else { "uninstall " });
                    push_str(&mut s, target.display());
                    s
                } else {
                    let mut s = owned(target.display());
                    push_str(&mut s, if *dry_run { " のアンインストール内容を確認" } else { " をアンインストール" });
                    s
                }
            },
            TaskKind::ValidateWracRules { targets } => {
                let names = validate_names(targets);
                let mut s = if en { owned("run WRAC production-readiness checks (") } else { owned("WRAC production-readiness checks を実行 (") };
                push_joined(&mut s, &names, ", ");
                push_str(&mut s, ")");
                s
            },
            TaskKind::ValidateBundle { target } => {
                if en {
                    let mut s = owned("validate ");
                    push_str(&mut s, target.display());
                    s
                } else {
                    let mut s = owned(target.display());
                    push_str(&mut s, " を検証");
                    s
                }
            },
        }
    }
}

/// The execution order of a build plan (`TaskPlan::ordered`): the stable
/// topological order, or the internal-graph error when the plan has a cycle.
pub fn ordered_plan(plan: &TaskPlan) -> (r: Result<Vec<usize>, String>)
    requires
        plan.wf(),
    ensures
        r matches Ok(order) ==> order@.len() == plan.len() && stable_order(plan.len(), plan.edges(), order@),
        r is Err <==> has_cycle(plan.len(), plan.edges()),
        r matches Err(e) ==> e@ == "internal xtask task graph has a dependency cycle"@,
{
    match plan.ordered() {
        Ok(order) => Ok(order),
        Err(_) => Err(owned("internal xtask task graph has a dependency cycle")),
    }
}

/// `--continue-on-error` keeps independent tasks running after a failure.
pub fn failure_policy(continue_on_error: bool) -> (r: FailurePolicy)
    ensures
        r == (if continue_on_error { FailurePolicy::Continue } else { FailurePolicy::FailFast }),
{
    if continue_on_error {
        FailurePolicy::Continue
    } else {
        FailurePolicy::FailFast
    }
}

} // verus!

verus! {

/// What the executor does next.
#[derive(Debug)]
pub enum PlanStep {
    /// The task is skipped because the listed dependencies failed or were skipped.
    Skip { node: usize, failed_deps: Vec<String> },
    /// The task runs; its result is handed back with `record_result`.
    Run { node: usize },
    /// Nothing is left to do.
    Finished,
}

/// The executor's state while a plan runs.
pub struct PlanRun {
    order: Vec<usize>,
    position: usize,
    statuses: Vec<TaskStatus>,
    failures: Vec<String>,
    policy: FailurePolicy,
    stopped: bool,
    running: bool,
}

/// The number of tasks with status `st`.
pub open spec fn count_status(statuses: Seq<TaskStatus>, st: TaskStatus) -> nat
    decreases statuses.len(),
{
    if statuses.len() == 0 {
        0
    } else {
        count_status(statuses.drop_last(), st) + if statuses.last() == st { 1nat } else { 0nat }
    }
}

fn owned_ids(ids: &Vec<&TaskId>) -> (r: Vec<String>)
    ensures
        string_views(r@) == views_of_ids(ids@),
{
    let mut out: Vec<String> = Vec::new();
    let mut i: usize = 0;
    while i < ids.len()
        invariant
            i <= ids.len(),
            string_views(out@) == views_of_ids(ids@.take(i as int)),
        decreases ids.len() - i,
    {
        let ghost before = out@;
        out.push(owned(ids[i].as_str()));
        proof {
            assert(string_views(out@) =~= string_views(before).push(ids@[i as int]@));
            assert(views_of_ids(ids@.take(i + 1)) =~= views_of_ids(ids@.take(i as int)).push(ids@[i as int]@));
        }
        i += 1;
    }
    assert(ids@.take(ids.len() as int) =~= ids@);
    out
}

impl PlanRun {
    pub closed spec fn order(&self) -> Seq<usize> {
        self.order@
    }

    pub closed spec fn position(&self) -> nat {
        self.position as nat
    }

    pub closed spec fn statuses(&self) -> Seq<TaskStatus> {
        self.statuses@
    }

    pub closed spec fn failures(&self) -> Seq<Seq<char>> {
        string_views(self.failures@)
    }

    pub closed spec fn policy(&self) -> FailurePolicy {
        self.policy
    }

    /// A failure stopped the run under the fail-fast policy.
    pub closed spec fn stopped(&self) -> bool {
        self.stopped
    }

    /// A task was handed out to run and its result is awaited.
    pub closed spec fn running(&self) -> bool {
        self.running
    }

    /// The run is consistent with a plan of `n` tasks.
    pub closed spec fn wf(&self, n: nat) -> bool {
        &&& self.order@.len() == n
        &&& self.statuses@.len() == n
        &&& self.position <= n
        &&& forall|i: int| 0 <= i < n ==> #[trigger] self.order@[i] < n
        &&& self.running ==> self.position < n
    }

    /// A run of `plan` in the given order, with every task planned.
    pub fn start<K>(plan: &TaskGraph<K>, order: Vec<usize>, policy: FailurePolicy) -> (r: PlanRun)
        requires
            plan.wf(),
            order@.len() == plan.len(),
            stable_order(plan.len(), plan.edges(), order@),
        ensures
            r.wf(plan.len()),
            r.order() == order@,
            r.position() == 0,
            r.statuses() == Seq::new(plan.len(), |i: int| TaskStatus::Planned),
            r.failures() == Seq::<Seq<char>>::empty(),
            r.policy() == policy,
            !r.stopped(),
            !r.running(),
    {
        let n = plan.node_count();
        let mut statuses: Vec<TaskStatus> = Vec::new();
        while statuses.len() < n
            invariant
                statuses.len() <= n,
                forall|i: int| 0 <= i < statuses.len() ==> statuses@[i] == TaskStatus::Planned,
            decreases n - statuses.len(),
        {
            statuses.push(TaskStatus::Planned);
        }
        proof {
            crate::workflow::lemma_stable_no_repeats(plan.len(), plan.edges(), order@);
        }
        let r = PlanRun {
            order,
            position: 0,
            statuses,
            failures: Vec::new(),
            policy,
            stopped: false,
            running: false,
        };
        assert(r.statuses() =~= Seq::new(plan.len(), |i: int| TaskStatus::Planned));
        assert(r.failures() =~= Seq::<Seq<char>>::empty());
        r
    }

    /// Decides what happens to the next task: a task whose dependencies
    /// failed or were skipped is skipped and never runs; any other task runs.
    /// Nothing happens once the order is exhausted or a fail-fast run stopped.
    pub fn next_step<K>(&mut self, plan: &TaskGraph<K>) -> (r: PlanStep)
        requires
            plan.wf(),
            old(self).wf(plan.len()),
            !old(self).running(),
        ensures
            final(self).wf(plan.len()),
            final(self).order() == old(self).order(),
            final(self).failures() == old(self).failures(),
            final(self).policy() == old(self).policy(),
            final(self).stopped() == old(self).stopped(),
            old(self).stopped() || old(self).position() == old(self).order().len() ==> {
                &&& r is Finished
                &&& *final(self) == *old(self)
            },
            !old(self).stopped() && old(self).position() < old(self).order().len() ==> {
                let node = old(self).order()[old(self).position() as int];
                let failed = failed_ids(plan.ids(), incoming_sources(plan.edges(), node), old(self).statuses());
                if failed.len() > 0 {
                    &&& r matches PlanStep::Skip { node: n, failed_deps } && n == node && string_views(
                        failed_deps@,
                    ) == failed
                    &&& final(self).statuses() == old(self).statuses().update(node as int, TaskStatus::Skipped)
                    &&& final(self).position() == old(self).position() + 1
                    &&& !final(self).running()
                } else {
                    &&& r == PlanStep::Run { node }
                    &&& final(self).statuses() == old(self).statuses()
                    &&& final(self).position() == old(self).position()
                    &&& final(self).running()
                }
            },
    {
        if self.stopped || self.position == self.order.len() {
            return PlanStep::Finished;
        }
        let node = self.order[self.position];
        let failed = plan.failed_dependency_ids(node, &self.statuses);
        if failed.len() > 0 {
            let failed_deps = owned_ids(&failed);
            self.statuses.set(node, TaskStatus::Skipped);
            self.position = self.position + 1;
            PlanStep::Skip { node, failed_deps }
        } else {
            self.running = true;
            PlanStep::Run { node }
        }
    }

    /// Records the result of the task handed out by `next_step`: a failure
    /// is kept as `<id>: <error>` and stops a fail-fast run.
    pub fn record_result<K>(&mut self, plan: &TaskGraph<K>, result: Result<(), String>)
        requires
            plan.wf(),
            old(self).wf(plan.len()),
            old(self).running(),
        ensures
            final(self).wf(plan.len()),
            !final(self).running(),
            final(self).order() == old(self).order(),
            final(self).policy() == old(self).policy(),
            final(self).position() == old(self).position() + 1,
            ({
                let node = old(self).order()[old(self).position() as int];
                match result {
                    Ok(_) => {
                        &&& final(self).statuses() == old(self).statuses().update(node as int, TaskStatus::Succeeded)
                        &&& final(self).failures() == old(self).failures()
                        &&& final(self).stopped() == old(self).stopped()
                    },
                    Err(e) => {
                        &&& final(self).statuses() == old(self).statuses().update(node as int, TaskStatus::Failed)
                        &&& final(self).failures() == old(self).failures().push(plan.ids()[node as int] + ": "@ + e@)
                        &&& final(self).stopped() == (old(self).stopped() || old(self).policy() == FailurePolicy::FailFast)
                    },
                }
            }),
    {
        let pos = self.position;
        let total = self.order.len();
        assert(pos < total);
        let node = self.order[pos];
        match result {
            Ok(_) => {
                self.statuses.set(node, TaskStatus::Succeeded);
            },
            Err(e) => {
                self.statuses.set(node, TaskStatus::Failed);
                let mut msg = owned(plan.id(node).as_str());
                push_str(&mut msg, ": ");
                push_str(&mut msg, e.as_str());
                let ghost before = self.failures@;
                self.failures.push(msg);
                assert(string_views(self.failures@) =~= string_views(before).push(msg@));
                if self.policy == FailurePolicy::FailFast {
                    self.stopped = true;
                }
            },
        }
        self.position = pos + 1;
        self.running = false;
    }

    /// The result of the run: the failures, one per line, if there were any.
    pub fn outcome(&self) -> (r: Result<(), String>)
        ensures
            r is Ok <==> self.failures().len() == 0,
            r matches Err(e) ==> e@ == join(self.failures(), "\n"@),
    {
        if self.failures.len() == 0 {
            Ok(())
        } else {
            let mut s = String::new();
            push_joined(&mut s, &self.failures, "\n");
            Err(s)
        }
    }

    /// The status of every task, by node.
    pub fn status_list(&self) -> (r: &Vec<TaskStatus>)
        ensures
            r@ == self.statuses(),
    {
        &self.statuses
    }

    /// How many tasks succeeded, failed and were skipped.
    pub fn counts(&self) -> (r: (usize, usize, usize))
        ensures
            r.0 == count_status(self.statuses(), TaskStatus::Succeeded),
            r.1 == count_status(self.statuses(), TaskStatus::Failed),
            r.2 == count_status(self.statuses(), TaskStatus::Skipped),
    {
        let mut ok: usize = 0;
        let mut failed: usize = 0;
        let mut skipped: usize = 0;
        let mut i: usize = 0;
        while i < self.statuses.len()
            invariant
                i <= self.statuses.len(),
                ok == count_status(self.statuses@.take(i as int), TaskStatus::Succeeded),
                failed == count_status(self.statuses@.take(i as int), TaskStatus::Failed),
                skipped == count_status(self.statuses@.take(i as int), TaskStatus::Skipped),
                ok + failed + skipped <= i,
            decreases self.statuses.len() - i,
        {
            proof {
                assert(self.statuses@.take(i + 1).drop_last() =~= self.statuses@.take(i as int));
            }
            match self.statuses[i] {
                TaskStatus::Succeeded => ok = ok + 1,
                TaskStatus::Failed => failed = failed + 1,
                TaskStatus::Skipped => skipped = skipped + 1,
                TaskStatus::Planned => {},
            }
            i += 1;
        }
        assert(self.statuses@.take(self.statuses.len() as int) =~= self.statuses@);
        (ok, failed, skipped)
    }
}

} // verus!
