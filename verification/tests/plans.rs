use wrac::plan::{ordered_plan, TaskKind, TaskPlan};
use wrac::workflow::{TaskGraph, TaskId};
use wrac::planner::{
    build_artifact_plan, clean_plan, install_plan, launch_plan, task_id, uninstall_plan, validate_checks,
    validate_plan, ValidateCheck, ValidateChecks,
};
use wrac::targets::{Platform, PluginTarget, Target, ValidateTarget};
use wrac::xtask::{InstallScope, UninstallScope};

fn ids(plan: &TaskPlan) -> Vec<String> {
    (0..plan.node_count()).map(|n| plan.id(n).as_str().to_string()).collect()
}

fn deps(plan: &TaskPlan, node: usize) -> Vec<usize> {
    let mut d = plan.dependencies(node);
    d.sort();
    d
}

fn suffixed(package: &str, suffixes: &[&str]) -> Vec<String> {
    suffixes.iter().map(|s| format!("{package}:{s}")).collect()
}

#[test]
fn task_ids_prefix_the_package() {
    assert_eq!(task_id("gain", "build-gui").as_str(), "gain:build-gui");
}

#[test]
fn build_plan_for_clap_and_standalone_after_clean() {
    let plan = build_artifact_plan("gain", Platform::Linux, &[Target::Clap, Target::Standalone], true, None, None);
    assert_eq!(
        ids(&plan.graph),
        suffixed(
            "gain",
            &[
                "clean",
                "build-gui",
                "build-rust-default",
                "build-rust-standalone",
                "package-clap",
                "configure-wrapper-standalone",
                "build-standalone",
            ]
        )
    );
    assert_eq!(deps(&plan.graph, 1), vec![0]);
    assert_eq!(deps(&plan.graph, 2), vec![1]);
    assert_eq!(deps(&plan.graph, 3), vec![1]);
    assert_eq!(deps(&plan.graph, 4), vec![2]);
    assert_eq!(deps(&plan.graph, 5), vec![3]);
    assert_eq!(deps(&plan.graph, 6), vec![5]);
    assert_eq!(plan.build_by_target.clap, Some(4));
    assert_eq!(plan.build_by_target.standalone, Some(6));
    assert_eq!(plan.build_by_target.vst3, None);
    assert_eq!(plan.graph.ordered().unwrap(), vec![0, 1, 2, 3, 4, 5, 6]);
}

#[test]
fn wrapper_configuration_covers_the_platform_formats() {
    let plan = build_artifact_plan("gain", Platform::Macos, &[Target::Vst3], false, None, None);
    assert_eq!(
        ids(&plan.graph),
        suffixed("gain", &["build-gui", "build-rust-default", "configure-wrapper-plugins", "build-vst3"])
    );
    assert!(matches!(plan.graph.kind(2), TaskKind::ConfigureWrapperPlugins { vst3: true, au: true }));
    let plan = build_artifact_plan("gain", Platform::Linux, &[Target::Vst3], false, None, None);
    assert!(matches!(plan.graph.kind(2), TaskKind::ConfigureWrapperPlugins { vst3: true, au: false }));
}

#[test]
fn install_plan_checks_scope_before_building_and_installs_after() {
    let plan = install_plan("gain", Platform::Macos, &[PluginTarget::Clap, PluginTarget::Vst3], InstallScope::User);
    assert_eq!(
        ids(&plan),
        suffixed(
            "gain",
            &[
                "check-install-scope-Clap",
                "check-install-scope-Vst3",
                "build-gui",
                "build-rust-default",
                "package-clap",
                "configure-wrapper-plugins",
                "build-vst3",
                "install-Clap",
                "install-Vst3",
            ]
        )
    );
    assert_eq!(deps(&plan, 4), vec![0, 3]);
    assert_eq!(deps(&plan, 5), vec![1, 3]);
    assert_eq!(deps(&plan, 7), vec![4]);
    assert_eq!(deps(&plan, 8), vec![6]);
    assert!(matches!(plan.kind(8), TaskKind::InstallBundle { target: PluginTarget::Vst3, scope: InstallScope::User }));
    assert_eq!(plan.ordered().unwrap(), vec![0, 1, 2, 3, 4, 5, 6, 7, 8]);
}

#[test]
fn uninstall_plan_has_independent_tasks() {
    let plan = uninstall_plan("gain", &[PluginTarget::Au, PluginTarget::Clap], UninstallScope::All, true);
    assert_eq!(ids(&plan), suffixed("gain", &["uninstall-Au", "uninstall-Clap"]));
    assert!(deps(&plan, 0).is_empty() && deps(&plan, 1).is_empty());
    assert!(matches!(
        plan.kind(0),
        TaskKind::UninstallBundle { target: PluginTarget::Au, scope: UninstallScope::All, dry_run: true }
    ));
}

#[test]
fn clean_plan_is_one_task() {
    let plan = clean_plan("gain");
    assert_eq!(ids(&plan), suffixed("gain", &["clean"]));
}

#[test]
fn launch_plan_runs_after_the_standalone_bundle() {
    let plan = launch_plan("gain", Platform::Windows, Some("com.example.gain".to_string()));
    assert_eq!(
        ids(&plan),
        suffixed(
            "gain",
            &[
                "build-gui",
                "build-rust-standalone",
                "configure-wrapper-standalone",
                "build-standalone",
                "launch-standalone",
            ]
        )
    );
    assert_eq!(deps(&plan, 4), vec![3]);
    assert!(matches!(plan.kind(4), TaskKind::LaunchStandalone { plugin_id: Some(id) } if id == "com.example.gain"));
}

#[test]
fn validate_plan_installs_au_before_validating_it() {
    let checks = ValidateChecks { run_external_validators: true, run_production_readiness: true };
    let plan = validate_plan("gain", Platform::Macos, &[ValidateTarget::Au], checks);
    assert_eq!(
        ids(&plan),
        suffixed(
            "gain",
            &[
                "build-gui",
                "build-rust-default",
                "package-clap",
                "configure-wrapper-plugins",
                "build-au",
                "validate-wrac-rules",
                "validate-Au",
                "install-Au-for-validation",
            ]
        )
    );
    assert_eq!(deps(&plan, 5), vec![2]);
    assert_eq!(deps(&plan, 6), vec![5, 7]);
    assert_eq!(deps(&plan, 7), vec![4]);
    assert!(matches!(plan.kind(5), TaskKind::ValidateWracRules { targets } if targets == &vec![ValidateTarget::Au]));
    // The AU validation waits for the install that was added after it.
    assert_eq!(plan.ordered().unwrap(), vec![0, 1, 2, 3, 4, 5, 7, 6]);
}

#[test]
fn validate_plan_without_rule_checks_validates_each_bundle() {
    let checks = ValidateChecks { run_external_validators: true, run_production_readiness: false };
    let plan = validate_plan("gain", Platform::Linux, &[ValidateTarget::Clap, ValidateTarget::Vst3], checks);
    assert_eq!(
        ids(&plan),
        suffixed(
            "gain",
            &[
                "build-gui",
                "build-rust-default",
                "package-clap",
                "configure-wrapper-plugins",
                "build-vst3",
                "validate-Clap",
                "validate-Vst3",
            ]
        )
    );
    assert_eq!(deps(&plan, 5), vec![2]);
    assert_eq!(deps(&plan, 6), vec![4]);
}

#[test]
fn validate_plan_with_rule_checks_only_builds_clap() {
    let checks = ValidateChecks { run_external_validators: false, run_production_readiness: true };
    let plan = validate_plan("gain", Platform::Linux, &[ValidateTarget::Standalone], checks);
    assert_eq!(
        ids(&plan),
        suffixed(
            "gain",
            &[
                "build-gui",
                "build-rust-default",
                "build-rust-standalone",
                "package-clap",
                "configure-wrapper-standalone",
                "build-standalone",
                "validate-wrac-rules",
            ]
        )
    );
    assert_eq!(deps(&plan, 6), vec![3]);
}

#[test]
fn validate_checks_default_to_both() {
    let both = validate_checks(&[]);
    assert!(both.run_external_validators && both.run_production_readiness);
    let only = validate_checks(&[ValidateCheck::ProductionReadiness]);
    assert!(!only.run_external_validators && only.run_production_readiness);
    let named = validate_checks(&[ValidateCheck::ExternalValidators, ValidateCheck::ProductionReadiness]);
    assert!(named.run_external_validators && named.run_production_readiness);
}

#[test]
fn build_artifacts_alone_runs_no_validation() {
    let none = validate_checks(&[ValidateCheck::BuildArtifacts]);
    assert!(!none.run_external_validators && !none.run_production_readiness);
}

#[test]
fn a_plan_with_a_cycle_has_no_order() {
    let mut plan: TaskPlan = TaskGraph::new();
    let a = plan.task(TaskId::new("gain:a".to_string()), TaskKind::Clean);
    let b = plan.task(TaskId::new("gain:b".to_string()), TaskKind::BuildGui);
    assert_eq!(plan.task(TaskId::new("gain:a".to_string()), TaskKind::BuildGui), a);
    plan.depends_on(b, a);
    assert_eq!(ordered_plan(&plan).unwrap(), vec![a, b]);
    plan.depends_on(a, b);
    assert_eq!(ordered_plan(&plan).unwrap_err(), "internal xtask task graph has a dependency cycle");
    assert_eq!(plan.ordered().unwrap_err(), "xtask workflow graph has a dependency cycle");
}
