//! User-facing labels and messages of the task executor.
use vstd::prelude::*;
use crate::xtask::XtaskOutputLanguage;
use crate::targets::{PluginTarget, target_display, plugin_target_target};
use crate::workflow::TaskStatus;
use crate::text::{decimal, join, owned, push_decimal, push_joined, push_str, string_views};

verus! {

pub open spec fn status_text(l: XtaskOutputLanguage, s: TaskStatus) -> Seq<char> {
    match (l, s) {
        (XtaskOutputLanguage::English, TaskStatus::Planned) => "planned"@,
        (XtaskOutputLanguage::Japanese, TaskStatus::Planned) => "未実行"@,
        (XtaskOutputLanguage::English, TaskStatus::Succeeded) => "ok"@,
        (XtaskOutputLanguage::Japanese, TaskStatus::Succeeded) => "成功"@,
        (XtaskOutputLanguage::English, TaskStatus::Failed) => "failed"@,
        (XtaskOutputLanguage::Japanese, TaskStatus::Failed) => "失敗"@,
        (XtaskOutputLanguage::English, TaskStatus::Skipped) => "skipped"@,
        (XtaskOutputLanguage::Japanese, TaskStatus::Skipped) => "スキップ"@,
    }
}

/// The label of a task status.
pub fn status_label(language: XtaskOutputLanguage, status: TaskStatus) -> (r: &'static str)
    ensures
        r@ == status_text(language, status),
{
    match (language, status) {
        (XtaskOutputLanguage::English, TaskStatus::Planned) => "planned",
        (XtaskOutputLanguage::Japanese, TaskStatus::Planned) => "未実行",
        (XtaskOutputLanguage::English, TaskStatus::Succeeded) => "ok",
        (XtaskOutputLanguage::Japanese, TaskStatus::Succeeded) => "成功",
        (XtaskOutputLanguage::English, TaskStatus::Failed) => "failed",
        (XtaskOutputLanguage::Japanese, TaskStatus::Failed) => "失敗",
        (XtaskOutputLanguage::English, TaskStatus::Skipped) => "skipped",
        (XtaskOutputLanguage::Japanese, TaskStatus::Skipped) => "スキップ",
    }
}

pub open spec fn plan_heading_text(l: XtaskOutputLanguage) -> Seq<char> {
    match l {
        XtaskOutputLanguage::English => "Plan"@,
        XtaskOutputLanguage::Japanese => "実行計画"@,
    }
}

/// The heading of the plan listing.
pub fn plan_heading(language: XtaskOutputLanguage) -> (r: &'static str)
    ensures
        r@ == plan_heading_text(language),
{
    match language {
        XtaskOutputLanguage::English => "Plan",
        XtaskOutputLanguage::Japanese => "実行計画",
    }
}

pub open spec fn dependencies_heading_text(l: XtaskOutputLanguage) -> Seq<char> {
    match l {
        XtaskOutputLanguage::English => "Dependencies"@,
        XtaskOutputLanguage::Japanese => "依存関係"@,
    }
}

/// The heading of the dependency listing.
pub fn dependencies_heading(language: XtaskOutputLanguage) -> (r: &'static str)
    ensures
        r@ == dependencies_heading_text(language),
{
    match language {
        XtaskOutputLanguage::English => "Dependencies",
        XtaskOutputLanguage::Japanese => "依存関係",
    }
}

pub open spec fn execution_heading_text(l: XtaskOutputLanguage) -> Seq<char> {
    match l {
        XtaskOutputLanguage::English => "Execution"@,
        XtaskOutputLanguage::Japanese => "実行"@,
    }
}

/// The heading of the execution log.
pub fn execution_heading(language: XtaskOutputLanguage) -> (r: &'static str)
    ensures
        r@ == execution_heading_text(language),
{
    match language {
        XtaskOutputLanguage::English => "Execution",
        XtaskOutputLanguage::Japanese => "実行",
    }
}

pub open spec fn result_heading_text(l: XtaskOutputLanguage) -> Seq<char> {
    match l {
        XtaskOutputLanguage::English => "Result"@,
        XtaskOutputLanguage::Japanese => "結果"@,
    }
}

/// The heading of the result summary.
pub fn result_heading(language: XtaskOutputLanguage) -> (r: &'static str)
    ensures
        r@ == result_heading_text(language),
{
    match language {
        XtaskOutputLanguage::English => "Result",
        XtaskOutputLanguage::Japanese => "結果",
    }
}

pub open spec fn completed_text(l: XtaskOutputLanguage) -> Seq<char> {
    match l {
        XtaskOutputLanguage::English => "completed"@,
        XtaskOutputLanguage::Japanese => "完了"@,
    }
}

/// The label of a task that completed.
pub fn completed_label(language: XtaskOutputLanguage) -> (r: &'static str)
    ensures
        r@ == completed_text(language),
{
    match language {
        XtaskOutputLanguage::English => "completed",
        XtaskOutputLanguage::Japanese => "完了",
    }
}

pub open spec fn success_text(l: XtaskOutputLanguage) -> Seq<char> {
    match l {
        XtaskOutputLanguage::English => "ok"@,
        XtaskOutputLanguage::Japanese => "成功"@,
    }
}

/// The label of successful tasks in the summary.
pub fn success_label(language: XtaskOutputLanguage) -> (r: &'static str)
    ensures
        r@ == success_text(language),
{
    match language {
        XtaskOutputLanguage::English => "ok",
        XtaskOutputLanguage::Japanese => "成功",
    }
}

pub open spec fn failed_text(l: XtaskOutputLanguage) -> Seq<char> {
    match l {
        XtaskOutputLanguage::English => "failed"@,
        XtaskOutputLanguage::Japanese => "失敗"@,
    }
}

/// The label of failed tasks.
pub fn failed_label(language: XtaskOutputLanguage) -> (r: &'static str)
    ensures
        r@ == failed_text(language),
{
    match language {
        XtaskOutputLanguage::English => "failed",
        XtaskOutputLanguage::Japanese => "失敗",
    }
}

pub open spec fn skipped_text(l: XtaskOutputLanguage) -> Seq<char> {
    match l {
        XtaskOutputLanguage::English => "skipped"@,
        XtaskOutputLanguage::Japanese => "スキップ"@,
    }
}

/// The label of skipped tasks.
pub fn skipped_label(language: XtaskOutputLanguage) -> (r: &'static str)
    ensures
        r@ == skipped_text(language),
{
    match language {
        XtaskOutputLanguage::English => "skipped",
        XtaskOutputLanguage::Japanese => "スキップ",
    }
}

pub open spec fn dry_run_text(l: XtaskOutputLanguage) -> Seq<char> {
    match l {
        XtaskOutputLanguage::English => "Nothing was executed because --dry-run was set."@,
        XtaskOutputLanguage::Japanese => "--dry-run が指定されているため、実行はスキップしました。"@,
    }
}

/// The note printed instead of executing a dry run.
pub fn dry_run_message(language: XtaskOutputLanguage) -> (r: &'static str)
    ensures
        r@ == dry_run_text(language),
{
    match language {
        XtaskOutputLanguage::English => "Nothing was executed because --dry-run was set.",
        XtaskOutputLanguage::Japanese => "--dry-run が指定されているため、実行はスキップしました。",
    }
}

pub open spec fn skip_reason_text(l: XtaskOutputLanguage, deps: Seq<Seq<char>>) -> Seq<char> {
    match l {
        XtaskOutputLanguage::English => "Reason: dependency failed or was skipped ("@ + join(deps, ", "@)
            + ")"@,
        XtaskOutputLanguage::Japanese => "理由: 依存タスクが失敗またはスキップされました ("@ + join(
            deps,
            ", "@,
        ) + ")"@,
    }
}

/// Why a task was skipped: the dependencies that failed or were skipped.
pub fn skip_reason(language: XtaskOutputLanguage, failed_deps: &Vec<String>) -> (r: String)
    ensures
        r@ == skip_reason_text(language, string_views(failed_deps@)),
{
    let mut s = match language {
        XtaskOutputLanguage::English => owned("Reason: dependency failed or was skipped ("),
        XtaskOutputLanguage::Japanese => owned("理由: 依存タスクが失敗またはスキップされました ("),
    };
    push_joined(&mut s, failed_deps, ", ");
    push_str(&mut s, ")");
    s
}

/// A count followed by its unit, as the Japanese summaries write it.
pub fn count_with_unit(count: usize, unit: &str) -> (r: String)
    ensures
        r@ == decimal(count as nat) + unit@,
{
    let mut s = String::new();
    push_decimal(&mut s, count);
    push_str(&mut s, unit);
    s
}

pub open spec fn uninstall_summary_text(
    l: XtaskOutputLanguage,
    target: PluginTarget,
    removed: nat,
    missing: nat,
    dry_run: bool,
) -> Seq<char> {
    let t = target_display(plugin_target_target(target));
    match (l, dry_run) {
        (XtaskOutputLanguage::English, true) => "Summary: "@ + t + " "@ + decimal(removed)
            + " would be removed, "@ + decimal(missing) + " not found"@,
        (XtaskOutputLanguage::English, false) => "Summary: "@ + t + " "@ + decimal(removed)
            + " removed, "@ + decimal(missing) + " not found"@,
        (XtaskOutputLanguage::Japanese, true) => "内訳: "@ + t + " "@ + decimal(removed) + "件削除予定"@
            + "、"@ + decimal(missing) + "件なし"@,
        (XtaskOutputLanguage::Japanese, false) => "内訳: "@ + t + " "@ + decimal(removed) + "件削除"@
            + "、"@ + decimal(missing) + "件なし"@,
    }
}

/// The one-line summary of an uninstall.
pub fn uninstall_summary(
    language: XtaskOutputLanguage,
    target: PluginTarget,
    removed: usize,
    missing: usize,
    dry_run: bool,
) -> (r: String)
    ensures
        r@ == uninstall_summary_text(language, target, removed as nat, missing as nat, dry_run),
{
    match (language, dry_run) {
        (XtaskOutputLanguage::English, _) => {
            let mut s = owned("Summary: ");
            push_str(&mut s, target.display());
            push_str(&mut s, " ");
            push_decimal(&mut s, removed);
            if dry_run {
                push_str(&mut s, " would be removed, ");
            } else {
                push_str(&mut s, " removed, ");
            }
            push_decimal(&mut s, missing);
            push_str(&mut s, " not found");
            s
        },
        (XtaskOutputLanguage::Japanese, _) => {
            let mut s = owned("内訳: ");
            push_str(&mut s, target.display());
            push_str(&mut s, " ");
            let first = if dry_run {
                count_with_unit(removed, "件削除予定")
            } else {
                count_with_unit(removed, "件削除")
            };
            push_str(&mut s, first.as_str());
            push_str(&mut s, "、");
            let second = count_with_unit(missing, "件なし");
            push_str(&mut s, second.as_str());
            s
        },
    }
}

} // verus!
