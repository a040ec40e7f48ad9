//! The text the executor shows: the plan listing before a run and the
//! summary after it, one entry per printed line.
use vstd::prelude::*;
use crate::xtask::XtaskOutputLanguage;
use crate::output::{
    dependencies_heading, dependencies_heading_text, dry_run_message, dry_run_text, execution_heading,
    execution_heading_text, failed_label, failed_text, plan_heading, plan_heading_text, result_heading,
    result_heading_text, skipped_label, skipped_text, status_label, status_text, success_label,
    success_text,
};
use crate::plan::{TaskPlan, kind_label};
use crate::workflow::{TaskId, TaskStatus, incoming_sources};
use crate::text::{decimal, join, owned, push_decimal, push_joined, push_str, string_views};
use crate::plan::count_status;

verus! {

/// The ids of the listed nodes.
pub open spec fn ids_of(ids: Seq<Seq<char>>, nodes: Seq<usize>) -> Seq<Seq<char>> {
    nodes.map_values(|n: usize| ids[n as int])
}

/// `== heading ==`
pub open spec fn banner(h: Seq<char>) -> Seq<char> {
    "== "@ + h + " =="@
}

/// The line of the task at position `i` of the order: its 1-based position,
/// its id and its label.
pub open spec fn task_line(
    l: XtaskOutputLanguage,
    ids: Seq<Seq<char>>,
    labels: Seq<Seq<char>>,
    order: Seq<usize>,
    i: int,
) -> Seq<char> {
    decimal((i + 1) as nat) + ". "@ + ids[order[i] as int] + "  "@ + labels[order[i] as int]
}

/// One `id <- dep, dep` line for each task of the order that has dependencies.
pub open spec fn dependency_lines(ids: Seq<Seq<char>>, edges: Seq<(usize, usize)>, order: Seq<usize>) -> Seq<
    Seq<char>,
>
    decreases order.len(),
{
    if order.len() == 0 {
        Seq::empty()
    } else {
        let rest = dependency_lines(ids, edges, order.drop_last());
        let deps = incoming_sources(edges, order.last());
        if deps.len() == 0 {
            rest
        } else {
            rest.push(ids[order.last() as int] + " <- "@ + join(ids_of(ids, deps), ", "@))
        }
    }
}

/// The plan listing: the heading, the tasks in order, the dependencies when
/// there are any, and either the dry-run notice or the execution heading.
pub open spec fn plan_listing(
    l: XtaskOutputLanguage,
    ids: Seq<Seq<char>>,
    labels: Seq<Seq<char>>,
    edges: Seq<(usize, usize)>,
    order: Seq<usize>,
    dry_run: bool,
) -> Seq<Seq<char>> {
    let head = seq![banner(plan_heading_text(l)), Seq::<char>::empty()];
    let tasks = Seq::new(order.len(), |i: int| task_line(l, ids, labels, order, i));
    let deps = dependency_lines(ids, edges, order);
    let dep_section = if deps.len() == 0 {
        Seq::<Seq<char>>::empty()
    } else {
        seq![Seq::<char>::empty(), banner(dependencies_heading_text(l)), Seq::<char>::empty()] + deps
    };
    let tail = if dry_run {
        seq![Seq::<char>::empty(), dry_run_text(l)]
    } else {
        seq![Seq::<char>::empty(), banner(execution_heading_text(l)), Seq::<char>::empty()]
    };
    head + tasks + dep_section + tail
}

/// The labels of the tasks of a plan, by node.
pub open spec fn plan_labels(l: XtaskOutputLanguage, plan: TaskPlan) -> Seq<Seq<char>> {
    plan.kinds().map_values(|k| kind_label(l, k))
}

fn banner_line(heading: &str) -> (r: String)
    ensures
        r@ == banner(heading@),
{
    let mut s = owned("== ");
    push_str(&mut s, heading);
    push_str(&mut s, " ==");
    s
}

fn id_strings(ids: &Vec<&TaskId>) -> (r: Vec<String>)
    ensures
        string_views(r@) == ids@.map_values(|t: &TaskId| t@),
{
    let mut out: Vec<String> = Vec::new();
    let mut i: usize = 0;
    while i < ids.len()
        invariant
            i <= ids.len(),
            string_views(out@) == ids@.take(i as int).map_values(|t: &TaskId| t@),
        decreases ids.len() - i,
    {
        let ghost before = out@;
        out.push(owned(ids[i].as_str()));
        proof {
            assert(string_views(out@) =~= string_views(before).push(ids@[i as int]@));
            assert(ids@.take(i + 1).map_values(|t: &TaskId| t@) =~= ids@.take(i as int).map_values(
                |t: &TaskId| t@,
            ).push(ids@[i as int]@));
        }
        i += 1;
    }
    assert(ids@.take(ids.len() as int) =~= ids@);
    out
}

/// The lines printed before a run: the plan in execution order, the
/// dependencies of each task that has some, and the dry-run notice or the
/// execution heading.
pub fn plan_lines(plan: &TaskPlan, ordered: &Vec<usize>, dry_run: bool, language: XtaskOutputLanguage) -> (r: Vec<
    String,
>)
    requires
        plan.wf(),
        forall|i: int| 0 <= i < ordered@.len() ==> #[trigger] ordered@[i] < plan.len(),
    ensures
        string_views(r@) == plan_listing(
            language,
            plan.ids(),
            plan_labels(language, *plan),
            plan.edges(),
            ordered@,
            dry_run,
        ),
{
    let ghost labels = plan_labels(language, *plan);
    let mut out: Vec<String> = Vec::new();
    out.push(banner_line(plan_heading(language)));
    out.push(String::new());
    let ghost head = string_views(out@);
    assert(head =~= seq![banner(plan_heading_text(language)), Seq::<char>::empty()]);
    let mut i: usize = 0;
    while i < ordered.len()
        invariant
            plan.wf(),
            forall|j: int| 0 <= j < ordered@.len() ==> #[trigger] ordered@[j] < plan.len(),
            labels == plan_labels(language, *plan),
            i <= ordered.len(),
            string_views(out@) == head + Seq::new(
                i as nat,
                |j: int| task_line(language, plan.ids(), labels, ordered@, j),
            ),
        decreases ordered.len() - i,
    {
        let node = ordered[i];
        let mut line = String::new();
        push_decimal(&mut line, i + 1);
        push_str(&mut line, ". ");
        push_str(&mut line, plan.id(node).as_str());
        push_str(&mut line, "  ");
        let label = plan.kind(node).label(language);
        push_str(&mut line, label.as_str());
        let ghost before = string_views(out@);
        out.push(line);
        proof {
            plan.lemma_wf();
            assert(labels[node as int] == kind_label(language, plan.kinds()[node as int]));
            assert(line@ == task_line(language, plan.ids(), labels, ordered@, i as int));
            assert(string_views(out@) =~= before.push(line@));
            assert(head + Seq::new((i + 1) as nat, |j: int| task_line(language, plan.ids(), labels, ordered@, j))
                =~= (head + Seq::new(i as nat, |j: int| task_line(language, plan.ids(), labels, ordered@, j))).push(
                line@,
            ));
        }
        i += 1;
    }
    let ghost tasks = string_views(out@);
    let mut deps_out: Vec<String> = Vec::new();
    let mut k: usize = 0;
    while k < ordered.len()
        invariant
            plan.wf(),
            forall|j: int| 0 <= j < ordered@.len() ==> #[trigger] ordered@[j] < plan.len(),
            k <= ordered.len(),
            string_views(deps_out@) == dependency_lines(plan.ids(), plan.edges(), ordered@.take(k as int)),
        decreases ordered.len() - k,
    {
        let node = ordered[k];
        let deps = plan.dependency_ids(node);
        proof {
            assert(ordered@.take(k + 1).drop_last() =~= ordered@.take(k as int));
            assert(ordered@.take(k + 1).last() == node);
        }
        if deps.len() > 0 {
            let names = id_strings(&deps);
            let mut line = owned(plan.id(node).as_str());
            push_str(&mut line, " <- ");
            push_joined(&mut line, &names, ", ");
            let ghost before = string_views(deps_out@);
            deps_out.push(line);
            proof {
                assert(string_views(names@) =~= ids_of(plan.ids(), incoming_sources(plan.edges(), node)));
                assert(string_views(deps_out@) =~= before.push(line@));
            }
        }
        k += 1;
    }
    assert(ordered@.take(ordered.len() as int) =~= ordered@);
    let ghost dep_lines = string_views(deps_out@);
    if deps_out.len() > 0 {
        out.push(String::new());
        out.push(banner_line(dependencies_heading(language)));
        out.push(String::new());
        let mut m: usize = 0;
        let ghost base = string_views(out@);
        while m < deps_out.len()
            invariant
                m <= deps_out.len(),
                string_views(out@) == base + string_views(deps_out@).take(m as int),
            decreases deps_out.len() - m,
        {
            let ghost before = string_views(out@);
            out.push(deps_out[m].clone());
            proof {
                assert(string_views(out@) =~= before.push(deps_out@[m as int]@));
                assert(string_views(deps_out@).take(m + 1) =~= string_views(deps_out@).take(m as int).push(
                    deps_out@[m as int]@,
                ));
            }
            m += 1;
        }
        assert(string_views(deps_out@).take(deps_out.len() as int) =~= string_views(deps_out@));
        assert(string_views(out@) =~= tasks + (seq![
            Seq::<char>::empty(),
            banner(dependencies_heading_text(language)),
            Seq::<char>::empty(),
        ] + dep_lines));
    }
    let ghost middle = string_views(out@);
    if dry_run {
        out.push(String::new());
        out.push(owned(dry_run_message(language)));
        assert(string_views(out@) =~= middle + seq![Seq::<char>::empty(), dry_run_text(language)]);
    } else {
        out.push(String::new());
        out.push(banner_line(execution_heading(language)));
        out.push(String::new());
        assert(string_views(out@) =~= middle + seq![
            Seq::<char>::empty(),
            banner(execution_heading_text(language)),
            Seq::<char>::empty(),
        ]);
    }
    out
}

/// The `label: id` lines of the failed and skipped tasks, by node.
pub open spec fn status_lines(l: XtaskOutputLanguage, ids: Seq<Seq<char>>, statuses: Seq<TaskStatus>) -> Seq<
    Seq<char>,
>
    decreases statuses.len(),
{
    if statuses.len() == 0 {
        Seq::empty()
    } else {
        let n = statuses.len() - 1;
        let rest = status_lines(l, ids, statuses.drop_last());
        let s = statuses.last();
        if s == TaskStatus::Failed || s == TaskStatus::Skipped {
            rest.push(status_text(l, s) + ": "@ + ids[n])
        } else {
            rest
        }
    }
}

/// The counts line of the summary.
pub open spec fn counts_line(l: XtaskOutputLanguage, statuses: Seq<TaskStatus>) -> Seq<char> {
    "✅ "@ + success_text(l) + " "@ + decimal(count_status(statuses, TaskStatus::Succeeded)) + " / ❌ "@
        + failed_text(l) + " "@ + decimal(count_status(statuses, TaskStatus::Failed)) + " / ⏭️ "@
        + skipped_text(l) + " "@ + decimal(count_status(statuses, TaskStatus::Skipped))
}

/// The summary after a run: the result heading, the counts of succeeded,
/// failed and skipped tasks, and one line per failed or skipped task.
pub open spec fn summary_listing(l: XtaskOutputLanguage, ids: Seq<Seq<char>>, statuses: Seq<TaskStatus>) -> Seq<
    Seq<char>,
> {
    seq![banner(result_heading_text(l)), Seq::<char>::empty(), counts_line(l, statuses)] + status_lines(
        l,
        ids,
        statuses,
    )
}

/// The lines of the summary printed after a run; `statuses` holds the status
/// of each node and `counts` the numbers of succeeded, failed and skipped tasks.
pub fn summary_lines(
    plan: &TaskPlan,
    statuses: &Vec<TaskStatus>,
    counts: (usize, usize, usize),
    language: XtaskOutputLanguage,
) -> (r: Vec<String>)
    requires
        plan.wf(),
        statuses@.len() == plan.len(),
        counts.0 == count_status(statuses@, TaskStatus::Succeeded),
        counts.1 == count_status(statuses@, TaskStatus::Failed),
        counts.2 == count_status(statuses@, TaskStatus::Skipped),
    ensures
        string_views(r@) == summary_listing(language, plan.ids(), statuses@),
{
    let mut out: Vec<String> = Vec::new();
    out.push(banner_line(result_heading(language)));
    out.push(String::new());
    let mut line = owned("✅ ");
    push_str(&mut line, success_label(language));
    push_str(&mut line, " ");
    push_decimal(&mut line, counts.0);
    push_str(&mut line, " / ❌ ");
    push_str(&mut line, failed_label(language));
    push_str(&mut line, " ");
    push_decimal(&mut line, counts.1);
    push_str(&mut line, " / ⏭️ ");
    push_str(&mut line, skipped_label(language));
    push_str(&mut line, " ");
    push_decimal(&mut line, counts.2);
    out.push(line);
    let ghost head = string_views(out@);
    assert(head =~= seq![
        banner(result_heading_text(language)),
        Seq::<char>::empty(),
        counts_line(language, statuses@),
    ]);
    let mut i: usize = 0;
    while i < statuses.len()
        invariant
            plan.wf(),
            statuses@.len() == plan.len(),
            i <= statuses.len(),
            string_views(out@) == head + status_lines(language, plan.ids(), statuses@.take(i as int)),
        decreases statuses.len() - i,
    {
        let st = statuses[i];
        proof {
            assert(statuses@.take(i + 1).drop_last() =~= statuses@.take(i as int));
        }
        if matches!(st, TaskStatus::Failed | TaskStatus::Skipped) {
            let mut l = owned(status_label(language, st));
            push_str(&mut l, ": ");
            push_str(&mut l, plan.id(i).as_str());
            let ghost before = string_views(out@);
            out.push(l);
            assert(string_views(out@) =~= before.push(l@));
        }
        i += 1;
    }
    assert(statuses@.take(statuses.len() as int) =~= statuses@);
    out
}

} // verus!
