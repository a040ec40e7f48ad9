use wrac::lifecycle::{
    CreationDecision, GuiLifecycleError, GuiRuntimeState, InstallOutcome, ShowAction,
};

fn open_editor(state: &mut GuiRuntimeState) -> u64 {
    let (generation, _) = state.create_session();
    let (g, needs_lease) = state.parent_request(false).unwrap();
    assert_eq!(g, generation);
    assert!(needs_lease);
    assert_eq!(state.detach_runtime_for_reparent(generation), Ok(false));
    assert_eq!(state.attach_parent(generation, true), Ok(()));
    generation
}

#[test]
fn first_editor_is_created_and_attached() {
    let mut state = GuiRuntimeState::new();
    let generation = open_editor(&mut state);
    assert_eq!(generation, 1);
    assert_eq!(state.begin_runtime_creation(generation), CreationDecision::Post);
    assert!(!state.finish_runtime_creation(generation));
    assert_eq!(state.latest_visibility(generation), Some(true));
    assert_eq!(state.install_runtime(generation), InstallOutcome::Installed);
    assert_eq!(state.take_pending_creation(), None);
    assert_eq!(state.show_action(), Ok(ShowAction::ShowExisting { generation }));
    assert_eq!(state.begin_runtime_creation(generation), CreationDecision::Skipped);
}

#[test]
fn destroy_during_creation_discards_the_new_runtime() {
    let mut state = GuiRuntimeState::new();
    let generation = open_editor(&mut state);
    assert_eq!(state.begin_runtime_creation(generation), CreationDecision::Post);
    let closed = state.destroy_session().unwrap();
    assert_eq!(closed.generation, generation);
    assert_eq!(state.generation, generation + 1);
    assert!(state.finish_runtime_creation(generation));
    assert!(!state.is_creating_runtime);
    assert_eq!(state.install_runtime(generation), InstallOutcome::Stale);
    assert_eq!(state.take_pending_creation(), None);
}

#[test]
fn reopen_during_creation_runs_only_the_latest() {
    let mut state = GuiRuntimeState::new();
    let first = open_editor(&mut state);
    assert_eq!(state.begin_runtime_creation(first), CreationDecision::Post);
    let second = open_editor(&mut state);
    assert_eq!(second, first + 2);
    assert_eq!(state.begin_runtime_creation(second), CreationDecision::Deferred);
    assert_eq!(state.pending_creation_generation, Some(second));
    assert!(state.finish_runtime_creation(first));
    assert_eq!(state.take_pending_creation(), Some(second));
    assert_eq!(state.begin_runtime_creation(second), CreationDecision::Post);
    assert!(!state.finish_runtime_creation(second));
    assert_eq!(state.install_runtime(second), InstallOutcome::Installed);
}

#[test]
fn failed_post_frees_the_creation_slot() {
    let mut state = GuiRuntimeState::new();
    let generation = open_editor(&mut state);
    assert_eq!(state.begin_runtime_creation(generation), CreationDecision::Post);
    state.clear_after_post_failure(generation);
    assert!(!state.is_creating_runtime);
    assert_eq!(state.creating_generation, None);
    assert_eq!(state.begin_runtime_creation(generation), CreationDecision::Post);
    state.creation_failed(generation);
    assert!(!state.is_creating_runtime);
}

#[test]
fn lifecycle_calls_without_a_session_are_refused() {
    let mut state = GuiRuntimeState::new();
    assert_eq!(state.show_action(), Err(GuiLifecycleError::InvalidState));
    assert_eq!(state.hide_target(), Err(GuiLifecycleError::InvalidState));
    assert_eq!(state.parent_request(true), Err(GuiLifecycleError::InvalidState));
    assert_eq!(state.begin_runtime_creation(0), CreationDecision::Rejected);
    let (generation, _) = state.create_session();
    assert_eq!(state.show_action(), Err(GuiLifecycleError::InvalidState));
    assert_eq!(state.begin_runtime_creation(generation), CreationDecision::Rejected);
    assert_eq!(state.hide_target(), Ok((generation, false)));
    state.mark_visible(generation, false);
    assert_eq!(state.latest_visibility(generation), Some(false));
    state.mark_visible(generation + 7, true);
    assert_eq!(state.latest_visibility(generation), Some(false));
    assert_eq!(state.attach_parent(generation + 1, true), Err(GuiLifecycleError::InvalidState));
}

#[test]
fn reparent_needs_the_gui_thread_and_rebuilds_the_runtime() {
    let mut state = GuiRuntimeState::new();
    let generation = open_editor(&mut state);
    assert_eq!(state.begin_runtime_creation(generation), CreationDecision::Post);
    assert!(!state.finish_runtime_creation(generation));
    assert_eq!(state.install_runtime(generation), InstallOutcome::Installed);
    assert_eq!(
        state.parent_request(false),
        Err(GuiLifecycleError::UnsupportedHostGuiThreadingModel)
    );
    assert_eq!(state.parent_request(true), Ok((generation, false)));
    assert_eq!(state.detach_runtime_for_reparent(generation), Ok(true));
    assert_eq!(state.attach_parent(generation, false), Ok(()));
    assert_eq!(state.show_action(), Ok(ShowAction::Create { generation }));
    assert_eq!(state.begin_runtime_creation(generation), CreationDecision::Post);
}
