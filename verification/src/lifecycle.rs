//! The editor lifecycle decisions of the WebView GUI controller.
//!
//! A host opens and closes the editor with `create`, `set_parent`, `show`,
//! `hide` and `destroy`, sometimes in quick succession and from several
//! threads, while the WebView itself is created later on the GUI run loop.
//! The controller keeps a small state: the current editor session, a
//! generation counter that tells a delayed creation whether its session is
//! still current, and a single-flight creation slot with at most one
//! pending request. This module holds that state and every decision taken on
//! it; the caller performs the native work (posting to the run loop,
//! creating and destroying the WebView) and reports back.
use vstd::prelude::*;

verus! {

/// What the controller knows of the open editor session.
#[derive(Debug, Clone, Copy, PartialEq, Eq, Structural)]
pub struct GuiSessionState {
    /// The generation the session was created under.
    pub generation: u64,
    /// The host has given a parent window.
    pub has_parent: bool,
    /// The GUI thread that owns the parent is leased to the session.
    pub has_parent_lease: bool,
    /// A WebView runtime is attached to the session.
    pub has_runtime: bool,
    /// The editor should be visible.
    pub visible: bool,
}

/// The controller's lifecycle state.
#[derive(Debug, Clone, Copy, PartialEq, Eq, Structural)]
pub struct GuiRuntimeState {
    pub session: Option<GuiSessionState>,
    pub generation: u64,
    pub is_creating_runtime: bool,
    pub creating_generation: Option<u64>,
    pub pending_creation_generation: Option<u64>,
    pub destroy_requested_while_creating: bool,
}

/// Why a lifecycle call was refused.
#[derive(Debug, Clone, Copy, PartialEq, Eq, Structural)]
pub enum GuiLifecycleError {
    /// No session, a stale generation, or a step that is missing.
    InvalidState,
    /// A reparent from a thread that does not own the GUI.
    UnsupportedHostGuiThreadingModel,
}

/// What to do with a request to create the runtime of a session.
#[derive(Debug, Clone, Copy, PartialEq, Eq, Structural)]
pub enum CreationDecision {
    /// Another creation is in flight; the request is remembered as pending.
    Deferred,
    /// The session already has a runtime.
    Skipped,
    /// Post the creation to the GUI run loop.
    Post,
    /// The request does not fit the current session.
    Rejected,
}

/// Where a freshly created runtime goes.
#[derive(Debug, Clone, Copy, PartialEq, Eq, Structural)]
pub enum InstallOutcome {
    /// The session is gone or newer: destroy the new runtime.
    Stale,
    /// The new runtime replaced one that was already attached: destroy the
    /// old one.
    ReplacedExisting,
    /// The new runtime is attached.
    Installed,
}

/// How `show` proceeds.
#[derive(Debug, Clone, Copy, PartialEq, Eq, Structural)]
pub enum ShowAction {
    /// Show the attached runtime of this generation.
    ShowExisting { generation: u64 },
    /// Create the runtime of this generation first.
    Create { generation: u64 },
}

/// `g + 1`, wrapping as the counter does.
pub open spec fn next_generation(g: u64) -> u64 {
    if g == u64::MAX {
        0
    } else {
        (g + 1) as u64
    }
}

/// The session, if it exists and is of generation `g`.
pub open spec fn current_session(s: GuiRuntimeState, g: u64) -> bool {
    s.session matches Some(session) && session.generation == g
}

/// After the session is torn down. During a creation the generation moves
/// on and the creation is told to discard what it builds.
pub open spec fn after_destroy(s: GuiRuntimeState) -> GuiRuntimeState {
    if s.is_creating_runtime {
        GuiRuntimeState {
            session: None,
            generation: next_generation(s.generation),
            destroy_requested_while_creating: true,
            ..s
        }
    } else {
        GuiRuntimeState { session: None, ..s }
    }
}

/// After `create`: the previous session is torn down and a new, visible
/// session without parent or runtime starts under the next generation.
pub open spec fn after_create(s: GuiRuntimeState) -> GuiRuntimeState {
    let d = after_destroy(s);
    let g = next_generation(d.generation);
    GuiRuntimeState {
        session: Some(
            GuiSessionState {
                generation: g,
                has_parent: false,
                has_parent_lease: false,
                has_runtime: false,
                visible: true,
            },
        ),
        generation: g,
        ..d
    }
}

/// The decision on a request to create the runtime of generation `g`.
pub open spec fn creation_decision(s: GuiRuntimeState, g: u64) -> CreationDecision {
    if s.is_creating_runtime {
        CreationDecision::Deferred
    } else {
        match s.session {
            None => CreationDecision::Rejected,
            Some(session) => if session.generation != g {
                CreationDecision::Rejected
            } else if session.has_runtime {
                CreationDecision::Skipped
            } else if !session.has_parent || !session.has_parent_lease {
                CreationDecision::Rejected
            } else {
                CreationDecision::Post
            },
        }
    }
}

/// The state after that decision: a deferred request becomes the pending
/// one; a posted one takes the creation slot.
pub open spec fn after_begin(s: GuiRuntimeState, g: u64) -> GuiRuntimeState {
    match creation_decision(s, g) {
        CreationDecision::Deferred => GuiRuntimeState { pending_creation_generation: Some(g), ..s },
        CreationDecision::Post => GuiRuntimeState {
            is_creating_runtime: true,
            creating_generation: Some(g),
            pending_creation_generation: None,
            destroy_requested_while_creating: false,
            ..s
        },
        _ => s,
    }
}

/// After the creation of generation `g` could not be posted: the slot is
/// freed if it was this creation's.
pub open spec fn after_post_failure(s: GuiRuntimeState, g: u64) -> GuiRuntimeState {
    if s.creating_generation != Some(g) {
        s
    } else {
        GuiRuntimeState {
            is_creating_runtime: false,
            creating_generation: None,
            pending_creation_generation: if s.pending_creation_generation == Some(g) {
                None
            } else {
                s.pending_creation_generation
            },
            destroy_requested_while_creating: false,
            ..s
        }
    }
}

/// The pending generation to schedule next: none when there is none, or
/// when its session already has a runtime.
pub open spec fn pending_to_schedule(s: GuiRuntimeState) -> Option<u64> {
    match s.pending_creation_generation {
        None => None,
        Some(g) => if s.session matches Some(session) && session.generation == g
            && session.has_runtime {
            None
        } else {
            Some(g)
        },
    }
}

/// After the creation of generation `g` failed on the GUI thread.
pub open spec fn after_creation_failed(s: GuiRuntimeState, g: u64) -> GuiRuntimeState {
    if s.creating_generation == Some(g) {
        GuiRuntimeState {
            is_creating_runtime: false,
            creating_generation: None,
            pending_creation_generation: None,
            destroy_requested_while_creating: false,
            ..s
        }
    } else {
        s
    }
}

/// Whether the runtime just built for generation `g` must be destroyed: a
/// destroy arrived meanwhile, or its session is gone or newer.
pub open spec fn discard_new_runtime(s: GuiRuntimeState, g: u64) -> bool {
    s.destroy_requested_while_creating || !current_session(s, g)
}

/// After the creation of generation `g` finished building: the slot is
/// freed, and when the runtime is discarded the current session (if any)
/// becomes the pending creation.
pub open spec fn after_finish(s: GuiRuntimeState, g: u64) -> GuiRuntimeState {
    if s.creating_generation == Some(g) {
        GuiRuntimeState {
            is_creating_runtime: false,
            creating_generation: None,
            pending_creation_generation: if discard_new_runtime(s, g) {
                match s.session {
                    Some(session) => Some(session.generation),
                    None => None,
                }
            } else {
                s.pending_creation_generation
            },
            destroy_requested_while_creating: false,
            ..s
        }
    } else {
        s
    }
}

/// Where the runtime of generation `g` goes once it is ready.
pub open spec fn install_outcome(s: GuiRuntimeState, g: u64) -> InstallOutcome {
    match s.session {
        None => InstallOutcome::Stale,
        Some(session) => if session.generation != g {
            InstallOutcome::Stale
        } else if session.has_runtime {
            InstallOutcome::ReplacedExisting
        } else {
            InstallOutcome::Installed
        },
    }
}

/// The state once the runtime of generation `g` is attached (or not).
pub open spec fn after_install(s: GuiRuntimeState, g: u64) -> GuiRuntimeState {
    match install_outcome(s, g) {
        InstallOutcome::Stale => s,
        InstallOutcome::ReplacedExisting => s,
        InstallOutcome::Installed => GuiRuntimeState {
            session: Some(GuiSessionState { has_runtime: true, ..s.session->0 }),
            pending_creation_generation: if s.pending_creation_generation == Some(g) {
                None
            } else {
                s.pending_creation_generation
            },
            ..s
        },
    }
}

/// The state after session field changes that keep its generation.
pub open spec fn with_session(s: GuiRuntimeState, session: GuiSessionState) -> GuiRuntimeState {
    GuiRuntimeState { session: Some(session), ..s }
}

/// A destroy, or a new `create`, while a runtime is being built makes that
/// build be discarded when it finishes: a late callback never attaches a
/// runtime to an editor that was closed or replaced.
pub proof fn lemma_destroy_during_creation_discards(s: GuiRuntimeState, g: u64)
    requires
        s.wf(),
        s.creating_generation == Some(g),
    ensures
        discard_new_runtime(after_destroy(s), g),
        discard_new_runtime(after_create(s), g),
{
}

/// Creation is single-flight: while one is in flight no other is posted,
/// the in-flight one keeps its slot, and of the requests that arrive
/// meanwhile only the latest is remembered.
pub proof fn lemma_single_flight(s: GuiRuntimeState, g1: u64, g2: u64)
    requires
        s.wf(),
        s.is_creating_runtime,
    ensures
        creation_decision(s, g1) == CreationDecision::Deferred,
        creation_decision(after_begin(s, g1), g2) == CreationDecision::Deferred,
        after_begin(after_begin(s, g1), g2).pending_creation_generation == Some(g2),
        after_begin(after_begin(s, g1), g2).creating_generation == s.creating_generation,
{
}

/// A runtime is attached only to the current session of its own
/// generation, and an attached runtime stays attached.
pub proof fn lemma_install_only_current(s: GuiRuntimeState, g: u64)
    requires
        s.wf(),
    ensures
        install_outcome(s, g) == InstallOutcome::Installed ==> current_session(s, g)
            && after_install(s, g).session->0.has_runtime,
        !current_session(s, g) ==> install_outcome(s, g) == InstallOutcome::Stale && after_install(s, g)
            == s,
{
}

/// However the creation of generation `g` ends (posting failed, building
/// failed, or building finished), the creation slot is free afterwards.
pub proof fn lemma_creation_slot_freed(s: GuiRuntimeState, g: u64)
    requires
        s.wf(),
        s.creating_generation == Some(g),
    ensures
        !after_post_failure(s, g).is_creating_runtime,
        !after_creation_failed(s, g).is_creating_runtime,
        !after_finish(s, g).is_creating_runtime,
        !after_finish(s, g).destroy_requested_while_creating,
{
}

/// A discarded build hands over to the session that replaced it: when that
/// session has no runtime yet, it is the next creation to schedule.
pub proof fn lemma_discard_reschedules_current(s: GuiRuntimeState, g: u64)
    requires
        s.wf(),
        s.creating_generation == Some(g),
        discard_new_runtime(s, g),
        s.session matches Some(session) && !session.has_runtime,
    ensures
        pending_to_schedule(after_finish(s, g)) == Some(s.session->0.generation),
{
}

impl GuiRuntimeState {
    /// The creation slot is taken exactly when a creating generation is
    /// recorded, and an open session belongs to the current generation.
    pub open spec fn wf(&self) -> bool {
        &&& self.is_creating_runtime <==> self.creating_generation is Some
        &&& self.session matches Some(session) ==> session.generation == self.generation
    }

    /// No session, nothing in flight, generation 0.
    pub fn new() -> (r: Self)
        ensures
            r.wf(),
            r.session is None,
            r.generation == 0,
            !r.is_creating_runtime,
            r.pending_creation_generation is None,
            !r.destroy_requested_while_creating,
    {
        GuiRuntimeState {
            session: None,
            generation: 0,
            is_creating_runtime: false,
            creating_generation: None,
            pending_creation_generation: None,
            destroy_requested_while_creating: false,
        }
    }

    /// Tears the session down and hands it back, so that its runtime (if
    /// any) is destroyed and its parent lease released.
    pub fn destroy_session(&mut self) -> (r: Option<GuiSessionState>)
        requires
            old(self).wf(),
        ensures
            final(self).wf(),
            r == old(self).session,
            *final(self) == after_destroy(*old(self)),
    {
        let session = self.session;
        self.session = None;
        if self.is_creating_runtime {
            self.generation = self.generation.wrapping_add(1);
            self.destroy_requested_while_creating = true;
        }
        session
    }

    /// `create`: tears down the previous session (handed back) and opens a
    /// new one under the next generation, which is returned.
    pub fn create_session(&mut self) -> (r: (u64, Option<GuiSessionState>))
        requires
            old(self).wf(),
        ensures
            final(self).wf(),
            r.1 == old(self).session,
            r.0 == final(self).generation,
            *final(self) == after_create(*old(self)),
    {
        let previous = self.destroy_session();
        let generation = self.generation.wrapping_add(1);
        self.generation = generation;
        self.session = Some(
            GuiSessionState {
                generation,
                has_parent: false,
                has_parent_lease: false,
                has_runtime: false,
                visible: true,
            },
        );
        (generation, previous)
    }

    /// Decides on a request to create the runtime of generation `g`.
    pub fn begin_runtime_creation(&mut self, generation: u64) -> (r: CreationDecision)
        requires
            old(self).wf(),
        ensures
            final(self).wf(),
            r == creation_decision(*old(self), generation),
            *final(self) == after_begin(*old(self), generation),
    {
        if self.is_creating_runtime {
            self.pending_creation_generation = Some(generation);
            return CreationDecision::Deferred;
        }
        match self.session {
            None => CreationDecision::Rejected,
            Some(session) => {
                if session.generation != generation {
                    CreationDecision::Rejected
                } else if session.has_runtime {
                    CreationDecision::Skipped
                } else if !session.has_parent || !session.has_parent_lease {
                    CreationDecision::Rejected
                } else {
                    self.is_creating_runtime = true;
                    self.creating_generation = Some(generation);
                    self.pending_creation_generation = None;
                    self.destroy_requested_while_creating = false;
                    CreationDecision::Post
                }
            },
        }
    }

    /// The creation of generation `g` could not be posted.
    pub fn clear_after_post_failure(&mut self, generation: u64)
        requires
            old(self).wf(),
        ensures
            final(self).wf(),
            *final(self) == after_post_failure(*old(self), generation),
    {
        if self.creating_generation != Some(generation) {
            return;
        }
        self.is_creating_runtime = false;
        self.creating_generation = None;
        if self.pending_creation_generation == Some(generation) {
            self.pending_creation_generation = None;
        }
        self.destroy_requested_while_creating = false;
    }

    /// Takes the pending creation request and says which generation to
    /// schedule next, if any.
    pub fn take_pending_creation(&mut self) -> (r: Option<u64>)
        requires
            old(self).wf(),
        ensures
            final(self).wf(),
            r == pending_to_schedule(*old(self)),
            *final(self) == (GuiRuntimeState { pending_creation_generation: None, ..*old(self) }),
    {
        let pending = self.pending_creation_generation;
        self.pending_creation_generation = None;
        match pending {
            None => None,
            Some(generation) => match self.session {
                Some(session) => {
                    if session.generation == generation && session.has_runtime {
                        None
                    } else {
                        Some(generation)
                    }
                },
                None => Some(generation),
            },
        }
    }

    /// Building the runtime of generation `g` failed.
    pub fn creation_failed(&mut self, generation: u64)
        requires
            old(self).wf(),
        ensures
            final(self).wf(),
            *final(self) == after_creation_failed(*old(self), generation),
    {
        if self.creating_generation == Some(generation) {
            self.is_creating_runtime = false;
            self.creating_generation = None;
            self.pending_creation_generation = None;
            self.destroy_requested_while_creating = false;
        }
    }

    /// The runtime of generation `g` has been built: frees the creation
    /// slot and says whether the new runtime must be destroyed.
    pub fn finish_runtime_creation(&mut self, generation: u64) -> (r: bool)
        requires
            old(self).wf(),
        ensures
            final(self).wf(),
            r == discard_new_runtime(*old(self), generation),
            *final(self) == after_finish(*old(self), generation),
    {
        let session_is_stale = match self.session {
            Some(session) => session.generation != generation,
            None => true,
        };
        let should_destroy = self.destroy_requested_while_creating || session_is_stale;
        if self.creating_generation == Some(generation) {
            self.is_creating_runtime = false;
            self.creating_generation = None;
            if should_destroy {
                self.pending_creation_generation = match self.session {
                    Some(session) => Some(session.generation),
                    None => None,
                };
            }
            self.destroy_requested_while_creating = false;
        }
        should_destroy
    }

    /// Whether the session of generation `g` should be visible, when that
    /// session is still the current one.
    pub fn latest_visibility(&self, generation: u64) -> (r: Option<bool>)
        ensures
            r is Some <==> current_session(*self, generation),
            r matches Some(v) ==> v == self.session->0.visible,
    {
        match self.session {
            Some(session) => if session.generation == generation {
                Some(session.visible)
            } else {
                None
            },
            None => None,
        }
    }

    /// Attaches the runtime of generation `g` that is ready and set up.
    pub fn install_runtime(&mut self, generation: u64) -> (r: InstallOutcome)
        requires
            old(self).wf(),
        ensures
            final(self).wf(),
            r == install_outcome(*old(self), generation),
            *final(self) == after_install(*old(self), generation),
    {
        match self.session {
            None => InstallOutcome::Stale,
            Some(session) => {
                if session.generation != generation {
                    InstallOutcome::Stale
                } else if session.has_runtime {
                    InstallOutcome::ReplacedExisting
                } else {
                    self.session = Some(GuiSessionState { has_runtime: true, ..session });
                    if self.pending_creation_generation == Some(generation) {
                        self.pending_creation_generation = None;
                    }
                    InstallOutcome::Installed
                }
            },
        }
    }

    /// The first step of `set_parent`: the session's generation and whether
    /// it still needs a GUI thread lease. A session that already has a
    /// parent may only be reparented from the GUI thread.
    pub fn parent_request(&self, on_gui_thread: bool) -> (r: Result<(u64, bool), GuiLifecycleError>)
        ensures
            match self.session {
                None => r == Err::<(u64, bool), GuiLifecycleError>(GuiLifecycleError::InvalidState),
                Some(session) => if session.has_parent && !on_gui_thread {
                    r == Err::<(u64, bool), GuiLifecycleError>(
                        GuiLifecycleError::UnsupportedHostGuiThreadingModel,
                    )
                } else {
                    r == Ok::<(u64, bool), GuiLifecycleError>((session.generation, !session.has_parent))
                },
            },
    {
        match self.session {
            None => Err(GuiLifecycleError::InvalidState),
            Some(session) => {
                if session.has_parent {
                    if !on_gui_thread {
                        return Err(GuiLifecycleError::UnsupportedHostGuiThreadingModel);
                    }
                    Ok((session.generation, false))
                } else {
                    Ok((session.generation, true))
                }
            },
        }
    }

    /// The second step of `set_parent`: detaches the session's runtime, which
    /// is not reparented but rebuilt; says whether there was one to destroy.
    pub fn detach_runtime_for_reparent(&mut self, generation: u64) -> (r: Result<bool, GuiLifecycleError>)
        requires
            old(self).wf(),
        ensures
            final(self).wf(),
            r is Ok <==> current_session(*old(self), generation),
            r matches Ok(had) ==> had == old(self).session->0.has_runtime && *final(self) == with_session(
                *old(self),
                GuiSessionState { has_runtime: false, ..old(self).session->0 },
            ),
            r is Err ==> r == Err::<bool, GuiLifecycleError>(GuiLifecycleError::InvalidState)
                && *final(self) == *old(self),
    {
        match self.session {
            Some(session) => {
                if session.generation != generation {
                    return Err(GuiLifecycleError::InvalidState);
                }
                self.session = Some(GuiSessionState { has_runtime: false, ..session });
                Ok(session.has_runtime)
            },
            None => Err(GuiLifecycleError::InvalidState),
        }
    }

    /// The last step of `set_parent`: records the parent, and the lease when
    /// one was taken; the caller then asks for the runtime to be created.
    pub fn attach_parent(&mut self, generation: u64, lease_acquired: bool) -> (r: Result<(), GuiLifecycleError>)
        requires
            old(self).wf(),
        ensures
            final(self).wf(),
            r is Ok <==> current_session(*old(self), generation),
            r is Ok ==> *final(self) == with_session(
                *old(self),
                GuiSessionState {
                    has_parent: true,
                    has_parent_lease: old(self).session->0.has_parent_lease || lease_acquired,
                    ..old(self).session->0
                },
            ),
            r is Err ==> r == Err::<(), GuiLifecycleError>(GuiLifecycleError::InvalidState) && *final(self)
                == *old(self),
    {
        match self.session {
            Some(session) => {
                if session.generation != generation {
                    return Err(GuiLifecycleError::InvalidState);
                }
                self.session = Some(
                    GuiSessionState {
                        has_parent: true,
                        has_parent_lease: session.has_parent_lease || lease_acquired,
                        ..session
                    },
                );
                Ok(())
            },
            None => Err(GuiLifecycleError::InvalidState),
        }
    }

    /// How `show` proceeds: show the attached runtime, or create it once a
    /// parent is known.
    pub fn show_action(&self) -> (r: Result<ShowAction, GuiLifecycleError>)
        ensures
            match self.session {
                None => r == Err::<ShowAction, GuiLifecycleError>(GuiLifecycleError::InvalidState),
                Some(session) => if session.has_runtime {
                    r == Ok::<ShowAction, GuiLifecycleError>(
                        ShowAction::ShowExisting { generation: session.generation },
                    )
                } else if session.has_parent {
                    r == Ok::<ShowAction, GuiLifecycleError>(
                        ShowAction::Create { generation: session.generation },
                    )
                } else {
                    r == Err::<ShowAction, GuiLifecycleError>(GuiLifecycleError::InvalidState)
                },
            },
    {
        match self.session {
            None => Err(GuiLifecycleError::InvalidState),
            Some(session) => {
                if session.has_runtime {
                    Ok(ShowAction::ShowExisting { generation: session.generation })
                } else if session.has_parent {
                    Ok(ShowAction::Create { generation: session.generation })
                } else {
                    Err(GuiLifecycleError::InvalidState)
                }
            },
        }
    }

    /// The session to hide: its generation and whether a runtime is attached.
    pub fn hide_target(&self) -> (r: Result<(u64, bool), GuiLifecycleError>)
        ensures
            match self.session {
                None => r == Err::<(u64, bool), GuiLifecycleError>(GuiLifecycleError::InvalidState),
                Some(session) => r == Ok::<(u64, bool), GuiLifecycleError>(
                    (session.generation, session.has_runtime),
                ),
            },
    {
        match self.session {
            None => Err(GuiLifecycleError::InvalidState),
            Some(session) => Ok((session.generation, session.has_runtime)),
        }
    }

    /// Records whether the editor of generation `g` should be visible; a
    /// stale generation changes nothing.
    pub fn mark_visible(&mut self, generation: u64, visible: bool)
        requires
            old(self).wf(),
        ensures
            final(self).wf(),
            current_session(*old(self), generation) ==> *final(self) == with_session(
                *old(self),
                GuiSessionState { visible, ..old(self).session->0 },
            ),
            !current_session(*old(self), generation) ==> *final(self) == *old(self),
    {
        match self.session {
            Some(session) => {
                if session.generation == generation {
                    self.session = Some(GuiSessionState { visible, ..session });
                }
            },
            None => {},
        }
    }
}

} // verus!
