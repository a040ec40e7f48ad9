use wrac::notifier::{GuiStateNotifier, GuiSubscriptionId, GuiSubscriptionKind};

#[test]
fn ids_start_at_one_and_increase() {
    let mut notifier: GuiStateNotifier<&str> = GuiStateNotifier::new();
    let a = notifier.subscribe_parameters("params");
    let b = notifier.subscribe_editor_page("page");
    let c = notifier.subscribe_parameters("params-2");
    assert_eq!(a.get(), 1);
    assert_eq!(b.get(), 2);
    assert_eq!(c.get(), 3);
    assert_eq!(GuiSubscriptionId::from_raw(2), b);
}

#[test]
fn notifications_reach_only_their_kind() {
    let mut notifier: GuiStateNotifier<&str> = GuiStateNotifier::new();
    let a = notifier.subscribe_parameters("params");
    let b = notifier.subscribe_editor_page("page");
    let c = notifier.subscribe_parameters("params-2");
    assert_eq!(notifier.recipients(GuiSubscriptionKind::Parameters), vec![a.get(), c.get()]);
    assert_eq!(notifier.recipients(GuiSubscriptionKind::EditorPage), vec![b.get()]);
    assert_eq!(notifier.channel(c), Some(&"params-2"));
}

#[test]
fn unsubscribe_removes_only_that_subscriber() {
    let mut notifier: GuiStateNotifier<&str> = GuiStateNotifier::new();
    let a = notifier.subscribe_parameters("params");
    let b = notifier.subscribe_parameters("params-2");
    notifier.unsubscribe(a);
    assert_eq!(notifier.recipients(GuiSubscriptionKind::Parameters), vec![b.get()]);
    assert_eq!(notifier.channel(a), None);
    notifier.unsubscribe(a);
    assert_eq!(notifier.recipients(GuiSubscriptionKind::Parameters), vec![b.get()]);
}

#[test]
fn clear_keeps_counting_ids() {
    let mut notifier: GuiStateNotifier<&str> = GuiStateNotifier::new();
    notifier.subscribe_parameters("params");
    notifier.subscribe_editor_page("page");
    notifier.clear_subscriptions();
    assert!(notifier.recipients(GuiSubscriptionKind::Parameters).is_empty());
    assert!(notifier.recipients(GuiSubscriptionKind::EditorPage).is_empty());
    assert_eq!(notifier.subscribe_editor_page("again").get(), 3);
}
