use alttabway::Modifier;
use alttabway::daemon::Action;
use alttabway::daemon::BackendState;
use alttabway::daemon::Daemon;
use alttabway::daemon::HeldModifiers;
use alttabway::daemon::ReactorEvent;
use alttabway::daemon::Visibility;
use alttabway::ipc::IpcCommand;

fn show(modifiers: Vec<Modifier>) -> ReactorEvent {
    ReactorEvent::Command(IpcCommand::Show { direction: None, modifiers })
}

#[test]
fn show_hide_follows_the_table() {
    let mut d = Daemon::new(250);
    assert!(matches!(d.visibility, Visibility::Hidden));

    d.handle_event(show(vec![]));
    assert!(matches!(d.visibility, Visibility::Showing));

    // a second show does not recreate the surface
    d.handle_event(show(vec![]));
    assert!(matches!(d.visibility, Visibility::Showing));

    d.handle_event(ReactorEvent::Command(IpcCommand::Hide));
    assert!(matches!(d.visibility, Visibility::Hidden));
}

#[test]
fn hide_when_hidden_has_no_side_effect() {
    let mut d = Daemon::new(250);
    let first = d.handle_event(ReactorEvent::Command(IpcCommand::Hide));
    assert!(first.is_empty());
    d.handle_event(show(vec![]));
    let teardown = d.handle_event(ReactorEvent::Command(IpcCommand::Hide));
    assert!(!teardown.is_empty());
    let again = d.handle_event(ReactorEvent::Command(IpcCommand::Hide));
    assert!(again.is_empty());
    assert!(matches!(d.visibility, Visibility::Hidden));
}

#[test]
fn idle_show_creates_surface_at_minimum_layout_size() {
    // an idle daemon with zero tracked windows, default padding of zero
    let mut d = Daemon::new(250);
    let actions = d.handle_event(show(vec![Modifier::Alt]));
    assert!(matches!(d.visibility, Visibility::Showing));
    assert_eq!(d.required_modifiers, vec![Modifier::Alt]);
    assert_eq!(d.gui.items.len(), 0);
    // the surface is asked for at the layout's reported minimum size
    assert!(actions.contains(&Action::SetKeyboardInteractivityExclusive));
    assert!(actions.contains(&Action::SetSurfaceSize { width: 0, height: 0 }));
    assert!(actions.contains(&Action::CommitLayerSurface));

    // the compositor configures, the backend spawns, binds, and the
    // daemon becomes visible and paint-capable
    let actions = d.handle_event(ReactorEvent::LayerShellConfigure { width: 800, height: 400 });
    assert!(actions.contains(&Action::SpawnBackendInit { width: 800, height: 400 }));
    assert!(matches!(d.backend, BackendState::Initializing));
    let actions = d.handle_event(ReactorEvent::BackendReady);
    assert!(matches!(d.visibility, Visibility::Visible));
    assert!(matches!(d.backend, BackendState::Initialized));
    assert!(actions.contains(&Action::Paint));
}

#[test]
fn activation_while_hidden_debounces_then_captures_once() {
    let mut d = Daemon::new(250);
    d.handle_event(ReactorEvent::TopLevelAdded(7));
    d.handle_event(ReactorEvent::TopLevelAdded(9));

    // the compositor reports window 9 activated while the daemon hides
    let actions = d.handle_event(ReactorEvent::TopLevelActivated(9));
    assert_eq!(actions, vec![Action::TimerPing { delay_ms: 250 }]);

    // after the debounce fires, exactly one geometry request goes out,
    // for the window the layout considers first
    let actions = d.handle_event(ReactorEvent::TimerFired);
    assert_eq!(actions, vec![Action::RequestGeometry { correlation: 0, window: 9 }]);

    // a positive-area reply leads to exactly one capture
    let actions = d.handle_event(ReactorEvent::GeometryReply {
        correlation: 0,
        geometry: (10, 20, 640, 480),
    });
    assert_eq!(
        actions,
        vec![Action::CaptureWindow { window: 9, x: 10, y: 20, width: 640, height: 480 }]
    );
}

#[test]
fn zero_area_geometry_reply_captures_nothing() {
    let mut d = Daemon::new(100);
    d.handle_event(ReactorEvent::TopLevelAdded(3));
    d.handle_event(ReactorEvent::TimerFired);
    let actions = d.handle_event(ReactorEvent::GeometryReply {
        correlation: 0,
        geometry: (0, 0, 0, 480),
    });
    assert!(actions.is_empty());
}

#[test]
fn stale_geometry_reply_is_ignored() {
    let mut d = Daemon::new(100);
    d.handle_event(ReactorEvent::TopLevelAdded(3));
    d.handle_event(ReactorEvent::TopLevelAdded(4));
    // first request (id 0) is superseded by a second one (id 1)
    d.handle_event(ReactorEvent::TimerFired);
    d.handle_event(ReactorEvent::TopLevelActivated(4));
    let actions = d.handle_event(ReactorEvent::TimerFired);
    assert_eq!(actions, vec![Action::RequestGeometry { correlation: 1, window: 4 }]);

    // the reply to the superseded request mutates nothing
    let actions = d.handle_event(ReactorEvent::GeometryReply {
        correlation: 0,
        geometry: (0, 0, 800, 600),
    });
    assert!(actions.is_empty());

    // the current one is still honored
    let actions = d.handle_event(ReactorEvent::GeometryReply {
        correlation: 1,
        geometry: (0, 0, 800, 600),
    });
    assert_eq!(
        actions,
        vec![Action::CaptureWindow { window: 4, x: 0, y: 0, width: 800, height: 600 }]
    );

    // and a second reply to it is no longer current either
    let actions = d.handle_event(ReactorEvent::GeometryReply {
        correlation: 1,
        geometry: (0, 0, 800, 600),
    });
    assert!(actions.is_empty());
}

#[test]
fn releasing_required_modifiers_activates_selection_and_hides() {
    let mut d = Daemon::new(250);
    d.handle_event(ReactorEvent::TopLevelAdded(11));
    d.handle_event(ReactorEvent::TopLevelAdded(12));
    d.handle_event(show(vec![Modifier::Alt]));
    d.handle_event(ReactorEvent::LayerShellConfigure { width: 800, height: 400 });
    d.handle_event(ReactorEvent::BackendReady);
    assert!(matches!(d.visibility, Visibility::Visible));

    // alt still held: nothing happens
    let held = HeldModifiers { logo: false, alt: true, ctrl: false, shift: false };
    let actions = d.handle_event(ReactorEvent::ModifiersChanged(held));
    assert!(actions.is_empty());
    assert!(matches!(d.visibility, Visibility::Visible));

    // alt released: the selected window (the second item) activates
    let held = HeldModifiers { logo: false, alt: false, ctrl: false, shift: false };
    let actions = d.handle_event(ReactorEvent::ModifiersChanged(held));
    assert!(actions.contains(&Action::ActivateWindow(12)));
    assert!(matches!(d.visibility, Visibility::Hidden));
    assert!(matches!(d.backend, BackendState::Uninitialized));
}

#[test]
fn late_backend_for_hidden_overlay_is_discarded() {
    let mut d = Daemon::new(250);
    d.handle_event(show(vec![]));
    d.handle_event(ReactorEvent::LayerShellConfigure { width: 800, height: 400 });
    // hide while the backend task is still in flight
    d.handle_event(ReactorEvent::Command(IpcCommand::Hide));
    assert!(matches!(d.backend, BackendState::Initializing));
    let actions = d.handle_event(ReactorEvent::BackendReady);
    assert!(matches!(d.backend, BackendState::Uninitialized));
    assert!(matches!(d.visibility, Visibility::Hidden));
    assert_eq!(actions, vec![Action::DestroyBackend]);
}

#[test]
fn backend_failure_degrades_to_hidden() {
    let mut d = Daemon::new(250);
    d.handle_event(show(vec![]));
    d.handle_event(ReactorEvent::LayerShellConfigure { width: 800, height: 400 });
    let _ = d.handle_event(ReactorEvent::BackendFailed);
    assert!(matches!(d.visibility, Visibility::Hidden));
    assert!(matches!(d.backend, BackendState::Uninitialized));
    // the next show retries
    d.handle_event(show(vec![]));
    assert!(matches!(d.visibility, Visibility::Showing));
}

#[test]
fn escape_hides_like_a_hide_command() {
    let mut d = Daemon::new(250);
    d.handle_event(show(vec![]));
    let actions = d.handle_event(ReactorEvent::HideRequest);
    assert!(actions.contains(&Action::SetKeyboardInteractivityNone));
    assert!(matches!(d.visibility, Visibility::Hidden));
}

#[test]
fn dead_collaborator_is_fatal() {
    let mut d = Daemon::new(250);
    let actions = d.handle_event(ReactorEvent::CollaboratorClosed);
    assert_eq!(actions, vec![Action::Fatal]);
}

#[test]
fn preview_ready_updates_item() {
    let mut d = Daemon::new(250);
    d.handle_event(ReactorEvent::TopLevelAdded(5));
    d.handle_event(ReactorEvent::PreviewReady { window: 5, width: 160, height: 100, texture: 41 });
    let p = d.gui.items[0].get_preview().unwrap();
    assert_eq!((p.texture, p.width, p.height), (41, 160, 100));
    // a later preview keeps the texture token and only resizes
    d.handle_event(ReactorEvent::PreviewReady { window: 5, width: 200, height: 100, texture: 99 });
    let p = d.gui.items[0].get_preview().unwrap();
    assert_eq!((p.texture, p.width, p.height), (41, 200, 100));
}

#[test]
fn outputs_follow_enter_and_leave() {
    let mut d = Daemon::new(250);
    d.handle_event(ReactorEvent::TopLevelAdded(6));
    d.handle_event(ReactorEvent::TopLevelOutputEnter(6, 1));
    d.handle_event(ReactorEvent::TopLevelOutputEnter(6, 2));
    assert_eq!(d.gui.items[0].outputs, vec![1, 2]);
    d.handle_event(ReactorEvent::TopLevelOutputLeave(6, 1));
    assert_eq!(d.gui.items[0].outputs, vec![2]);
    // events for an untracked window change nothing
    d.handle_event(ReactorEvent::TopLevelOutputEnter(9, 1));
    assert_eq!(d.gui.items.len(), 1);
}

#[test]
fn title_and_app_id_updates_land_on_their_window() {
    let mut d = Daemon::new(250);
    d.handle_event(ReactorEvent::TopLevelAdded(1));
    d.handle_event(ReactorEvent::TopLevelAdded(2));
    d.handle_event(ReactorEvent::TopLevelTitleUpdate(2, "mail".to_string()));
    d.handle_event(ReactorEvent::TopLevelAppIdUpdate(2, "org.mail".to_string()));
    d.handle_event(ReactorEvent::TopLevelRemoved(1));
    assert_eq!(d.gui.items.len(), 1);
    assert_eq!(d.gui.items[0].get_title(), "mail | Org.mail");
}
