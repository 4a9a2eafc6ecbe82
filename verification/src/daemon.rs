//! The reactor: the daemon's authoritative state machine.
//!
//! One single-threaded loop owns all mutable daemon state. Every
//! occurrence of interest — a control command, a compositor event, a
//! timer fire, a geometry reply — enters as one [`ReactorEvent`], and
//! the reactor answers with the state change and a queue of [`Action`]s
//! for the surrounding process to perform. Side effects are never
//! performed inline: they are all deferred through that queue, so no
//! protocol callback ever re-enters the reactor.

use vstd::prelude::*;

use crate::Direction;
use crate::Modifier;
use crate::geometry_provider::Geometry;
use crate::geometry_worker::CorrelationTracker;
use crate::gui_state::GuiState;
use crate::gui_state::MAX_DIM;
use crate::gui_state::MAX_ITEMS;
use crate::ipc::IpcCommand;
use crate::ipc::IpcCommandView;

verus! {

/// Overlay visibility: `Hidden` holds no surface, `Showing` has asked
/// for one but the backend is not yet bound, `Visible` can paint.
#[derive(Clone, Copy, PartialEq, Eq, Structural, Debug)]
pub enum Visibility {
    Hidden,
    Showing,
    Visible,
}

/// The rendering backend binding: at most one backend resource exists,
/// and only ever one at a time.
#[derive(Clone, Copy, PartialEq, Eq, Structural, Debug)]
pub enum BackendState {
    Uninitialized,
    Initializing,
    Initialized,
}

/// The modifier keys currently held, as the compositor reports them.
#[derive(Clone, Copy, PartialEq, Eq, Structural, Debug, Default)]
pub struct HeldModifiers {
    pub logo: bool,
    pub alt: bool,
    pub ctrl: bool,
    pub shift: bool,
}

/// Whether one required modifier token is among the held keys.
pub open spec fn spec_mod_held(h: HeldModifiers, m: Modifier) -> bool {
    match m {
        Modifier::Super => h.logo,
        Modifier::Alt => h.alt,
        Modifier::Ctrl => h.ctrl,
        Modifier::Shift => h.shift,
    }
}

/// Whether every required modifier is still held.
pub open spec fn spec_mods_satisfied(h: HeldModifiers, req: Seq<Modifier>) -> bool {
    forall|i: int| 0 <= i < req.len() ==> spec_mod_held(h, #[trigger] req[i])
}

/// The actions one repaint request emits, decided by the buffer and
/// frame-callback state and the visibility at that moment: paint at
/// once while no buffer is attached and the overlay can paint; ask for
/// at most one outstanding frame callback otherwise.
pub open spec fn spec_repaint_tail(attached: bool, pending: bool, v: Visibility) -> Seq<Action> {
    if !attached {
        if v is Visible {
            seq![Action::Paint]
        } else {
            Seq::empty()
        }
    } else if pending {
        Seq::empty()
    } else {
        seq![Action::RequestFrameCallback]
    }
}

/// One occurrence the reactor multiplexes, from whichever source.
pub enum ReactorEvent {
    /// A decoded control command arrived over the socket.
    Command(IpcCommand),
    /// The compositor proposed a surface size.
    LayerShellConfigure { width: u32, height: u32 },
    /// The backend-initialization task finished and bound a backend.
    BackendReady,
    /// The backend-initialization task failed.
    BackendFailed,
    /// The compositor is ready for the next paint.
    Frame,
    /// The panel's widgets changed and want to be painted again.
    RepaintRequested,
    /// The user dismissed the overlay (escape, or the compositor).
    HideRequest,
    /// The held modifier keys changed.
    ModifiersChanged(HeldModifiers),
    /// A toplevel window appeared.
    TopLevelAdded(u32),
    /// A toplevel window closed.
    TopLevelRemoved(u32),
    /// A toplevel window's title changed.
    TopLevelTitleUpdate(u32, String),
    /// A toplevel window's application id changed.
    TopLevelAppIdUpdate(u32, String),
    /// A toplevel window was activated by the user.
    TopLevelActivated(u32),
    /// A toplevel window entered an output.
    TopLevelOutputEnter(u32, u32),
    /// A toplevel window left an output.
    TopLevelOutputLeave(u32, u32),
    /// The debounce timer fired.
    TimerFired,
    /// A geometry lookup answered, bearing its correlation id.
    GeometryReply { correlation: u64, geometry: Geometry },
    /// A captured and resized preview is ready to attach to a window.
    PreviewReady { window: u32, width: u32, height: u32, texture: u64 },
    /// A collaborator task's channel closed: unrecoverable.
    CollaboratorClosed,
}

/// One side effect the reactor asks its surroundings to perform, in
/// queue order, after the state change is complete.
#[derive(Clone, Copy, PartialEq, Eq, Structural, Debug)]
pub enum Action {
    /// Grab the keyboard for the overlay.
    SetKeyboardInteractivityExclusive,
    /// Release the keyboard.
    SetKeyboardInteractivityNone,
    /// Ask the compositor for this overlay surface size.
    SetSurfaceSize { width: u32, height: u32 },
    /// Commit the layer surface after reconfiguring it.
    CommitLayerSurface,
    /// Ask for a frame callback and commit: a repaint will follow.
    RequestFrameCallback,
    /// Render the overlay through the bound backend and present.
    Paint,
    /// Detach the buffer from the surface and commit: go blank.
    AttachNullBuffer,
    /// Start backend initialization off the reactor at this size.
    SpawnBackendInit { width: u32, height: u32 },
    /// Resize the bound backend surface.
    UpdateBackendSize { width: u32, height: u32 },
    /// Tear the bound backend resource down.
    DestroyBackend,
    /// Activate this window through the compositor.
    ActivateWindow(u32),
    /// Pull the debounce timer's next fire to within this delay.
    TimerPing { delay_ms: u64 },
    /// Ask the geometry worker for this window, under this id.
    RequestGeometry { correlation: u64, window: u32 },
    /// Capture this window region into a shared buffer.
    CaptureWindow { window: u32, x: i32, y: i32, width: i32, height: i32 },
    /// A collaborator is gone: abort the process with a diagnostic.
    Fatal,
}

/// The transition the visibility state and the backend binding take
/// under one control command: the reactor's transition table.
pub open spec fn spec_cmd_step(v: Visibility, b: BackendState, c: IpcCommandView) -> (
    Visibility,
    BackendState,
) {
    match c {
        IpcCommandView::Ping => (v, b),
        IpcCommandView::Show { .. } => {
            if v is Hidden {
                (
                    if b is Initialized {
                        Visibility::Visible
                    } else {
                        Visibility::Showing
                    },
                    b,
                )
            } else {
                (v, b)
            }
        },
        IpcCommandView::Hide => (
            Visibility::Hidden,
            if b is Initialized {
                BackendState::Uninitialized
            } else {
                b
            },
        ),
    }
}

/// The visibility and backend after a whole command sequence, applied
/// left to right.
pub open spec fn spec_fold_commands(
    v: Visibility,
    b: BackendState,
    cmds: Seq<IpcCommandView>,
) -> (Visibility, BackendState)
    decreases cmds.len(),
{
    if cmds.len() == 0 {
        (v, b)
    } else {
        let prev = spec_fold_commands(v, b, cmds.drop_last());
        spec_cmd_step(prev.0, prev.1, cmds.last())
    }
}

/// Processing a command sequence one step at a time lands exactly on
/// the left-to-right fold of the transition table: handling the next
/// command from the folded state extends the fold by that command.
pub proof fn lemma_fold_commands_step(
    v: Visibility,
    b: BackendState,
    cmds: Seq<IpcCommandView>,
    c: IpcCommandView,
)
    ensures
        spec_fold_commands(v, b, cmds.push(c)) == ({
            let prev = spec_fold_commands(v, b, cmds);
            spec_cmd_step(prev.0, prev.1, c)
        }),
{
    assert(cmds.push(c).drop_last() =~= cmds);
    assert(cmds.push(c).last() == c);
}

/// `Hide` is idempotent on the state: a second `Hide` moves nothing.
pub proof fn lemma_hide_idempotent(v: Visibility, b: BackendState)
    ensures
        spec_cmd_step(
            spec_cmd_step(v, b, IpcCommandView::Hide).0,
            spec_cmd_step(v, b, IpcCommandView::Hide).1,
            IpcCommandView::Hide,
        ) == spec_cmd_step(v, b, IpcCommandView::Hide),
{
}

/// The daemon reactor state: everything the event loop owns.
pub struct Daemon {
    /// The surface size last asked of the compositor.
    pub width: u32,
    pub height: u32,
    /// The rendering backend binding.
    pub backend: BackendState,
    /// The window list, selection and layout.
    pub gui: GuiState,
    /// Overlay visibility.
    pub visibility: Visibility,
    /// A frame callback is outstanding.
    pub pending_repaint: bool,
    /// A buffer is attached to the overlay surface.
    pub wl_buffer_attached: bool,
    /// The modifiers that must stay held for the overlay to stay up.
    pub required_modifiers: Vec<Modifier>,
    /// The modifiers currently held.
    pub held: HeldModifiers,
    /// Geometry request correlation.
    pub tracker: CorrelationTracker,
    /// The debounce delay for preview captures after activation churn.
    pub debounce_ms: u64,
}

impl Daemon {
    /// Only a bound backend can be painted through, and a backend stays
    /// bound only while the overlay is up: hiding tears it down.
    pub open spec fn wf(&self) -> bool {
        &&& self.gui.wf()
        &&& self.tracker.wf()
        &&& self.visibility is Visible ==> self.backend is Initialized
        &&& self.backend is Initialized ==> self.visibility is Visible
    }

    /// What must hold of an event for the reactor to take it: fresh
    /// window ids from the compositor, preview sizes from the resizer's
    /// clamped output, and room in the correlation counter.
    pub open spec fn event_wf(&self, event: ReactorEvent) -> bool {
        match event {
            ReactorEvent::TopLevelAdded(id) => self.gui.items@.len() < MAX_ITEMS && (forall|j: int|
                0 <= j < self.gui.items@.len() ==> (#[trigger] self.gui.items@[j]).id != id),
            ReactorEvent::PreviewReady { width, height, .. } => width <= MAX_DIM && height
                <= MAX_DIM,
            ReactorEvent::TimerFired => self.tracker.next_id < u64::MAX,
            // only the one in-flight initialization task reports failure
            ReactorEvent::BackendFailed => self.backend is Initializing,
            _ => true,
        }
    }

    /// A fresh daemon: hidden, nothing bound, nothing tracked.
    pub fn new(debounce_ms: u64) -> (d: Daemon)
        ensures
            d.wf(),
            d.visibility is Hidden,
            d.backend is Uninitialized,
            d.gui.items@.len() == 0,
            d.pending_repaint == false,
            d.wl_buffer_attached == false,
            d.required_modifiers@.len() == 0,
            d.tracker.next_id == 0,
            d.tracker.current is None,
            d.debounce_ms == debounce_ms,
            d.width == 800,
            d.height == 400,
    {
        Daemon {
            width: 800,
            height: 400,
            backend: BackendState::Uninitialized,
            gui: Default::default(),
            visibility: Visibility::Hidden,
            pending_repaint: false,
            wl_buffer_attached: false,
            required_modifiers: Vec::new(),
            held: HeldModifiers { logo: false, alt: false, ctrl: false, shift: false },
            tracker: CorrelationTracker::new(),
            debounce_ms,
        }
    }

    /// Whether every required modifier is held right now.
    pub fn mods_satisfied(&self) -> (r: bool)
        ensures
            r == spec_mods_satisfied(self.held, self.required_modifiers@),
    {
        let mut i: usize = 0;
        while i < self.required_modifiers.len()
            invariant
                i <= self.required_modifiers@.len(),
                forall|j: int|
                    0 <= j < i ==> spec_mod_held(self.held, #[trigger] self.required_modifiers@[j]),
            decreases self.required_modifiers@.len() - i,
        {
            let held = match self.required_modifiers[i] {
                Modifier::Super => self.held.logo,
                Modifier::Alt => self.held.alt,
                Modifier::Ctrl => self.held.ctrl,
                Modifier::Shift => self.held.shift,
            };
            if !held {
                return false;
            }
            i = i + 1;
        }
        true
    }

    /// Flush a paint: paint through the backend when the overlay is
    /// visible and the backend bound; otherwise make sure no stale
    /// buffer stays attached.
    fn paint(&mut self, actions: &mut Vec<Action>)
        requires
            old(self).wf(),
        ensures
            final(self).wf(),
            final(self).pending_repaint == false,
            final(self).visibility == old(self).visibility,
            final(self).backend == old(self).backend,
            final(self).gui == old(self).gui,
            final(self).tracker == old(self).tracker,
            final(self).required_modifiers == old(self).required_modifiers,
            final(self).held == old(self).held,
            final(self).width == old(self).width,
            final(self).height == old(self).height,
            final(self).debounce_ms == old(self).debounce_ms,
            old(self).visibility is Visible ==> ({
                &&& final(self).wl_buffer_attached == true
                &&& final(actions)@ == old(actions)@.push(Action::Paint)
            }),
            !(old(self).visibility is Visible) && old(self).wl_buffer_attached ==> ({
                &&& final(self).wl_buffer_attached == false
                &&& final(actions)@ == old(actions)@ + seq![
                    Action::AttachNullBuffer,
                    Action::CommitLayerSurface,
                ]
            }),
            !(old(self).visibility is Visible) && !old(self).wl_buffer_attached ==> ({
                &&& final(self).wl_buffer_attached == false
                &&& final(actions)@ == old(actions)@
            }),
            final(actions)@.len() >= old(actions)@.len(),
            final(actions)@.take(old(actions)@.len() as int) == old(actions)@,
    {
        self.pending_repaint = false;
        match self.visibility {
            Visibility::Visible => {
                self.wl_buffer_attached = true;
                actions.push(Action::Paint);
            }
            _ => {
                if self.wl_buffer_attached {
                    self.wl_buffer_attached = false;
                    actions.push(Action::AttachNullBuffer);
                    actions.push(Action::CommitLayerSurface);
                    assert(actions@ =~= old(actions)@ + seq![
                        Action::AttachNullBuffer,
                        Action::CommitLayerSurface,
                    ]);
                }
            }
        }
        proof {
            assert(actions@.take(old(actions)@.len() as int) =~= old(actions)@);
        }
    }

    /// Ask for a repaint: paint at once while no buffer is attached,
    /// and otherwise request at most one outstanding frame callback.
    fn request_repaint(&mut self, actions: &mut Vec<Action>)
        requires
            old(self).wf(),
        ensures
            final(self).wf(),
            final(self).visibility == old(self).visibility,
            final(self).backend == old(self).backend,
            final(self).gui == old(self).gui,
            final(self).tracker == old(self).tracker,
            final(self).required_modifiers == old(self).required_modifiers,
            final(self).held == old(self).held,
            final(self).width == old(self).width,
            final(self).height == old(self).height,
            final(self).debounce_ms == old(self).debounce_ms,
            old(self).wl_buffer_attached && old(self).pending_repaint ==> (*final(self) == *old(
                self,
            ) && final(actions)@ == old(actions)@),
            old(self).wl_buffer_attached && !old(self).pending_repaint ==> ({
                &&& final(self).pending_repaint == true
                &&& final(self).wl_buffer_attached == old(self).wl_buffer_attached
                &&& final(actions)@ == old(actions)@.push(Action::RequestFrameCallback)
            }),
            !old(self).wl_buffer_attached ==> ({
                &&& final(self).pending_repaint == false
                &&& (old(self).visibility is Visible ==> final(self).wl_buffer_attached == true
                    && final(actions)@ == old(actions)@.push(Action::Paint))
                &&& (!(old(self).visibility is Visible) ==> final(self).wl_buffer_attached == false
                    && final(actions)@ == old(actions)@)
            }),
            final(actions)@.len() >= old(actions)@.len(),
            final(actions)@.take(old(actions)@.len() as int) == old(actions)@,
            final(actions)@ == old(actions)@ + spec_repaint_tail(
                old(self).wl_buffer_attached,
                old(self).pending_repaint,
                old(self).visibility,
            ),
    {
        let ghost tail = spec_repaint_tail(
            self.wl_buffer_attached,
            self.pending_repaint,
            self.visibility,
        );
        if !self.wl_buffer_attached {
            self.paint(actions);
            proof {
                assert(actions@ =~= old(actions)@ + tail);
            }
            return;
        }
        if self.pending_repaint {
            proof {
                assert(actions@.take(old(actions)@.len() as int) =~= old(actions)@);
                assert(actions@ =~= old(actions)@ + tail);
            }
            return;
        }
        self.pending_repaint = true;
        actions.push(Action::RequestFrameCallback);
        proof {
            assert(actions@.take(old(actions)@.len() as int) =~= old(actions)@);
            assert(actions@ =~= old(actions)@ + tail);
        }
    }

    /// Show or hide the overlay. Showing grabs the keyboard and asks
    /// for the surface at the layout's reported size; hiding releases
    /// the keyboard and tears the backend resource down. Asking for the
    /// state already held does nothing at all — in particular a second
    /// hide performs no second teardown.
    fn update_visibility(&mut self, visible: bool, actions: &mut Vec<Action>)
        requires
            old(self).wf(),
        ensures
            final(self).wf(),
            final(self).gui.items@ == old(self).gui.items@,
            final(self).tracker == old(self).tracker,
            final(self).required_modifiers == old(self).required_modifiers,
            final(self).held == old(self).held,
            final(self).debounce_ms == old(self).debounce_ms,
            !visible && old(self).visibility is Hidden ==> (*final(self) == *old(self) && final(actions)@ == old(actions)@),
            visible && !(old(self).visibility is Hidden) ==> (*final(self) == *old(self) && final(actions)@ == old(actions)@),
            !(old(self).visibility is Hidden) && !visible ==> ({
                &&& final(self).visibility is Hidden
                &&& final(self).backend == (if old(self).backend is Initialized {
                    BackendState::Uninitialized
                } else {
                    old(self).backend
                })
                &&& final(self).gui == old(self).gui
                &&& final(self).width == old(self).width
                &&& final(self).height == old(self).height
                &&& final(actions)@ == old(actions)@ + (if old(self).backend is Initialized {
                    seq![
                        Action::SetKeyboardInteractivityNone,
                        Action::DestroyBackend,
                        Action::CommitLayerSurface,
                    ]
                } else {
                    seq![Action::SetKeyboardInteractivityNone, Action::CommitLayerSurface]
                }) + spec_repaint_tail(
                    old(self).wl_buffer_attached,
                    old(self).pending_repaint,
                    Visibility::Hidden,
                )
            }),
            (old(self).visibility is Hidden) && visible ==> ({
                &&& final(self).visibility == (if old(self).backend is Initialized {
                    Visibility::Visible
                } else {
                    Visibility::Showing
                })
                &&& final(self).backend == old(self).backend
                &&& final(self).width == crate::gui_state::spec_window_width(
                    old(self).gui.layout_params,
                    old(self).gui.items@,
                )
                &&& final(self).height == crate::gui_state::spec_window_height(
                    old(self).gui.layout_params,
                    old(self).gui.items@,
                )
                &&& final(self).gui.selected_item == old(self).gui.selected_item
                &&& final(self).gui.hovered_item == old(self).gui.hovered_item
                &&& final(self).gui.needs_repaint == old(self).gui.needs_repaint
                &&& final(self).gui.layout_params == old(self).gui.layout_params
                &&& final(actions)@ == old(actions)@ + seq![
                    Action::SetKeyboardInteractivityExclusive,
                    Action::SetSurfaceSize {
                        width: final(self).width,
                        height: final(self).height,
                    },
                    Action::CommitLayerSurface,
                ] + spec_repaint_tail(
                    old(self).wl_buffer_attached,
                    old(self).pending_repaint,
                    final(self).visibility,
                )
            }),
            final(actions)@.len() >= old(actions)@.len(),
            final(actions)@.take(old(actions)@.len() as int) == old(actions)@,
    {
        let currently_visible = match self.visibility {
            Visibility::Hidden => false,
            _ => true,
        };
        if currently_visible == visible {
            proof {
                assert(actions@.take(old(actions)@.len() as int) =~= old(actions)@);
            }
            return;
        }
        let ghost len0 = old(actions)@.len() as int;
        if visible {
            self.visibility = match self.backend {
                BackendState::Initialized => Visibility::Visible,
                _ => Visibility::Showing,
            };
            let layout = self.gui.calculate_layout();
            self.width = layout.window_width;
            self.height = layout.window_height;
            actions.push(Action::SetKeyboardInteractivityExclusive);
            actions.push(Action::SetSurfaceSize { width: self.width, height: self.height });
        } else {
            self.visibility = Visibility::Hidden;
            actions.push(Action::SetKeyboardInteractivityNone);
            match self.backend {
                BackendState::Initialized => {
                    self.backend = BackendState::Uninitialized;
                    actions.push(Action::DestroyBackend);
                }
                _ => {}
            }
        }
        actions.push(Action::CommitLayerSurface);
        proof {
            assert(actions@.take(len0) =~= old(actions)@);
            if visible {
                assert(actions@ =~= old(actions)@ + seq![
                    Action::SetKeyboardInteractivityExclusive,
                    Action::SetSurfaceSize { width: self.width, height: self.height },
                    Action::CommitLayerSurface,
                ]);
            } else {
                if old(self).backend is Initialized {
                    assert(actions@ =~= old(actions)@ + seq![
                        Action::SetKeyboardInteractivityNone,
                        Action::DestroyBackend,
                        Action::CommitLayerSurface,
                    ]);
                } else {
                    assert(actions@ =~= old(actions)@ + seq![
                        Action::SetKeyboardInteractivityNone,
                        Action::CommitLayerSurface,
                    ]);
                }
            }
        }
        let ghost mid = actions@;
        self.request_repaint(actions);
        proof {
            assert(actions@.take(len0) =~= mid.take(len0));
            assert(actions@ == mid + spec_repaint_tail(
                old(self).wl_buffer_attached,
                old(self).pending_repaint,
                self.visibility,
            ));
        }
    }

    /// One control command. Visibility and backend move exactly by the
    /// transition table; a `Show` replaces the required modifiers and,
    /// when the overlay is already up, only moves the selection.
    pub fn handle_command(&mut self, cmd: IpcCommand) -> (actions: Vec<Action>)
        requires
            old(self).wf(),
        ensures
            final(self).wf(),
            (final(self).visibility, final(self).backend) == spec_cmd_step(
                old(self).visibility,
                old(self).backend,
                cmd@,
            ),
            // a hide that finds the overlay already hidden has no side effect
            cmd@ is Hide && old(self).visibility is Hidden ==> (*final(self) == *old(self)
                && actions@ == Seq::<Action>::empty()),
            // a ping changes nothing
            cmd@ is Ping ==> (*final(self) == *old(self) && actions@ == Seq::<Action>::empty()),
            // a show installs the commanded modifiers
            cmd@ matches IpcCommandView::Show { modifiers, .. }
                ==> final(self).required_modifiers@ == modifiers,
            // a hide while up releases the keyboard, tears any bound
            // backend down, commits, and flushes a repaint
            cmd@ is Hide && !(old(self).visibility is Hidden) ==> ({
                &&& final(self).gui == old(self).gui
                &&& final(self).width == old(self).width
                &&& final(self).height == old(self).height
                &&& final(self).required_modifiers == old(self).required_modifiers
                &&& actions@ == (if old(self).backend is Initialized {
                    seq![
                        Action::SetKeyboardInteractivityNone,
                        Action::DestroyBackend,
                        Action::CommitLayerSurface,
                    ]
                } else {
                    seq![Action::SetKeyboardInteractivityNone, Action::CommitLayerSurface]
                }) + spec_repaint_tail(
                    old(self).wl_buffer_attached,
                    old(self).pending_repaint,
                    Visibility::Hidden,
                )
            }),
            // a show while hidden resets the selection, grabs the
            // keyboard, asks the surface at the layout's reported size,
            // commits, and flushes a repaint
            cmd@ matches IpcCommandView::Show { .. } && old(self).visibility is Hidden ==> ({
                &&& final(self).width == crate::gui_state::spec_window_width(
                    old(self).gui.layout_params,
                    old(self).gui.items@,
                )
                &&& final(self).height == crate::gui_state::spec_window_height(
                    old(self).gui.layout_params,
                    old(self).gui.items@,
                )
                &&& final(self).gui.selected_item == (if old(self).gui.items@.len() < 1 {
                    old(self).gui.items@.len() as int
                } else {
                    1int
                })
                &&& final(self).gui.needs_repaint == true
                &&& final(self).gui.layout_params == old(self).gui.layout_params
                &&& actions@ == seq![
                    Action::SetKeyboardInteractivityExclusive,
                    Action::SetSurfaceSize {
                        width: final(self).width,
                        height: final(self).height,
                    },
                    Action::CommitLayerSurface,
                ] + spec_repaint_tail(
                    old(self).wl_buffer_attached,
                    old(self).pending_repaint,
                    final(self).visibility,
                )
            }),
            // a directed show while up advances the selection, wrapping,
            // and flushes a repaint
            cmd@ matches IpcCommandView::Show { direction: Some(Direction::Next), .. } && !(old(
                self,
            ).visibility is Hidden) ==> ({
                &&& (old(self).gui.items@.len() > 0 ==> final(self).gui.selected_item == (old(
                    self,
                ).gui.selected_item + 1) % (old(self).gui.items@.len() as int)
                    && final(self).gui.needs_repaint == true)
                &&& (old(self).gui.items@.len() == 0 ==> final(self).gui.selected_item == old(
                    self,
                ).gui.selected_item)
                &&& actions@ == spec_repaint_tail(
                    old(self).wl_buffer_attached,
                    old(self).pending_repaint,
                    old(self).visibility,
                )
            }),
            cmd@ matches IpcCommandView::Show { direction: Some(Direction::Previous), .. } && !(
            old(self).visibility is Hidden) ==> ({
                &&& (old(self).gui.items@.len() > 0 ==> final(self).gui.selected_item == (old(
                    self,
                ).gui.selected_item + old(self).gui.items@.len() as int - 1) % (old(
                    self,
                ).gui.items@.len() as int) && final(self).gui.needs_repaint == true)
                &&& (old(self).gui.items@.len() == 0 ==> final(self).gui.selected_item == old(
                    self,
                ).gui.selected_item)
                &&& actions@ == spec_repaint_tail(
                    old(self).wl_buffer_attached,
                    old(self).pending_repaint,
                    old(self).visibility,
                )
            }),
            // an undirected show while up changes nothing but the
            // required modifiers
            cmd@ matches IpcCommandView::Show { direction: None, .. } && !(old(
                self,
            ).visibility is Hidden) ==> ({
                &&& final(self).gui == old(self).gui
                &&& actions@ == Seq::<Action>::empty()
            }),
            final(self).gui.items@ == old(self).gui.items@,
            final(self).tracker == old(self).tracker,
            final(self).held == old(self).held,
            final(self).debounce_ms == old(self).debounce_ms,
    {
        let mut actions: Vec<Action> = Vec::new();
        match cmd {
            IpcCommand::Ping => {}
            IpcCommand::Hide => {
                self.update_visibility(false, &mut actions);
                proof {
                    if !(old(self).visibility is Hidden) {
                        assert(actions@ =~= (if old(self).backend is Initialized {
                            seq![
                                Action::SetKeyboardInteractivityNone,
                                Action::DestroyBackend,
                                Action::CommitLayerSurface,
                            ]
                        } else {
                            seq![
                                Action::SetKeyboardInteractivityNone,
                                Action::CommitLayerSurface,
                            ]
                        }) + spec_repaint_tail(
                            old(self).wl_buffer_attached,
                            old(self).pending_repaint,
                            Visibility::Hidden,
                        ));
                    }
                }
            }
            IpcCommand::Show { direction, modifiers } => {
                self.required_modifiers = modifiers;
                let currently_hidden = match self.visibility {
                    Visibility::Hidden => true,
                    _ => false,
                };
                if currently_hidden {
                    self.gui.reset_selected_item();
                    self.update_visibility(true, &mut actions);
                    proof {
                        assert(actions@ =~= seq![
                            Action::SetKeyboardInteractivityExclusive,
                            Action::SetSurfaceSize { width: self.width, height: self.height },
                            Action::CommitLayerSurface,
                        ] + spec_repaint_tail(
                            old(self).wl_buffer_attached,
                            old(self).pending_repaint,
                            self.visibility,
                        ));
                    }
                } else {
                    match direction {
                        Some(Direction::Next) => {
                            self.gui.select_next_item();
                            self.request_repaint(&mut actions);
                        }
                        Some(Direction::Previous) => {
                            self.gui.select_previous_item();
                            self.request_repaint(&mut actions);
                        }
                        None => {}
                    }
                    proof {
                        if direction is Some {
                            assert(actions@ =~= spec_repaint_tail(
                                old(self).wl_buffer_attached,
                                old(self).pending_repaint,
                                old(self).visibility,
                            ));
                        }
                    }
                }
            }
        }
        actions
    }

    /// The compositor proposed a size. The first configure starts the
    /// backend initialization, exactly once; later ones resize the
    /// bound backend and, when the overlay is up, repaint.
    fn on_configure(&mut self, width: u32, height: u32, actions: &mut Vec<Action>)
        requires
            old(self).wf(),
        ensures
            final(self).wf(),
            final(self).visibility == old(self).visibility,
            final(self).gui.items@ == old(self).gui.items@,
            final(self).tracker == old(self).tracker,
            old(self).backend is Uninitialized ==> ({
                &&& final(self).backend is Initializing
                &&& final(actions)@ == old(actions)@.push(
                    Action::SpawnBackendInit { width, height },
                )
            }),
            old(self).backend is Initializing ==> (*final(self) == *old(self) && final(actions)@
                == old(actions)@),
            old(self).backend is Initialized ==> ({
                &&& final(self).backend is Initialized
                &&& final(actions)@.len() >= old(actions)@.len() + 1
                &&& final(actions)@[old(actions)@.len() as int] == (Action::UpdateBackendSize {
                    width,
                    height,
                })
            }),
    {
        match self.backend {
            BackendState::Uninitialized => {
                self.backend = BackendState::Initializing;
                actions.push(Action::SpawnBackendInit { width, height });
            }
            BackendState::Initializing => {}
            BackendState::Initialized => {
                actions.push(Action::UpdateBackendSize { width, height });
                match self.visibility {
                    Visibility::Hidden => {}
                    _ => {
                        self.request_repaint(actions);
                    }
                }
            }
        }
    }

    /// The backend-initialization task came back with a bound backend.
    /// While the overlay is still up this makes the daemon paint-capable;
    /// if the overlay was hidden meanwhile, the late resource is accepted
    /// and immediately discarded, so nothing leaks.
    fn on_backend_ready(&mut self, actions: &mut Vec<Action>)
        requires
            old(self).wf(),
        ensures
            final(self).wf(),
            final(self).gui.items@ == old(self).gui.items@,
            final(self).tracker == old(self).tracker,
            old(self).visibility is Hidden ==> ({
                &&& final(self).backend is Uninitialized
                &&& final(self).visibility is Hidden
                &&& final(actions)@ == old(actions)@.push(Action::DestroyBackend)
            }),
            !(old(self).visibility is Hidden) ==> ({
                &&& final(self).backend is Initialized
                &&& final(self).visibility is Visible
            }),
    {
        match self.visibility {
            Visibility::Hidden => {
                self.backend = BackendState::Uninitialized;
                actions.push(Action::DestroyBackend);
            }
            _ => {
                self.backend = BackendState::Initialized;
                self.visibility = Visibility::Visible;
                self.request_repaint(actions);
            }
        }
    }

    /// The backend-initialization task failed. The daemon degrades
    /// gracefully: the overlay comes down and stays `Hidden`, and the
    /// next `Show` retries lazily.
    fn on_backend_failed(&mut self, actions: &mut Vec<Action>)
        requires
            old(self).wf(),
            old(self).backend is Initializing,
        ensures
            final(self).wf(),
            final(self).visibility is Hidden,
            final(self).backend is Uninitialized,
            final(self).gui.items@ == old(self).gui.items@,
            final(self).tracker == old(self).tracker,
    {
        self.backend = BackendState::Uninitialized;
        self.update_visibility(false, actions);
        assert(!(self.backend is Initialized));
    }

    /// The user released a required modifier while the overlay was
    /// visible: activate the selected window and come down. Any other
    /// modifier change only records the held set.
    fn on_modifiers_changed(&mut self, held: HeldModifiers, actions: &mut Vec<Action>)
        requires
            old(self).wf(),
        ensures
            final(self).wf(),
            final(self).held == held,
            final(self).gui.items@ == old(self).gui.items@,
            final(self).tracker == old(self).tracker,
            old(self).visibility is Visible && !spec_mods_satisfied(
                held,
                old(self).required_modifiers@,
            ) ==> ({
                &&& final(self).visibility is Hidden
                &&& final(self).backend == (if old(self).backend is Initialized {
                    BackendState::Uninitialized
                } else {
                    old(self).backend
                })
                &&& final(actions)@ == old(actions)@ + (if old(self).gui.selected_item < old(
                    self,
                ).gui.items@.len() {
                    seq![
                        Action::ActivateWindow(
                            old(self).gui.items@[old(self).gui.selected_item as int].id,
                        ),
                    ]
                } else {
                    Seq::empty()
                }) + (if old(self).backend is Initialized {
                    seq![
                        Action::SetKeyboardInteractivityNone,
                        Action::DestroyBackend,
                        Action::CommitLayerSurface,
                    ]
                } else {
                    seq![Action::SetKeyboardInteractivityNone, Action::CommitLayerSurface]
                }) + spec_repaint_tail(
                    old(self).wl_buffer_attached,
                    old(self).pending_repaint,
                    Visibility::Hidden,
                )
            }),
            !(old(self).visibility is Visible && !spec_mods_satisfied(
                held,
                old(self).required_modifiers@,
            )) ==> ({
                &&& final(self).visibility == old(self).visibility
                &&& final(self).backend == old(self).backend
                &&& final(actions)@ == old(actions)@
            }),
    {
        self.held = held;
        let visible = match self.visibility {
            Visibility::Visible => true,
            _ => false,
        };
        if visible && !self.mods_satisfied() {
            match self.gui.get_selected_item_id() {
                Some(id) => {
                    actions.push(Action::ActivateWindow(id));
                }
                None => {}
            }
            let ghost sel_part = (if old(self).gui.selected_item < old(self).gui.items@.len() {
                seq![
                    Action::ActivateWindow(
                        old(self).gui.items@[old(self).gui.selected_item as int].id,
                    ),
                ]
            } else {
                Seq::empty()
            });
            proof {
                assert(actions@ =~= old(actions)@ + sel_part);
            }
            let ghost mid = actions@;
            self.update_visibility(false, actions);
            proof {
                assert(actions@ == mid + (if old(self).backend is Initialized {
                    seq![
                        Action::SetKeyboardInteractivityNone,
                        Action::DestroyBackend,
                        Action::CommitLayerSurface,
                    ]
                } else {
                    seq![Action::SetKeyboardInteractivityNone, Action::CommitLayerSurface]
                }) + spec_repaint_tail(
                    old(self).wl_buffer_attached,
                    old(self).pending_repaint,
                    Visibility::Hidden,
                ));
            }
        }
    }

    /// A window was activated. Its item moves to the front of the
    /// most-recently-used order; while the overlay is hidden, a
    /// debounced preview capture is scheduled through the timer rather
    /// than performed at once, to coalesce activation churn.
    fn on_window_activated(&mut self, id: u32, actions: &mut Vec<Action>)
        requires
            old(self).wf(),
        ensures
            final(self).wf(),
            final(self).visibility == old(self).visibility,
            final(self).backend == old(self).backend,
            final(self).tracker == old(self).tracker,
            final(self).required_modifiers == old(self).required_modifiers,
            final(self).held == old(self).held,
            final(self).debounce_ms == old(self).debounce_ms,
            final(self).width == old(self).width,
            final(self).height == old(self).height,
            final(self).pending_repaint == old(self).pending_repaint,
            final(self).wl_buffer_attached == old(self).wl_buffer_attached,
            final(self).gui.selected_item == old(self).gui.selected_item,
            final(self).gui.hovered_item == old(self).gui.hovered_item,
            final(self).gui.layout_params == old(self).gui.layout_params,
            final(self).gui.layout_computed == old(self).gui.layout_computed,
            final(self).gui.items@.len() == old(self).gui.items@.len(),
            match crate::gui_state::spec_find_item(old(self).gui.items@, id) {
                Some(i) => final(self).gui.items@ == seq![old(self).gui.items@[i]] + old(
                    self,
                ).gui.items@.take(i) + old(self).gui.items@.skip(i + 1),
                None => final(self).gui.items@ == old(self).gui.items@,
            },
            old(self).visibility is Hidden ==> final(actions)@ == old(actions)@.push(
                Action::TimerPing { delay_ms: old(self).debounce_ms },
            ),
            !(old(self).visibility is Hidden) ==> final(actions)@ == old(actions)@,
    {
        proof {
            crate::gui_state::lemma_find_item_props(self.gui.items@, id);
        }
        self.gui.signal_item_activation(id);
        match self.visibility {
            Visibility::Hidden => {
                actions.push(Action::TimerPing { delay_ms: self.debounce_ms });
            }
            _ => {}
        }
    }

    /// The debounce timer fired: issue exactly one geometry request,
    /// for the window the layout considers first, under a fresh
    /// correlation id. Without any window, do nothing.
    fn on_timer_fired(&mut self, actions: &mut Vec<Action>)
        requires
            old(self).wf(),
            old(self).tracker.next_id < u64::MAX,
        ensures
            final(self).wf(),
            final(self).visibility == old(self).visibility,
            final(self).backend == old(self).backend,
            final(self).gui == old(self).gui,
            old(self).gui.items@.len() == 0 ==> (*final(self) == *old(self) && final(actions)@
                == old(actions)@),
            old(self).gui.items@.len() > 0 ==> ({
                &&& final(self).tracker.current == Some(
                    (old(self).tracker.next_id, old(self).gui.items@[0].id),
                )
                &&& final(self).tracker.next_id == old(self).tracker.next_id + 1
                &&& final(actions)@ == old(actions)@.push(
                    Action::RequestGeometry {
                        correlation: old(self).tracker.next_id,
                        window: old(self).gui.items@[0].id,
                    },
                )
            }),
    {
        match self.gui.get_first_item_id() {
            Some(first) => {
                let correlation = self.tracker.issue(first);
                actions.push(Action::RequestGeometry { correlation, window: first });
            }
            None => {}
        }
    }

    /// A geometry reply arrived. Only the reply bearing the one current
    /// correlation id is honored, and only a positive area leads to a
    /// capture; a reply to a superseded request changes nothing at all.
    fn on_geometry_reply(&mut self, correlation: u64, geometry: Geometry, actions: &mut Vec<
        Action,
    >)
        requires
            old(self).wf(),
        ensures
            final(self).wf(),
            final(self).visibility == old(self).visibility,
            final(self).backend == old(self).backend,
            final(self).gui == old(self).gui,
            final(self).required_modifiers == old(self).required_modifiers,
            final(self).held == old(self).held,
            final(self).debounce_ms == old(self).debounce_ms,
            final(self).width == old(self).width,
            final(self).height == old(self).height,
            final(self).pending_repaint == old(self).pending_repaint,
            final(self).wl_buffer_attached == old(self).wl_buffer_attached,
            // a stale or unknown id never mutates state nor acts
            !(old(self).tracker.current is Some && old(self).tracker.current.unwrap().0
                == correlation) ==> (*final(self) == *old(self) && final(actions)@ == old(
                actions,
            )@),
            (old(self).tracker.current is Some && old(self).tracker.current.unwrap().0
                == correlation) ==> ({
                &&& final(self).tracker.current is None
                &&& final(self).tracker.next_id == old(self).tracker.next_id
                &&& (geometry.2 > 0 && geometry.3 > 0 ==> final(actions)@ == old(actions)@.push(
                    Action::CaptureWindow {
                        window: old(self).tracker.current.unwrap().1,
                        x: geometry.0,
                        y: geometry.1,
                        width: geometry.2,
                        height: geometry.3,
                    },
                ))
                &&& (!(geometry.2 > 0 && geometry.3 > 0) ==> final(actions)@ == old(actions)@)
            }),
    {
        match self.tracker.resolve(correlation) {
            Some(window) => {
                let (x, y, width, height) = geometry;
                if width > 0 && height > 0 {
                    actions.push(Action::CaptureWindow { window, x, y, width, height });
                }
            }
            None => {}
        }
    }

    /// A captured preview was resized and is ready: attach it to its
    /// window's item, and repaint when the overlay is up.
    fn on_preview_ready(
        &mut self,
        window: u32,
        width: u32,
        height: u32,
        texture: u64,
        actions: &mut Vec<Action>,
    )
        requires
            old(self).wf(),
            width <= MAX_DIM,
            height <= MAX_DIM,
        ensures
            final(self).wf(),
            final(self).visibility == old(self).visibility,
            final(self).backend == old(self).backend,
            final(self).tracker == old(self).tracker,
            final(self).gui.items@.len() == old(self).gui.items@.len(),
            match crate::gui_state::spec_find_item(old(self).gui.items@, window) {
                Some(i) => final(self).gui.items@[i].preview matches Some(p) && p.width == width
                    && p.height == height,
                None => final(self).gui.items@ == old(self).gui.items@,
            },
    {
        proof {
            crate::gui_state::lemma_find_item_props(self.gui.items@, window);
        }
        self.gui.update_item_preview(window, width, height, texture);
        match self.visibility {
            Visibility::Hidden => {}
            _ => {
                self.request_repaint(actions);
            }
        }
    }

    /// One reactor turn: take one event from whichever source, move the
    /// state, and hand back the side effects to perform, in order.
    pub fn handle_event(&mut self, event: ReactorEvent) -> (actions: Vec<Action>)
        requires
            old(self).wf(),
            old(self).event_wf(event),
        ensures
            final(self).wf(),
            // control commands move visibility by the transition table,
            // and every command's side effects are pinned
            event matches ReactorEvent::Command(c) ==> ({
                &&& (final(self).visibility, final(self).backend) == spec_cmd_step(
                    old(self).visibility,
                    old(self).backend,
                    c@,
                )
                &&& (c@ is Hide && old(self).visibility is Hidden ==> (*final(self) == *old(self)
                    && actions@ == Seq::<Action>::empty()))
                &&& (c@ is Ping ==> (*final(self) == *old(self) && actions@ == Seq::<
                    Action,
                >::empty()))
                &&& (c@ matches IpcCommandView::Show { modifiers, .. }
                    ==> final(self).required_modifiers@ == modifiers)
                &&& (c@ is Hide && !(old(self).visibility is Hidden) ==> ({
                    &&& final(self).gui == old(self).gui
                    &&& actions@ == (if old(self).backend is Initialized {
                        seq![
                            Action::SetKeyboardInteractivityNone,
                            Action::DestroyBackend,
                            Action::CommitLayerSurface,
                        ]
                    } else {
                        seq![Action::SetKeyboardInteractivityNone, Action::CommitLayerSurface]
                    }) + spec_repaint_tail(
                        old(self).wl_buffer_attached,
                        old(self).pending_repaint,
                        Visibility::Hidden,
                    )
                }))
                &&& (c@ matches IpcCommandView::Show { .. } && old(self).visibility is Hidden
                    ==> ({
                    &&& final(self).width == crate::gui_state::spec_window_width(
                        old(self).gui.layout_params,
                        old(self).gui.items@,
                    )
                    &&& final(self).height == crate::gui_state::spec_window_height(
                        old(self).gui.layout_params,
                        old(self).gui.items@,
                    )
                    &&& final(self).gui.selected_item == (if old(self).gui.items@.len() < 1 {
                        old(self).gui.items@.len() as int
                    } else {
                        1int
                    })
                    &&& actions@ == seq![
                        Action::SetKeyboardInteractivityExclusive,
                        Action::SetSurfaceSize {
                            width: final(self).width,
                            height: final(self).height,
                        },
                        Action::CommitLayerSurface,
                    ] + spec_repaint_tail(
                        old(self).wl_buffer_attached,
                        old(self).pending_repaint,
                        final(self).visibility,
                    )
                }))
                &&& (c@ matches IpcCommandView::Show { direction: Some(Direction::Next), .. }
                    && !(old(self).visibility is Hidden) ==> ({
                    &&& (old(self).gui.items@.len() > 0 ==> final(self).gui.selected_item == (old(
                        self,
                    ).gui.selected_item + 1) % (old(self).gui.items@.len() as int))
                    &&& actions@ == spec_repaint_tail(
                        old(self).wl_buffer_attached,
                        old(self).pending_repaint,
                        old(self).visibility,
                    )
                }))
                &&& (c@ matches IpcCommandView::Show { direction: Some(Direction::Previous), .. }
                    && !(old(self).visibility is Hidden) ==> ({
                    &&& (old(self).gui.items@.len() > 0 ==> final(self).gui.selected_item == (old(
                        self,
                    ).gui.selected_item + old(self).gui.items@.len() as int - 1) % (old(
                        self,
                    ).gui.items@.len() as int))
                    &&& actions@ == spec_repaint_tail(
                        old(self).wl_buffer_attached,
                        old(self).pending_repaint,
                        old(self).visibility,
                    )
                }))
                &&& (c@ matches IpcCommandView::Show { direction: None, .. } && !(old(
                    self,
                ).visibility is Hidden) ==> (final(self).gui == old(self).gui && actions@ == Seq::<
                    Action,
                >::empty()))
                &&& final(self).gui.items@ == old(self).gui.items@
                &&& final(self).tracker == old(self).tracker
            }),
            // a reply to a superseded geometry request does nothing, and
            // an honored one changes only the correlation bookkeeping
            event matches ReactorEvent::GeometryReply { correlation, geometry } ==> ({
                &&& final(self).gui == old(self).gui
                &&& final(self).visibility == old(self).visibility
                &&& final(self).backend == old(self).backend
                &&& final(self).required_modifiers == old(self).required_modifiers
                &&& final(self).held == old(self).held
                &&& final(self).debounce_ms == old(self).debounce_ms
                &&& final(self).width == old(self).width
                &&& final(self).height == old(self).height
                &&& final(self).pending_repaint == old(self).pending_repaint
                &&& final(self).wl_buffer_attached == old(self).wl_buffer_attached
                &&& final(self).tracker.next_id == old(self).tracker.next_id
                &&& ((old(self).tracker.current is Some && old(self).tracker.current.unwrap().0
                    == correlation) ==> final(self).tracker.current is None)
                &&& (!(old(self).tracker.current is Some && old(self).tracker.current.unwrap().0
                    == correlation) ==> (*final(self) == *old(self) && actions@ == Seq::<
                    Action,
                >::empty()))
                &&& ((old(self).tracker.current is Some && old(self).tracker.current.unwrap().0
                    == correlation && geometry.2 > 0 && geometry.3 > 0) ==> actions@ == seq![
                    Action::CaptureWindow {
                        window: old(self).tracker.current.unwrap().1,
                        x: geometry.0,
                        y: geometry.1,
                        width: geometry.2,
                        height: geometry.3,
                    },
                ])
                &&& ((old(self).tracker.current is Some && old(self).tracker.current.unwrap().0
                    == correlation && !(geometry.2 > 0 && geometry.3 > 0)) ==> actions@ == Seq::<
                    Action,
                >::empty())
            }),
            // the timer fire issues exactly one geometry request, for
            // the first item, or none without items
            event is TimerFired ==> ({
                &&& (old(self).gui.items@.len() == 0 ==> (*final(self) == *old(self) && actions@
                    == Seq::<Action>::empty()))
                &&& (old(self).gui.items@.len() > 0 ==> actions@ == seq![
                    Action::RequestGeometry {
                        correlation: old(self).tracker.next_id,
                        window: old(self).gui.items@[0].id,
                    },
                ])
            }),
            // activation moves the item to the front; while hidden it
            // additionally pings the debounce timer, and does nothing else
            event matches ReactorEvent::TopLevelActivated(id) ==> ({
                &&& final(self).tracker == old(self).tracker
                &&& final(self).visibility == old(self).visibility
                &&& final(self).backend == old(self).backend
                &&& final(self).required_modifiers == old(self).required_modifiers
                &&& final(self).held == old(self).held
                &&& final(self).debounce_ms == old(self).debounce_ms
                &&& final(self).width == old(self).width
                &&& final(self).height == old(self).height
                &&& final(self).pending_repaint == old(self).pending_repaint
                &&& final(self).wl_buffer_attached == old(self).wl_buffer_attached
                &&& final(self).gui.selected_item == old(self).gui.selected_item
                &&& final(self).gui.hovered_item == old(self).gui.hovered_item
                &&& final(self).gui.layout_params == old(self).gui.layout_params
                &&& (match crate::gui_state::spec_find_item(old(self).gui.items@, id) {
                    Some(i) => final(self).gui.items@ == seq![old(self).gui.items@[i]] + old(
                        self,
                    ).gui.items@.take(i) + old(self).gui.items@.skip(i + 1),
                    None => final(self).gui.items@ == old(self).gui.items@,
                })
                &&& (old(self).visibility is Hidden ==> actions@ == seq![
                    Action::TimerPing { delay_ms: old(self).debounce_ms },
                ])
                &&& (!(old(self).visibility is Hidden) ==> actions@ == Seq::<Action>::empty())
            }),
            // a dead collaborator is fatal
            event is CollaboratorClosed ==> actions@ == seq![Action::Fatal],
            // dismissal brings the overlay down, tearing a bound backend with it
            event is HideRequest ==> ({
                &&& final(self).visibility is Hidden
                &&& final(self).backend == (if old(self).backend is Initialized {
                    BackendState::Uninitialized
                } else {
                    old(self).backend
                })
                &&& (old(self).visibility is Hidden ==> *final(self) == *old(self) && actions@
                    == Seq::<Action>::empty())
                &&& (!(old(self).visibility is Hidden) ==> ({
                    &&& final(self).gui == old(self).gui
                    &&& actions@ == (if old(self).backend is Initialized {
                        seq![
                            Action::SetKeyboardInteractivityNone,
                            Action::DestroyBackend,
                            Action::CommitLayerSurface,
                        ]
                    } else {
                        seq![Action::SetKeyboardInteractivityNone, Action::CommitLayerSurface]
                    }) + spec_repaint_tail(
                        old(self).wl_buffer_attached,
                        old(self).pending_repaint,
                        Visibility::Hidden,
                    )
                }))
            }),
            // a bound backend makes a pending overlay paint-capable; one
            // arriving for a hidden overlay is discarded at once
            event is BackendReady ==> ({
                &&& (old(self).visibility is Hidden ==> final(self).backend is Uninitialized
                    && final(self).visibility is Hidden && actions@ == seq![
                    Action::DestroyBackend,
                ])
                &&& (!(old(self).visibility is Hidden) ==> final(self).backend is Initialized
                    && final(self).visibility is Visible)
            }),
            // a failed backend degrades to hidden; the next show retries
            event is BackendFailed ==> (final(self).visibility is Hidden
                && final(self).backend is Uninitialized),
            // the first configure starts backend initialization exactly once
            event matches ReactorEvent::LayerShellConfigure { width, height } ==> ({
                &&& (old(self).backend is Uninitialized ==> final(self).backend is Initializing
                    && actions@ == seq![Action::SpawnBackendInit { width, height }])
                &&& (old(self).backend is Initializing ==> *final(self) == *old(self) && actions@
                    == Seq::<Action>::empty())
                &&& (old(self).backend is Initialized ==> final(self).backend is Initialized
                    && actions@.len() >= 1 && actions@[0] == (Action::UpdateBackendSize {
                    width,
                    height,
                }))
                &&& final(self).visibility == old(self).visibility
            }),
            // a modifier change records the held set; a release of the
            // required set while visible activates the selection and hides
            event matches ReactorEvent::ModifiersChanged(held) ==> ({
                &&& final(self).held == held
                &&& (old(self).visibility is Visible && !spec_mods_satisfied(
                    held,
                    old(self).required_modifiers@,
                ) ==> final(self).visibility is Hidden)
                &&& (!(old(self).visibility is Visible && !spec_mods_satisfied(
                    held,
                    old(self).required_modifiers@,
                )) ==> final(self).visibility == old(self).visibility && actions@ == Seq::<
                    Action,
                >::empty())
            }),
            // a paint flush clears the outstanding frame callback; an
            // overlay that cannot paint detaches any stale buffer
            event is Frame ==> ({
                &&& final(self).pending_repaint == false
                &&& final(self).visibility == old(self).visibility
                &&& final(self).backend == old(self).backend
                &&& final(self).gui == old(self).gui
                &&& (old(self).visibility is Visible ==> final(self).wl_buffer_attached == true
                    && actions@ == seq![Action::Paint])
                &&& (!(old(self).visibility is Visible) && old(self).wl_buffer_attached
                    ==> final(self).wl_buffer_attached == false && actions@ == seq![
                    Action::AttachNullBuffer,
                    Action::CommitLayerSurface,
                ])
                &&& (!(old(self).visibility is Visible) && !old(self).wl_buffer_attached
                    ==> final(self).wl_buffer_attached == false && actions@ == Seq::<
                    Action,
                >::empty())
            }),
            // the window list follows the compositor's reports
            event matches ReactorEvent::TopLevelAdded(id) ==> ({
                &&& final(self).gui.items@.len() == old(self).gui.items@.len() + 1
                &&& final(self).gui.items@ == old(self).gui.items@.push(
                    final(self).gui.items@.last(),
                )
                &&& final(self).gui.items@.last().id == id
                &&& final(self).gui.items@.last().preview is None
                &&& actions@ == Seq::<Action>::empty()
            }),
            event matches ReactorEvent::TopLevelRemoved(id) ==> ({
                &&& (match crate::gui_state::spec_find_item(old(self).gui.items@, id) {
                    Some(i) => final(self).gui.items@ == old(self).gui.items@.take(i) + old(
                        self,
                    ).gui.items@.skip(i + 1),
                    None => final(self).gui.items@ == old(self).gui.items@,
                })
                &&& actions@ == Seq::<Action>::empty()
            }),
            event matches ReactorEvent::TopLevelTitleUpdate(id, title) ==> ({
                &&& final(self).gui.items@.len() == old(self).gui.items@.len()
                &&& (match crate::gui_state::spec_find_item(old(self).gui.items@, id) {
                    Some(i) => final(self).gui.items@[i].title == title
                        && final(self).gui.items@[i].id == id,
                    None => final(self).gui.items@ == old(self).gui.items@,
                })
            }),
            event matches ReactorEvent::TopLevelAppIdUpdate(id, app_id) ==> ({
                &&& final(self).gui.items@.len() == old(self).gui.items@.len()
                &&& (match crate::gui_state::spec_find_item(old(self).gui.items@, id) {
                    Some(i) => final(self).gui.items@[i].app_id == app_id
                        && final(self).gui.items@[i].id == id,
                    None => final(self).gui.items@ == old(self).gui.items@,
                })
            }),
            event matches ReactorEvent::TopLevelOutputEnter(id, output) ==> ({
                &&& final(self).gui.items@.len() == old(self).gui.items@.len()
                &&& (match crate::gui_state::spec_find_item(old(self).gui.items@, id) {
                    Some(i) => final(self).gui.items@[i].outputs@ == old(
                        self,
                    ).gui.items@[i].outputs@.push(output),
                    None => final(self).gui.items@ == old(self).gui.items@,
                })
                &&& actions@ == Seq::<Action>::empty()
            }),
            event matches ReactorEvent::TopLevelOutputLeave(id, output) ==> ({
                &&& final(self).gui.items@.len() == old(self).gui.items@.len()
                &&& (match crate::gui_state::spec_find_item(old(self).gui.items@, id) {
                    Some(i) => final(self).gui.items@[i].outputs@
                        == crate::gui_state::spec_without_output(
                        old(self).gui.items@[i].outputs@,
                        output,
                    ),
                    None => final(self).gui.items@ == old(self).gui.items@,
                })
                &&& actions@ == Seq::<Action>::empty()
            }),
            // a ready preview lands on its window's item
            event matches ReactorEvent::PreviewReady { window, width, height, .. } ==> ({
                &&& final(self).gui.items@.len() == old(self).gui.items@.len()
                &&& (match crate::gui_state::spec_find_item(old(self).gui.items@, window) {
                    Some(i) => final(self).gui.items@[i].preview matches Some(p) && p.width
                        == width && p.height == height,
                    None => final(self).gui.items@ == old(self).gui.items@,
                })
            }),
            // a repaint wish while hidden is dropped
            event is RepaintRequested ==> ({
                &&& final(self).visibility == old(self).visibility
                &&& final(self).backend == old(self).backend
                &&& final(self).gui == old(self).gui
                &&& (old(self).visibility is Hidden ==> *final(self) == *old(self) && actions@
                    == Seq::<Action>::empty())
            }),
    {
        let mut actions: Vec<Action> = Vec::new();
        match event {
            ReactorEvent::Command(cmd) => {
                return self.handle_command(cmd);
            }
            ReactorEvent::LayerShellConfigure { width, height } => {
                self.on_configure(width, height, &mut actions);
            }
            ReactorEvent::BackendReady => {
                self.on_backend_ready(&mut actions);
            }
            ReactorEvent::BackendFailed => {
                self.on_backend_failed(&mut actions);
            }
            ReactorEvent::Frame => {
                self.paint(&mut actions);
            }
            ReactorEvent::RepaintRequested => {
                match self.visibility {
                    Visibility::Hidden => {}
                    _ => {
                        self.request_repaint(&mut actions);
                    }
                }
            }
            ReactorEvent::HideRequest => {
                self.update_visibility(false, &mut actions);
                proof {
                    if !(old(self).visibility is Hidden) {
                        assert(actions@ =~= (if old(self).backend is Initialized {
                            seq![
                                Action::SetKeyboardInteractivityNone,
                                Action::DestroyBackend,
                                Action::CommitLayerSurface,
                            ]
                        } else {
                            seq![
                                Action::SetKeyboardInteractivityNone,
                                Action::CommitLayerSurface,
                            ]
                        }) + spec_repaint_tail(
                            old(self).wl_buffer_attached,
                            old(self).pending_repaint,
                            Visibility::Hidden,
                        ));
                    }
                }
            }
            ReactorEvent::ModifiersChanged(held) => {
                self.on_modifiers_changed(held, &mut actions);
            }
            ReactorEvent::TopLevelAdded(id) => {
                self.gui.add_item(id);
            }
            ReactorEvent::TopLevelRemoved(id) => {
                self.gui.remove_item(id);
            }
            ReactorEvent::TopLevelTitleUpdate(id, title) => {
                proof {
                    crate::gui_state::lemma_find_item_props(self.gui.items@, id);
                }
                self.gui.update_item_title(id, title);
            }
            ReactorEvent::TopLevelAppIdUpdate(id, app_id) => {
                proof {
                    crate::gui_state::lemma_find_item_props(self.gui.items@, id);
                }
                self.gui.update_item_app_id(id, app_id);
            }
            ReactorEvent::TopLevelActivated(id) => {
                self.on_window_activated(id, &mut actions);
            }
            ReactorEvent::TopLevelOutputEnter(id, output) => {
                self.gui.item_output_enter(id, output);
            }
            ReactorEvent::TopLevelOutputLeave(id, output) => {
                self.gui.item_output_leave(id, output);
            }
            ReactorEvent::TimerFired => {
                self.on_timer_fired(&mut actions);
            }
            ReactorEvent::GeometryReply { correlation, geometry } => {
                self.on_geometry_reply(correlation, geometry, &mut actions);
            }
            ReactorEvent::PreviewReady { window, width, height, texture } => {
                self.on_preview_ready(window, width, height, texture, &mut actions);
            }
            ReactorEvent::CollaboratorClosed => {
                actions.push(Action::Fatal);
            }
        }
        actions
    }
}

} // verus!
