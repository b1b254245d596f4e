//! The decisions of the interactive controller: what a key or a mouse drag
//! asks for, and what the render slot does next.
//!
//! Carrying the decisions out (moving the camera by a distance, running a
//! renderer, raising a signal) is the caller's business.

use crate::key_inputs::{Key, KeyEvent, ListenKeyEvents, MouseButton};
use vstd::prelude::*;

verus! {

/// One of the two ways along an axis.
#[derive(Clone, Copy, Debug, PartialEq, Eq, Structural)]
pub enum Way {
    /// Against the axis: back, left, less.
    Minus,
    /// Along the axis: ahead, right, more.
    Plus,
}

/// What an input event asks the controller to do.
#[derive(Clone, Copy, Debug, PartialEq, Eq, Structural)]
pub enum Command {
    /// Select the object under the mouse.
    SelectObject,
    /// Remove the selected object.
    RemoveSelected,
    /// Render the final image.
    RenderImage,
    /// Widen (`Plus`) or narrow the field of view by one degree.
    Fov(Way),
    /// Open (`Plus`) or close the aperture by a hundredth.
    Aperture(Way),
    /// Push the focus distance out (`Plus`) or pull it in by one.
    FocusDistance(Way),
    /// Move the selected object along the camera's right axis.
    ObjectRight(Way),
    /// Move the selected object along the camera's forward axis.
    ObjectForward(Way),
    /// Move the camera along its forward axis.
    CameraForward(Way),
    /// Move the camera along its right axis.
    CameraRight(Way),
    /// Turn the camera by the mouse drag.
    RotateCamera,
    /// Move the selected object by the mouse drag.
    DragObject,
    /// Nothing.
    Ignore,
}

/// What releasing `key` asks for.
pub open spec fn on_release(key: Key) -> Command {
    match key {
        Key::Q => Command::SelectObject,
        Key::E => Command::RemoveSelected,
        Key::R => Command::RenderImage,
        Key::NumPadMinus => Command::Fov(Way::Plus),
        Key::NumPadPlus => Command::Fov(Way::Minus),
        Key::NumPad8 => Command::Aperture(Way::Plus),
        Key::NumPad2 => Command::Aperture(Way::Minus),
        Key::NumPad4 => Command::FocusDistance(Way::Plus),
        Key::NumPad6 => Command::FocusDistance(Way::Minus),
        _ => Command::Ignore,
    }
}

/// What holding `key` down asks for.
pub open spec fn on_down(key: Key) -> Command {
    match key {
        Key::Left => Command::ObjectRight(Way::Minus),
        Key::Right => Command::ObjectRight(Way::Plus),
        Key::Up => Command::ObjectForward(Way::Minus),
        Key::Down => Command::ObjectForward(Way::Plus),
        Key::W => Command::CameraForward(Way::Minus),
        Key::A => Command::CameraRight(Way::Minus),
        Key::S => Command::CameraForward(Way::Plus),
        Key::D => Command::CameraRight(Way::Plus),
        _ => Command::Ignore,
    }
}

/// What dragging the mouse with `button` held asks for.
pub open spec fn on_drag(button: MouseButton) -> Command {
    match button {
        MouseButton::Left => Command::RotateCamera,
        MouseButton::Right => Command::DragObject,
        MouseButton::Middle => Command::Ignore,
    }
}

/// What `event` asks for.
pub open spec fn command_spec<D>(event: KeyEvent<D>) -> Command {
    match event {
        KeyEvent::Released(key) => on_release(key),
        KeyEvent::Down(key) => on_down(key),
        KeyEvent::MouseDelta(button, _, _) => on_drag(button),
    }
}

/// Reads the command out of an input event.
pub fn command_for<D>(event: &KeyEvent<D>) -> (command: Command)
    ensures
        command == command_spec(*event),
{
    match event {
        KeyEvent::Released(key) => match key {
            Key::Q => Command::SelectObject,
            Key::E => Command::RemoveSelected,
            Key::R => Command::RenderImage,
            Key::NumPadMinus => Command::Fov(Way::Plus),
            Key::NumPadPlus => Command::Fov(Way::Minus),
            Key::NumPad8 => Command::Aperture(Way::Plus),
            Key::NumPad2 => Command::Aperture(Way::Minus),
            Key::NumPad4 => Command::FocusDistance(Way::Plus),
            Key::NumPad6 => Command::FocusDistance(Way::Minus),
            _ => Command::Ignore,
        },
        KeyEvent::Down(key) => match key {
            Key::Left => Command::ObjectRight(Way::Minus),
            Key::Right => Command::ObjectRight(Way::Plus),
            Key::Up => Command::ObjectForward(Way::Minus),
            Key::Down => Command::ObjectForward(Way::Plus),
            Key::W => Command::CameraForward(Way::Minus),
            Key::A => Command::CameraRight(Way::Minus),
            Key::S => Command::CameraForward(Way::Plus),
            Key::D => Command::CameraRight(Way::Plus),
            _ => Command::Ignore,
        },
        KeyEvent::MouseDelta(button, _, _) => match button {
            MouseButton::Left => Command::RotateCamera,
            MouseButton::Right => Command::DragObject,
            MouseButton::Middle => Command::Ignore,
        },
    }
}

/// The keys whose release the controller listens to.
pub open spec fn release_list() -> Seq<Key> {
    seq![
        Key::Q,
        Key::R,
        Key::E,
        Key::NumPadMinus,
        Key::NumPadPlus,
        Key::NumPad8,
        Key::NumPad2,
        Key::NumPad4,
        Key::NumPad6,
    ]
}

/// The keys that the controller listens to while they are held down.
pub open spec fn down_list() -> Seq<Key> {
    seq![Key::Left, Key::Right, Key::Up, Key::Down, Key::W, Key::A, Key::S, Key::D]
}

/// What the controller listens to: the keys of [`release_list`] on release,
/// the keys of [`down_list`] while down, and drags with the left and with
/// the right mouse button.
pub fn register_key_inputs() -> (inputs: Vec<ListenKeyEvents>)
    ensures
        inputs@.len() == 4,
        inputs@[0] matches ListenKeyEvents::Release(keys) && keys@ == release_list(),
        inputs@[1] matches ListenKeyEvents::Down(keys) && keys@ == down_list(),
        inputs@[2] matches ListenKeyEvents::MouseMove(button) && button == MouseButton::Left,
        inputs@[3] matches ListenKeyEvents::MouseMove(button) && button == MouseButton::Right,
{
    let mut release: Vec<Key> = Vec::new();
    release.push(Key::Q);
    release.push(Key::R);
    release.push(Key::E);
    release.push(Key::NumPadMinus);
    release.push(Key::NumPadPlus);
    release.push(Key::NumPad8);
    release.push(Key::NumPad2);
    release.push(Key::NumPad4);
    release.push(Key::NumPad6);
    assert(release@ =~= release_list());
    let mut down: Vec<Key> = Vec::new();
    down.push(Key::Left);
    down.push(Key::Right);
    down.push(Key::Up);
    down.push(Key::Down);
    down.push(Key::W);
    down.push(Key::A);
    down.push(Key::S);
    down.push(Key::D);
    assert(down@ =~= down_list());
    let mut inputs: Vec<ListenKeyEvents> = Vec::new();
    inputs.push(ListenKeyEvents::Release(release));
    inputs.push(ListenKeyEvents::Down(down));
    inputs.push(ListenKeyEvents::MouseMove(MouseButton::Left));
    inputs.push(ListenKeyEvents::MouseMove(MouseButton::Right));
    inputs
}

/// The controller listens to exactly the inputs that ask for something: a
/// key is on the release list exactly when releasing it gives a command,
/// on the down list exactly when holding it gives a command, and the left
/// and right buttons are the ones whose drags give a command.
pub proof fn lemma_listens_to_what_matters(key: Key, button: MouseButton)
    ensures
        release_list().contains(key) <==> on_release(key) != Command::Ignore,
        down_list().contains(key) <==> on_down(key) != Command::Ignore,
        (button == MouseButton::Left || button == MouseButton::Right) <==> on_drag(button)
            != Command::Ignore,
{
    let r = release_list();
    assert(r[0] == Key::Q && r[1] == Key::R && r[2] == Key::E && r[3] == Key::NumPadMinus && r[4]
        == Key::NumPadPlus && r[5] == Key::NumPad8 && r[6] == Key::NumPad2 && r[7] == Key::NumPad4
        && r[8] == Key::NumPad6);
    let d = down_list();
    assert(d[0] == Key::Left && d[1] == Key::Right && d[2] == Key::Up && d[3] == Key::Down && d[4]
        == Key::W && d[5] == Key::A && d[6] == Key::S && d[7] == Key::D);
}

/// The state of the render slot.
#[derive(Clone, Copy, Debug, PartialEq, Eq, Structural)]
pub enum RenderSlot {
    /// Nothing is being rendered.
    Idle,
    /// A preview is being rendered.
    PreviewRendering,
    /// A final image is being rendered.
    FinalRendering,
    /// A final render was cancelled; a preview is due.
    Cancelled,
}

/// What the render slot is told.
#[derive(Clone, Copy, Debug, PartialEq, Eq, Structural)]
pub enum SlotEvent {
    /// A frame begins. `scene_changed`: the camera or the scene changed
    /// since the last render. `render_requested`: a final image was asked
    /// for.
    Frame { scene_changed: bool, render_requested: bool },
    /// The render that was running has returned. `cancel_raised`: the
    /// cancel signal was found set.
    RenderEnded { cancel_raised: bool },
}

/// What the render slot asks to be done.
#[derive(Clone, Copy, Debug, PartialEq, Eq, Structural)]
pub enum SlotAction {
    /// Nothing.
    Rest,
    /// Run the preview renderer, without a cancel signal.
    RenderPreview,
    /// Run the final renderer, with the cancel signal.
    RenderFinal,
    /// Raise the image-ready signal.
    RaiseImageReady,
    /// Lower the cancel signal.
    ClearCancel,
}

/// The next state of the render slot and what is to be done, for each state
/// and event.
///
/// From `Idle`, a frame starts a final render when one was asked for, else
/// a preview when something changed, else nothing. A preview that ends
/// leaves the slot idle. A final render that ends leaves the slot idle and
/// raises image-ready, unless it was cancelled: then the slot is
/// `Cancelled`, and the next frame starts a preview. An event that cannot
/// occur in a state changes nothing.
pub open spec fn step_spec(slot: RenderSlot, event: SlotEvent) -> (RenderSlot, SlotAction) {
    match (slot, event) {
        (RenderSlot::Idle, SlotEvent::Frame { scene_changed, render_requested }) => {
            if render_requested {
                (RenderSlot::FinalRendering, SlotAction::RenderFinal)
            } else if scene_changed {
                (RenderSlot::PreviewRendering, SlotAction::RenderPreview)
            } else {
                (RenderSlot::Idle, SlotAction::Rest)
            }
        },
        (RenderSlot::PreviewRendering, SlotEvent::RenderEnded { .. }) => (
            RenderSlot::Idle,
            SlotAction::Rest,
        ),
        (RenderSlot::FinalRendering, SlotEvent::RenderEnded { cancel_raised }) => {
            if cancel_raised {
                (RenderSlot::Cancelled, SlotAction::ClearCancel)
            } else {
                (RenderSlot::Idle, SlotAction::RaiseImageReady)
            }
        },
        (RenderSlot::Cancelled, SlotEvent::Frame { .. }) => (
            RenderSlot::PreviewRendering,
            SlotAction::RenderPreview,
        ),
        _ => (slot, SlotAction::Rest),
    }
}

impl RenderSlot {
    /// Takes one event and says what to do.
    pub fn step(self, event: SlotEvent) -> (next: (RenderSlot, SlotAction))
        ensures
            next == step_spec(self, event),
    {
        match self {
            RenderSlot::Idle => match event {
                SlotEvent::Frame { scene_changed, render_requested } => {
                    if render_requested {
                        (RenderSlot::FinalRendering, SlotAction::RenderFinal)
                    } else if scene_changed {
                        (RenderSlot::PreviewRendering, SlotAction::RenderPreview)
                    } else {
                        (RenderSlot::Idle, SlotAction::Rest)
                    }
                },
                SlotEvent::RenderEnded { .. } => (self, SlotAction::Rest),
            },
            RenderSlot::PreviewRendering => match event {
                SlotEvent::RenderEnded { .. } => (RenderSlot::Idle, SlotAction::Rest),
                SlotEvent::Frame { .. } => (self, SlotAction::Rest),
            },
            RenderSlot::FinalRendering => match event {
                SlotEvent::RenderEnded { cancel_raised } => {
                    if cancel_raised {
                        (RenderSlot::Cancelled, SlotAction::ClearCancel)
                    } else {
                        (RenderSlot::Idle, SlotAction::RaiseImageReady)
                    }
                },
                SlotEvent::Frame { .. } => (self, SlotAction::Rest),
            },
            RenderSlot::Cancelled => match event {
                SlotEvent::Frame { .. } => (RenderSlot::PreviewRendering, SlotAction::RenderPreview),
                SlotEvent::RenderEnded { .. } => (self, SlotAction::Rest),
            },
        }
    }

    /// Whether a render is running in this state.
    pub open spec fn is_rendering(self) -> bool {
        self is PreviewRendering || self is FinalRendering
    }
}

/// The image-ready signal is raised only by a final render that ran to its
/// end: the slot was rendering a final image, the render ended, and the
/// cancel signal was not set. A renderer is started only from a state in
/// which none is running, and puts the slot into a state in which one is.
pub proof fn lemma_slot_discipline(slot: RenderSlot, event: SlotEvent)
    ensures
        step_spec(slot, event).1 is RaiseImageReady <==> (slot is FinalRendering && event
            == SlotEvent::RenderEnded { cancel_raised: false }),
        step_spec(slot, event).1 is RenderPreview || step_spec(slot, event).1 is RenderFinal ==> {
            &&& !slot.is_rendering()
            &&& event is Frame
            &&& step_spec(slot, event).0.is_rendering()
        },
        slot.is_rendering() && event is RenderEnded ==> !step_spec(slot, event).0.is_rendering(),
        step_spec(slot, event).1 is RenderFinal ==> (event matches SlotEvent::Frame {
            render_requested,
            ..
        } && render_requested),
{
}

} // verus!
