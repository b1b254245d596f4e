//! The keys and mouse buttons a controller listens to, and the events that
//! are made of them each frame.
//!
//! Asking the window whether a key is down is the caller's business: it is
//! handed in as a function from a key to an answer.

use crate::data_bus::{update_failure, DataBus, DataReader, DataWriter};
use crate::error::TracerError;
use vstd::prelude::*;

verus! {

/// The keys that mean something to the tracer; every other key is `Other`.
#[derive(Clone, Copy, Debug, PartialEq, Eq, Structural)]
pub enum Key {
    Q,
    E,
    R,
    NumPadMinus,
    NumPadPlus,
    NumPad8,
    NumPad2,
    NumPad4,
    NumPad6,
    Left,
    Right,
    Up,
    Down,
    W,
    A,
    S,
    D,
    Other,
}

#[derive(Clone, Copy, Debug, PartialEq, Eq, Structural)]
pub enum MouseButton {
    Left,
    Middle,
    Right,
}

/// What a controller asks to be told about.
pub enum ListenKeyEvents {
    /// Tell when one of these keys is released.
    Release(Vec<Key>),
    /// Tell while one of these keys is held down.
    Down(Vec<Key>),
    /// Tell how far the mouse moved while this button is held down.
    MouseMove(MouseButton),
}

/// What happened to a key or to the mouse. `D` is the type of a distance on
/// the screen.
pub enum KeyEvent<D> {
    Released(Key),
    Down(Key),
    MouseDelta(MouseButton, D, D),
}

impl<D: Clone> Clone for KeyEvent<D> {
    fn clone(&self) -> (copy: Self) {
        match self {
            KeyEvent::Released(key) => KeyEvent::Released(*key),
            KeyEvent::Down(key) => KeyEvent::Down(*key),
            KeyEvent::MouseDelta(button, x, y) => KeyEvent::MouseDelta(
                *button,
                x.clone(),
                y.clone(),
            ),
        }
    }
}

/// The keys of `listened`, in order, about which `asked` says yes, each
/// answer being one that `asked` gave for that key.
pub open spec fn is_answered<A: Fn(Key) -> bool>(asked: A, listened: Seq<Key>, told: Seq<Key>) -> bool
    decreases listened.len(),
{
    if listened.len() == 0 {
        told.len() == 0
    } else {
        let key = listened.last();
        ||| (call_ensures(asked, (key,), false) && is_answered(asked, listened.drop_last(), told))
        ||| (told.len() > 0 && told.last() == key && call_ensures(asked, (key,), true)
            && is_answered(asked, listened.drop_last(), told.drop_last()))
    }
}

/// Asks about each key of `listened`, in order, and collects those about
/// which the answer is yes.
pub fn answered<A: Fn(Key) -> bool>(asked: &A, listened: &Vec<Key>) -> (told: Vec<Key>)
    requires
        forall|key: Key| call_requires(*asked, (key,)),
    ensures
        is_answered(*asked, listened@, told@),
{
    let mut told: Vec<Key> = Vec::new();
    let mut i: usize = 0;
    while i < listened.len()
        invariant
            forall|key: Key| call_requires(*asked, (key,)),
            i <= listened@.len(),
            is_answered(*asked, listened@.take(i as int), told@),
        decreases listened@.len() - i,
    {
        let key = listened[i];
        let ghost before = told@;
        assert(listened@.take(i + 1).drop_last() =~= listened@.take(i as int));
        if asked(key) {
            told.push(key);
            assert(told@.drop_last() =~= before);
        }
        i = i + 1;
    }
    assert(listened@.take(i as int) =~= listened@);
    told
}

/// Whether `events` are the events of a frame with the mouse drags
/// `drags`, the held keys `down` and the released keys `released`: the
/// drags, then a `Down` for each held key, then a `Released` for each
/// released key.
pub open spec fn is_frame<D>(
    drags: Seq<KeyEvent<D>>,
    down: Seq<Key>,
    released: Seq<Key>,
    events: Seq<KeyEvent<D>>,
) -> bool {
    &&& events.len() == drags.len() + down.len() + released.len()
    &&& forall|k: int| 0 <= k < drags.len() ==> events[k] == drags[k]
    &&& forall|k: int|
        0 <= k < down.len() ==> #[trigger] events[drags.len() + k] == KeyEvent::<D>::Down(down[k])
    &&& forall|k: int|
        0 <= k < released.len() ==> #[trigger] events[drags.len() + down.len() + k]
            == KeyEvent::<D>::Released(released[k])
}

/// The registry of what is listened to, and the channel on which the
/// events of each frame are published.
#[verifier::reject_recursive_types(D)]
pub struct KeyInputs<D: Clone + Sync> {
    bus: DataBus<KeyEvent<D>>,
    key_writer: DataWriter<KeyEvent<D>>,
    key_reader: DataReader<KeyEvent<D>>,
    listen_is_down: Vec<Key>,
    listen_is_released: Vec<Key>,
    listen_mouse: Vec<MouseButton>,
}

/// The keys of the `Down` requests of `inputs`, in order.
pub open spec fn down_keys(inputs: Seq<ListenKeyEvents>) -> Seq<Key>
    decreases inputs.len(),
{
    if inputs.len() == 0 {
        Seq::empty()
    } else {
        let rest = down_keys(inputs.drop_last());
        match inputs.last() {
            ListenKeyEvents::Down(keys) => rest + keys@,
            _ => rest,
        }
    }
}

/// The keys of the `Release` requests of `inputs`, in order.
pub open spec fn release_keys(inputs: Seq<ListenKeyEvents>) -> Seq<Key>
    decreases inputs.len(),
{
    if inputs.len() == 0 {
        Seq::empty()
    } else {
        let rest = release_keys(inputs.drop_last());
        match inputs.last() {
            ListenKeyEvents::Release(keys) => rest + keys@,
            _ => rest,
        }
    }
}

/// The buttons of the `MouseMove` requests of `inputs`, in order.
pub open spec fn mouse_buttons(inputs: Seq<ListenKeyEvents>) -> Seq<MouseButton>
    decreases inputs.len(),
{
    if inputs.len() == 0 {
        Seq::empty()
    } else {
        let rest = mouse_buttons(inputs.drop_last());
        match inputs.last() {
            ListenKeyEvents::MouseMove(button) => rest.push(button),
            _ => rest,
        }
    }
}

fn append_keys(to: &mut Vec<Key>, keys: &Vec<Key>)
    ensures
        final(to)@ == old(to)@ + keys@,
{
    let mut i: usize = 0;
    while i < keys.len()
        invariant
            i <= keys@.len(),
            to@ == old(to)@ + keys@.take(i as int),
        decreases keys@.len() - i,
    {
        to.push(keys[i]);
        assert(keys@.take(i + 1) =~= keys@.take(i as int).push(keys@[i as int]));
        assert(to@ =~= old(to)@ + keys@.take(i + 1));
        i = i + 1;
    }
    assert(keys@.take(i as int) =~= keys@);
}

impl<D: Clone + Sync> KeyInputs<D> {
    /// The keys that are reported while held down.
    pub closed spec fn listened_down(&self) -> Seq<Key> {
        self.listen_is_down@
    }

    /// The keys that are reported when released.
    pub closed spec fn listened_released(&self) -> Seq<Key> {
        self.listen_is_released@
    }

    /// The mouse buttons whose drags are reported.
    pub closed spec fn listened_mouse(&self) -> Seq<MouseButton> {
        self.listen_mouse@
    }

    /// The name of the channel of this registry.
    pub closed spec fn channel(&self) -> Seq<char> {
        self.bus.name()
    }

    /// The name of the channel on which this registry publishes its events.
    pub closed spec fn published_on(&self) -> Seq<char> {
        self.key_writer.name()
    }

    /// The name of the channel from which this registry reads its events.
    pub closed spec fn read_from(&self) -> Seq<char> {
        self.key_reader.name()
    }

    /// A registry that listens to nothing.
    pub fn new() -> (inputs: Self)
        ensures
            inputs.listened_down().len() == 0,
            inputs.listened_released().len() == 0,
            inputs.listened_mouse().len() == 0,
            inputs.channel() == "key-inputs"@,
            inputs.published_on() == "key-inputs"@,
            inputs.read_from() == "key-inputs"@,
    {
        let mut bus = DataBus::new("key-inputs");
        let key_reader = bus.get_reader();
        let key_writer = bus.get_writer();
        KeyInputs {
            key_reader,
            key_writer,
            bus,
            listen_is_down: Vec::new(),
            listen_is_released: Vec::new(),
            listen_mouse: Vec::new(),
        }
    }

    /// Adds `inputs` to what is listened to, each kind after what was there
    /// of that kind, in the order given.
    pub fn register_inputs(&mut self, inputs: Vec<ListenKeyEvents>)
        ensures
            final(self).listened_down() == old(self).listened_down() + down_keys(inputs@),
            final(self).listened_released() == old(self).listened_released() + release_keys(
                inputs@,
            ),
            final(self).listened_mouse() == old(self).listened_mouse() + mouse_buttons(inputs@),
            final(self).channel() == old(self).channel(),
            final(self).published_on() == old(self).published_on(),
            final(self).read_from() == old(self).read_from(),
    {
        let mut i: usize = 0;
        while i < inputs.len()
            invariant
                i <= inputs@.len(),
                self.listened_down() == old(self).listened_down() + down_keys(
                    inputs@.take(i as int),
                ),
                self.listened_released() == old(self).listened_released() + release_keys(
                    inputs@.take(i as int),
                ),
                self.listened_mouse() == old(self).listened_mouse() + mouse_buttons(
                    inputs@.take(i as int),
                ),
                self.channel() == old(self).channel(),
                self.published_on() == old(self).published_on(),
                self.read_from() == old(self).read_from(),
            decreases inputs@.len() - i,
        {
            assert(inputs@.take(i + 1).drop_last() =~= inputs@.take(i as int));
            assert(inputs@.take(i + 1).last() == inputs@[i as int]);
            match &inputs[i] {
                ListenKeyEvents::Release(keys) => {
                    append_keys(&mut self.listen_is_released, keys);
                    assert(self.listened_released() =~= old(self).listened_released()
                        + release_keys(inputs@.take(i + 1)));
                },
                ListenKeyEvents::Down(keys) => {
                    append_keys(&mut self.listen_is_down, keys);
                    assert(self.listened_down() =~= old(self).listened_down() + down_keys(
                        inputs@.take(i + 1),
                    ));
                },
                ListenKeyEvents::MouseMove(button) => {
                    self.listen_mouse.push(*button);
                    assert(self.listened_mouse() =~= old(self).listened_mouse() + mouse_buttons(
                        inputs@.take(i + 1),
                    ));
                },
            }
            i = i + 1;
        }
        assert(inputs@.take(i as int) =~= inputs@);
    }

    /// Every event that is waiting, oldest first. Fails as
    /// [`DataReader::get_messages`] does, with a read failure that names
    /// the channel this registry reads from.
    pub fn get_presses(&mut self) -> (res: Result<Vec<KeyEvent<D>>, TracerError>)
        ensures
            final(self).listened_down() == old(self).listened_down(),
            final(self).listened_released() == old(self).listened_released(),
            final(self).listened_mouse() == old(self).listened_mouse(),
            final(self).channel() == old(self).channel(),
            final(self).published_on() == old(self).published_on(),
            final(self).read_from() == old(self).read_from(),
            res matches Err(e) ==> (e matches TracerError::BusReadError(name, _) && name@ == old(self).read_from()),
    {
        self.key_reader.get_messages()
    }

    /// One more reader of the events: a reader on the channel of this
    /// registry.
    pub fn get_key_reader(&mut self) -> (reader: DataReader<KeyEvent<D>>)
        ensures
            final(self).listened_down() == old(self).listened_down(),
            final(self).listened_released() == old(self).listened_released(),
            final(self).listened_mouse() == old(self).listened_mouse(),
            final(self).channel() == old(self).channel(),
            final(self).published_on() == old(self).published_on(),
            final(self).read_from() == old(self).read_from(),
            reader.name() == old(self).channel(),
    {
        self.bus.get_reader()
    }

    /// The mouse buttons whose drags are reported, in the order in which
    /// they were registered.
    pub fn mouse_buttons(&self) -> (buttons: &Vec<MouseButton>)
        ensures
            buttons@ == self.listened_mouse(),
    {
        &self.listen_mouse
    }

    /// The events of one frame of an active window: the mouse drags handed
    /// in, then a `Down` for every listened key that `is_down` reports,
    /// then a `Released` for every listened key that `is_released` reports,
    /// each group in the order of its registration.
    pub fn frame_events<A: Fn(Key) -> bool, B: Fn(Key) -> bool>(
        &self,
        drags: Vec<KeyEvent<D>>,
        is_down: &A,
        is_released: &B,
    ) -> (events: Vec<KeyEvent<D>>)
        requires
            forall|key: Key| call_requires(*is_down, (key,)),
            forall|key: Key| call_requires(*is_released, (key,)),
        ensures
            exists|down: Seq<Key>, released: Seq<Key>| #[trigger]
                is_frame(drags@, down, released, events@) && is_answered(
                    *is_down,
                    self.listened_down(),
                    down,
                ) && is_answered(*is_released, self.listened_released(), released),
    {
        let mut events = drags;
        let down = answered(is_down, &self.listen_is_down);
        let mut i: usize = 0;
        while i < down.len()
            invariant
                i <= down@.len(),
                events@.len() == drags@.len() + i,
                forall|k: int| 0 <= k < drags@.len() ==> events@[k] == drags@[k],
                forall|k: int|
                    0 <= k < i ==> #[trigger] events@[drags@.len() + k] == KeyEvent::<D>::Down(
                        down@[k],
                    ),
            decreases down@.len() - i,
        {
            events.push(KeyEvent::Down(down[i]));
            i = i + 1;
        }
        let released = answered(is_released, &self.listen_is_released);
        let mut i: usize = 0;
        while i < released.len()
            invariant
                i <= released@.len(),
                events@.len() == drags@.len() + down@.len() + i,
                forall|k: int| 0 <= k < drags@.len() ==> events@[k] == drags@[k],
                forall|k: int|
                    0 <= k < down@.len() ==> #[trigger] events@[drags@.len() + k] == KeyEvent::<
                        D,
                    >::Down(down@[k]),
                forall|k: int|
                    0 <= k < i ==> #[trigger] events@[drags@.len() + down@.len() + k]
                        == KeyEvent::<D>::Released(released@[k]),
            decreases released@.len() - i,
        {
            events.push(KeyEvent::Released(released[i]));
            i = i + 1;
        }
        assert(is_frame(drags@, down@, released@, events@));
        events
    }

    /// Publishes the events of one frame. First what was published before
    /// is broadcast. Then, if the window is active, the events of the frame
    /// are published in their order: see [`Self::frame_events`]. Stops at
    /// the first failure of the channel.
    ///
    /// A failure to broadcast is a receive failure whose text is that of a
    /// failed update. A failure to publish is a write failure that names
    /// the channel this registry publishes on; an inactive window publishes
    /// nothing, so it cannot fail in that way.
    pub fn update<A: Fn(Key) -> bool, B: Fn(Key) -> bool>(
        &mut self,
        active: bool,
        drags: Vec<KeyEvent<D>>,
        is_down: &A,
        is_released: &B,
    ) -> (res: Result<(), TracerError>)
        requires
            forall|key: Key| call_requires(*is_down, (key,)),
            forall|key: Key| call_requires(*is_released, (key,)),
        ensures
            final(self).listened_down() == old(self).listened_down(),
            final(self).listened_released() == old(self).listened_released(),
            final(self).listened_mouse() == old(self).listened_mouse(),
            final(self).channel() == old(self).channel(),
            final(self).published_on() == old(self).published_on(),
            final(self).read_from() == old(self).read_from(),
            res matches Err(e) ==> e is RecieveError || e is BusWriteError,
            res matches Err(e) ==> (e matches TracerError::RecieveError(text) ==> exists|
                blamed: Seq<char>,
            | text@ == #[trigger] update_failure(blamed)),
            res matches Err(e) ==> (e matches TracerError::BusWriteError(name, _) ==> active
                && name@ == old(self).published_on()),
    {
        match self.bus.update() {
            Ok(()) => {},
            Err(e) => {
                return Err(e);
            },
        }
        if !active {
            return Ok(());
        }
        let events = self.frame_events(drags, is_down, is_released);
        let mut i: usize = 0;
        while i < events.len()
            invariant
                i <= events@.len(),
                self.listened_down() == old(self).listened_down(),
                self.listened_released() == old(self).listened_released(),
                self.listened_mouse() == old(self).listened_mouse(),
                self.channel() == old(self).channel(),
                self.published_on() == old(self).published_on(),
                self.read_from() == old(self).read_from(),
                active,
            decreases events@.len() - i,
        {
            match self.key_writer.write(events[i].clone()) {
                Ok(()) => {},
                Err(e) => {
                    return Err(e);
                },
            }
            i = i + 1;
        }
        Ok(())
    }
}

} // verus!
