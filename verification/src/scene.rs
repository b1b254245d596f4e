//! The objects of a scene as a list: which object a cookie names, what
//! removing and moving do to the list, and how a copy of the list elsewhere
//! follows the events that the scene publishes.
//!
//! What an object is and what a position is are left to the caller. Moving
//! an object is done by a function the caller supplies, from the object and
//! its new position to the moved object.

use crate::config::SceneLoaderConfig;
use crate::data_bus::{update_failure, DataBus, DataReader, DataWriter};
use crate::error::TracerError;
use vstd::prelude::*;

verus! {

/// The name of an object of a scene: its place in the scene's list at the
/// time the cookie was made.
#[derive(Eq, PartialEq, Hash, Clone, Copy, Debug)]
pub struct ObjectCookie {
    pub id: usize,
}

/// What a scene publishes when it changes.
pub enum SceneObjectEvent<P> {
    Pos { id: ObjectCookie, pos: P },
    Remove { id: ObjectCookie },
}

impl<P: Clone> Clone for SceneObjectEvent<P> {
    fn clone(&self) -> (copy: Self) {
        match self {
            SceneObjectEvent::Pos { id, pos } => SceneObjectEvent::Pos { id: *id, pos: pos.clone() },
            SceneObjectEvent::Remove { id } => SceneObjectEvent::Remove { id: *id },
        }
    }
}

/// Whether `after` is `before` with the object at `at` moved to `pos` by
/// `place`, and every other object untouched.
pub open spec fn is_moved<O, P, F: Fn(&O, &P) -> O>(
    place: F,
    before: Seq<O>,
    at: int,
    pos: P,
    after: Seq<O>,
) -> bool {
    &&& 0 <= at < before.len()
    &&& after.len() == before.len()
    &&& call_ensures(place, (&before[at], &pos), after[at])
    &&& forall|k: int| 0 <= k < before.len() && k != at ==> after[k] == before[k]
}

/// Whether `after` is what `event` makes of the list `before`.
///
/// A removal takes the named object out and closes the gap. A move replaces
/// the named object by the moved one; a move that names no object of the
/// list changes nothing.
pub open spec fn is_applied<O, P, F: Fn(&O, &P) -> O>(
    place: F,
    before: Seq<O>,
    event: SceneObjectEvent<P>,
    after: Seq<O>,
) -> bool {
    match event {
        SceneObjectEvent::Remove { id } => id.id < before.len() && after == before.remove(
            id.id as int,
        ),
        SceneObjectEvent::Pos { id, pos } => if id.id < before.len() {
            is_moved(place, before, id.id as int, pos, after)
        } else {
            after == before
        },
    }
}

/// Whether `place` may be called on every object and position and gives
/// one answer for one question.
pub open spec fn is_place<O, P, F: Fn(&O, &P) -> O>(place: F) -> bool {
    &&& forall|o: O, p: P| call_requires(place, (&o, &p))
    &&& forall|o: O, p: P, one: O, other: O| #[trigger]
        call_ensures(place, (&o, &p), one) && #[trigger] call_ensures(place, (&o, &p), other)
            ==> one == other
}

/// An event makes one thing of a list: whoever applies the same event to
/// the same list gets the same list. So a copy that follows the events of
/// a scene stays equal to the scene.
pub proof fn lemma_event_has_one_outcome<O, P, F: Fn(&O, &P) -> O>(
    place: F,
    before: Seq<O>,
    event: SceneObjectEvent<P>,
    one: Seq<O>,
    other: Seq<O>,
)
    requires
        is_place(place),
        is_applied(place, before, event, one),
        is_applied(place, before, event, other),
    ensures
        one == other,
{
    assert(one =~= other);
}

/// Replaces the object at `at` by the one that `place` makes of it and
/// `pos`.
pub fn move_object<O, P, F: Fn(&O, &P) -> O>(objects: &mut Vec<O>, at: usize, pos: &P, place: &F)
    requires
        at < old(objects)@.len(),
        call_requires(*place, (&old(objects)@[at as int], pos)),
    ensures
        is_moved(*place, old(objects)@, at as int, *pos, final(objects)@),
{
    let moved = place(&objects[at], pos);
    objects.set(at, moved);
}

/// Applies one event of a scene to a copy of its list. A removal that names
/// no object of the list is refused, and the list stays as it was.
pub fn apply_event<O, P, F: Fn(&O, &P) -> O>(
    objects: &mut Vec<O>,
    event: &SceneObjectEvent<P>,
    place: &F,
) -> (res: Result<(), TracerError>)
    requires
        forall|o: O, p: P| call_requires(*place, (&o, &p)),
    ensures
        res is Ok ==> is_applied(*place, old(objects)@, *event, final(objects)@),
        res is Err <==> (event matches SceneObjectEvent::Remove { id } && id.id >= old(objects)@.len()),
        res matches Err(e) ==> final(objects)@ == old(objects)@ && e == TracerError::NoObjectWithId(
            event->Remove_id.id,
        ),
{
    match event {
        SceneObjectEvent::Remove { id } => {
            if id.id < objects.len() {
                objects.remove(id.id);
                Ok(())
            } else {
                Err(TracerError::NoObjectWithId(id.id))
            }
        },
        SceneObjectEvent::Pos { id, pos } => {
            if id.id < objects.len() {
                move_object(objects, id.id, pos, place);
            }
            Ok(())
        },
    }
}

/// The scene on the interactive side: it owns the objects, remembers which
/// one is selected, and publishes every change.
#[verifier::reject_recursive_types(O)]
#[verifier::reject_recursive_types(P)]
pub struct Scene<O, P: Clone + Sync> {
    objects: Vec<O>,
    bus: DataBus<SceneObjectEvent<P>>,
    writer: DataWriter<SceneObjectEvent<P>>,
    selected_object: Option<ObjectCookie>,
}

impl<O, P: Clone + Sync> Scene<O, P> {
    /// The objects, in list order.
    pub closed spec fn view(&self) -> Seq<O> {
        self.objects@
    }

    /// The cookie of the selected object, if one is selected.
    pub closed spec fn selected(&self) -> Option<ObjectCookie> {
        self.selected_object
    }

    /// A scene of `objects`, with nothing selected.
    pub fn new(objects: Vec<O>) -> (scene: Self)
        ensures
            scene@ == objects@,
            scene.selected() is None,
    {
        let bus = DataBus::new("scene-object-handler");
        Scene { objects, writer: bus.get_writer(), bus, selected_object: None }
    }

    /// Removes the object that `cookie` names and publishes the removal.
    ///
    /// The selection is dropped when it names the same place, whether or
    /// not an object is there. A cookie that names no object is refused.
    /// With an object there, the object leaves the list, and the only
    /// failure left is that of publishing.
    pub fn remove_object(&mut self, cookie: &ObjectCookie) -> (res: Result<(), TracerError>)
        ensures
            final(self).selected() == (if old(self).selected() == Some(*cookie) {
                None
            } else {
                old(self).selected()
            }),
            cookie.id < old(self)@.len() ==> final(self)@ == old(self)@.remove(cookie.id as int),
            cookie.id < old(self)@.len() ==> (res matches Err(e) ==> e is BusWriteError),
            cookie.id >= old(self)@.len() ==> final(self)@ == old(self)@ && res == Err::<
                (),
                TracerError,
            >(TracerError::NoObjectWithId(cookie.id)),
    {
        match self.selected_object {
            Some(id) => {
                if id.id == cookie.id {
                    self.selected_object = None;
                }
            },
            None => {},
        }
        if cookie.id < self.objects.len() {
            self.objects.remove(cookie.id);
            self.writer.write(SceneObjectEvent::Remove { id: *cookie })
        } else {
            Err(TracerError::NoObjectWithId(cookie.id))
        }
    }

    /// Clones of the objects for the rendering side, in list order, and a
    /// reader of the changes that are published from now on.
    pub fn get_shared_objects(&mut self) -> (shared: (Vec<O>, DataReader<SceneObjectEvent<P>>))
        where O: Clone
        ensures
            final(self)@ == old(self)@,
            final(self).selected() == old(self).selected(),
            shared.0@.len() == old(self)@.len(),
            forall|k: int|
                0 <= k < old(self)@.len() ==> call_ensures(
                    O::clone,
                    (&old(self)@[k],),
                    #[trigger] shared.0@[k],
                ),
    {
        let mut copies: Vec<O> = Vec::new();
        let mut k: usize = 0;
        while k < self.objects.len()
            invariant
                k <= self.objects@.len(),
                copies@.len() == k,
                forall|j: int|
                    0 <= j < k ==> call_ensures(
                        O::clone,
                        (&self.objects@[j],),
                        #[trigger] copies@[j],
                    ),
                self@ == old(self)@,
                self.selected() == old(self).selected(),
            decreases self.objects@.len() - k,
        {
            copies.push(self.objects[k].clone());
            k = k + 1;
        }
        (copies, self.bus.get_reader())
    }

    /// The cookie of the selected object, if one is selected.
    pub fn selected_object(&self) -> (cookie: Option<ObjectCookie>)
        ensures
            cookie == self.selected(),
    {
        self.selected_object
    }

    /// Selects the object at place `nearest` of the list, or nothing.
    pub fn select_object(&mut self, nearest: Option<usize>) -> (cookie: Option<ObjectCookie>)
        ensures
            final(self)@ == old(self)@,
            cookie == final(self).selected(),
            cookie == match nearest {
                Some(k) => Some(ObjectCookie { id: k }),
                None => None,
            },
    {
        self.selected_object = match nearest {
            Some(k) => Some(ObjectCookie { id: k }),
            None => None,
        };
        self.selected_object
    }

    /// Broadcasts the changes that were published since the last call.
    /// The objects and the selection stay as they are. Fails as
    /// [`DataBus::update`] does, with a receive failure whose text is that
    /// of a failed update.
    pub fn update(&mut self) -> (res: Result<(), TracerError>)
        ensures
            final(self)@ == old(self)@,
            final(self).selected() == old(self).selected(),
            res matches Err(e) ==> (e matches TracerError::RecieveError(text) && exists|
                blamed: Seq<char>,
            | text@ == #[trigger] update_failure(blamed)),
    {
        self.bus.update()
    }

    /// Moves the object that `cookie` names to `pos` and publishes the
    /// move. A cookie that names no object is refused. With an object
    /// there, the object is replaced by the moved one, and the only failure
    /// left is that of publishing.
    pub fn set_pos<F: Fn(&O, &P) -> O>(&mut self, cookie: &ObjectCookie, pos: P, place: &F) -> (res:
        Result<(), TracerError>)
        requires
            forall|o: O, p: P| call_requires(*place, (&o, &p)),
        ensures
            final(self).selected() == old(self).selected(),
            cookie.id < old(self)@.len() ==> is_moved(
                *place,
                old(self)@,
                cookie.id as int,
                pos,
                final(self)@,
            ),
            cookie.id < old(self)@.len() ==> (res matches Err(e) ==> e is BusWriteError),
            cookie.id >= old(self)@.len() ==> final(self)@ == old(self)@ && res == Err::<
                (),
                TracerError,
            >(TracerError::NoObjectWithId(cookie.id)),
    {
        if cookie.id < self.objects.len() {
            move_object(&mut self.objects, cookie.id, &pos, place);
            self.writer.write(SceneObjectEvent::Pos { id: *cookie, pos })
        } else {
            Err(TracerError::NoObjectWithId(cookie.id))
        }
    }

    /// The objects, in list order.
    pub fn objects(&self) -> (objects: &Vec<O>)
        ensures
            objects@ == self@,
    {
        &self.objects
    }

    /// The position of the object that `cookie` names, as `pos_of` reads it
    /// off the object. A cookie that names no object is refused.
    pub fn get_pos<F: Fn(&O) -> P>(&self, cookie: &ObjectCookie, pos_of: &F) -> (res: Result<
        P,
        TracerError,
    >)
        requires
            forall|o: O| call_requires(*pos_of, (&o,)),
        ensures
            cookie.id < self@.len() ==> (res matches Ok(pos) && call_ensures(
                *pos_of,
                (&self@[cookie.id as int],),
                pos,
            )),
            cookie.id >= self@.len() ==> res == Err::<P, TracerError>(
                TracerError::NoObjectWithId(cookie.id),
            ),
    {
        if cookie.id < self.objects.len() {
            Ok(pos_of(&self.objects[cookie.id]))
        } else {
            Err(TracerError::NoObjectWithId(cookie.id))
        }
    }
}

/// The loader of the empty scene.
#[derive(Clone, Copy, Debug, Default)]
pub struct NoneLoader {}

impl NoneLoader {
    pub fn new() -> (loader: Self) {
        Self {  }
    }
}

/// The loader of the scene of randomly placed spheres.
#[derive(Clone, Copy, Debug, Default)]
pub struct Random {}

impl Random {
    pub fn new() -> (loader: Self) {
        Self {  }
    }
}

/// The scenes that the sandbox loader knows.
#[derive(Clone, Copy, Debug, PartialEq, Eq)]
pub enum SandboxSelect {
    Sandbox,
}

/// The loader of the built-in test scene.
#[derive(Clone, Copy, Debug)]
pub struct Sandbox {
    pub selection: SandboxSelect,
}

impl Sandbox {
    pub fn new() -> (loader: Self)
        ensures
            loader.selection is Sandbox,
    {
        Self { selection: SandboxSelect::Sandbox }
    }
}

/// The loader of a scene file.
#[derive(Clone, Debug)]
pub struct YmlLoader {
    pub path: String,
}

impl YmlLoader {
    pub fn new(path: String) -> (loader: Self)
        ensures
            loader.path == path,
    {
        Self { path }
    }
}

/// One of the loaders.
#[derive(Clone, Debug)]
pub enum Loader {
    Yml(YmlLoader),
    Random(Random),
    Empty(NoneLoader),
    Sandbox(Sandbox),
}

impl Loader {
    /// The loader that a configuration asks for.
    pub fn select(config: &SceneLoaderConfig) -> (loader: Self)
        ensures
            match *config {
                SceneLoaderConfig::Yml { path } => loader matches Loader::Yml(yml) && yml.path
                    == path,
                SceneLoaderConfig::Random => loader is Random,
                SceneLoaderConfig::NoScene => loader is Empty,
                SceneLoaderConfig::Sandbox => loader is Sandbox,
            },
    {
        match config {
            SceneLoaderConfig::Yml { path } => Loader::Yml(YmlLoader::new(path.clone())),
            SceneLoaderConfig::Random => Loader::Random(Random::new()),
            SceneLoaderConfig::NoScene => Loader::Empty(NoneLoader::new()),
            SceneLoaderConfig::Sandbox => Loader::Sandbox(Sandbox::new()),
        }
    }
}

} // verus!
