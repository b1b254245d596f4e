//! The mirror of the camera on the rendering side: a snapshot of the
//! camera that follows the events the camera publishes.
//!
//! What a snapshot holds and what an event does to it is the caller's
//! business: it is handed in as a function from a snapshot and an event to
//! the next snapshot. This module decides in which order the events are
//! taken in and when the mirror counts as changed.

use crate::data_bus::DataReader;
use crate::error::TracerError;
use vstd::prelude::*;

verus! {

/// Whether `after` is what the events `events` make of the snapshot
/// `before`, each applied by `apply` to what the one before it left.
pub open spec fn is_followed<S, E, F: Fn(&S, &E) -> S>(
    apply: F,
    before: S,
    events: Seq<E>,
    after: S,
) -> bool
    decreases events.len(),
{
    if events.len() == 0 {
        after == before
    } else {
        exists|between: S|
            is_followed(apply, before, events.drop_last(), between) && #[trigger] call_ensures(
                apply,
                (&between, &events.last()),
                after,
            )
    }
}

/// A snapshot of the camera and the reader that keeps it up to date.
#[verifier::reject_recursive_types(S)]
#[verifier::reject_recursive_types(E)]
pub struct SharedCamera<S, E: Clone + Sync> {
    reader: DataReader<E>,
    data: S,
    changed: bool,
}

impl<S, E: Clone + Sync> SharedCamera<S, E> {
    /// The snapshot.
    pub closed spec fn view(&self) -> S {
        self.data
    }

    /// Whether the last update changed the snapshot.
    pub closed spec fn is_changed(&self) -> bool {
        self.changed
    }

    /// A mirror that starts from the snapshot `data` and follows the events
    /// that `reader` brings. A new mirror counts as changed.
    pub fn new(data: S, reader: DataReader<E>) -> (camera: Self)
        ensures
            camera@ == data,
            camera.is_changed(),
    {
        Self { reader, data, changed: true }
    }

    /// The snapshot.
    pub fn data(&self) -> (data: &S)
        ensures
            *data == self@,
    {
        &self.data
    }

    /// Whether the last update changed the snapshot.
    pub fn changed(&self) -> (changed: bool)
        ensures
            changed == self.is_changed(),
    {
        self.changed
    }

    /// Takes in the events `messages`, oldest first. The mirror counts as
    /// changed when there was an event at all.
    pub fn follow<F: Fn(&S, &E) -> S>(&mut self, messages: &Vec<E>, apply: &F)
        requires
            forall|s: S, e: E| call_requires(*apply, (&s, &e)),
        ensures
            final(self).is_changed() == (messages@.len() > 0),
            is_followed(*apply, old(self)@, messages@, final(self)@),
    {
        self.changed = messages.len() > 0;
        let mut k: usize = 0;
        proof {
            assert(messages@.take(0).len() == 0);
        }
        while k < messages.len()
            invariant
                forall|s: S, e: E| call_requires(*apply, (&s, &e)),
                k <= messages@.len(),
                self.changed == (messages@.len() > 0),
                is_followed(*apply, old(self)@, messages@.take(k as int), self@),
            decreases messages@.len() - k,
        {
            let ghost between = self.data;
            let next = apply(&self.data, &messages[k]);
            self.data = next;
            proof {
                let taken = messages@.take(k + 1);
                assert(taken.drop_last() =~= messages@.take(k as int));
                assert(taken.last() == messages@[k as int]);
                assert(is_followed(*apply, old(self)@, taken.drop_last(), between)
                    && call_ensures(*apply, (&between, &taken.last()), self@));
            }
            k = k + 1;
        }
        proof {
            assert(messages@.take(k as int) =~= messages@);
        }
    }

    /// Takes in the events that are waiting, as [`Self::follow`] does: on
    /// success the snapshot is what those events have made of it, each
    /// applied to what the one before it left, and the mirror counts as
    /// changed when there was one at all. Fails when the channel does, and
    /// then changes nothing but the change flag, which is lowered.
    pub fn update<F: Fn(&S, &E) -> S>(&mut self, apply: &F) -> (res: Result<(), TracerError>)
        requires
            forall|s: S, e: E| call_requires(*apply, (&s, &e)),
        ensures
            !final(self).is_changed() ==> final(self)@ == old(self)@,
            res matches Err(e) ==> e is BusReadError && !final(self).is_changed(),
            res is Ok ==> exists|waiting: Seq<E>| #[trigger]
                is_followed(*apply, old(self)@, waiting, final(self)@) && final(self).is_changed()
                    == (waiting.len() > 0),
    {
        self.changed = false;
        match self.reader.get_messages() {
            Ok(messages) => {
                self.follow(&messages, apply);
                proof {
                    assert(is_followed(*apply, old(self)@, messages@, self@) && self.is_changed()
                        == (messages@.len() > 0));
                }
                Ok(())
            },
            Err(e) => Err(e),
        }
    }
}

} // verus!
