//! The session registry and the broadcaster's fan-out: a mapping from
//! session key to the ordered stream of frames handed to that session's
//! transport. Sessions register on connect, are removed only by their own
//! lifecycle manager, and every fan-out reaches every registered session.

use vstd::prelude::*;

use crate::wire::clone_frame;

verus! {

/// The shadow of one registered session: its key and the frames handed to
/// its transport so far, oldest first.
pub ghost struct SessionView {
    pub key: u128,
    pub log: Seq<Seq<u8>>,
}

/// One registered session: the key it registered under and its delivery
/// stream.
pub struct Session {
    pub key: u128,
    pub delivered: Vec<Vec<u8>>,
}

impl View for Session {
    type V = SessionView;

    open spec fn view(&self) -> SessionView {
        SessionView {
            key: self.key,
            log: Seq::new(self.delivered@.len(), |i: int| self.delivered@[i]@),
        }
    }
}

/// What one fan-out does to the registered sessions: every log grows by the
/// same frame.
pub open spec fn deliver_all(sessions: Seq<SessionView>, frame: Seq<u8>) -> Seq<SessionView> {
    Seq::new(
        sessions.len(),
        |i: int| SessionView { key: sessions[i].key, log: sessions[i].log.push(frame) },
    )
}

/// What a run of fan-outs does: the frames reach every session, first frame
/// first.
pub open spec fn deliver_seq(sessions: Seq<SessionView>, frames: Seq<Seq<u8>>) -> Seq<SessionView>
    decreases frames.len(),
{
    if frames.len() == 0 {
        sessions
    } else {
        deliver_seq(deliver_all(sessions, frames.first()), frames.drop_first())
    }
}

/// Delivering one more frame after a run is the run extended by that frame.
pub proof fn lemma_deliver_seq_snoc(
    sessions: Seq<SessionView>,
    frames: Seq<Seq<u8>>,
    frame: Seq<u8>,
)
    ensures
        deliver_seq(sessions, frames.push(frame)) == deliver_all(deliver_seq(sessions, frames), frame),
    decreases frames.len(),
{
    if frames.len() == 0 {
        reveal_with_fuel(deliver_seq, 2);
        assert(frames.push(frame).first() == frame);
        assert(frames.push(frame).drop_first() =~= Seq::<Seq<u8>>::empty());
        assert(deliver_seq(sessions, frames.push(frame)) == deliver_all(sessions, frame));
    } else {
        assert(frames.push(frame).first() == frames.first());
        assert(frames.push(frame).drop_first() =~= frames.drop_first().push(frame));
        lemma_deliver_seq_snoc(deliver_all(sessions, frames.first()), frames.drop_first(), frame);
    }
}

/// Ordered, complete fan-out: after a run of fan-outs, every session that
/// was registered at the start is still registered under its key and has
/// received exactly the run's frames, in the run's order, after whatever it
/// already held.
pub proof fn lemma_deliver_seq_logs(sessions: Seq<SessionView>, frames: Seq<Seq<u8>>)
    ensures
        deliver_seq(sessions, frames).len() == sessions.len(),
        forall|i: int|
            0 <= i < sessions.len() ==> {
                &&& (#[trigger] deliver_seq(sessions, frames)[i]).key == sessions[i].key
                &&& deliver_seq(sessions, frames)[i].log == sessions[i].log + frames
            },
    decreases frames.len(),
{
    if frames.len() == 0 {
        assert forall|i: int| 0 <= i < sessions.len() implies (#[trigger] deliver_seq(
            sessions,
            frames,
        )[i]).log == sessions[i].log + frames by {
            assert(sessions[i].log + frames =~= sessions[i].log);
        }
    } else {
        let stepped = deliver_all(sessions, frames.first());
        lemma_deliver_seq_logs(stepped, frames.drop_first());
        assert forall|i: int| 0 <= i < sessions.len() implies (#[trigger] deliver_seq(
            sessions,
            frames,
        )[i]).log == sessions[i].log + frames by {
            assert(deliver_seq(sessions, frames)[i].log == stepped[i].log + frames.drop_first());
            assert(sessions[i].log.push(frames.first()) + frames.drop_first() =~= sessions[i].log
                + frames);
        }
    }
}

/// A session that leaves does not disturb the others: after one session is
/// removed, a fan-out still reaches every remaining session, each keeping
/// its key and the frames it already held.
pub proof fn lemma_removed_session_is_isolated(
    sessions: Seq<SessionView>,
    removed: int,
    frame: Seq<u8>,
)
    requires
        0 <= removed < sessions.len(),
    ensures
        deliver_all(sessions.remove(removed), frame).len() == sessions.len() - 1,
        forall|j: int|
            0 <= j < sessions.len() - 1 ==> {
                let survivor = if j < removed {
                    sessions[j]
                } else {
                    sessions[j + 1]
                };
                &&& (#[trigger] deliver_all(sessions.remove(removed), frame)[j]).key
                    == survivor.key
                &&& deliver_all(sessions.remove(removed), frame)[j].log == survivor.log.push(
                    frame,
                )
            },
{
}

/// The registry: the live sessions, in registration order.
pub struct Registry {
    sessions: Vec<Session>,
}

impl Registry {
    /// The registered sessions, in registration order.
    pub closed spec fn entries(self) -> Seq<SessionView> {
        Seq::new(self.sessions@.len(), |i: int| self.sessions@[i]@)
    }

    /// Whether some session is registered under `key`.
    pub open spec fn has_key(self, key: u128) -> bool {
        exists|i: int| 0 <= i < self.entries().len() && self.entries()[i].key == key
    }

    /// The position of the session registered under `key`.
    pub open spec fn index_of(self, key: u128) -> int {
        choose|i: int| 0 <= i < self.entries().len() && self.entries()[i].key == key
    }

    /// No two sessions share a key.
    pub open spec fn wf(self) -> bool {
        forall|i: int, j: int|
            0 <= i < j < self.entries().len() ==> self.entries()[i].key != self.entries()[j].key
    }

    /// An empty registry.
    pub fn new() -> (registry: Registry)
        ensures
            registry.wf(),
            registry.entries() == Seq::<SessionView>::empty(),
    {
        let registry = Registry { sessions: Vec::new() };
        proof {
            assert(registry.entries() =~= Seq::<SessionView>::empty());
        }
        registry
    }

    /// Registers a fresh session under `key` with an empty delivery stream;
    /// a session already registered under the same key is replaced.
    pub fn register(&mut self, key: u128)
        requires
            old(self).wf(),
        ensures
            final(self).wf(),
            !old(self).has_key(key) ==> final(self).entries() == old(self).entries().push(
                (SessionView { key, log: Seq::empty() }),
            ),
            old(self).has_key(key) ==> final(self).entries() == old(self).entries().update(
                old(self).index_of(key),
                (SessionView { key, log: Seq::empty() }),
            ),
    {
        let fresh = Session { key, delivered: Vec::new() };
        proof {
            assert(fresh@ == (SessionView { key, log: Seq::<Seq<u8>>::empty() })) by {
                assert(fresh@.log =~= Seq::<Seq<u8>>::empty());
            }
        }
        let mut i: usize = 0;
        while i < self.sessions.len()
            invariant
                i <= self.sessions@.len(),
                *self == *old(self),
                old(self).wf(),
                fresh@ == (SessionView { key, log: Seq::<Seq<u8>>::empty() }),
                forall|j: int| 0 <= j < i ==> (#[trigger] old(self).entries()[j]).key != key,
            decreases self.sessions@.len() - i,
        {
            if self.sessions[i].key == key {
                proof {
                    assert(old(self).entries()[i as int].key == key);
                    assert(old(self).has_key(key));
                    assert(old(self).index_of(key) == i) by {
                        let found = old(self).index_of(key);
                        assert(0 <= found < old(self).entries().len() && old(self).entries()[
                            found
                        ].key == key);
                        if found < i as int {
                            assert(old(self).entries()[found].key != old(self).entries()[
                                i as int
                            ].key);
                        }
                        if found > i as int {
                            assert(old(self).entries()[i as int].key != old(self).entries()[
                                found
                            ].key);
                        }
                    }
                }
                self.sessions.set(i, fresh);
                proof {
                    assert(self.entries() =~= old(self).entries().update(
                        i as int,
                        (SessionView { key, log: Seq::empty() }),
                    ));
                }
                return ;
            }
            i = i + 1;
        }
        self.sessions.push(fresh);
        proof {
            assert(!old(self).has_key(key));
            assert(self.entries() =~= old(self).entries().push(
                (SessionView { key, log: Seq::empty() }),
            ));
        }
    }

    /// Removes the session registered under `key`, if any; every other
    /// session is left exactly as it was.
    pub fn deregister(&mut self, key: u128)
        requires
            old(self).wf(),
        ensures
            final(self).wf(),
            !final(self).has_key(key),
            !old(self).has_key(key) ==> final(self).entries() == old(self).entries(),
            old(self).has_key(key) ==> final(self).entries() == old(self).entries().remove(
                old(self).index_of(key),
            ),
    {
        let mut i: usize = 0;
        while i < self.sessions.len()
            invariant
                i <= self.sessions@.len(),
                *self == *old(self),
                old(self).wf(),
                forall|j: int| 0 <= j < i ==> (#[trigger] old(self).entries()[j]).key != key,
            decreases self.sessions@.len() - i,
        {
            if self.sessions[i].key == key {
                proof {
                    assert(old(self).entries()[i as int].key == key);
                    assert(old(self).has_key(key));
                    assert(old(self).index_of(key) == i) by {
                        let found = old(self).index_of(key);
                        assert(0 <= found < old(self).entries().len() && old(self).entries()[
                            found
                        ].key == key);
                        if found < i as int {
                            assert(old(self).entries()[found].key != old(self).entries()[
                                i as int
                            ].key);
                        }
                        if found > i as int {
                            assert(old(self).entries()[i as int].key != old(self).entries()[
                                found
                            ].key);
                        }
                    }
                }
                self.sessions.remove(i);
                proof {
                    assert(self.entries() =~= old(self).entries().remove(i as int));
                    assert forall|j: int|
                        0 <= j < self.entries().len() implies (#[trigger] self.entries()[j]).key
                        != key by {
                        if j < i {
                            assert(self.entries()[j] == old(self).entries()[j]);
                        } else {
                            assert(self.entries()[j] == old(self).entries()[j + 1]);
                        }
                    }
                }
                return ;
            }
            i = i + 1;
        }
        proof {
            assert(!old(self).has_key(key));
        }
    }

    /// A read-only view of the registered sessions, in registration order.
    pub fn snapshot(&self) -> (all: &Vec<Session>)
        ensures
            all@.len() == self.entries().len(),
            forall|i: int| 0 <= i < all@.len() ==> (#[trigger] all@[i])@ == self.entries()[i],
    {
        &self.sessions
    }

    /// Hands one frame to every registered session: each session's stream
    /// grows by exactly this frame, and no session appears or disappears.
    pub fn fan_out(&mut self, frame: &Vec<u8>)
        requires
            old(self).wf(),
        ensures
            final(self).wf(),
            final(self).entries() == deliver_all(old(self).entries(), frame@),
    {
        let mut i: usize = 0;
        while i < self.sessions.len()
            invariant
                i <= self.sessions@.len(),
                self.sessions@.len() == old(self).entries().len(),
                forall|j: int|
                    i <= j < self.sessions@.len() ==> (#[trigger] self.sessions@[j])@ == old(
                        self,
                    ).entries()[j],
                forall|j: int|
                    0 <= j < i ==> (#[trigger] self.sessions@[j])@ == deliver_all(
                        old(self).entries(),
                        frame@,
                    )[j],
            decreases self.sessions@.len() - i,
        {
            let copy = clone_frame(frame);
            self.sessions[i].delivered.push(copy);
            proof {
                assert((self.sessions@[i as int])@.log =~= old(self).entries()[i as int].log.push(
                    frame@,
                ));
            }
            i = i + 1;
        }
        proof {
            assert(self.entries() =~= deliver_all(old(self).entries(), frame@));
        }
    }
}

} // verus!
