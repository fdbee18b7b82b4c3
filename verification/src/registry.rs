//! The process-wide table of live upload sessions: admission control,
//! collision-free id selection, per-request dispatch and idle eviction.
use crate::session::{keys_eqv, next_rel, NcchKeys, PostNcchSession, PostNcchSessionState, SessionStep};
use crate::api::PostNcchResponse;
use vstd::prelude::*;
use vstd::seq_lib::*;

verus! {

/// Relies on rand::random for a uniformly distributed session id; nothing
/// is promised of the value.
#[verifier::external_body]
fn random_u32() -> u32 {
    rand::random()
}

/// Whether a session may be reclaimed by the eviction sweep at time `now`:
/// it is terminated, or idle longer than the cleanup period.
pub open spec fn reclaimable(s: PostNcchSession, now: u64, period: u64) -> bool {
    ||| s.state is Finished
    ||| s.state is Undefined
    ||| now - s.last_touch >= period
}

/// The table as admission sees it: when the table has reached its limit
/// the eviction sweep runs first, otherwise it is left as it stands.
pub open spec fn post_sweep_table(pre: SessionRegistry, now: u64) -> Seq<PostNcchSession> {
    if pre.sessions@.len() >= pre.max_session_count {
        pre.sessions@.filter(|s: PostNcchSession| !reclaimable(s, now, pre.session_cleanup_period))
    } else {
        pre.sessions@
    }
}

/// The table of live sessions, their shared keys, and the two operating
/// limits.
pub struct SessionRegistry {
    pub sessions: Vec<PostNcchSession>,
    pub max_session_count: usize,
    pub session_cleanup_period: u64,
    pub keys: NcchKeys,
}

impl SessionRegistry {
    /// Ids are unique for the lifetime of their sessions, and every stored
    /// session is well formed.
    pub open spec fn wf(self) -> bool {
        &&& self.keys.wf()
        &&& forall|i: int, j: int|
            0 <= i < j < self.sessions@.len() ==> (#[trigger] self.sessions@[i]).id != (
            #[trigger] self.sessions@[j]).id
        &&& forall|i: int| 0 <= i < self.sessions@.len() ==> (#[trigger] self.sessions@[i]).wf()
    }

    pub open spec fn has_id(self, id: u32) -> bool {
        exists|i: int| 0 <= i < self.sessions@.len() && (#[trigger] self.sessions@[i]).id == id
    }

    pub fn new(keys: NcchKeys, max_session_count: usize, session_cleanup_period: u64) -> (r:
        SessionRegistry)
        requires
            keys.wf(),
        ensures
            r.wf(),
            r.sessions@.len() == 0,
            r.max_session_count == max_session_count,
            r.session_cleanup_period == session_cleanup_period,
            r.keys == keys,
    {
        SessionRegistry { sessions: Vec::new(), max_session_count, session_cleanup_period, keys }
    }

    fn find(&self, id: u32) -> (r: Option<usize>)
        ensures
            match r {
                Some(i) => i < self.sessions@.len() && self.sessions@[i as int].id == id,
                None => !self.has_id(id),
            },
    {
        let mut i: usize = 0;
        while i < self.sessions.len()
            invariant
                i <= self.sessions@.len(),
                forall|k: int| 0 <= k < i ==> (#[trigger] self.sessions@[k]).id != id,
            decreases self.sessions@.len() - i,
        {
            if self.sessions[i].id == id {
                return Some(i);
            }
            i = i + 1;
        }
        None
    }

    /// The eviction sweep: exactly the sessions that are live and freshly
    /// touched are retained, in order. After a sweep at time `now`, every
    /// retained session is unterminated with `last_touch` newer than `now`
    /// minus the cleanup period.
    pub fn sweep(&mut self, now: u64)
        requires
            old(self).wf(),
        ensures
            final(self).wf(),
            final(self).keys == old(self).keys,
            final(self).max_session_count == old(self).max_session_count,
            final(self).session_cleanup_period == old(self).session_cleanup_period,
            final(self).sessions@ == old(self).sessions@.filter(
                |s: PostNcchSession| !reclaimable(s, now, old(self).session_cleanup_period),
            ),
            forall|i: int|
                0 <= i < final(self).sessions@.len() ==> !reclaimable(
                    #[trigger] final(self).sessions@[i],
                    now,
                    old(self).session_cleanup_period,
                ),
    {
        let ghost pred = |s: PostNcchSession|
            !reclaimable(s, now, old(self).session_cleanup_period);
        let ghost orig = self.sessions@;
        let period = self.session_cleanup_period;
        let mut kept: Vec<PostNcchSession> = Vec::new();
        let ghost mut done: int = 0;
        proof {
            assert(orig.take(0) =~= Seq::<PostNcchSession>::empty());
            assert(Seq::<PostNcchSession>::empty().filter(pred) =~= Seq::<
                PostNcchSession,
            >::empty());
            assert(self.sessions@ =~= orig.skip(0));
        }
        while self.sessions.len() > 0
            invariant
                0 <= done <= orig.len(),
                self.sessions@ == orig.skip(done),
                self.keys == old(self).keys,
                self.max_session_count == old(self).max_session_count,
                self.session_cleanup_period == old(self).session_cleanup_period,
                period == old(self).session_cleanup_period,
                orig == old(self).sessions@,
                pred == (|s: PostNcchSession|
                    !reclaimable(s, now, old(self).session_cleanup_period)),
                kept@ == orig.take(done).filter(pred),
                old(self).wf(),
                forall|a: int|
                    0 <= a < kept@.len() ==> orig.take(done).contains(#[trigger] kept@[a]),
                forall|a: int, b: int|
                    0 <= a < b < kept@.len() ==> (#[trigger] kept@[a]).id != (
                    #[trigger] kept@[b]).id,
                forall|a: int| 0 <= a < kept@.len() ==> (#[trigger] kept@[a]).wf(),
            decreases self.sessions@.len(),
        {
            let s = self.sessions.remove(0);
            proof {
                assert(orig.skip(done)[0] == orig[done]);
                assert(orig.skip(done).subrange(1, orig.skip(done).len() as int) =~= orig.skip(
                    done + 1,
                ));
            }
            let stale = match s.state {
                PostNcchSessionState::Finished => true,
                PostNcchSessionState::Undefined => true,
                _ => {
                    if now >= s.last_touch {
                        now - s.last_touch >= period
                    } else {
                        false
                    }
                },
            };
            proof {
                assert(orig.take(done + 1).drop_last() =~= orig.take(done));
                assert(orig.take(done + 1).last() == orig[done]);
                reveal_with_fuel(Seq::filter, 2);
            }
            if !stale {
                let ghost kept0 = kept@;
                kept.push(s);
                proof {
                    assert forall|a: int| 0 <= a < kept@.len() implies orig.take(
                        done + 1,
                    ).contains(#[trigger] kept@[a]) by {
                        if a < kept@.len() - 1 {
                            assert(orig.take(done).contains(kept0[a]));
                            let k = choose|k: int|
                                0 <= k < done && orig.take(done)[k] == kept0[a];
                            assert(orig.take(done + 1)[k] == kept@[a]);
                        } else {
                            assert(orig.take(done + 1)[done] == kept@[a]);
                        }
                    }
                    assert forall|a: int, b: int| 0 <= a < b < kept@.len() implies (
                    #[trigger] kept@[a]).id != (#[trigger] kept@[b]).id by {
                        if b == kept@.len() - 1 {
                            assert(orig.take(done).contains(kept0[a]));
                            let k = choose|k: int|
                                0 <= k < done && orig.take(done)[k] == kept0[a];
                            assert(orig[k] == kept@[a]);
                            assert(orig[done] == kept@[b]);
                            assert(orig[k].id != orig[done].id);
                        }
                    }
                    assert(orig[done].wf());
                }
            }
            proof {
                done = done + 1;
            }
        }
        proof {
            assert(orig.take(orig.len() as int) =~= orig);
        }
        self.sessions = kept;
        proof {
            orig.filter_lemma(pred);
            assert forall|i: int| 0 <= i < self.sessions@.len() implies !reclaimable(
                #[trigger] self.sessions@[i],
                now,
                old(self).session_cleanup_period,
            ) by {
                assert(pred(self.sessions@[i]));
            }
        }
    }

    /// Creates a session at time `now`: when the table has reached its
    /// limit the sweep runs once, and a table still at the limit refuses
    /// admission; otherwise a fresh random id, distinct from every live
    /// session's id, is chosen and the new session appended. A refusal
    /// never inserts: the table is left exactly as admission saw it. The
    /// only refusal below capacity is the random draw colliding on every
    /// bounded retry, which an empty table makes impossible.
    pub fn create_session(&mut self, now: u64) -> (r: Option<u32>)
        requires
            old(self).wf(),
        ensures
            final(self).wf(),
            final(self).keys == old(self).keys,
            final(self).max_session_count == old(self).max_session_count,
            final(self).session_cleanup_period == old(self).session_cleanup_period,
            r is None ==> final(self).sessions@ == post_sweep_table(*old(self), now),
            r matches Some(id) ==> ({
                &&& post_sweep_table(*old(self), now).len() < final(self).max_session_count
                &&& final(self).sessions@.len() == post_sweep_table(*old(self), now).len() + 1
                &&& final(self).sessions@.drop_last() == post_sweep_table(*old(self), now)
                &&& final(self).sessions@.last().id == id
                &&& final(self).sessions@.last().state is HeaderNeeded
                &&& final(self).sessions@.last().last_touch == now
                &&& keys_eqv(final(self).sessions@.last().keys, old(self).keys)
                &&& forall|i: int|
                    0 <= i < final(self).sessions@.len() - 1 ==> (
                    #[trigger] final(self).sessions@[i]).id != id
            }),
            (post_sweep_table(*old(self), now).len() == 0 && final(self).max_session_count >= 1)
                ==> r is Some,
    {
        if self.sessions.len() >= self.max_session_count {
            self.sweep(now);
            proof {
                assert(self.sessions@ == post_sweep_table(*old(self), now));
            }
            if self.sessions.len() >= self.max_session_count {
                return None;
            }
        }
        proof {
            assert(self.sessions@ == post_sweep_table(*old(self), now));
        }
        let mut attempts: usize = 0;
        while attempts < 100
            invariant
                self.wf(),
                self.keys == old(self).keys,
                self.max_session_count == old(self).max_session_count,
                self.session_cleanup_period == old(self).session_cleanup_period,
                self.sessions@ == post_sweep_table(*old(self), now),
                self.sessions@.len() < self.max_session_count,
                attempts >= 1 ==> self.sessions@.len() >= 1,
            decreases 100 - attempts,
        {
            let id = random_u32();
            match self.find(id) {
                Some(_) => {},
                None => {
                    let keys = self.keys.duplicate();
                    let session = PostNcchSession::new(id, keys, now);
                    let ghost before = self.sessions@;
                    self.sessions.push(session);
                    proof {
                        assert(self.sessions@.drop_last() =~= before);
                    }
                    return Some(id);
                },
            }
            attempts = attempts + 1;
        }
        None
    }

    /// Dispatches one uploaded chunk to the session with the given id; an
    /// unknown or expired id is refused.
    pub fn append_ncch(&mut self, id: u32, data: &[u8], now: u64) -> (step: SessionStep)
        requires
            old(self).wf(),
        ensures
            final(self).wf(),
            final(self).keys == old(self).keys,
            final(self).max_session_count == old(self).max_session_count,
            final(self).session_cleanup_period == old(self).session_cleanup_period,
            !old(self).has_id(id) ==> step == SessionStep::Reply(PostNcchResponse::NotFound)
                && final(self).sessions@ == old(self).sessions@,
            old(self).has_id(id) ==> exists|i: int|
                {
                    &&& 0 <= i < old(self).sessions@.len()
                    &&& (#[trigger] old(self).sessions@[i]).id == id
                    &&& final(self).sessions@.len() == old(self).sessions@.len()
                    &&& next_rel(
                        old(self).sessions@[i],
                        data@,
                        now,
                        step,
                        final(self).sessions@[i],
                    )
                    &&& forall|j: int|
                        0 <= j < old(self).sessions@.len() && j != i ==> final(self).sessions@[j]
                            == old(self).sessions@[j]
                },
    {
        match self.find(id) {
            None => SessionStep::Reply(PostNcchResponse::NotFound),
            Some(i) => {
                let ghost gi = i as int;
                let session = &mut self.sessions[i];
                let step = session.next(data, now);
                proof {
                    assert(final(self).sessions@[gi] == *final(session));
                }
                step
            },
        }
    }
}

} // verus!
