//! How far a wake has come, as its client sees it.

use crate::clock::{CLOCK_END, SECOND};
use crate::client::WAKE_WAIT_TIMEOUT;
use crate::policy::{id_set, push_contains};
use crate::protocol::{result_models, ResultModel, WakeResult};
use crate::request::accepted_ids;
use crate::text::{listed, texts};
use vstd::prelude::*;

verus! {

/// How long after its beginning a wake may be sent again, to get at its receipt.
/// The server keeps the receipt at least as long.
pub const RECOVERY_TIMEOUT: u64 = 900 * SECOND;

/// What has come of a wake.
#[derive(Clone, Copy, Debug, PartialEq, Eq, Structural)]
pub enum Outcome {
    /// Every target was accepted and has been seen.
    Complete,
    /// Every accepted target has been seen, but not every target was accepted.
    Partial,
    /// No target was accepted.
    Rejected,
    Waiting,
}

/// The progress of one attempt.
pub struct Progress {
    pub created_at: u64,
    /// The hosts that the receipt accepted.
    pub accepted: Vec<String>,
    /// The hosts that have been seen, each once.
    pub online: Vec<String>,
    /// When the first receipt came.
    pub started_at: Option<u64>,
    pub deadline: u64,
}

pub struct ProgressModel {
    pub created_at: u64,
    pub accepted: Set<Seq<char>>,
    pub online: Set<Seq<char>>,
    pub started_at: Option<u64>,
    pub deadline: u64,
}

impl View for Progress {
    type V = ProgressModel;

    open spec fn view(&self) -> ProgressModel {
        ProgressModel {
            created_at: self.created_at,
            accepted: id_set(texts(self.accepted@)),
            online: id_set(texts(self.online@)),
            started_at: self.started_at,
            deadline: self.deadline,
        }
    }
}

impl ProgressModel {
    /// The progress of an attempt that begins now.
    pub open spec fn begun(now: u64) -> ProgressModel {
        ProgressModel {
            created_at: now,
            accepted: Set::empty(),
            online: Set::empty(),
            started_at: None,
            deadline: (now + WAKE_WAIT_TIMEOUT) as u64,
        }
    }

    /// The progress after a receipt. The first receipt opens the client's window
    /// of a minute; a receipt that comes again leaves the window, and what has
    /// been seen, as they are.
    pub open spec fn received(self, results: Seq<ResultModel>, now: u64) -> ProgressModel {
        ProgressModel {
            accepted: id_set(accepted_ids(results)),
            started_at: match self.started_at {
                Some(at) => Some(at),
                None => Some(now),
            },
            deadline: match self.started_at {
                Some(_) => self.deadline,
                None => (now + WAKE_WAIT_TIMEOUT) as u64,
            },
            ..self
        }
    }

    /// The progress after a host was seen.
    pub open spec fn observed(self, host_id: Seq<char>) -> ProgressModel {
        if self.accepted.contains(host_id) {
            ProgressModel { online: self.online.insert(host_id), ..self }
        } else {
            self
        }
    }

    pub open spec fn outcome(self, targets: Set<Seq<char>>) -> Outcome {
        if self.started_at is None {
            Outcome::Waiting
        } else if self.accepted =~= Set::<Seq<char>>::empty() {
            Outcome::Rejected
        } else if !self.accepted.subset_of(self.online) {
            Outcome::Waiting
        } else if targets.subset_of(self.accepted) {
            Outcome::Complete
        } else {
            Outcome::Partial
        }
    }
}

#[verifier::loop_isolation(false)]
fn contained(a: &Vec<String>, b: &Vec<String>) -> (r: bool)
    ensures
        r == id_set(texts(a@)).subset_of(id_set(texts(b@))),
{
    let mut i: usize = 0;
    while i < a.len()
        invariant
            i <= a@.len(),
            forall|k: int| 0 <= k < i ==> texts(b@).contains(#[trigger] texts(a@)[k]),
        decreases a@.len() - i,
    {
        if !listed(b, &a[i]) {
            assert(texts(a@)[i as int] == a@[i as int]@);
            assert(id_set(texts(a@)).contains(a@[i as int]@));
            assert(!id_set(texts(b@)).contains(a@[i as int]@));
            return false;
        }
        i += 1;
    }
    assert forall|x: Seq<char>| id_set(texts(a@)).contains(x) implies id_set(texts(b@)).contains(
        x,
    ) by {
        let k = choose|k: int| 0 <= k < texts(a@).len() && texts(a@)[k] == x;
    }
    true
}

impl Progress {
    /// The progress of an attempt that begins now.
    pub fn new(now: u64) -> (r: Progress)
        requires
            now <= CLOCK_END,
        ensures
            r@ == ProgressModel::begun(now),
    {
        let r = Progress {
            created_at: now,
            accepted: Vec::new(),
            online: Vec::new(),
            started_at: None,
            deadline: now + WAKE_WAIT_TIMEOUT,
        };
        assert(r@.accepted =~= Set::<Seq<char>>::empty());
        assert(r@.online =~= Set::<Seq<char>>::empty());
        r
    }

    /// Takes a receipt in.
    #[verifier::loop_isolation(false)]
    pub fn receive(&mut self, results: &Vec<WakeResult>, now: u64)
        requires
            now <= CLOCK_END,
        ensures
            final(self)@ == old(self)@.received(result_models(results@), now),
    {
        let ghost all = result_models(results@);
        let mut accepted: Vec<String> = Vec::new();
        let mut i: usize = 0;
        assert(all.take(0) =~= Seq::<ResultModel>::empty());
        assert(texts(accepted@) =~= Seq::<Seq<char>>::empty());
        while i < results.len()
            invariant
                i <= results@.len(),
                texts(accepted@) == accepted_ids(all.take(i as int)),
            decreases results@.len() - i,
        {
            assert(all.take(i + 1).drop_last() =~= all.take(i as int));
            assert(all.take(i + 1).last() == results@[i as int]@);
            if results[i].accepted {
                let ghost before = texts(accepted@);
                accepted.push(results[i].host_id.clone());
                assert(texts(accepted@) =~= before.push(all[i as int].host_id));
            }
            i += 1;
        }
        assert(all.take(i as int) =~= all);
        self.accepted = accepted;
        if self.started_at.is_none() {
            self.started_at = Some(now);
            self.deadline = now + WAKE_WAIT_TIMEOUT;
        }
    }

    /// Takes a sighting in.
    pub fn observe(&mut self, host_id: &str)
        ensures
            final(self)@ == old(self)@.observed(host_id@),
    {
        let ghost before = self@;
        if listed(&self.accepted, host_id) {
            if listed(&self.online, host_id) {
                assert(before.online.insert(host_id@) =~= before.online);
            } else {
                let ghost online = texts(self.online@);
                self.online.push(host_id.to_owned());
                assert(texts(self.online@) =~= online.push(host_id@));
                proof {
                    push_contains(online, host_id@);
                }
                assert(self@.online =~= before.online.insert(host_id@));
            }
        }
    }

    /// What has come of the wake of the targets.
    pub fn outcome(&self, targets: &Vec<String>) -> (r: Outcome)
        ensures
            r == self@.outcome(id_set(texts(targets@))),
    {
        if self.started_at.is_none() {
            return Outcome::Waiting;
        }
        if self.accepted.len() == 0 {
            assert(self@.accepted =~= Set::<Seq<char>>::empty());
            return Outcome::Rejected;
        }
        assert(self@.accepted.contains(self.accepted@[0]@)) by {
            assert(texts(self.accepted@)[0] == self.accepted@[0]@);
        }
        if !contained(&self.accepted, &self.online) {
            return Outcome::Waiting;
        }
        if contained(targets, &self.accepted) {
            Outcome::Complete
        } else {
            Outcome::Partial
        }
    }

    /// Whether the wake may still be sent again after a lost connection.
    pub fn recoverable(&self, now: u64) -> (r: bool)
        ensures
            r == (crate::clock::elapsed(self.created_at, now) < RECOVERY_TIMEOUT),
    {
        now.saturating_sub(self.created_at) < RECOVERY_TIMEOUT
    }
}

/// A wake is complete only if every target has been seen: none that was refused,
/// or not seen, is taken for success.
pub proof fn success_means_that_every_target_was_seen(
    progress: ProgressModel,
    targets: Set<Seq<char>>,
    host_id: Seq<char>,
)
    requires
        progress.outcome(targets) == Outcome::Complete,
        targets.contains(host_id),
    ensures
        progress.accepted.contains(host_id),
        progress.online.contains(host_id),
{
}

/// A receipt that comes again neither moves the window nor loses a sighting.
pub proof fn a_recovered_receipt_keeps_the_window(
    progress: ProgressModel,
    results: Seq<ResultModel>,
    now: u64,
    later: u64,
)
    ensures
        ({
            let once = progress.received(results, now);
            let twice = once.received(results, later);
            twice == once
        }),
{
}

/// While a wake may be sent again, the server still keeps a receipt that it
/// recorded after the wake began, so that the wake is answered and not sent out
/// a second time.
pub proof fn recovery_ends_before_the_record(created_at: u64, recorded_at: u64, now: u64)
    requires
        created_at <= recorded_at,
        crate::clock::elapsed(created_at, now) < RECOVERY_TIMEOUT,
    ensures
        now < recorded_at + crate::ledger::LEDGER_TTL,
{
}

} // verus!
