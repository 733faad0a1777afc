//! The guard that sequences one call: decide, then run, then record. The
//! driver performs the reads, the operation and the writes; the guard makes
//! every decision and holds the order.
use vstd::prelude::*;

use crate::fingerprint::Fingerprint;
use crate::strategy::{update_view, Disk, MarkerUpdate, Outcome, Strategy};

verus! {

/// Where a guarded call stands.
#[derive(Clone, Copy, Debug, PartialEq, Eq, Structural)]
pub enum Phase {
    /// Nothing decided yet.
    Deciding,
    /// Not skipped: the operation runs now, and its outcome is recorded next.
    Running,
    /// Skipped: the operation does not run and nothing is recorded.
    Skipped,
    /// The outcome has been recorded; the call is over.
    Recorded,
}

/// One guarded call of an operation that produces `output`.
pub struct Guard<S> {
    pub strategy: S,
    pub output: Vec<u8>,
    pub fingerprint: Fingerprint,
    pub phase: Phase,
}

impl<S: Strategy> Guard<S> {
    pub fn new(strategy: S, output: Vec<u8>, fingerprint: Fingerprint) -> (r: Self)
        ensures
            r.strategy == strategy,
            r.output@ == output@,
            r.fingerprint == fingerprint,
            r.phase == Phase::Deciding,
    {
        Guard { strategy, output, fingerprint, phase: Phase::Deciding }
    }

    /// The marker paths whose contents the skip decision reads.
    pub fn marker_paths(&self) -> (r: Option<(Vec<u8>, Vec<u8>)>)
        ensures
            match r {
                Some((s, f)) => self.strategy.markers_spec(self.output@) == Some((s@, f@)),
                None => self.strategy.markers_spec(self.output@) is None,
            },
    {
        self.strategy.markers(&self.output)
    }

    /// Decides from what is on disk whether the call is skipped. A skipped call
    /// reports success without running; otherwise the operation runs next.
    pub fn decide(&mut self, disk: &Disk) -> (skip: bool)
        requires
            old(self).phase == Phase::Deciding,
        ensures
            skip == old(self).strategy.skip_spec(
                disk@,
                old(self).fingerprint.args_hash,
                old(self).fingerprint.code_hash,
            ),
            final(self).phase == (if skip {
                Phase::Skipped
            } else {
                Phase::Running
            }),
            final(self).strategy == old(self).strategy,
            final(self).output == old(self).output,
            final(self).fingerprint == old(self).fingerprint,
    {
        let skip = self.strategy.skip(
            disk,
            self.fingerprint.args_hash,
            self.fingerprint.code_hash,
        );
        self.phase = if skip {
            Phase::Skipped
        } else {
            Phase::Running
        };
        skip
    }

    /// Called once, after the operation ran to completion: the update that
    /// records `outcome`, as the strategy decides it, and the call is over.
    pub fn record(&mut self, outcome: Outcome) -> (r: Option<MarkerUpdate>)
        requires
            old(self).phase == Phase::Running,
        ensures
            update_view(r) == old(self).strategy.update_spec(
                outcome,
                old(self).output@,
                old(self).fingerprint.args_hash,
                old(self).fingerprint.code_hash,
            ),
            final(self).phase == Phase::Recorded,
            final(self).strategy == old(self).strategy,
            final(self).output == old(self).output,
            final(self).fingerprint == old(self).fingerprint,
    {
        let r = self.strategy.callback(
            outcome,
            &self.output,
            self.fingerprint.args_hash,
            self.fingerprint.code_hash,
        );
        self.phase = Phase::Recorded;
        r
    }

    /// [`Guard::record`] for the operation's own result: a success, or an
    /// error that `retriable` classifies.
    pub fn record_result<E, F: Fn(&E) -> bool>(&mut self, result: &Result<(), E>, retriable: &F) -> (r:
        Option<MarkerUpdate>)
        requires
            old(self).phase == Phase::Running,
            forall|e: &E| #[trigger] retriable.requires((e,)),
        ensures
            match result {
                Ok(()) => update_view(r) == old(self).strategy.update_spec(
                    Outcome::Succeeded,
                    old(self).output@,
                    old(self).fingerprint.args_hash,
                    old(self).fingerprint.code_hash,
                ),
                Err(e) => exists|b: bool|
                    #[trigger] retriable.ensures((e,), b) && update_view(r)
                        == old(self).strategy.update_spec(
                        Outcome::Failed { retriable: b },
                        old(self).output@,
                        old(self).fingerprint.args_hash,
                        old(self).fingerprint.code_hash,
                    ),
            },
            final(self).phase == Phase::Recorded,
            final(self).strategy == old(self).strategy,
            final(self).output == old(self).output,
            final(self).fingerprint == old(self).fingerprint,
    {
        let outcome = match result {
            Ok(()) => Outcome::Succeeded,
            Err(e) => Outcome::Failed { retriable: retriable(e) },
        };
        self.record(outcome)
    }
}

} // verus!
