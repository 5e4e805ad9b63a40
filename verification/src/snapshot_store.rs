//! Which source of routes decides for packets.
//!
//! One source is active, and what it published is what readers see. Other
//! sources can be prepared meanwhile; readers see nothing of them before they
//! are committed.

use vstd::prelude::*;
use std::collections::HashMap;
use crate::forwarding_snapshot::ForwardingDecisionSnapshot;
use crate::publish_hook::{
    ForwardingSnapshotPublishHook, ForwardingSnapshotSourceToken, HookEvent, HookPort,
};

verus! {

broadcast use vstd::std_specs::hash::group_hash_axioms;

#[derive(Clone, Copy, Debug, PartialEq, Eq, Structural)]
pub enum ForwardingSnapshotCommitError {
    MissingPendingSource,
    PublicationRejected,
    SourceTokenExhausted,
}

#[derive(Clone, Copy, Debug, PartialEq, Eq, Structural)]
pub enum ForwardingSnapshotPublishError {
    SourceNotRegistered,
    StaleGeneration,
    PublicationRejected,
}

/// A snapshot that a source has published.
pub struct ForwardingSnapshotPublication {
    pub source_token: ForwardingSnapshotSourceToken,
    pub snapshot: ForwardingDecisionSnapshot,
}

/// What readers see, the active source, and the sources that are prepared.
pub struct ForwardingDecisionSnapshotStoreInner<H> {
    pub published: Option<ForwardingSnapshotPublication>,
    pub next_source_token: u64,
    pub active_source_token: ForwardingSnapshotSourceToken,
    /// Prepared sources, each with what it has published so far.
    pub pending_snapshots: HashMap<u64, Option<ForwardingDecisionSnapshot>>,
    /// The source whose change is under way.
    pub transitioning_source: Option<ForwardingSnapshotSourceToken>,
    /// The way to the hook that decides on publications.
    pub port: HookPort<H>,
}

/// The generation of what a prepared source has published.
pub open spec fn pending_generation(pending: Option<ForwardingDecisionSnapshot>) -> Option<u64> {
    match pending {
        Some(snapshot) => Some(snapshot.generation),
        None => None,
    }
}

/// Whether a generation is not newer than another.
pub open spec fn is_stale(known: Option<u64>, generation: u64) -> bool {
    known matches Some(g) && g >= generation
}

impl<H: ForwardingSnapshotPublishHook> ForwardingDecisionSnapshotStoreInner<H> {
    /// Tokens are given out once, from one up, and readers see only what the
    /// active source published.
    pub open spec fn wf(self) -> bool {
        &&& self.active_source_token.0 <= self.next_source_token
        &&& forall|token: u64| #[trigger]
            self.pending_snapshots@.contains_key(token) ==> 0 < token <= self.next_source_token
        &&& !self.pending_snapshots@.contains_key(self.active_source_token.0)
        &&& self.published matches Some(publication) ==> publication.source_token
            == self.active_source_token && self.active_source_token.0 != 0
    }

    /// The generation that readers see.
    pub open spec fn visible_generation(self) -> Option<u64> {
        match self.published {
            Some(publication) => Some(publication.snapshot.generation),
            None => None,
        }
    }

    /// Whether everything but the mark of a change is the same.
    pub open spec fn same_but_mark(self, other: Self) -> bool {
        &&& self.published == other.published
        &&& self.next_source_token == other.next_source_token
        &&& self.active_source_token == other.active_source_token
        &&& self.pending_snapshots@ == other.pending_snapshots@
    }

    pub fn new() -> (store: Self)
        ensures
            store.wf(),
            store.published is None,
            store.next_source_token == 0,
            store.active_source_token.0 == 0,
            store.pending_snapshots@ == Map::<u64, Option<ForwardingDecisionSnapshot>>::empty(),
            store.transitioning_source is None,
            store.port.hook() is None,
            store.port.heard() == Seq::<HookEvent>::empty(),
    {
        ForwardingDecisionSnapshotStoreInner {
            published: None,
            next_source_token: 0,
            active_source_token: ForwardingSnapshotSourceToken(0),
            pending_snapshots: HashMap::new(),
            transitioning_source: None,
            port: HookPort::new(),
        }
    }

    /// Sets the hook that decides on publications from now on.
    pub fn set_publish_hook(&mut self, hook: H)
        requires
            old(self).wf(),
        ensures
            final(self).wf(),
            final(self).same_but_mark(*old(self)),
            final(self).transitioning_source == old(self).transitioning_source,
            final(self).port.hook() == Some(hook),
            final(self).port.heard() == Seq::<HookEvent>::empty(),
    {
        self.port = HookPort::to(hook);
    }

    /// What readers see.
    pub fn load_full(&self) -> (snapshot: Option<&ForwardingDecisionSnapshot>)
        ensures
            snapshot is Some == self.published is Some,
            snapshot matches Some(s) ==> *s == (self.published->0).snapshot,
    {
        match &self.published {
            Some(publication) => Some(&publication.snapshot),
            None => None,
        }
    }

    /// What a prepared source has published so far.
    pub fn pending_snapshot(&self, source_token: ForwardingSnapshotSourceToken) -> (snapshot: Option<
        &ForwardingDecisionSnapshot,
    >)
        ensures
            snapshot is Some == (self.pending_snapshots@.contains_key(source_token.0)
                && self.pending_snapshots@[source_token.0] is Some),
            snapshot matches Some(s) ==> Some(*s) == self.pending_snapshots@[source_token.0],
    {
        match self.pending_snapshots.get(&source_token.0) {
            Some(pending) => match pending {
                Some(snapshot) => Some(snapshot),
                None => None,
            },
            None => None,
        }
    }

    /// Whether a source is active or prepared.
    pub open spec fn knows(self, source_token: ForwardingSnapshotSourceToken) -> bool {
        self.active_source_token == source_token || self.pending_snapshots@.contains_key(
            source_token.0,
        )
    }

    /// The newest generation that a source has published.
    pub open spec fn newest_of(self, source_token: ForwardingSnapshotSourceToken) -> Option<u64> {
        if self.active_source_token == source_token {
            self.visible_generation()
        } else if self.pending_snapshots@.contains_key(source_token.0) {
            pending_generation(self.pending_snapshots@[source_token.0])
        } else {
            None
        }
    }

    /// Whether a source may publish a generation now.
    pub fn accepts_source_generation(
        &self,
        source_token: ForwardingSnapshotSourceToken,
        generation: u64,
    ) -> (accepts: bool)
        requires
            self.wf(),
        ensures
            accepts == (source_token.0 != 0 && self.knows(source_token)
                && self.transitioning_source != Some(source_token) && !is_stale(
                self.newest_of(source_token),
                generation,
            )),
    {
        if source_token.0 == 0 {
            return false;
        }
        if self.active_source_token != source_token && !self.pending_snapshots.contains_key(
            &source_token.0,
        ) {
            return false;
        }
        if self.transitioning_source == Some(source_token) {
            return false;
        }
        if let Some(pending) = self.pending_snapshot(source_token) {
            if pending.generation >= generation {
                return false;
            }
        }
        match &self.published {
            Some(current) => current.source_token != source_token || current.snapshot.generation
                < generation,
            None => true,
        }
    }

    /// Prepares a source. Readers see no difference.
    pub fn begin_source_registration(&mut self) -> (registration: Result<
        ForwardingSnapshotRegistration,
        ForwardingSnapshotCommitError,
    >)
        requires
            old(self).wf(),
        ensures
            final(self).wf(),
            if old(self).next_source_token == u64::MAX {
                &&& registration is Err
                &&& registration->Err_0 == ForwardingSnapshotCommitError::SourceTokenExhausted
                &&& *final(self) == *old(self)
            } else {
                let token = (old(self).next_source_token + 1) as u64;
                &&& registration is Ok
                &&& (registration->Ok_0).source.source_token.0 == token
                &&& final(self).next_source_token == token
                &&& final(self).pending_snapshots@ == old(self).pending_snapshots@.insert(
                    token,
                    None,
                )
                &&& final(self).published == old(self).published
                &&& final(self).active_source_token == old(self).active_source_token
                &&& final(self).transitioning_source == old(self).transitioning_source
                &&& final(self).port == old(self).port
            },
    {
        if self.next_source_token == u64::MAX {
            return Err(ForwardingSnapshotCommitError::SourceTokenExhausted);
        }
        let token: u64 = self.next_source_token + 1;
        self.next_source_token = token;
        self.pending_snapshots.insert(token, None);
        let source_token = ForwardingSnapshotSourceToken(token);
        Ok(
            ForwardingSnapshotRegistration {
                source: ForwardingDecisionSnapshotSource { source_token },
            },
        )
    }

    /// Starts to make a prepared source active at once, and hands out the
    /// source before it.
    pub fn begin_takeover(&mut self, source_token: ForwardingSnapshotSourceToken) -> (previous:
        ForwardingSnapshotSourceToken)
        requires
            old(self).wf(),
        ensures
            final(self).wf(),
            previous == old(self).active_source_token,
            final(self).transitioning_source == Some(source_token),
            final(self).pending_snapshots@ == old(self).pending_snapshots@.remove(source_token.0),
            final(self).published == old(self).published,
            final(self).next_source_token == old(self).next_source_token,
            final(self).active_source_token == old(self).active_source_token,
            final(self).port == old(self).port,
    {
        self.pending_snapshots.remove(&source_token.0);
        self.transitioning_source = Some(source_token);
        self.active_source_token
    }

    /// Makes a source active that has published nothing yet.
    pub fn finish_takeover(&mut self, source_token: ForwardingSnapshotSourceToken)
        requires
            old(self).wf(),
            source_token.0 <= old(self).next_source_token,
            !old(self).pending_snapshots@.contains_key(source_token.0),
        ensures
            final(self).wf(),
            final(self).active_source_token == source_token,
            final(self).published is None,
            final(self).transitioning_source is None,
            final(self).pending_snapshots@ == old(self).pending_snapshots@,
            final(self).next_source_token == old(self).next_source_token,
            final(self).port == old(self).port,
    {
        self.active_source_token = source_token;
        self.transitioning_source = None;
        self.published = None;
    }

    /// Makes a new source the active one. The hook hears that the one before it
    /// is revoked.
    pub fn register_source(&mut self) -> (source:
        Result<ForwardingDecisionSnapshotSource, ForwardingSnapshotCommitError>)
        requires
            old(self).wf(),
        ensures
            final(self).wf(),
            if old(self).next_source_token == u64::MAX {
                &&& source is Err
                &&& source->Err_0 == ForwardingSnapshotCommitError::SourceTokenExhausted
                &&& *final(self) == *old(self)
            } else {
                &&& source is Ok
                &&& (source->Ok_0).source_token.0 == old(self).next_source_token + 1
                &&& final(self).next_source_token == old(self).next_source_token + 1
                &&& final(self).active_source_token == (source->Ok_0).source_token
                &&& final(self).published is None
                &&& final(self).transitioning_source is None
                &&& final(self).pending_snapshots@ == old(self).pending_snapshots@
                &&& if old(self).active_source_token.0 != 0 {
                    old(self).port.told(
                        final(self).port,
                        HookEvent::Revoke { source_token: old(self).active_source_token },
                    )
                } else {
                    final(self).port == old(self).port
                }
            },
    {
        let source = match self.begin_source_registration() {
            Ok(registration) => registration.source(),
            Err(error) => {
                return Err(error);
            },
        };
        let previous = self.begin_takeover(source.source_token);
        if previous.0 != 0 {
            self.port.revoke(previous);
        }
        self.finish_takeover(source.source_token);
        proof {
            assert(!old(self).pending_snapshots@.contains_key(source.source_token.0));
            assert(self.pending_snapshots@ =~= old(self).pending_snapshots@);
        }
        Ok(source)
    }

    /// Why a source may not publish a generation now, if it may not.
    pub open spec fn publish_check(
        self,
        source_token: ForwardingSnapshotSourceToken,
        generation: u64,
    ) -> Option<ForwardingSnapshotPublishError> {
        if source_token.0 == 0 {
            Some(ForwardingSnapshotPublishError::SourceNotRegistered)
        } else if self.transitioning_source == Some(source_token) {
            Some(ForwardingSnapshotPublishError::PublicationRejected)
        } else if !self.knows(source_token) {
            Some(ForwardingSnapshotPublishError::SourceNotRegistered)
        } else if is_stale(self.newest_of(source_token), generation) {
            Some(ForwardingSnapshotPublishError::StaleGeneration)
        } else {
            None
        }
    }

    /// Whether a source may publish a generation now; if it may, whether it is
    /// the active one.
    pub fn check_publish(
        &self,
        source_token: ForwardingSnapshotSourceToken,
        generation: u64,
    ) -> (checked: Result<bool, ForwardingSnapshotPublishError>)
        requires
            self.wf(),
        ensures
            match self.publish_check(source_token, generation) {
                Some(error) => checked is Err && checked->Err_0 == error,
                None => checked is Ok && checked->Ok_0 == (self.active_source_token
                    == source_token),
            },
    {
        if source_token.0 == 0 {
            return Err(ForwardingSnapshotPublishError::SourceNotRegistered);
        }
        if self.transitioning_source == Some(source_token) {
            return Err(ForwardingSnapshotPublishError::PublicationRejected);
        }
        let is_active = self.active_source_token == source_token;
        if is_active {
            if let Some(current) = &self.published {
                if current.snapshot.generation >= generation {
                    return Err(ForwardingSnapshotPublishError::StaleGeneration);
                }
            }
            return Ok(true);
        }
        if !self.pending_snapshots.contains_key(&source_token.0) {
            return Err(ForwardingSnapshotPublishError::SourceNotRegistered);
        }
        if let Some(pending) = self.pending_snapshot(source_token) {
            if pending.generation >= generation {
                return Err(ForwardingSnapshotPublishError::StaleGeneration);
            }
        }
        Ok(false)
    }

    /// Starts a publication of the active source. Nothing changes where the
    /// source is not active any more or another change is under way.
    pub fn begin_active_publish(&mut self, source_token: ForwardingSnapshotSourceToken) -> (begun:
        Result<(), ForwardingSnapshotPublishError>)
        requires
            old(self).wf(),
        ensures
            final(self).wf(),
            final(self).same_but_mark(*old(self)),
            final(self).port == old(self).port,
            if old(self).active_source_token != source_token || old(
                self,
            ).transitioning_source is Some {
                &&& begun is Err
                &&& begun->Err_0 == ForwardingSnapshotPublishError::StaleGeneration
                &&& final(self).transitioning_source == old(self).transitioning_source
            } else {
                &&& begun is Ok
                &&& final(self).transitioning_source == Some(source_token)
            },
    {
        if self.active_source_token != source_token || self.transitioning_source.is_some() {
            return Err(ForwardingSnapshotPublishError::StaleGeneration);
        }
        self.transitioning_source = Some(source_token);
        Ok(())
    }

    /// Ends a publication of the active source, once the hook has said whether
    /// it takes it.
    pub fn finish_active_publish(
        &mut self,
        source_token: ForwardingSnapshotSourceToken,
        snapshot: ForwardingDecisionSnapshot,
        accepted: bool,
    ) -> (finished: Result<(), ForwardingSnapshotPublishError>)
        requires
            old(self).wf(),
            source_token.0 != 0,
        ensures
            final(self).wf(),
            final(self).transitioning_source is None,
            final(self).next_source_token == old(self).next_source_token,
            final(self).active_source_token == old(self).active_source_token,
            final(self).pending_snapshots@ == old(self).pending_snapshots@,
            final(self).port == old(self).port,
            if !accepted {
                &&& finished is Err
                &&& finished->Err_0 == ForwardingSnapshotPublishError::PublicationRejected
                &&& final(self).published == old(self).published
            } else if old(self).active_source_token != source_token || is_stale(
                old(self).visible_generation(),
                snapshot.generation,
            ) {
                &&& finished is Err
                &&& finished->Err_0 == ForwardingSnapshotPublishError::StaleGeneration
                &&& final(self).published == old(self).published
            } else {
                &&& finished is Ok
                &&& final(self).published == Some(
                    ForwardingSnapshotPublication { source_token, snapshot },
                )
            },
    {
        self.transitioning_source = None;
        if !accepted {
            return Err(ForwardingSnapshotPublishError::PublicationRejected);
        }
        if self.active_source_token != source_token {
            return Err(ForwardingSnapshotPublishError::StaleGeneration);
        }
        if let Some(current) = &self.published {
            if current.snapshot.generation >= snapshot.generation {
                return Err(ForwardingSnapshotPublishError::StaleGeneration);
            }
        }
        self.published = Some(ForwardingSnapshotPublication { source_token, snapshot });
        Ok(())
    }

    /// Notes what a prepared source publishes.
    pub fn stage_pending(
        &mut self,
        source_token: ForwardingSnapshotSourceToken,
        snapshot: ForwardingDecisionSnapshot,
    ) -> (staged: Result<(), ForwardingSnapshotPublishError>)
        requires
            old(self).wf(),
        ensures
            final(self).wf(),
            final(self).published == old(self).published,
            final(self).next_source_token == old(self).next_source_token,
            final(self).active_source_token == old(self).active_source_token,
            final(self).transitioning_source == old(self).transitioning_source,
            final(self).port == old(self).port,
            if !old(self).pending_snapshots@.contains_key(source_token.0) {
                &&& staged is Err
                &&& staged->Err_0 == ForwardingSnapshotPublishError::SourceNotRegistered
                &&& final(self).pending_snapshots@ == old(self).pending_snapshots@
            } else if is_stale(
                pending_generation(old(self).pending_snapshots@[source_token.0]),
                snapshot.generation,
            ) {
                &&& staged is Err
                &&& staged->Err_0 == ForwardingSnapshotPublishError::StaleGeneration
                &&& final(self).pending_snapshots@ == old(self).pending_snapshots@
            } else {
                &&& staged is Ok
                &&& final(self).pending_snapshots@ == old(self).pending_snapshots@.insert(
                    source_token.0,
                    Some(snapshot),
                )
            },
    {
        if !self.pending_snapshots.contains_key(&source_token.0) {
            return Err(ForwardingSnapshotPublishError::SourceNotRegistered);
        }
        if let Some(pending) = self.pending_snapshot(source_token) {
            if pending.generation >= snapshot.generation {
                return Err(ForwardingSnapshotPublishError::StaleGeneration);
            }
        }
        self.pending_snapshots.insert(source_token.0, Some(snapshot));
        Ok(())
    }

    /// Ends what a prepared source publishes, once the hook has said whether it
    /// takes it. A source whose publication is refused is not prepared any more,
    /// unless it has published a newer one meanwhile.
    pub fn finish_pending(
        &mut self,
        source_token: ForwardingSnapshotSourceToken,
        generation: u64,
        accepted: bool,
    ) -> (finished: Result<(), ForwardingSnapshotPublishError>)
        requires
            old(self).wf(),
        ensures
            final(self).wf(),
            final(self).published == old(self).published,
            final(self).next_source_token == old(self).next_source_token,
            final(self).active_source_token == old(self).active_source_token,
            final(self).transitioning_source == old(self).transitioning_source,
            final(self).port == old(self).port,
            accepted == finished is Ok,
            finished is Err ==> finished->Err_0
                == ForwardingSnapshotPublishError::PublicationRejected,
            final(self).pending_snapshots@ == if !accepted && old(
                self,
            ).pending_snapshots@.contains_key(source_token.0) && pending_generation(
                old(self).pending_snapshots@[source_token.0],
            ) == Some(generation) {
                old(self).pending_snapshots@.remove(source_token.0)
            } else {
                old(self).pending_snapshots@
            },
    {
        if accepted {
            return Ok(());
        }
        let same = match self.pending_snapshot(source_token) {
            Some(pending) => pending.generation == generation,
            None => false,
        };
        if same {
            self.pending_snapshots.remove(&source_token.0);
        }
        Err(ForwardingSnapshotPublishError::PublicationRejected)
    }

    /// Whether a publication comes so far that the hook is asked.
    pub open spec fn asks_to_publish(
        self,
        source_token: ForwardingSnapshotSourceToken,
        generation: u64,
    ) -> bool {
        &&& self.publish_check(source_token, generation) is None
        &&& self.active_source_token == source_token ==> self.transitioning_source is None
    }

    /// What a publication leads to, where the hook takes it or not. The hook is
    /// asked once, with the mark of the active source, or not at all.
    pub open spec fn publishes(
        self,
        after: Self,
        source_token: ForwardingSnapshotSourceToken,
        snapshot: ForwardingDecisionSnapshot,
        accepted: bool,
        outcome: Result<(), ForwardingSnapshotPublishError>,
    ) -> bool {
        &&& after.next_source_token == self.next_source_token
        &&& after.active_source_token == self.active_source_token
        &&& after.transitioning_source == self.transitioning_source
        &&& if self.asks_to_publish(source_token, snapshot.generation) {
            self.port.asked(
                after.port,
                source_token,
                snapshot,
                self.active_source_token == source_token,
                accepted,
            )
        } else {
            after.port == self.port
        }
        &&& match self.publish_check(source_token, snapshot.generation) {
            Some(error) => {
                &&& outcome is Err
                &&& outcome->Err_0 == error
                &&& after.same_but_mark(self)
            },
            None => if self.active_source_token == source_token {
                &&& after.pending_snapshots@ == self.pending_snapshots@
                &&& if self.transitioning_source is Some {
                    &&& outcome is Err
                    &&& outcome->Err_0 == ForwardingSnapshotPublishError::StaleGeneration
                    &&& after.published == self.published
                } else if accepted {
                    &&& outcome is Ok
                    &&& after.published == Some(
                        ForwardingSnapshotPublication { source_token, snapshot },
                    )
                } else {
                    &&& outcome is Err
                    &&& outcome->Err_0 == ForwardingSnapshotPublishError::PublicationRejected
                    &&& after.published == self.published
                }
            } else {
                &&& after.published == self.published
                &&& if accepted {
                    &&& outcome is Ok
                    &&& after.pending_snapshots@ == self.pending_snapshots@.insert(
                        source_token.0,
                        Some(snapshot),
                    )
                } else {
                    &&& outcome is Err
                    &&& outcome->Err_0 == ForwardingSnapshotPublishError::PublicationRejected
                    &&& after.pending_snapshots@ == self.pending_snapshots@.remove(source_token.0)
                }
            },
        }
    }

    /// Publishes a snapshot of the active source, or notes it for a prepared
    /// one. The hook can refuse it; without a hook nothing does.
    pub fn store_if_newer(
        &mut self,
        source_token: ForwardingSnapshotSourceToken,
        snapshot: ForwardingDecisionSnapshot,
    ) -> (outcome: Result<(), ForwardingSnapshotPublishError>)
        requires
            old(self).wf(),
        ensures
            final(self).wf(),
            exists|accepted: bool| #[trigger]
                old(self).publishes(*final(self), source_token, snapshot, accepted, outcome),
    {
        let ghost start = *self;
        let generation: u64 = snapshot.generation;
        let is_active = match self.check_publish(source_token, generation) {
            Ok(is_active) => is_active,
            Err(error) => {
                assert(start.publishes(*self, source_token, snapshot, true, Err(error)));
                return Err(error);
            },
        };
        if is_active {
            match self.begin_active_publish(source_token) {
                Ok(_) => {},
                Err(error) => {
                    assert(start.publishes(*self, source_token, snapshot, true, Err(error)));
                    return Err(error);
                },
            }
            let accepted = self.port.publish(source_token, &snapshot, true);
            let outcome = self.finish_active_publish(source_token, snapshot, accepted);
            assert(start.publishes(*self, source_token, snapshot, accepted, outcome));
            return outcome;
        }
        let ghost given = snapshot;
        match self.stage_pending(source_token, snapshot) {
            Ok(_) => {},
            Err(error) => {
                return Err(error);
            },
        }
        let ghost staged = self.pending_snapshots@;
        let accepted = match self.pending_snapshots.get(&source_token.0) {
            Some(Some(pending)) => self.port.publish(source_token, pending, false),
            _ => true,
        };
        let outcome = self.finish_pending(source_token, generation, accepted);
        proof {
            assert(staged.remove(source_token.0) =~= start.pending_snapshots@.remove(
                source_token.0,
            ));
            assert(start.publishes(*self, source_token, given, accepted, outcome));
        }
        outcome
    }

    /// Why a prepared source cannot become active now, if it cannot.
    pub open spec fn commit_check(self, source_token: ForwardingSnapshotSourceToken) -> Option<
        ForwardingSnapshotCommitError,
    > {
        if self.transitioning_source is Some {
            Some(ForwardingSnapshotCommitError::PublicationRejected)
        } else if !self.pending_snapshots@.contains_key(source_token.0)
            || self.pending_snapshots@[source_token.0] is None {
            Some(ForwardingSnapshotCommitError::MissingPendingSource)
        } else {
            None
        }
    }

    /// Starts to make a prepared source active. From now until the end of it the
    /// source cannot publish.
    pub fn begin_commit(&mut self, source_token: ForwardingSnapshotSourceToken) -> (begun: Result<
        (),
        ForwardingSnapshotCommitError,
    >)
        requires
            old(self).wf(),
        ensures
            final(self).wf(),
            final(self).same_but_mark(*old(self)),
            final(self).port == old(self).port,
            match old(self).commit_check(source_token) {
                Some(error) => {
                    &&& begun is Err
                    &&& begun->Err_0 == error
                    &&& final(self).transitioning_source == old(self).transitioning_source
                },
                None => {
                    &&& begun is Ok
                    &&& final(self).transitioning_source == Some(source_token)
                },
            },
    {
        if self.transitioning_source.is_some() {
            return Err(ForwardingSnapshotCommitError::PublicationRejected);
        }
        if self.pending_snapshot(source_token).is_none() {
            return Err(ForwardingSnapshotCommitError::MissingPendingSource);
        }
        self.transitioning_source = Some(source_token);
        Ok(())
    }

    /// Makes a prepared source active, once the hook has said whether it takes
    /// its snapshot.
    pub fn finish_commit(&mut self, source_token: ForwardingSnapshotSourceToken, accepted: bool) -> (finished:
        Result<(), ForwardingSnapshotCommitError>)
        requires
            old(self).wf(),
            old(self).pending_snapshots@.contains_key(source_token.0),
            old(self).pending_snapshots@[source_token.0] is Some,
        ensures
            final(self).wf(),
            final(self).transitioning_source is None,
            final(self).next_source_token == old(self).next_source_token,
            final(self).port == old(self).port,
            if accepted {
                &&& finished is Ok
                &&& final(self).active_source_token == source_token
                &&& final(self).published == Some(
                    ForwardingSnapshotPublication {
                        source_token,
                        snapshot: old(self).pending_snapshots@[source_token.0]->0,
                    },
                )
                &&& final(self).pending_snapshots@ == old(self).pending_snapshots@.remove(
                    source_token.0,
                )
            } else {
                &&& finished is Err
                &&& finished->Err_0 == ForwardingSnapshotCommitError::PublicationRejected
                &&& final(self).active_source_token == old(self).active_source_token
                &&& final(self).published == old(self).published
                &&& final(self).pending_snapshots@ == old(self).pending_snapshots@
            },
    {
        self.transitioning_source = None;
        if !accepted {
            return Err(ForwardingSnapshotCommitError::PublicationRejected);
        }
        match self.pending_snapshots.remove(&source_token.0) {
            Some(Some(snapshot)) => {
                self.active_source_token = source_token;
                self.published = Some(ForwardingSnapshotPublication { source_token, snapshot });
                Ok(())
            },
            _ => Err(ForwardingSnapshotCommitError::MissingPendingSource),
        }
    }

    /// What a commit leads to, where the hook takes it or not. The hook is asked
    /// once to activate what the source has published, or not at all.
    pub open spec fn commits(
        self,
        after: Self,
        source_token: ForwardingSnapshotSourceToken,
        accepted: bool,
        outcome: Result<(), ForwardingSnapshotCommitError>,
    ) -> bool {
        &&& after.next_source_token == self.next_source_token
        &&& after.transitioning_source == self.transitioning_source
        &&& if self.commit_check(source_token) is None {
            self.port.asked(
                after.port,
                source_token,
                self.pending_snapshots@[source_token.0]->0,
                true,
                accepted,
            )
        } else {
            after.port == self.port
        }
        &&& match self.commit_check(source_token) {
            Some(error) => {
                &&& outcome is Err
                &&& outcome->Err_0 == error
                &&& after.same_but_mark(self)
            },
            None => if accepted {
                &&& outcome is Ok
                &&& after.active_source_token == source_token
                &&& after.published == Some(
                    ForwardingSnapshotPublication {
                        source_token,
                        snapshot: self.pending_snapshots@[source_token.0]->0,
                    },
                )
                &&& after.pending_snapshots@ == self.pending_snapshots@.remove(source_token.0)
            } else {
                &&& outcome is Err
                &&& outcome->Err_0 == ForwardingSnapshotCommitError::PublicationRejected
                &&& after.same_but_mark(self)
            },
        }
    }

    /// Makes a prepared source active, with what it has published. The hook can
    /// refuse it; without a hook nothing does.
    pub fn commit_source(&mut self, source_token: ForwardingSnapshotSourceToken) -> (outcome: Result<
        (),
        ForwardingSnapshotCommitError,
    >)
        requires
            old(self).wf(),
        ensures
            final(self).wf(),
            exists|accepted: bool| #[trigger]
                old(self).commits(*final(self), source_token, accepted, outcome),
    {
        let ghost start = *self;
        match self.begin_commit(source_token) {
            Ok(_) => {},
            Err(error) => {
                assert(start.commits(*self, source_token, true, Err(error)));
                return Err(error);
            },
        }
        let accepted = match self.pending_snapshots.get(&source_token.0) {
            Some(Some(pending)) => self.port.publish(source_token, pending, true),
            _ => true,
        };
        let outcome = self.finish_commit(source_token, accepted);
        assert(start.commits(*self, source_token, accepted, outcome));
        outcome
    }

    /// What giving up a prepared source leads to. The hook hears of it once.
    pub open spec fn rolls_back(self, after: Self, source_token: ForwardingSnapshotSourceToken) -> bool {
        &&& after.published == self.published
        &&& after.next_source_token == self.next_source_token
        &&& after.active_source_token == self.active_source_token
        &&& after.pending_snapshots@ == self.pending_snapshots@.remove(source_token.0)
        &&& after.transitioning_source is None
        &&& self.port.told(after.port, HookEvent::Discard { source_token })
    }

    /// Gives up a prepared source. What is active stays.
    pub fn rollback_source(&mut self, source_token: ForwardingSnapshotSourceToken)
        requires
            old(self).wf(),
        ensures
            final(self).wf(),
            old(self).rolls_back(*final(self), source_token),
    {
        self.pending_snapshots.remove(&source_token.0);
        self.transitioning_source = None;
        self.port.discard(source_token);
    }

    /// Starts to revoke a source; says whether it was the active one.
    pub fn begin_revoke(&mut self, source_token: ForwardingSnapshotSourceToken) -> (active: bool)
        requires
            old(self).wf(),
        ensures
            final(self).wf(),
            active == (source_token.0 != 0 && old(self).active_source_token == source_token),
            final(self).published == old(self).published,
            final(self).next_source_token == old(self).next_source_token,
            final(self).active_source_token == old(self).active_source_token,
            final(self).pending_snapshots@ == old(self).pending_snapshots@.remove(source_token.0),
            final(self).port == old(self).port,
            final(self).transitioning_source == if active {
                Some(source_token)
            } else {
                old(self).transitioning_source
            },
    {
        if source_token.0 == 0 {
            assert(self.pending_snapshots@.remove(0) =~= self.pending_snapshots@);
            return false;
        }
        self.pending_snapshots.remove(&source_token.0);
        if self.active_source_token != source_token {
            return false;
        }
        self.transitioning_source = Some(source_token);
        true
    }

    /// Ends the revocation of the active source: readers see nothing any more.
    pub fn finish_revoke(&mut self, source_token: ForwardingSnapshotSourceToken)
        requires
            old(self).wf(),
        ensures
            final(self).wf(),
            final(self).transitioning_source is None,
            final(self).next_source_token == old(self).next_source_token,
            final(self).pending_snapshots@ == old(self).pending_snapshots@,
            final(self).port == old(self).port,
            if old(self).active_source_token == source_token {
                &&& final(self).active_source_token.0 == 0
                &&& final(self).published is None
            } else {
                &&& final(self).active_source_token == old(self).active_source_token
                &&& final(self).published == old(self).published
            },
    {
        self.transitioning_source = None;
        if self.active_source_token != source_token {
            return ;
        }
        self.active_source_token = ForwardingSnapshotSourceToken(0);
        self.published = None;
        assert(!self.pending_snapshots@.contains_key(0));
    }

    /// What revoking a source leads to. Where it is the active one, readers see
    /// nothing any more and the hook hears of it once; where it is not, they see
    /// no difference and the hook hears nothing.
    pub open spec fn revokes(self, after: Self, source_token: ForwardingSnapshotSourceToken) -> bool {
        &&& after.next_source_token == self.next_source_token
        &&& after.pending_snapshots@ == self.pending_snapshots@.remove(source_token.0)
        &&& if source_token.0 != 0 && self.active_source_token == source_token {
            &&& after.active_source_token.0 == 0
            &&& after.published is None
            &&& after.transitioning_source is None
            &&& self.port.told(after.port, HookEvent::Revoke { source_token })
        } else {
            &&& after.active_source_token == self.active_source_token
            &&& after.published == self.published
            &&& after.transitioning_source == self.transitioning_source
            &&& after.port == self.port
        }
    }

    /// Revokes a source. Where it is not the active one any more, readers see no
    /// difference.
    pub fn revoke_source(&mut self, source_token: ForwardingSnapshotSourceToken)
        requires
            old(self).wf(),
        ensures
            final(self).wf(),
            old(self).revokes(*final(self), source_token),
    {
        if !self.begin_revoke(source_token) {
            return ;
        }
        self.port.revoke(source_token);
        self.finish_revoke(source_token);
    }
}

/// A source that is being prepared. It is committed, or closed and rolled back.
pub struct ForwardingSnapshotRegistration {
    pub source: ForwardingDecisionSnapshotSource,
}

impl ForwardingSnapshotRegistration {
    pub fn source(&self) -> (source: ForwardingDecisionSnapshotSource)
        ensures
            source == self.source,
    {
        self.source
    }

    /// Makes the source active. Where that is refused, the source is rolled
    /// back.
    pub fn commit<H: ForwardingSnapshotPublishHook>(
        self,
        store: &mut ForwardingDecisionSnapshotStoreInner<H>,
    ) -> (outcome: Result<(), ForwardingSnapshotCommitError>)
        requires
            old(store).wf(),
        ensures
            final(store).wf(),
            exists|accepted: bool, tried: ForwardingDecisionSnapshotStoreInner<H>|
                {
                    &&& #[trigger] old(store).commits(
                        tried,
                        self.source.source_token,
                        accepted,
                        outcome,
                    )
                    &&& outcome is Ok ==> *final(store) == tried
                    &&& outcome is Err ==> tried.rolls_back(
                        *final(store),
                        self.source.source_token,
                    )
                },
    {
        let outcome = store.commit_source(self.source.source_token);
        if outcome.is_err() {
            store.rollback_source(self.source.source_token);
        }
        outcome
    }

    /// Ends the registration without a commit: the source is rolled back.
    pub fn close<H: ForwardingSnapshotPublishHook>(
        self,
        store: &mut ForwardingDecisionSnapshotStoreInner<H>,
    )
        requires
            old(store).wf(),
        ensures
            final(store).wf(),
            old(store).rolls_back(*final(store), self.source.source_token),
    {
        store.rollback_source(self.source.source_token);
    }
}

/// A source that can publish.
#[derive(Clone, Copy, Debug, PartialEq, Eq, Structural)]
pub struct ForwardingDecisionSnapshotSource {
    pub source_token: ForwardingSnapshotSourceToken,
}

impl ForwardingDecisionSnapshotSource {
    pub fn source_token(&self) -> (source_token: ForwardingSnapshotSourceToken)
        ensures
            source_token == self.source_token,
    {
        self.source_token
    }

    pub fn publish<H: ForwardingSnapshotPublishHook>(
        &self,
        store: &mut ForwardingDecisionSnapshotStoreInner<H>,
        snapshot: ForwardingDecisionSnapshot,
    ) -> (outcome: Result<(), ForwardingSnapshotPublishError>)
        requires
            old(store).wf(),
        ensures
            final(store).wf(),
            exists|accepted: bool| #[trigger]
                old(store).publishes(
                    *final(store),
                    self.source_token,
                    snapshot,
                    accepted,
                    outcome,
                ),
    {
        store.store_if_newer(self.source_token, snapshot)
    }

    /// Revokes this source, where it is still active.
    pub fn revoke<H: ForwardingSnapshotPublishHook>(
        &self,
        store: &mut ForwardingDecisionSnapshotStoreInner<H>,
    )
        requires
            old(store).wf(),
        ensures
            final(store).wf(),
            old(store).revokes(*final(store), self.source_token),
    {
        store.revoke_source(self.source_token);
    }
}

/// While a source is being prepared, readers see what they saw.
pub proof fn lemma_pending_source_is_invisible<H: ForwardingSnapshotPublishHook>(
    before: ForwardingDecisionSnapshotStoreInner<H>,
    after: ForwardingDecisionSnapshotStoreInner<H>,
    source_token: ForwardingSnapshotSourceToken,
    snapshot: ForwardingDecisionSnapshot,
    accepted: bool,
    outcome: Result<(), ForwardingSnapshotPublishError>,
)
    requires
        before.wf(),
        before.active_source_token != source_token,
        before.publishes(after, source_token, snapshot, accepted, outcome),
    ensures
        after.published == before.published,
        after.active_source_token == before.active_source_token,
{
}

/// What readers see of one source only ever gets newer.
pub proof fn lemma_generations_only_grow<H: ForwardingSnapshotPublishHook>(
    before: ForwardingDecisionSnapshotStoreInner<H>,
    after: ForwardingDecisionSnapshotStoreInner<H>,
    source_token: ForwardingSnapshotSourceToken,
    snapshot: ForwardingDecisionSnapshot,
    accepted: bool,
    outcome: Result<(), ForwardingSnapshotPublishError>,
)
    requires
        before.wf(),
        before.publishes(after, source_token, snapshot, accepted, outcome),
        before.visible_generation() is Some,
    ensures
        after.visible_generation() is Some,
        after.visible_generation()->0 >= before.visible_generation()->0,
{
}

/// While the change of a source is under way, the source cannot publish.
pub proof fn lemma_transition_bars_publication<H: ForwardingSnapshotPublishHook>(
    store: ForwardingDecisionSnapshotStoreInner<H>,
    source_token: ForwardingSnapshotSourceToken,
    generation: u64,
)
    requires
        store.transitioning_source == Some(source_token),
    ensures
        store.publish_check(source_token, generation) is Some,
{
}

/// A refused commit leaves nothing of its source: readers see what they saw, and
/// the source can be neither published to nor committed.
pub proof fn lemma_refused_commit_is_rolled_back<H: ForwardingSnapshotPublishHook>(
    before: ForwardingDecisionSnapshotStoreInner<H>,
    tried: ForwardingDecisionSnapshotStoreInner<H>,
    after: ForwardingDecisionSnapshotStoreInner<H>,
    source_token: ForwardingSnapshotSourceToken,
    accepted: bool,
    error: ForwardingSnapshotCommitError,
)
    requires
        before.wf(),
        before.active_source_token != source_token,
        before.commits(tried, source_token, accepted, Err(error)),
        tried.rolls_back(after, source_token),
    ensures
        after.published == before.published,
        after.active_source_token == before.active_source_token,
        !after.knows(source_token),
        after.commit_check(source_token) is Some,
{
}

/// A revoked source is shown to nobody and can publish nothing.
pub proof fn lemma_revoked_source_is_unknown<H: ForwardingSnapshotPublishHook>(
    before: ForwardingDecisionSnapshotStoreInner<H>,
    after: ForwardingDecisionSnapshotStoreInner<H>,
    source_token: ForwardingSnapshotSourceToken,
    generation: u64,
)
    requires
        before.wf(),
        before.transitioning_source is None,
        before.revokes(after, source_token),
    ensures
        after.publish_check(source_token, generation) == Some(
            ForwardingSnapshotPublishError::SourceNotRegistered,
        ),
        before.active_source_token == source_token ==> after.published is None,
        before.active_source_token != source_token ==> after.published == before.published,
{
}

} // verus!
