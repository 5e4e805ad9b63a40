//! The hook that decides on publications, and what it has heard.

use vstd::prelude::*;
use crate::forwarding_snapshot::ForwardingDecisionSnapshot;

verus! {

/// Names a source of routes. Zero names none.
#[derive(Clone, Copy, Debug, Default, PartialEq, Eq, Hash, Structural)]
pub struct ForwardingSnapshotSourceToken(pub u64);

impl ForwardingSnapshotSourceToken {
    pub fn is_nonzero(self) -> (nonzero: bool)
        ensures
            nonzero == (self.0 != 0),
    {
        self.0 != 0
    }
}

/// Bridges the sources to one owner of what the data path uses.
///
/// It is told only what the store has found to belong to a source. A pending
/// source is not to be used before `activate` is set.
pub trait ForwardingSnapshotPublishHook {
    fn publish_forwarding_snapshot(
        &self,
        source_token: ForwardingSnapshotSourceToken,
        snapshot: &ForwardingDecisionSnapshot,
        activate: bool,
    ) -> bool;

    fn revoke_forwarding_snapshot(&self, source_token: ForwardingSnapshotSourceToken);

    fn discard_forwarding_snapshot(&self, source_token: ForwardingSnapshotSourceToken);
}

/// One call of a hook, with its answer.
pub enum HookEvent {
    Publish {
        source_token: ForwardingSnapshotSourceToken,
        snapshot: ForwardingDecisionSnapshot,
        activate: bool,
        accepted: bool,
    },
    Revoke { source_token: ForwardingSnapshotSourceToken },
    Discard { source_token: ForwardingSnapshotSourceToken },
}

/// Whether a call can have gone this way: the hook can have given this answer.
pub open spec fn can_hear<H: ForwardingSnapshotPublishHook>(hook: H, event: HookEvent) -> bool {
    match event {
        HookEvent::Publish { source_token, snapshot, activate, accepted } => call_ensures(
            H::publish_forwarding_snapshot,
            (&hook, source_token, &snapshot, activate),
            accepted,
        ),
        HookEvent::Revoke { source_token } => call_ensures(
            H::revoke_forwarding_snapshot,
            (&hook, source_token),
            (),
        ),
        HookEvent::Discard { source_token } => call_ensures(
            H::discard_forwarding_snapshot,
            (&hook, source_token),
            (),
        ),
    }
}

/// The one way to a hook, if there is a hook. It knows every call that was made.
pub struct HookPort<H> {
    hook: Option<H>,
    heard: Ghost<Seq<HookEvent>>,
}

impl<H: ForwardingSnapshotPublishHook> HookPort<H> {
    pub closed spec fn hook(self) -> Option<H> {
        self.hook
    }

    /// The calls of the hook so far.
    pub closed spec fn heard(self) -> Seq<HookEvent> {
        self.heard@
    }

    /// Whether exactly one call lies between two moments, where there is a hook.
    /// Where there is none, nothing changes.
    pub open spec fn told(self, after: Self, event: HookEvent) -> bool {
        match self.hook() {
            Some(hook) => {
                &&& after.hook() == self.hook()
                &&& after.heard() == self.heard().push(event)
                &&& can_hear(hook, event)
            },
            None => after == self,
        }
    }

    /// Whether a call that asks lies between two moments. Without a hook nothing
    /// is refused.
    pub open spec fn asked(
        self,
        after: Self,
        source_token: ForwardingSnapshotSourceToken,
        snapshot: ForwardingDecisionSnapshot,
        activate: bool,
        accepted: bool,
    ) -> bool {
        &&& self.hook() is None ==> accepted
        &&& self.told(
            after,
            HookEvent::Publish { source_token, snapshot, activate, accepted },
        )
    }

    /// A port without a hook.
    pub fn new() -> (port: Self)
        ensures
            port.hook() is None,
            port.heard() == Seq::<HookEvent>::empty(),
    {
        HookPort { hook: None, heard: Ghost(Seq::empty()) }
    }

    /// A port to a hook that has heard nothing yet.
    pub fn to(hook: H) -> (port: Self)
        ensures
            port.hook() == Some(hook),
            port.heard() == Seq::<HookEvent>::empty(),
    {
        HookPort { hook: Some(hook), heard: Ghost(Seq::empty()) }
    }

    /// Asks the hook about a publication.
    pub fn publish(
        &mut self,
        source_token: ForwardingSnapshotSourceToken,
        snapshot: &ForwardingDecisionSnapshot,
        activate: bool,
    ) -> (accepted: bool)
        ensures
            old(self).asked(*final(self), source_token, *snapshot, activate, accepted),
    {
        let accepted = match &self.hook {
            Some(hook) => hook.publish_forwarding_snapshot(source_token, snapshot, activate),
            None => {
                return true;
            },
        };
        self.heard = Ghost(
            self.heard@.push(
                HookEvent::Publish { source_token, snapshot: *snapshot, activate, accepted },
            ),
        );
        accepted
    }

    /// Tells the hook that a source is revoked.
    pub fn revoke(&mut self, source_token: ForwardingSnapshotSourceToken)
        ensures
            old(self).told(*final(self), HookEvent::Revoke { source_token }),
    {
        match &self.hook {
            Some(hook) => {
                hook.revoke_forwarding_snapshot(source_token);
            },
            None => {
                return ;
            },
        }
        self.heard = Ghost(self.heard@.push(HookEvent::Revoke { source_token }));
    }

    /// Tells the hook that a prepared source is given up.
    pub fn discard(&mut self, source_token: ForwardingSnapshotSourceToken)
        ensures
            old(self).told(*final(self), HookEvent::Discard { source_token }),
    {
        match &self.hook {
            Some(hook) => {
                hook.discard_forwarding_snapshot(source_token);
            },
            None => {
                return ;
            },
        }
        self.heard = Ghost(self.heard@.push(HookEvent::Discard { source_token }));
    }
}

} // verus!
