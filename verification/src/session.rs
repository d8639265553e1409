//! What the application holds while it runs: the settings file, and the
//! identities established this session.
//!
//! The two are kept apart on purpose. Settings are the user's and outlive the
//! process. **Identities do not.** A probe tells what is on the end of a
//! cable at that moment; nothing in USB says the board has not been swapped
//! since, so an identity is dropped the moment its device is unplugged.
//!
//! Holding this across threads, and writing the file, are the caller's
//! business.
use vstd::prelude::*;

use crate::keyed::Keyed;
use crate::probe::TargetIdentity;
use crate::store::{views, with_identity, with_name, LastSeen, LastSeenView, SeenIdentity, SeenIdentityView, Store};
use crate::text::{copy_opt_string, str_string};

verus! {

/// The session's state.
pub struct Session {
    pub store: Store,
    /// False when the file on disk was refused. Everything still works for
    /// this session; nothing is saved, because saving would destroy it.
    pub writable: bool,
    /// Where each connected device was last seen plugged in, as (hub, port).
    /// Not an identity and not persisted: it fills the gap while Windows
    /// re-enumerates a device.
    pub ports: Keyed<(String, u32)>,
    /// Identities from probes, keyed by instance id. Never written out.
    pub identities: Keyed<TargetIdentity>,
}

pub open spec fn port_view(p: Option<(String, u32)>) -> Option<(Seq<char>, u32)> {
    match p {
        Some((hub, port)) => Some((hub@, port)),
        None => None,
    }
}

/// What a remembered identity is written down as.
pub open spec fn seen_of(t: TargetIdentity) -> SeenIdentityView {
    SeenIdentityView {
        identity_key: t.identity_key@,
        device_type: t.device_type@,
        device_id: t.device_id@,
        hardware_revision: match t.hardware_revision {
            Some(h) => Some(h@),
            None => None,
        },
        id_source: Some(t.id_source@),
    }
}

/// Recording the names of one pass, in order: the list afterwards, and
/// whether anything changed.
pub open spec fn with_names(v: Seq<LastSeenView>, seen: Seq<(Seq<char>, Seq<char>)>) -> (Seq<LastSeenView>, bool)
    decreases seen.len(),
{
    if seen.len() == 0 {
        (v, false)
    } else {
        let before = with_names(v, seen.drop_last());
        let after = with_name(before.0, seen.last().0, seen.last().1);
        (after.0, before.1 || after.1)
    }
}

impl Session {
    /// Where a device was last seen plugged in.
    pub open spec fn port_on(&self, instance_id: Seq<char>) -> Option<(Seq<char>, u32)> {
        port_view(self.ports.lookup(instance_id))
    }

    /// The identity a probe found for a device this session.
    pub open spec fn identity_on(&self, instance_id: Seq<char>) -> Option<TargetIdentity> {
        self.identities.lookup(instance_id)
    }

    /// A session over a store, with nothing plugged in yet.
    pub fn new(store: Store, writable: bool) -> (r: Self)
        ensures
            r.store == store,
            r.writable == writable,
            forall|k: Seq<char>| r.port_on(k).is_none() && r.identity_on(k).is_none(),
    {
        Session { store, writable, ports: Keyed::new(), identities: Keyed::new() }
    }

    /// Whether a change to the store is to be written out: only when there
    /// was one, and only while writing is allowed. Offered every refresh, all
    /// but a handful of the names are already what the file says.
    pub fn update_when(&self, changed: bool) -> (r: bool)
        ensures
            r == (changed && self.writable),
    {
        changed && self.writable
    }

    /// Whether changes are being written.
    pub fn is_writable(&self) -> (r: bool)
        ensures
            r == self.writable,
    {
        self.writable
    }

    /// Records where a device is plugged in, and answers for it while Windows
    /// has nothing to say: the live answer when there is one, else the last.
    pub fn port_of(&mut self, instance_id: &str, live: Option<(String, u32)>) -> (r: Option<(String, u32)>)
        ensures
            live.is_some() ==> r == live && final(self).port_on(instance_id@) == port_view(live),
            live.is_none() ==> port_view(r) == old(self).port_on(instance_id@) && final(self).port_on(instance_id@)
                == old(self).port_on(instance_id@),
            forall|k: Seq<char>| k != instance_id@ ==> #[trigger] final(self).port_on(k) == old(self).port_on(k),
            forall|k: Seq<char>| #[trigger] final(self).identity_on(k) == old(self).identity_on(k),
            final(self).store == old(self).store,
            final(self).writable == old(self).writable,
    {
        match live {
            Some(port) => {
                let copy = (port.0.clone(), port.1);
                self.ports.insert(instance_id, copy);
                Some(port)
            },
            None => match self.ports.get(instance_id) {
                Some(p) => Some((p.0.clone(), p.1)),
                None => None,
            },
        }
    }

    /// Forgets where devices were plugged in once they stop being connected:
    /// a port is only worth reporting for something that is on it.
    pub fn forget_ports(&mut self, connected: &[String])
        ensures
            forall|k: Seq<char>| #[trigger] final(self).port_on(k) == (if connected@.map_values(|s: String| s@).contains(k) {
                old(self).port_on(k)
            } else {
                None
            }),
            forall|k: Seq<char>| #[trigger] final(self).identity_on(k) == old(self).identity_on(k),
            final(self).store == old(self).store,
            final(self).writable == old(self).writable,
    {
        self.ports.retain_keys(connected);
    }

    /// Records what a probe found, as this session's answer and as the
    /// reminder that outlives it. Returns whether the file needs writing.
    pub fn remember_identity(&mut self, instance_id: String, identity: TargetIdentity, at: String) -> (r: bool)
        ensures
            final(self).identity_on(instance_id@) == Some(identity),
            forall|k: Seq<char>| k != instance_id@ ==> #[trigger] final(self).identity_on(k) == old(self).identity_on(k),
            forall|k: Seq<char>| #[trigger] final(self).port_on(k) == old(self).port_on(k),
            (views(final(self).store.last_seen@), r) == with_identity(views(old(self).store.last_seen@), instance_id@, seen_of(identity), at@),
            final(self).store.settings == old(self).store.settings,
            final(self).writable == old(self).writable,
    {
        let seen = SeenIdentity {
            identity_key: identity.identity_key.clone(),
            device_type: identity.device_type.clone(),
            device_id: identity.device_id.clone(),
            hardware_revision: copy_opt_string(&identity.hardware_revision),
            id_source: Some(str_string(identity.id_source)),
        };
        assert(seen@ == seen_of(identity));
        self.identities.insert(instance_id.as_str(), identity);
        self.store.remember_identity(instance_id.as_str(), seen, at)
    }

    /// Records the names seen in one pass of the device list, so the file is
    /// written once or not at all. The last name wins. Returns whether
    /// anything changed.
    pub fn remember_names(&mut self, seen: &[(String, String)]) -> (r: bool)
        ensures
            (views(final(self).store.last_seen@), r) == with_names(
                views(old(self).store.last_seen@),
                seen@.map_values(|p: (String, String)| (p.0@, p.1@)),
            ),
            final(self).store.settings == old(self).store.settings,
            forall|k: Seq<char>| #[trigger] final(self).port_on(k) == old(self).port_on(k),
            forall|k: Seq<char>| #[trigger] final(self).identity_on(k) == old(self).identity_on(k),
            final(self).writable == old(self).writable,
    {
        let ghost sv = seen@.map_values(|p: (String, String)| (p.0@, p.1@));
        let ghost start = views(self.store.last_seen@);
        let mut changed = false;
        let n = seen.len();
        let mut i: usize = 0;
        while i < n
            invariant
                n == seen@.len(),
                sv == seen@.map_values(|p: (String, String)| (p.0@, p.1@)),
                i <= n,
                (views(self.store.last_seen@), changed) == with_names(start, sv.take(i as int)),
                self.store.settings == old(self).store.settings,
                start == views(old(self).store.last_seen@),
                self.ports == old(self).ports,
                self.identities == old(self).identities,
                self.writable == old(self).writable,
            decreases n - i,
        {
            assert(sv.take(i as int + 1).drop_last() == sv.take(i as int));
            assert(sv.take(i as int + 1).last() == (seen@[i as int].0@, seen@[i as int].1@));
            let c = self.store.remember_name(seen[i].0.as_str(), seen[i].1.as_str());
            changed = changed || c;
            i = i + 1;
        }
        assert(sv.take(n as int) == sv);
        changed
    }

    /// What the file remembers of a device.
    pub fn last_seen(&self, instance_id: &str) -> (r: Option<&LastSeen>)
        ensures
            match crate::store::find_seen(views(self.store.last_seen@), instance_id@) {
                Some(k) => r.is_some() && *r.unwrap() == self.store.last_seen@[k],
                None => r.is_none(),
            },
    {
        self.store.last_seen(instance_id)
    }

    /// Drops every remembered device, returning how many there were.
    pub fn forget_everything_seen(&mut self) -> (r: usize)
        ensures
            r == old(self).store.last_seen@.len(),
            final(self).store.last_seen@.len() == 0,
            final(self).store.settings == old(self).store.settings,
            forall|k: Seq<char>| #[trigger] final(self).identity_on(k) == old(self).identity_on(k),
            forall|k: Seq<char>| #[trigger] final(self).port_on(k) == old(self).port_on(k),
            final(self).writable == old(self).writable,
    {
        self.store.forget_everything_seen()
    }

    /// How many devices are remembered.
    pub fn remembered_count(&self) -> (r: usize)
        ensures
            r == self.store.last_seen@.len(),
    {
        self.store.last_seen.len()
    }

    /// The identity a probe found for a device this session, if any.
    pub fn identity(&self, instance_id: &str) -> (r: Option<&TargetIdentity>)
        ensures
            match self.identity_on(instance_id@) {
                Some(t) => r matches Some(x) && *x == t,
                None => r.is_none(),
            },
    {
        self.identities.get(instance_id)
    }

    /// Forgets identities for devices that are no longer plugged in,
    /// returning how many went. Unplugging is the one event after which what
    /// is on the end of the cable can have changed unannounced. What the file
    /// remembers is left alone: it is already labelled as the past.
    pub fn forget_absent(&mut self, present: &[String]) -> (r: usize)
        ensures
            forall|k: Seq<char>| #[trigger] final(self).identity_on(k) == (if present@.map_values(|s: String| s@).contains(k) {
                old(self).identity_on(k)
            } else {
                None
            }),
            forall|k: Seq<char>| #[trigger] final(self).port_on(k) == old(self).port_on(k),
            final(self).store == old(self).store,
            final(self).writable == old(self).writable,
    {
        self.identities.retain_keys(present)
    }
}

/// An identity recorded for a device is what the session gives back for it
/// until the device is unplugged, and nothing afterwards.
pub proof fn an_identity_lasts_while_its_device_is_present(
    before: Session,
    after_record: Session,
    after_unplug: Session,
    id: Seq<char>,
    t: TargetIdentity,
    present: Seq<Seq<char>>,
)
    requires
        after_record.identity_on(id) == Some(t),
        forall|k: Seq<char>| #[trigger] after_unplug.identity_on(k) == (if present.contains(k) {
            after_record.identity_on(k)
        } else {
            None
        }),
    ensures
        present.contains(id) ==> after_unplug.identity_on(id) == Some(t),
        !present.contains(id) ==> after_unplug.identity_on(id).is_none(),
{
}

} // verus!
