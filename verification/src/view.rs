//! The shape the frontend receives.
//!
//! Deliberately separate types from the core model: the wire format is
//! something the UI depends on, and pinning it here means the core model can
//! change without silently reshaping what the UI reads.
use vstd::prelude::*;

use crate::autoattach::{
    first_covered, matching, sanitise, sanitise_spec, views_of_candidates, views_of_rules, Candidate, Rule,
    RuleKind,
};
use crate::probe::notes::{attached, not_connected};
use crate::probe::{
    applicable, family_text, probe_list, probes, reason_code, side_effect_code, weighed, Applicability, TargetIdentity,
    TargetProbe,
};
use crate::snapshot::DeviceRow;
use crate::store::{opt_chars, LastSeen, SeenIdentity, SeenIdentityView, Settings};
use crate::text::{ci_eq, copy_opt_string, copy_string, eq_ignore_case, same_str, str_string};
use crate::usb_ids::{product_key, UsbIds};
use crate::usbipd::SharingState;
use crate::windevice::port_chain_of;
use crate::hub::HubPort;
use crate::instance_id::{pid_of, vid_of, InstanceId};
use crate::ppps::{FoundHow, PortPower, SwitchRecord};
use crate::snapshot::HubNode;

verus! {

/// What a probe found, as the frontend sees it.
#[derive(Debug, Clone)]
pub struct Identity {
    pub identity_key: String,
    pub device_type: String,
    pub device_id: String,
    pub hardware_revision: Option<String>,
    /// How the unit was pinned down. Shown, never branched on.
    pub id_source: Option<String>,
}

impl View for Identity {
    type V = SeenIdentityView;

    open spec fn view(&self) -> SeenIdentityView {
        SeenIdentityView {
            identity_key: self.identity_key@,
            device_type: self.device_type@,
            device_id: self.device_id@,
            hardware_revision: opt_chars(self.hardware_revision),
            id_source: opt_chars(self.id_source),
        }
    }
}

/// A probe's answer as the frontend sees it.
pub open spec fn target_view(t: TargetIdentity) -> SeenIdentityView {
    SeenIdentityView {
        identity_key: t.identity_key@,
        device_type: t.device_type@,
        device_id: t.device_id@,
        hardware_revision: opt_chars(t.hardware_revision),
        id_source: Some(t.id_source@),
    }
}

impl Identity {
    /// A copy of this identity.
    pub fn duplicate(&self) -> (r: Self)
        ensures
            r@ == self@,
    {
        Identity {
            identity_key: self.identity_key.clone(),
            device_type: self.device_type.clone(),
            device_id: self.device_id.clone(),
            hardware_revision: copy_opt_string(&self.hardware_revision),
            id_source: copy_opt_string(&self.id_source),
        }
    }

    /// What a probe found, with where its id came from.
    pub fn from_target(identity: &TargetIdentity) -> (r: Self)
        ensures
            r@ == target_view(*identity),
    {
        Identity {
            identity_key: identity.identity_key.clone(),
            device_type: identity.device_type.clone(),
            device_id: identity.device_id.clone(),
            hardware_revision: copy_opt_string(&identity.hardware_revision),
            id_source: Some(str_string(identity.id_source)),
        }
    }

    /// An identification as it was written down.
    pub fn from_seen(seen: &SeenIdentity) -> (r: Self)
        ensures
            r@ == seen@,
    {
        Identity {
            identity_key: seen.identity_key.clone(),
            device_type: seen.device_type.clone(),
            device_id: seen.device_id.clone(),
            hardware_revision: copy_opt_string(&seen.hardware_revision),
            id_source: copy_opt_string(&seen.id_source),
        }
    }
}

/// What was last known about a device, to fall back on where the live value
/// has gone.
#[derive(Debug, Clone)]
pub struct LastKnown {
    pub name: Option<String>,
    pub identity: Option<Identity>,
    pub identified_at: Option<String>,
}

/// Whether `l` is what the settings file remembers in `seen`: nothing when
/// there is no entry.
pub open spec fn last_known_from(l: LastKnown, seen: Option<LastSeen>) -> bool {
    match seen {
        Some(e) => {
            &&& opt_chars(l.name) == opt_chars(e.name)
            &&& l.identity.is_some() == e.identity.is_some()
            &&& l.identity.is_some() ==> l.identity.unwrap()@ == e.identity.unwrap()@
            &&& opt_chars(l.identified_at) == opt_chars(e.identified_at)
        },
        None => l.name.is_none() && l.identity.is_none() && l.identified_at.is_none(),
    }
}

impl LastKnown {
    /// Nothing known.
    pub fn nothing() -> (r: Self)
        ensures
            r.name.is_none(),
            r.identity.is_none(),
            r.identified_at.is_none(),
    {
        LastKnown { name: None, identity: None, identified_at: None }
    }

    /// What the settings file remembers of a device.
    pub fn from_seen(seen: &LastSeen) -> (r: Self)
        ensures
            last_known_from(r, Some(*seen)),
    {
        LastKnown {
            name: copy_opt_string(&seen.name),
            identity: match &seen.identity {
                Some(i) => Some(Identity::from_seen(i)),
                None => None,
            },
            identified_at: copy_opt_string(&seen.identified_at),
        }
    }
}

/// The usbipd operations offered for a device. The backend re-checks anyway;
/// this only decides what to show.
#[derive(Debug, Clone, Copy, PartialEq, Eq)]
pub struct Actions {
    /// Share it with usbipd. Needs administrator rights.
    pub bind: bool,
    /// Stop sharing it. Needs administrator rights.
    pub unbind: bool,
    /// Hand it to WSL. Only possible once bound.
    pub attach: bool,
    /// Take it back from WSL.
    pub detach: bool,
}

/// A probe the user could choose to run against a device.
#[derive(Debug, Clone, Copy, PartialEq, Eq)]
pub struct ProbeOption {
    pub family: &'static str,
    /// Translation key for the side effects to show before running.
    pub side_effect: &'static str,
    pub available: bool,
    /// Translation key for why it is unavailable, when it is.
    pub reason: Option<&'static str>,
}

/// What an automatic-attach rule could name a device by, and what names it
/// now.
#[derive(Debug, Clone)]
pub struct AutoAttach {
    /// Most specific first. Only what the device actually offers.
    pub candidates: Vec<Candidate>,
    /// The kind of rule matching it right now, if any.
    pub matched: Option<RuleKind>,
}

/// Settings as the frontend sees them.
#[derive(Debug, Clone)]
pub struct SettingsView {
    pub auto_identify: bool,
    pub auto_exclude: Vec<String>,
    pub confirm_before_identify: bool,
    pub start_with_windows: bool,
    pub auto_attach: bool,
    pub auto_attach_rules: Vec<Rule>,
    pub vhfilter_path: String,
    pub told_about_tray: bool,
}

impl SettingsView {
    /// The settings as the frontend sees them.
    pub fn from_settings(settings: &Settings) -> (r: Self)
        ensures
            r.auto_identify == settings.auto_identify,
            r.auto_exclude@.map_values(|s: String| s@) == settings.auto_exclude@.map_values(|s: String| s@),
            r.confirm_before_identify == settings.confirm_before_identify,
            r.start_with_windows == settings.start_with_windows,
            r.auto_attach == settings.auto_attach,
            views_of_rules(r.auto_attach_rules@) == views_of_rules(settings.auto_attach_rules@),
            r.vhfilter_path@ == settings.vhfilter_path@,
            r.told_about_tray == settings.told_about_tray,
    {
        let mut exclude: Vec<String> = Vec::new();
        let n = settings.auto_exclude.len();
        let mut i: usize = 0;
        while i < n
            invariant
                n == settings.auto_exclude@.len(),
                i <= n,
                exclude@.map_values(|s: String| s@) == settings.auto_exclude@.take(i as int).map_values(|s: String| s@),
            decreases n - i,
        {
            let ghost before = exclude@;
            exclude.push(settings.auto_exclude[i].clone());
            assert(settings.auto_exclude@.take(i as int + 1) == settings.auto_exclude@.take(i as int).push(settings.auto_exclude@[i as int]));
            assert(exclude@.map_values(|s: String| s@) =~= before.map_values(|s: String| s@).push(settings.auto_exclude@[i as int]@));
            assert(exclude@.map_values(|s: String| s@) =~= settings.auto_exclude@.take(i as int + 1).map_values(|s: String| s@));
            i = i + 1;
        }
        assert(settings.auto_exclude@.take(n as int) == settings.auto_exclude@);
        let mut rules: Vec<Rule> = Vec::new();
        let m = settings.auto_attach_rules.len();
        let mut j: usize = 0;
        while j < m
            invariant
                m == settings.auto_attach_rules@.len(),
                j <= m,
                views_of_rules(rules@) == views_of_rules(settings.auto_attach_rules@.take(j as int)),
            decreases m - j,
        {
            let r = &settings.auto_attach_rules[j];
            let ghost before = rules@;
            rules.push(Rule { kind: r.kind, value: r.value.clone() });
            assert(settings.auto_attach_rules@.take(j as int + 1) == settings.auto_attach_rules@.take(j as int).push(settings.auto_attach_rules@[j as int]));
            assert(views_of_rules(rules@) =~= views_of_rules(before).push(settings.auto_attach_rules@[j as int]@));
            assert(views_of_rules(rules@) =~= views_of_rules(settings.auto_attach_rules@.take(j as int + 1)));
            j = j + 1;
        }
        assert(settings.auto_attach_rules@.take(m as int) == settings.auto_attach_rules@);
        SettingsView {
            auto_identify: settings.auto_identify,
            auto_exclude: exclude,
            confirm_before_identify: settings.confirm_before_identify,
            start_with_windows: settings.start_with_windows,
            auto_attach: settings.auto_attach,
            auto_attach_rules: rules,
            vhfilter_path: settings.vhfilter_path.clone(),
            told_about_tray: settings.told_about_tray,
        }
    }

    /// The settings the frontend sent. Whatever it sent, the stored rule list
    /// holds no blanks and no repeats. The window size is not the
    /// frontend's to set.
    pub fn into_settings(self) -> (r: Settings)
        ensures
            r.auto_identify == self.auto_identify,
            r.auto_exclude == self.auto_exclude,
            r.confirm_before_identify == self.confirm_before_identify,
            r.start_with_windows == self.start_with_windows,
            r.auto_attach == self.auto_attach,
            views_of_rules(r.auto_attach_rules@) == sanitise_spec(views_of_rules(self.auto_attach_rules@)),
            r.vhfilter_path == self.vhfilter_path,
            r.told_about_tray == self.told_about_tray,
            r.window_width.is_none(),
            r.window_height.is_none(),
    {
        Settings {
            auto_identify: self.auto_identify,
            auto_exclude: self.auto_exclude,
            confirm_before_identify: self.confirm_before_identify,
            start_with_windows: self.start_with_windows,
            auto_attach: self.auto_attach,
            auto_attach_rules: sanitise(self.auto_attach_rules),
            vhfilter_path: self.vhfilter_path,
            told_about_tray: self.told_about_tray,
            window_width: None,
            window_height: None,
        }
    }
}

/// The remembered name, where it still tells the user something: not when
/// it is the live name, which would read as two devices.
pub open spec fn name_worth_showing(last: Option<Seq<char>>, current: Seq<char>) -> Option<Seq<char>> {
    match last {
        Some(n) => if n != current {
            Some(n)
        } else {
            None
        },
        None => None,
    }
}

/// The remembered name, where it still tells the user something.
pub fn worth_showing_name(last: Option<String>, current: &str) -> (r: Option<String>)
    ensures
        opt_chars(r) == name_worth_showing(opt_chars(last), current@),
{
    match last {
        Some(name) => if same_str(name.as_str(), current) {
            None
        } else {
            Some(name)
        },
        None => None,
    }
}

/// The remembered identification, where there is no current one to prefer:
/// a confirmed identity is the answer.
pub fn worth_showing_identity(last: Option<Identity>, current: Option<&Identity>) -> (r: Option<Identity>)
    ensures
        current.is_some() ==> r.is_none(),
        current.is_none() ==> r == last,
{
    match current {
        Some(_) => None,
        None => last,
    }
}

/// The operations that make sense for a device as it stands.
pub open spec fn actions_for(row: DeviceRow) -> Actions {
    let connected = row.usbipd.is_some() && row.usbipd.unwrap().connected();
    let shared = row.usbipd.is_some() && row.usbipd.unwrap().shared();
    let attached = row.usbipd.is_some() && row.usbipd.unwrap().attached();
    Actions {
        // Binding an absent device is not something usbipd can do: the bus id
        // it would need does not exist.
        bind: connected && !shared,
        unbind: shared && !attached,
        attach: connected && shared && !attached,
        detach: attached,
    }
}

pub fn actions(row: &DeviceRow) -> (r: Actions)
    ensures
        r == actions_for(*row),
{
    let (connected, shared, attached) = match &row.usbipd {
        Some(d) => (d.is_connected(), d.is_shared(), d.is_attached()),
        None => (false, false, false),
    };
    Actions {
        bind: connected && !shared,
        unbind: shared && !attached,
        attach: connected && shared && !attached,
        detach: attached,
    }
}

/// What a device offers a rule, most specific first: the identity a probe
/// found, the serial, the VID/PID and the bus id, each where there is one.
pub open spec fn candidates_for(row: DeviceRow, identity: Option<Seq<char>>) -> Seq<(RuleKind, Seq<char>)> {
    let a = match identity {
        Some(k) => seq![(RuleKind::Identity, k)],
        None => Seq::empty(),
    };
    let b = match row.instance_id.unit@.serial() {
        Some(s) => a.push((RuleKind::Serial, s)),
        None => a,
    };
    let c = match row.instance_id.vid_pid_text_spec() {
        Some(v) => b.push((RuleKind::VidPid, v)),
        None => b,
    };
    match row.bus_id_spec() {
        Some(bus) => c.push((RuleKind::BusId, bus)),
        None => c,
    }
}

/// What an automatic-attach rule could name the device by, and what names it.
/// Only a confirmed identity is a candidate, never a remembered one.
pub fn auto_attach(row: &DeviceRow, identity: Option<&Identity>, rules: &[Rule]) -> (r: AutoAttach)
    ensures
        views_of_candidates(r.candidates@) == candidates_for(*row, match identity {
            Some(i) => Some(i.identity_key@),
            None => None,
        }),
        r.matched == first_covered(views_of_rules(rules@), views_of_candidates(r.candidates@)),
{
    let mut candidates: Vec<Candidate> = Vec::new();
    match identity {
        Some(i) => {
            candidates.push(Candidate::new(RuleKind::Identity, i.identity_key.as_str()));
        },
        None => {},
    }
    let ghost a = views_of_candidates(candidates@);
    match row.instance_id.unit.serial() {
        Some(s) => {
            candidates.push(Candidate::new(RuleKind::Serial, s));
        },
        None => {},
    }
    assert(views_of_candidates(candidates@) =~= match row.instance_id.unit@.serial() {
        Some(s) => a.push((RuleKind::Serial, s)),
        None => a,
    });
    let ghost b = views_of_candidates(candidates@);
    match row.instance_id.vid_pid_string() {
        Some(v) => {
            candidates.push(Candidate::new(RuleKind::VidPid, v.as_str()));
        },
        None => {},
    }
    assert(views_of_candidates(candidates@) =~= match row.instance_id.vid_pid_text_spec() {
        Some(v) => b.push((RuleKind::VidPid, v)),
        None => b,
    });
    let ghost c = views_of_candidates(candidates@);
    match row.bus_id() {
        Some(bus) => {
            candidates.push(Candidate::new(RuleKind::BusId, bus));
        },
        None => {},
    }
    assert(views_of_candidates(candidates@) =~= match row.bus_id_spec() {
        Some(bus) => c.push((RuleKind::BusId, bus)),
        None => c,
    });
    let matched = matching(rules, &candidates);
    AutoAttach { candidates, matched }
}

/// Whether the row's device is held by a client.
pub open spec fn row_attached(row: DeviceRow) -> bool {
    row.usbipd.is_some() && row.usbipd.unwrap().attached()
}

/// Whether `options` says, for each probe in order, what the probes make of
/// the row: nothing is available without a device node, and the reason then
/// is the attach or the absence.
pub open spec fn options_for(options: Seq<ProbeOption>, row: DeviceRow) -> bool {
    &&& options.len() == probe_list().len()
    &&& forall|k: int| 0 <= k < options.len() ==> {
        let p = probe_list()[k];
        let o = #[trigger] options[k];
        &&& o.family@ == family_text(p)
        &&& o.side_effect@ == side_effect_code(p)
        &&& match row.windows {
            None => {
                &&& !o.available
                &&& o.reason matches Some(why) && why@ == (if row_attached(row) {
                    "probe.blocked.attached"@
                } else {
                    "probe.blocked.not_connected"@
                })
            },
            Some(device) => {
                let v = weighed(p, device);
                &&& o.available == (v is Supported)
                &&& match reason_code(v) {
                    Some(c) => o.reason matches Some(why) && why@ == c,
                    None => o.reason.is_none(),
                }
            },
        }
    }
}

/// Asks every probe what it makes of the device. Touches nothing.
pub fn probe_options(row: &DeviceRow) -> (r: Vec<ProbeOption>)
    ensures
        options_for(r@, *row),
{
    let mut out: Vec<ProbeOption> = Vec::new();
    match &row.windows {
        None => {
            // Attached or absent: there is no device node to talk to.
            let why = if row.sharing_state() == SharingState::Attached {
                attached()
            } else {
                not_connected()
            };
            let list = probes();
            let n = list.len();
            let mut i: usize = 0;
            while i < n
                invariant
                    n == list@.len(),
                    list@ == probe_list(),
                    row.windows.is_none(),
                    why.code@ == (if row_attached(*row) {
                        "probe.blocked.attached"@
                    } else {
                        "probe.blocked.not_connected"@
                    }),
                    i <= n,
                    out@.len() == i,
                    forall|k: int| 0 <= k < i ==> {
                        let p = probe_list()[k];
                        let o = #[trigger] out@[k];
                        &&& o.family@ == family_text(p)
                        &&& o.side_effect@ == side_effect_code(p)
                        &&& !o.available
                        &&& o.reason matches Some(w) && w@ == why.code@
                    },
                decreases n - i,
            {
                let p = list[i];
                out.push(ProbeOption { family: p.family(), side_effect: p.side_effect().code, available: false, reason: Some(why.code) });
                i = i + 1;
            }
        },
        Some(device) => {
            let verdicts = applicable(device);
            let n = verdicts.len();
            let mut i: usize = 0;
            while i < n
                invariant
                    n == verdicts@.len(),
                    n == probe_list().len(),
                    row.windows == Some(*device),
                    forall|k: int| 0 <= k < n ==> (#[trigger] verdicts@[k]).0 == probe_list()[k] && verdicts@[k].1 == weighed(
                        probe_list()[k],
                        *device,
                    ),
                    i <= n,
                    out@.len() == i,
                    forall|k: int| 0 <= k < i ==> {
                        let p = probe_list()[k];
                        let o = #[trigger] out@[k];
                        let v = weighed(p, *device);
                        &&& o.family@ == family_text(p)
                        &&& o.side_effect@ == side_effect_code(p)
                        &&& o.available == (v is Supported)
                        &&& match reason_code(v) {
                            Some(c) => o.reason matches Some(why) && why@ == c,
                            None => o.reason.is_none(),
                        }
                    },
                decreases n - i,
            {
                let (p, verdict) = verdicts[i];
                let reason = match verdict.note() {
                    Some(n) => Some(n.code),
                    None => None,
                };
                out.push(ProbeOption { family: p.family(), side_effect: p.side_effect().code, available: verdict.is_supported(), reason });
                i = i + 1;
            }
        },
    }
    out
}

/// One row of the device list.
#[derive(Debug, Clone)]
pub struct DeviceView {
    /// The join key, and what every command takes to name a device.
    pub instance_id: String,
    pub name: String,
    /// `1a86:7523`, absent for hubs.
    pub vid_pid: Option<String>,
    /// Vendor and product names from the USB ID Repository.
    pub vendor: Option<String>,
    pub usb_product: Option<String>,
    pub bus_id: Option<String>,
    pub com_port: Option<String>,
    /// The stable identifier of the physical port. Displayed, never
    /// persisted as an identity.
    pub location_path: Option<String>,
    /// The same path as a short hub-port chain, `1-3-3`.
    pub port_chain: Option<String>,
    pub parent_instance_id: Option<String>,
    pub port_address: Option<u32>,
    pub state: &'static str,
    /// usbipd still reports a bus id. True even while the device is attached.
    pub present: bool,
    /// Windows currently exposes a device node that could be talked to.
    pub reachable: bool,
    pub shared: bool,
    pub attached: bool,
    /// The client holding the device while attached.
    pub client_address: Option<String>,
    /// The serial number the device reports, when it reports one.
    pub serial: Option<String>,
    /// `serial` or `port only`.
    pub identity_basis: &'static str,
    /// Whether the descriptors leave the unit undetermined.
    pub needs_probe: bool,
    pub driver: Option<String>,
    pub driver_version: Option<String>,
    pub revision: Option<String>,
    pub problem_code: Option<u32>,
    pub probes: Vec<ProbeOption>,
    pub actions: Actions,
    pub auto_attach: AutoAttach,
    /// What a probe found this session, if one has run.
    pub identity: Option<Identity>,
    /// What the device was called the last time Windows could describe it,
    /// when that is not the name shown now.
    pub last_name: Option<String>,
    /// The last identification, when there is no current one. Reference only,
    /// never a rule candidate.
    pub last_identity: Option<Identity>,
    /// When `last_identity` was read.
    pub last_identified_at: Option<String>,
}

fn owned(s: Option<&str>) -> (r: Option<String>)
    ensures
        opt_chars(r) == match s {
            Some(t) => Some(t@),
            None => None,
        },
{
    match s {
        Some(t) => Some(str_string(t)),
        None => None,
    }
}

/// Whether `v` shows `row` as the frontend sees it, with the identity and
/// the remembered values given, against the rules given.
pub open spec fn shows_row(v: DeviceView, row: DeviceRow, ids: UsbIds, identity: Option<Identity>, last: LastKnown, rules: Seq<Rule>) -> bool {
    &&& v.instance_id@ == row.instance_id.raw@
    &&& v.name@ == row.name@
    &&& opt_chars(v.vid_pid) == row.instance_id.vid_pid_text_spec()
    &&& opt_chars(v.vendor) == match row.instance_id.vid_pid_spec() {
            Some((vid, _)) => if ids@.vendors.contains_key(vid) {
                Some(ids@.vendors[vid])
            } else {
                None
            },
            None => None,
        }
    &&& opt_chars(v.usb_product) == match row.instance_id.vid_pid_spec() {
            Some((vid, pid)) => if ids@.products.contains_key(product_key(vid, pid)) {
                Some(ids@.products[product_key(vid, pid)])
            } else {
                None
            },
            None => None,
        }
    &&& opt_chars(v.bus_id) == row.bus_id_spec()
    &&& opt_chars(v.com_port) == row.com_port_spec()
    &&& opt_chars(v.location_path) == row.location_spec()
    &&& opt_chars(v.port_chain) == match row.windows {
            Some(w) => if w.location_paths@.len() > 0 {
                port_chain_of(w.location_paths@[0]@)
            } else {
                None
            },
            None => None,
        }
    &&& opt_chars(v.parent_instance_id) == row.parent_spec()
    &&& v.port_address == match row.port_node_spec() {
            Some(n) => n.address,
            None => None,
        }
    &&& v.state@ == (match row.usbipd {
            Some(d) => d.state(),
            None => SharingState::NotShared,
        }).label_spec()
    &&& v.present == row.is_connected_row()
    &&& v.reachable == row.windows.is_some()
    &&& v.shared == (row.usbipd.is_some() && row.usbipd.unwrap().shared())
    &&& v.attached == row_attached(row)
    &&& opt_chars(v.client_address) == match row.usbipd {
            Some(d) => opt_chars(d.client_ip_address),
            None => None,
        }
    &&& opt_chars(v.serial) == row.instance_id.unit@.serial()
    &&& v.identity_basis@ == row.identity_basis.label_spec()
    &&& v.needs_probe == (row.identity_basis is PortOnly)
    &&& opt_chars(v.driver) == match row.windows {
            Some(w) => opt_chars(w.service),
            None => None,
        }
    &&& opt_chars(v.driver_version) == match row.windows {
            Some(w) => opt_chars(w.driver_version),
            None => None,
        }
    &&& opt_chars(v.revision) == match row.windows {
            Some(w) => opt_chars(w.revision),
            None => None,
        }
    &&& v.problem_code == match row.windows {
            Some(w) => w.problem_code,
            None => None,
        }
    &&& options_for(v.probes@, row)
    &&& v.actions == actions_for(row)
    &&& views_of_candidates(v.auto_attach.candidates@) == candidates_for(row, match identity {
            Some(i) => Some(i.identity_key@),
            None => None,
        })
    &&& v.auto_attach.matched == first_covered(views_of_rules(rules), views_of_candidates(v.auto_attach.candidates@))
    &&& v.identity == identity
    &&& opt_chars(v.last_name) == name_worth_showing(opt_chars(last.name), row.name@)
    &&& v.last_identity == (if identity.is_some() {
            None
        } else {
            last.identity
        })
    // The date belongs to the value it dates; without one it is noise.
    &&& v.last_identified_at == (if v.last_identity.is_some() {
            last.identified_at
        } else {
            None
        })
}

impl DeviceView {
    /// One row as the frontend sees it.
    pub fn from_row(row: &DeviceRow, ids: &UsbIds, identity: Option<Identity>, last: LastKnown, rules: &[Rule]) -> (r: Self)
        ensures
            shows_row(r, *row, *ids, identity, last, rules@),
    {
        let last_name = worth_showing_name(last.name, row.name.as_str());
        let last_identity = worth_showing_identity(last.identity, match &identity {
            Some(i) => Some(i),
            None => None,
        });
        let last_identified_at = if last_identity.is_some() {
            last.identified_at
        } else {
            None
        };
        let (vendor, usb_product) = match row.instance_id.vid_pid() {
            Some((vid, pid)) => (owned(ids.vendor(vid)), owned(ids.product(vid, pid))),
            None => (None, None),
        };
        let (present, shared, attached, client_address) = match &row.usbipd {
            Some(d) => (d.is_connected(), d.is_shared(), d.is_attached(), copy_opt_string(&d.client_ip_address)),
            None => (false, false, false, None),
        };
        let (port_chain, driver, driver_version, revision, problem_code) = match &row.windows {
            Some(w) => (
                w.port_chain(),
                copy_opt_string(&w.service),
                copy_opt_string(&w.driver_version),
                copy_opt_string(&w.revision),
                w.problem_code,
            ),
            None => (None, None, None, None, None),
        };
        // Only the confirmed identity is a candidate: a rule that fired on a
        // remembered one would hand a board to WSL on the strength of what used
        // to be plugged into that port.
        let auto = auto_attach(row, match &identity {
            Some(i) => Some(i),
            None => None,
        }, rules);
        DeviceView {
            instance_id: row.instance_id.raw.clone(),
            name: row.name.clone(),
            vid_pid: row.instance_id.vid_pid_string(),
            vendor,
            usb_product,
            bus_id: owned(row.bus_id()),
            com_port: owned(row.com_port()),
            location_path: owned(row.location_path()),
            port_chain,
            parent_instance_id: owned(row.parent_instance_id()),
            port_address: row.port_address(),
            state: row.sharing_state().label(),
            present,
            reachable: row.windows.is_some(),
            shared,
            attached,
            client_address,
            serial: owned(row.instance_id.unit.serial()),
            identity_basis: row.identity_basis.label(),
            needs_probe: row.identity_basis.needs_probe(),
            driver,
            driver_version,
            revision,
            problem_code,
            probes: probe_options(row),
            actions: actions(row),
            auto_attach: auto,
            identity,
            last_name,
            last_identity,
            last_identified_at,
        }
    }
}

/// One port of a hub, as the frontend sees it.
#[derive(Debug, Clone)]
pub struct PortView {
    pub port: u32,
    pub connected: bool,
    pub status: &'static str,
    /// What this application asked of the port this session, if anything.
    /// **Not an observation**: absent means "never switched by us", never
    /// "on".
    pub switched: Option<&'static str>,
}

/// One hub, as the frontend sees it.
#[derive(Debug, Clone)]
pub struct HubView {
    pub instance_id: String,
    pub name: String,
    pub location_path: Option<String>,
    pub parent_instance_id: Option<String>,
    pub port_address: Option<u32>,
    /// `1a86:8094`, absent on a root hub.
    pub vid_pid: Option<String>,
    /// From the USB ID Repository, the same source the device rows use.
    pub vendor: Option<String>,
    pub usb_product: Option<String>,
    pub manufacturer: Option<String>,
    pub driver_version: Option<String>,
    /// True when `vhfilter` lists this hub as able to switch port power: the
    /// hub **advertises** the feature and nothing more.
    pub ppps: bool,
    pub ports: Vec<PortView>,
}

/// The hub tree, and what this application has asked of its ports.
#[derive(Debug, Clone)]
pub struct TopologyView {
    pub hubs: Vec<HubView>,
    /// Where `vhfilter.exe` was found, if it was.
    pub vhfilter: Option<String>,
    /// `configured` or `searched`.
    pub vhfilter_how: Option<&'static str>,
    /// The directories searched, so the interface can name them.
    pub vhfilter_search_path: Vec<String>,
}

/// How a recorded switch is shown.
pub open spec fn switched_text(p: Option<PortPower>) -> Option<Seq<char>> {
    match p {
        Some(PortPower::SwitchedOff) => Some("off"@),
        Some(PortPower::SwitchedOn) => Some("on"@),
        None => None,
    }
}

/// One port, with what was asked of it.
pub fn port_view(port: &HubPort, hub_instance_id: &str, record: &SwitchRecord) -> (r: PortView)
    ensures
        r.port == port.port,
        r.connected == port.connected,
        r.status == port.status_name,
        match switched_text(record.power(hub_instance_id@, port.port)) {
            Some(t) => r.switched matches Some(s) && s@ == t,
            None => r.switched.is_none(),
        },
{
    let switched = match record.recorded(hub_instance_id, port.port) {
        Some(PortPower::SwitchedOff) => Some("off"),
        Some(PortPower::SwitchedOn) => Some("on"),
        None => None,
    };
    PortView { port: port.port, connected: port.connected, status: port.status_name, switched }
}

/// Whether `vhfilter` listed a hub, ignoring ASCII case.
pub open spec fn listed_ppps(ppps_hubs: Seq<String>, hub: Seq<char>) -> bool {
    exists|k: int| 0 <= k < ppps_hubs.len() && ci_eq((#[trigger] ppps_hubs[k])@, hub)
}

/// Whether `v` shows `hub` as the frontend sees it: its own fields, whether
/// `vhfilter` listed it, what was asked of each port, and the vendor lookup a
/// device row gets.
pub open spec fn shows_hub(v: HubView, hub: HubNode, ppps_hubs: Seq<String>, record: SwitchRecord, ids: UsbIds) -> bool {
    &&& v.instance_id@ == hub.instance_id@
    &&& v.name@ == hub.name@
    &&& opt_chars(v.location_path) == opt_chars(hub.location_path)
    &&& opt_chars(v.parent_instance_id) == opt_chars(hub.parent_instance_id)
    &&& v.port_address == hub.address
    &&& opt_chars(v.vid_pid) == opt_chars(hub.vid_pid)
    &&& opt_chars(v.manufacturer) == opt_chars(hub.manufacturer)
    &&& opt_chars(v.driver_version) == opt_chars(hub.driver_version)
    &&& v.ppps == listed_ppps(ppps_hubs, hub.instance_id@)
    &&& v.ports@.len() == hub.ports@.len()
    &&& forall|k: int| 0 <= k < v.ports@.len() ==> {
        let p = #[trigger] v.ports@[k];
        &&& p.port == hub.ports@[k].port
        &&& p.connected == hub.ports@[k].connected
        &&& p.status == hub.ports@[k].status_name
        &&& match switched_text(record.power(hub.instance_id@, hub.ports@[k].port)) {
            Some(t) => p.switched matches Some(s) && s@ == t,
            None => p.switched.is_none(),
        }
    }
    &&& ({
        let id = parsed_id(hub.instance_id@);
        &&& opt_chars(v.vendor) == match id {
            Some((vid, _)) => if ids@.vendors.contains_key(vid) {
                Some(ids@.vendors[vid])
            } else {
                None
            },
            None => None,
        }
        &&& opt_chars(v.usb_product) == match id {
            Some((vid, pid)) => if ids@.products.contains_key(product_key(vid, pid)) {
                Some(ids@.products[product_key(vid, pid)])
            } else {
                None
            },
            None => None,
        }
    })
}

/// One hub as the frontend sees it: the same vendor lookup a device row
/// gets, and what was asked of each port.
pub fn hub_view(hub: &HubNode, ppps_hubs: &[String], record: &SwitchRecord, ids: &UsbIds) -> (r: HubView)
    ensures
        shows_hub(r, *hub, ppps_hubs@, *record, *ids),
{
    let parsed = InstanceId::parse(hub.instance_id.as_str());
    let (vendor, usb_product) = match parsed.vid_pid() {
        Some((vid, pid)) => (owned(ids.vendor(vid)), owned(ids.product(vid, pid))),
        None => (None, None),
    };
    let mut ppps = false;
    let m = ppps_hubs.len();
    let mut j: usize = 0;
    while j < m
        invariant
            m == ppps_hubs@.len(),
            j <= m,
            ppps == exists|k: int| 0 <= k < j && ci_eq((#[trigger] ppps_hubs@[k])@, hub.instance_id@),
        decreases m - j,
    {
        if eq_ignore_case(ppps_hubs[j].as_str(), hub.instance_id.as_str()) {
            ppps = true;
        }
        j = j + 1;
    }
    let mut ports: Vec<PortView> = Vec::new();
    let n = hub.ports.len();
    let mut i: usize = 0;
    while i < n
        invariant
            n == hub.ports@.len(),
            i <= n,
            ports@.len() == i,
            forall|k: int| 0 <= k < i ==> {
                let p = #[trigger] ports@[k];
                &&& p.port == hub.ports@[k].port
                &&& p.connected == hub.ports@[k].connected
                &&& p.status == hub.ports@[k].status_name
                &&& match switched_text(record.power(hub.instance_id@, hub.ports@[k].port)) {
                    Some(t) => p.switched matches Some(s) && s@ == t,
                    None => p.switched.is_none(),
                }
            },
        decreases n - i,
    {
        ports.push(port_view(&hub.ports[i], hub.instance_id.as_str(), record));
        i = i + 1;
    }
    HubView {
        instance_id: hub.instance_id.clone(),
        name: hub.name.clone(),
        location_path: copy_opt_string(&hub.location_path),
        parent_instance_id: copy_opt_string(&hub.parent_instance_id),
        port_address: hub.address,
        vid_pid: copy_opt_string(&hub.vid_pid),
        vendor,
        usb_product,
        manufacturer: copy_opt_string(&hub.manufacturer),
        driver_version: copy_opt_string(&hub.driver_version),
        ppps,
        ports,
    }
}

/// The VID and PID an instance id carries, parsed.
pub open spec fn parsed_id(raw: Seq<char>) -> Option<(u16, u16)> {
    match (vid_of(raw), pid_of(raw)) {
        (Some(v), Some(p)) => Some((v, p)),
        _ => None,
    }
}

/// `configured` or `searched`.
pub open spec fn how_text(how: FoundHow) -> Seq<char> {
    match how {
        FoundHow::Configured => "configured"@,
        FoundHow::Searched => "searched"@,
    }
}

/// The hub tree as the frontend sees it, with where `vhfilter` was found and
/// where it was looked for.
pub fn topology_view(
    hubs: &[HubNode],
    ppps_hubs: &[String],
    record: &SwitchRecord,
    ids: &UsbIds,
    located: Option<(String, FoundHow)>,
    search_path: Vec<String>,
) -> (r: TopologyView)
    ensures
        r.hubs@.len() == hubs@.len(),
        forall|k: int| 0 <= k < hubs@.len() ==> shows_hub(#[trigger] r.hubs@[k], hubs@[k], ppps_hubs@, *record, *ids),
        match located {
            Some((path, how)) => r.vhfilter == Some(path) && (r.vhfilter_how matches Some(h) && h@ == how_text(how)),
            None => r.vhfilter.is_none() && r.vhfilter_how.is_none(),
        },
        r.vhfilter_search_path == search_path,
{
    let mut out: Vec<HubView> = Vec::new();
    let n = hubs.len();
    let mut i: usize = 0;
    while i < n
        invariant
            n == hubs@.len(),
            i <= n,
            out@.len() == i,
            forall|k: int| 0 <= k < i ==> shows_hub(#[trigger] out@[k], hubs@[k], ppps_hubs@, *record, *ids),
        decreases n - i,
    {
        out.push(hub_view(&hubs[i], ppps_hubs, record, ids));
        i = i + 1;
    }
    let (vhfilter, vhfilter_how) = match located {
        Some((path, how)) => {
            let text: &'static str = match how {
                FoundHow::Configured => "configured",
                FoundHow::Searched => "searched",
            };
            (Some(path), Some(text))
        },
        None => (None, None),
    };
    TopologyView { hubs: out, vhfilter, vhfilter_how, vhfilter_search_path: search_path }
}

} // verus!
