//! The decisions behind what the frontend can ask for.
//!
//! Every value here names something this application opens, probes or
//! reports, so nothing the frontend holds decides it. Running the command is
//! the caller's business.
use vstd::prelude::*;

use crate::probe::usb_descriptor::{identified, identify};
use crate::probe::{family_text, probe_list, probes, reason_code, verdict_of, Probe, TargetIdentity, TargetProbe};
use crate::snapshot::{DeviceRow, HubNode, Snapshot};
use crate::store::Settings;
use crate::text::{ci_eq, dec_text, push_str, same_str, str_string, u32_string};
use crate::usbipd::SharingState;
use crate::probe::id_sources::USB_SERIAL;
use crate::probe::identity::key_text;
use crate::store::SeenIdentityView;
use crate::autoattach::views_of_rules;
use crate::session::{with_names, Session};
use crate::store::{find_seen, views, LastSeen};
use crate::usb_ids::UsbIds;
use crate::view::{last_known_from, shows_row, target_view, DeviceView, Identity, LastKnown, SettingsView};

verus! {

/// Where this application's releases and documentation are.
pub const PROJECT_HOME: &'static str = "https://github.com/tanakamasayuki/wsl-usb-identity-manager";

/// Where usbipd-win's releases are.
pub const USBIPD_RELEASES: &'static str = "https://github.com/dorssel/usbipd-win/releases/latest";

/// The page `vhfilter` is downloaded from.
pub const VHFILTER_HOME: &'static str = "https://www.virtualhere.com/node/4352";

/// Somewhere this application can point Windows at. An enum rather than a
/// path, so every value resolves to a folder this application writes to or
/// to an address compiled into it.
#[derive(Debug, Clone, Copy, PartialEq, Eq, Structural)]
pub enum OpenTarget {
    /// The folder holding the log.
    LogFolder,
    /// The folder holding the settings file.
    SettingsFolder,
    UsbipdReleases,
    Webview2Download,
    ProjectHome,
    VhfilterHome,
}

impl OpenTarget {
    /// The address a target opens, for the ones that are web pages; `None`
    /// for the folders.
    pub fn url(self) -> (r: Option<&'static str>)
        ensures
            match self {
                OpenTarget::LogFolder | OpenTarget::SettingsFolder => r.is_none(),
                OpenTarget::UsbipdReleases => r == Some(USBIPD_RELEASES),
                OpenTarget::Webview2Download => r == Some(crate::webview2::DOWNLOAD_URL),
                OpenTarget::ProjectHome => r == Some(PROJECT_HOME),
                OpenTarget::VhfilterHome => r == Some(VHFILTER_HOME),
            },
    {
        match self {
            OpenTarget::LogFolder => None,
            OpenTarget::SettingsFolder => None,
            OpenTarget::UsbipdReleases => Some(USBIPD_RELEASES),
            OpenTarget::Webview2Download => Some(crate::webview2::DOWNLOAD_URL),
            OpenTarget::ProjectHome => Some(PROJECT_HOME),
            OpenTarget::VhfilterHome => Some(VHFILTER_HOME),
        }
    }
}

/// The stored settings, handed to the frontend at startup.
#[derive(Debug, Clone)]
pub struct StoredSettings {
    pub settings: SettingsView,
    /// False when the file on disk was refused; the panel says so.
    pub writable: bool,
    pub path: String,
    /// Where the log is.
    pub log_path: String,
    /// How many devices have a remembered name or identification.
    pub remembered: usize,
}

/// The first row on an instance id, compared as usbipd compares them.
pub open spec fn first_row(rows: Seq<DeviceRow>, instance_id: Seq<char>) -> Option<int>
    decreases rows.len(),
{
    if rows.len() == 0 {
        None
    } else {
        match first_row(rows.drop_last(), instance_id) {
            Some(i) => Some(i),
            None => if ci_eq(rows.last().instance_id.raw@, instance_id) {
                Some(rows.len() - 1)
            } else {
                None
            },
        }
    }
}

/// The row a request names, if the device is still there.
pub fn find<'a>(snapshot: &'a Snapshot, instance_id: &str) -> (r: Option<&'a DeviceRow>)
    ensures
        match first_row(snapshot.devices@, instance_id@) {
            Some(i) => r matches Some(row) && *row == snapshot.devices@[i],
            None => r.is_none(),
        },
{
    let n = snapshot.devices.len();
    let mut i: usize = 0;
    while i < n
        invariant
            n == snapshot.devices@.len(),
            i <= n,
            first_row(snapshot.devices@.take(i as int), instance_id@).is_none(),
        decreases n - i,
    {
        assert(snapshot.devices@.take(i as int + 1).drop_last() == snapshot.devices@.take(i as int));
        if snapshot.devices[i].instance_id.matches(instance_id) {
            proof {
                lemma_first_row_prefix(snapshot.devices@, instance_id@, i as int + 1);
            }
            return Some(&snapshot.devices[i]);
        }
        i = i + 1;
    }
    assert(snapshot.devices@.take(n as int) == snapshot.devices@);
    None
}

proof fn lemma_first_row_prefix(rows: Seq<DeviceRow>, id: Seq<char>, k: int)
    requires
        0 < k <= rows.len(),
        first_row(rows.take(k - 1), id).is_none(),
        ci_eq(rows[k - 1].instance_id.raw@, id),
    ensures
        first_row(rows, id) == Some(k - 1),
    decreases rows.len(),
{
    assert(rows.take(k).drop_last() == rows.take(k - 1));
    assert(first_row(rows.take(k), id) == Some(k - 1));
    if k < rows.len() {
        assert(rows.drop_last().take(k) == rows.take(k));
        assert(rows.drop_last().take(k - 1) == rows.take(k - 1));
        lemma_first_row_prefix(rows.drop_last(), id, k);
    } else {
        assert(rows.take(k) == rows);
    }
}

/// Why a probe was not run.
#[derive(Debug, Clone, PartialEq, Eq)]
pub enum ProbeRefusal {
    /// The device is no longer in the list.
    Gone(String),
    /// Attached to WSL, so Windows cannot reach it.
    Attached,
    /// Not connected.
    NotConnected,
    /// No probe has this family name.
    NoSuchProbe(String),
    /// The probe's own verdict, re-checked rather than trusted from the
    /// frontend's copy.
    NotApplicable { family: String, reason: &'static str },
}

impl ProbeRefusal {
    pub open spec fn message_spec(&self) -> Seq<char> {
        match self {
            ProbeRefusal::Gone(id) => id@ + " is no longer present"@,
            ProbeRefusal::Attached => "the device is attached to WSL, so Windows cannot reach it"@,
            ProbeRefusal::NotConnected => "the device is not connected"@,
            ProbeRefusal::NoSuchProbe(f) => "no probe named "@ + f@,
            ProbeRefusal::NotApplicable { family, reason } => family@ + ": "@ + reason@,
        }
    }

    /// What the refusal says.
    pub fn message(&self) -> (r: String)
        ensures
            r@ == self.message_spec(),
    {
        match self {
            ProbeRefusal::Gone(id) => {
                let mut m = id.clone();
                push_str(&mut m, " is no longer present");
                m
            },
            ProbeRefusal::Attached => str_string("the device is attached to WSL, so Windows cannot reach it"),
            ProbeRefusal::NotConnected => str_string("the device is not connected"),
            ProbeRefusal::NoSuchProbe(f) => {
                let mut m = str_string("no probe named ");
                push_str(&mut m, f.as_str());
                m
            },
            ProbeRefusal::NotApplicable { family, reason } => {
                let mut m = family.clone();
                push_str(&mut m, ": ");
                push_str(&mut m, reason);
                m
            },
        }
    }
}

/// The first probe with this family name.
pub open spec fn probe_named(family: Seq<char>) -> Option<Probe> {
    if family_text(Probe::Ch32) == family {
        Some(Probe::Ch32)
    } else if family_text(Probe::Esp32) == family {
        Some(Probe::Esp32)
    } else {
        None
    }
}

/// What asking a board what it is comes to, before anything touches it: the
/// row and the probe to use, or why not. Re-read rather than trusting what
/// the frontend holds: the device could have moved, been unplugged or been
/// attached since the list was drawn.
pub fn probe_target<'a>(snapshot: &'a Snapshot, instance_id: &str, family: &str) -> (r: Result<(&'a DeviceRow, Probe), ProbeRefusal>)
    ensures
        match first_row(snapshot.devices@, instance_id@) {
            None => r matches Err(ProbeRefusal::Gone(id)) && id@ == instance_id@,
            Some(i) => {
                let row = snapshot.devices@[i];
                match row.windows {
                    None => r == Err::<(&DeviceRow, Probe), ProbeRefusal>(if row.usbipd.is_some() && row.usbipd.unwrap().state() == SharingState::Attached {
                        ProbeRefusal::Attached
                    } else {
                        ProbeRefusal::NotConnected
                    }),
                    Some(device) => match probe_named(family@) {
                        None => r matches Err(ProbeRefusal::NoSuchProbe(f)) && f@ == family@,
                        Some(p) => match reason_code(verdict_of(p, device)) {
                            Some(c) => r matches Err(ProbeRefusal::NotApplicable { family: f, reason }) && f@ == family@
                                && reason@ == match verdict_of(p, device) {
                                    crate::probe::Applicability::NotApplicable(n) => n.en@,
                                    crate::probe::Applicability::Blocked(n) => n.en@,
                                    crate::probe::Applicability::Supported => Seq::empty(),
                                },
                            None => r matches Ok((found, q)) && *found == row && q == p,
                        },
                    },
                }
            },
        },
{
    let row = match find(snapshot, instance_id) {
        Some(row) => row,
        None => return Err(ProbeRefusal::Gone(str_string(instance_id))),
    };
    let device = match &row.windows {
        Some(d) => d,
        None => {
            return Err(
                if row.sharing_state() == SharingState::Attached {
                    ProbeRefusal::Attached
                } else {
                    ProbeRefusal::NotConnected
                },
            );
        },
    };
    let list = probes();
    let probe = if same_str(list[0].family(), family) {
        list[0]
    } else if same_str(list[1].family(), family) {
        list[1]
    } else {
        return Err(ProbeRefusal::NoSuchProbe(str_string(family)));
    };
    match probe.applicability(device).note() {
        Some(note) => Err(ProbeRefusal::NotApplicable { family: str_string(family), reason: note.en }),
        None => Ok((row, probe)),
    }
}

/// The rows usbipd reports as connected, by instance id: an identity belongs
/// to a device that is still plugged in.
pub open spec fn connected_ids_spec(rows: Seq<DeviceRow>) -> Seq<Seq<char>>
    decreases rows.len(),
{
    if rows.len() == 0 {
        Seq::empty()
    } else if rows.last().is_connected_row() {
        connected_ids_spec(rows.drop_last()).push(rows.last().instance_id.raw@)
    } else {
        connected_ids_spec(rows.drop_last())
    }
}

pub fn connected_ids(snapshot: &Snapshot) -> (r: Vec<String>)
    ensures
        r@.map_values(|s: String| s@) == connected_ids_spec(snapshot.devices@),
{
    let mut out: Vec<String> = Vec::new();
    let n = snapshot.devices.len();
    let mut i: usize = 0;
    while i < n
        invariant
            n == snapshot.devices@.len(),
            i <= n,
            out@.map_values(|s: String| s@) == connected_ids_spec(snapshot.devices@.take(i as int)),
        decreases n - i,
    {
        assert(snapshot.devices@.take(i as int + 1).drop_last() == snapshot.devices@.take(i as int));
        let row = &snapshot.devices[i];
        let connected = match &row.usbipd {
            Some(d) => d.is_connected(),
            None => false,
        };
        if connected {
            let ghost before = out@;
            out.push(row.instance_id.raw.clone());
            assert(out@.map_values(|s: String| s@) =~= before.map_values(|s: String| s@).push(row.instance_id.raw@));
        }
        i = i + 1;
    }
    assert(snapshot.devices@.take(n as int) == snapshot.devices@);
    out
}

/// The name of every device Windows can currently describe.
pub open spec fn names_seen_spec(rows: Seq<DeviceRow>) -> Seq<(Seq<char>, Seq<char>)>
    decreases rows.len(),
{
    if rows.len() == 0 {
        Seq::empty()
    } else if rows.last().windows.is_some() {
        names_seen_spec(rows.drop_last()).push((rows.last().instance_id.raw@, rows.last().name@))
    } else {
        names_seen_spec(rows.drop_last())
    }
}

/// The names to remember from one pass of the list. Once a device is
/// attached the only name left is the description usbipd cached, which need
/// not say what the device is, so only rows with a Windows node count.
pub fn names_seen(snapshot: &Snapshot) -> (r: Vec<(String, String)>)
    ensures
        r@.map_values(|p: (String, String)| (p.0@, p.1@)) == names_seen_spec(snapshot.devices@),
{
    let mut out: Vec<(String, String)> = Vec::new();
    let n = snapshot.devices.len();
    let mut i: usize = 0;
    while i < n
        invariant
            n == snapshot.devices@.len(),
            i <= n,
            out@.map_values(|p: (String, String)| (p.0@, p.1@)) == names_seen_spec(snapshot.devices@.take(i as int)),
        decreases n - i,
    {
        assert(snapshot.devices@.take(i as int + 1).drop_last() == snapshot.devices@.take(i as int));
        let row = &snapshot.devices[i];
        if row.windows.is_some() {
            let ghost before = out@;
            out.push((row.instance_id.raw.clone(), row.name.clone()));
            assert(out@.map_values(|p: (String, String)| (p.0@, p.1@)) =~= before.map_values(|p: (String, String)| (p.0@, p.1@)).push((row.instance_id.raw@, row.name@)));
        }
        i = i + 1;
    }
    assert(snapshot.devices@.take(n as int) == snapshot.devices@);
    out
}

/// Whether `i` is the identity a row is shown with, given what a probe found
/// for it this session.
pub open spec fn identity_shown(i: Option<Identity>, row: DeviceRow, probed: Option<TargetIdentity>) -> bool {
    match probed {
        Some(t) => i matches Some(x) && x@ == target_view(t),
        None => match identified(row.instance_id) {
            None => i.is_none(),
            Some((family, variant, serial)) => i matches Some(x) && x@ == (SeenIdentityView {
                identity_key: key_text(variant, serial),
                device_type: variant,
                device_id: serial,
                hardware_revision: None,
                id_source: Some(USB_SERIAL@),
            }),
        },
    }
}

/// The identity a row is shown with: what a probe found this session, else
/// what its descriptors name. A probe read the silicon, which outlives a
/// reflash changing what the descriptors say, so it comes first.
pub fn identity_for(row: &DeviceRow, probed: Option<&TargetIdentity>) -> (r: Option<Identity>)
    ensures
        identity_shown(r, *row, match probed {
            Some(t) => Some(*t),
            None => None,
        }),
{
    match probed {
        Some(t) => Some(Identity::from_target(t)),
        None => match identify(&row.instance_id) {
            Some(t) => Some(Identity::from_target(&t)),
            None => None,
        },
    }
}

/// How many ports a hub has, found by instance id ignoring ASCII case.
pub fn hub_port_count(hubs: &[HubNode], hub: &str) -> (r: Option<usize>)
    ensures
        match r {
            Some(n) => exists|k: int| 0 <= k < hubs@.len() && ci_eq((#[trigger] hubs@[k]).instance_id@, hub@) && hubs@[k].ports@.len() == n,
            None => forall|k: int| 0 <= k < hubs@.len() ==> !ci_eq((#[trigger] hubs@[k]).instance_id@, hub@),
        },
{
    let n = hubs.len();
    let mut i: usize = 0;
    while i < n
        invariant
            n == hubs@.len(),
            i <= n,
            forall|k: int| 0 <= k < i ==> !ci_eq((#[trigger] hubs@[k]).instance_id@, hub@),
        decreases n - i,
    {
        if crate::text::eq_ignore_case(hubs[i].instance_id.as_str(), hub) {
            return Some(hubs[i].ports.len());
        }
        i = i + 1;
    }
    None
}

/// What saving the settings the user changed does besides storing them.
#[derive(Debug, Clone, Copy, PartialEq, Eq)]
pub struct SettingsEffects {
    /// The path to `vhfilter` changed: the cached hub list is keyed on the
    /// hubs present, which a new path does not change, so it is dropped by
    /// hand.
    pub forget_listed: bool,
    /// The `Run` entry to add (`Some(true)`) or remove (`Some(false)`), when
    /// what Windows acts on differs from what was asked. Applied before the
    /// file is written, so a refusal is not saved as if it had taken effect.
    pub startup: Option<bool>,
}

/// What saving `sent` over `stored` does, given whether the `Run` entry
/// currently starts this executable.
pub fn settings_effects(stored: &Settings, sent: &SettingsView, startup_enabled: bool) -> (r: SettingsEffects)
    ensures
        r.forget_listed == (stored.vhfilter_path@ != sent.vhfilter_path@),
        r.startup == (if startup_enabled != sent.start_with_windows {
            Some(sent.start_with_windows)
        } else {
            None
        }),
{
    let forget_listed = !same_str(stored.vhfilter_path.as_str(), sent.vhfilter_path.as_str());
    let startup = if startup_enabled != sent.start_with_windows {
        Some(sent.start_with_windows)
    } else {
        None
    };
    SettingsEffects { forget_listed, startup }
}

/// One port's refusal as it is reported: `<port>: <what went wrong>`.
pub open spec fn refusal_item(failed: (u32, String)) -> Seq<char> {
    dec_text(failed.0 as nat) + ": "@ + failed.1@
}

/// The refusals, joined with `; `.
pub open spec fn refusals_text(failed: Seq<(u32, String)>) -> Seq<char>
    decreases failed.len(),
{
    if failed.len() == 0 {
        Seq::empty()
    } else if failed.len() == 1 {
        refusal_item(failed[0])
    } else {
        refusals_text(failed.drop_last()) + "; "@ + refusal_item(failed.last())
    }
}

/// What switching every port of a hub comes to, from the ports that refused:
/// every port is attempted even when one refuses, since stopping half way
/// would leave the hub in a state nobody asked for.
pub fn hub_switch_outcome(failed: &[(u32, String)]) -> (r: Result<(), String>)
    ensures
        failed@.len() == 0 ==> r is Ok,
        failed@.len() > 0 ==> (r matches Err(m) && m@ == "some ports refused \u{2014} "@ + refusals_text(failed@)),
{
    let n = failed.len();
    if n == 0 {
        return Ok(());
    }
    let mut joined = String::new();
    let mut i: usize = 0;
    while i < n
        invariant
            n == failed@.len(),
            i <= n,
            joined@ == refusals_text(failed@.take(i as int)),
        decreases n - i,
    {
        assert(failed@.take(i as int + 1).drop_last() == failed@.take(i as int));
        if i > 0 {
            push_str(&mut joined, "; ");
        }
        push_str(&mut joined, u32_string(failed[i].0).as_str());
        push_str(&mut joined, ": ");
        push_str(&mut joined, failed[i].1.as_str());
        proof {
            if i == 0 {
                assert(failed@.take(1)[0] == failed@[0]);
                assert(joined@ =~= refusal_item(failed@[0]));
            } else {
                assert(failed@.take(i as int + 1).last() == failed@[i as int]);
                assert(joined@ =~= refusals_text(failed@.take(i as int)) + "; "@ + refusal_item(failed@[i as int]));
            }
        }
        i = i + 1;
    }
    assert(failed@.take(n as int) == failed@);
    let mut message = str_string("some ports refused \u{2014} ");
    push_str(&mut message, joined.as_str());
    Err(message)
}

/// The entry the settings file holds on an instance id, if any.
pub open spec fn seen_entry(s: Session, raw: Seq<char>) -> Option<LastSeen> {
    match find_seen(views(s.store.last_seen@), raw) {
        Some(k) => Some(s.store.last_seen@[k]),
        None => None,
    }
}

/// Whether `v` shows `row` as the session `s` knows it: the identity a probe
/// found or the descriptors name, what the file remembers, and the rules in
/// the settings.
pub open spec fn shown_in_session(v: DeviceView, row: DeviceRow, ids: UsbIds, s: Session) -> bool {
    exists|i: Option<Identity>, l: LastKnown| #[trigger] shown_with(v, row, ids, i, l, s)
}

pub open spec fn shown_with(v: DeviceView, row: DeviceRow, ids: UsbIds, i: Option<Identity>, l: LastKnown, s: Session) -> bool {
    &&& identity_shown(i, row, s.identity_on(row.instance_id.raw@))
    &&& last_known_from(l, seen_entry(s, row.instance_id.raw@))
    &&& shows_row(v, row, ids, i, l, s.store.settings.auto_attach_rules@)
}

/// One pass of the device list: identities of devices no longer connected
/// are forgotten, the names Windows reports are remembered, and each row is
/// drawn with what the session then knows. Also says whether the file needs
/// writing.
pub fn device_views(snapshot: &Snapshot, session: &mut Session, ids: &UsbIds) -> (r: (Vec<DeviceView>, bool))
    ensures
        forall|k: Seq<char>| #[trigger] final(session).identity_on(k) == (if connected_ids_spec(snapshot.devices@).contains(k) {
            old(session).identity_on(k)
        } else {
            None
        }),
        (views(final(session).store.last_seen@), r.1) == with_names(views(old(session).store.last_seen@), names_seen_spec(snapshot.devices@)),
        final(session).store.settings == old(session).store.settings,
        final(session).writable == old(session).writable,
        forall|k: Seq<char>| #[trigger] final(session).port_on(k) == old(session).port_on(k),
        r.0@.len() == snapshot.devices@.len(),
        forall|k: int| 0 <= k < r.0@.len() ==> shown_in_session(#[trigger] r.0@[k], snapshot.devices@[k], *ids, *final(session)),
{
    let present = connected_ids(snapshot);
    session.forget_absent(&present);
    let seen = names_seen(snapshot);
    let changed = session.remember_names(&seen);
    let ghost s = *session;
    let rules = &session.store.settings.auto_attach_rules;
    let mut out: Vec<DeviceView> = Vec::new();
    let n = snapshot.devices.len();
    let mut i: usize = 0;
    while i < n
        invariant
            n == snapshot.devices@.len(),
            i <= n,
            s == *session,
            rules@ == s.store.settings.auto_attach_rules@,
            out@.len() == i,
            forall|k: int| 0 <= k < i ==> shown_in_session(#[trigger] out@[k], snapshot.devices@[k], *ids, s),
        decreases n - i,
    {
        let row = &snapshot.devices[i];
        let identity = identity_for(row, session.identity(row.instance_id.raw.as_str()));
        let last = match session.last_seen(row.instance_id.raw.as_str()) {
            Some(e) => LastKnown::from_seen(e),
            None => LastKnown::nothing(),
        };
        let ghost gi = identity;
        let ghost gl = last;
        let v = DeviceView::from_row(row, ids, identity, last, rules.as_slice());
        assert(shown_with(v, *row, *ids, gi, gl, s));
        out.push(v);
        i = i + 1;
    }
    (out, changed)
}

/// The stored settings as they are handed to the frontend at startup. The
/// `Run` entry is what Windows acts on, so it decides whether starting with
/// Windows shows as on, rather than what the file remembers.
pub fn stored_settings(session: &Session, startup_enabled: bool, path: String, log_path: String) -> (r: StoredSettings)
    ensures
        r.settings.auto_identify == session.store.settings.auto_identify,
        r.settings.auto_exclude@.map_values(|s: String| s@) == session.store.settings.auto_exclude@.map_values(
            |s: String| s@,
        ),
        r.settings.confirm_before_identify == session.store.settings.confirm_before_identify,
        r.settings.start_with_windows == startup_enabled,
        r.settings.auto_attach == session.store.settings.auto_attach,
        views_of_rules(r.settings.auto_attach_rules@) == views_of_rules(session.store.settings.auto_attach_rules@),
        r.settings.vhfilter_path@ == session.store.settings.vhfilter_path@,
        r.settings.told_about_tray == session.store.settings.told_about_tray,
        r.writable == session.writable,
        r.path == path,
        r.log_path == log_path,
        r.remembered == session.store.last_seen@.len(),
{
    let mut settings = SettingsView::from_settings(&session.store.settings);
    settings.start_with_windows = startup_enabled;
    StoredSettings {
        settings,
        writable: session.is_writable(),
        path,
        log_path,
        remembered: session.remembered_count(),
    }
}

} // verus!
