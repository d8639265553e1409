//! The settings file, as values.
//!
//! **No identity is stored as a fact.** What is stored is [`LastSeen`]: the
//! name and identification a device last had, as a reminder for the person
//! reading the list. Read back, it is marked as the past and is never a
//! candidate for a rule.
//!
//! Reading and writing the file, and its JSON, are the caller's business; what
//! is decided here is what the file holds and how it changes.
use vstd::prelude::*;

use crate::autoattach::{sanitise, sanitise_spec, views_of_rules, Rule};
use crate::text::{same_str, str_string};

verus! {

/// Bumped only alongside a migration.
pub const SCHEMA_VERSION: u32 = 1;

/// How many devices are remembered. Least recently seen dropped first.
pub const LAST_SEEN_LIMIT: usize = 200;

/// An identification as it is written down.
#[derive(Debug, Clone, PartialEq, Eq)]
pub struct SeenIdentity {
    pub identity_key: String,
    pub device_type: String,
    pub device_id: String,
    pub hardware_revision: Option<String>,
    /// Where the id came from. Absent in files written before it was recorded.
    pub id_source: Option<String>,
}

pub struct SeenIdentityView {
    pub identity_key: Seq<char>,
    pub device_type: Seq<char>,
    pub device_id: Seq<char>,
    pub hardware_revision: Option<Seq<char>>,
    pub id_source: Option<Seq<char>>,
}

pub open spec fn opt_chars(o: Option<String>) -> Option<Seq<char>> {
    match o {
        Some(s) => Some(s@),
        None => None,
    }
}

impl View for SeenIdentity {
    type V = SeenIdentityView;

    open spec fn view(&self) -> SeenIdentityView {
        SeenIdentityView {
            identity_key: self.identity_key@,
            device_type: self.device_type@,
            device_id: self.device_id@,
            hardware_revision: opt_chars(self.hardware_revision),
            id_source: opt_chars(self.id_source),
        }
    }
}

/// What a device looked like the last time anything could describe it.
#[derive(Debug, Clone, PartialEq, Eq)]
pub struct LastSeen {
    /// The device instance id it was seen on.
    pub instance_id: String,
    /// The name Windows reported while it could still see the device.
    pub name: Option<String>,
    pub identity: Option<SeenIdentity>,
    /// When the identity was read, as `2026-09-18 10:22:31`.
    pub identified_at: Option<String>,
}

pub struct LastSeenView {
    pub instance_id: Seq<char>,
    pub name: Option<Seq<char>>,
    pub identity: Option<SeenIdentityView>,
    pub identified_at: Option<Seq<char>>,
}

impl View for LastSeen {
    type V = LastSeenView;

    open spec fn view(&self) -> LastSeenView {
        LastSeenView {
            instance_id: self.instance_id@,
            name: opt_chars(self.name),
            identity: match self.identity {
                Some(i) => Some(i@),
                None => None,
            },
            identified_at: opt_chars(self.identified_at),
        }
    }
}

/// The settings the user chose.
#[derive(Debug, Clone)]
pub struct Settings {
    /// Identify a device as soon as it is plugged in.
    pub auto_identify: bool,
    /// `vid:pid` never probed automatically.
    pub auto_exclude: Vec<String>,
    /// Ask before probing, stating what it does to the board.
    pub confirm_before_identify: bool,
    /// Start with Windows, through the per-user `Run` key.
    pub start_with_windows: bool,
    /// Attach matching devices to WSL without being asked. Off by default.
    pub auto_attach: bool,
    /// What to attach automatically. An empty list attaches nothing.
    pub auto_attach_rules: Vec<Rule>,
    /// Where `vhfilter.exe` is, when it is not on the search path.
    pub vhfilter_path: String,
    /// Whether the user has been told that closing the window leaves the
    /// application running in the tray.
    pub told_about_tray: bool,
    /// The window's last size, restored on start.
    pub window_width: Option<u32>,
    pub window_height: Option<u32>,
}

impl Settings {
    /// Cleans the rule list, so it holds no blank and no repeat.
    pub fn sanitised(self) -> (r: Self)
        ensures
            views_of_rules(r.auto_attach_rules@) == sanitise_spec(views_of_rules(self.auto_attach_rules@)),
            r.auto_identify == self.auto_identify,
            r.auto_exclude == self.auto_exclude,
            r.confirm_before_identify == self.confirm_before_identify,
            r.start_with_windows == self.start_with_windows,
            r.auto_attach == self.auto_attach,
            r.vhfilter_path == self.vhfilter_path,
            r.told_about_tray == self.told_about_tray,
            r.window_width == self.window_width,
            r.window_height == self.window_height,
    {
        Settings {
            auto_identify: self.auto_identify,
            auto_exclude: self.auto_exclude,
            confirm_before_identify: self.confirm_before_identify,
            start_with_windows: self.start_with_windows,
            auto_attach: self.auto_attach,
            auto_attach_rules: sanitise(self.auto_attach_rules),
            vhfilter_path: self.vhfilter_path,
            told_about_tray: self.told_about_tray,
            window_width: self.window_width,
            window_height: self.window_height,
        }
    }
}

impl Default for Settings {
    /// Identification on, gated by confirmation; attaching off until asked.
    fn default() -> (r: Self)
        ensures
            r.auto_identify,
            r.auto_exclude@.len() == 0,
            r.confirm_before_identify,
            !r.start_with_windows,
            !r.auto_attach,
            r.auto_attach_rules@.len() == 0,
            r.vhfilter_path@.len() == 0,
            !r.told_about_tray,
            r.window_width.is_none(),
            r.window_height.is_none(),
    {
        Settings {
            auto_identify: true,
            auto_exclude: Vec::new(),
            confirm_before_identify: true,
            start_with_windows: false,
            auto_attach: false,
            auto_attach_rules: Vec::new(),
            vhfilter_path: String::new(),
            told_about_tray: false,
            window_width: None,
            window_height: None,
        }
    }
}

/// The file.
#[derive(Debug, Clone)]
pub struct Store {
    pub schema_version: u32,
    pub settings: Settings,
    /// What each device last looked like. Least recently seen first.
    pub last_seen: Vec<LastSeen>,
}

impl Default for Store {
    fn default() -> (r: Self)
        ensures
            r.schema_version == SCHEMA_VERSION,
            r.last_seen@.len() == 0,
            r.settings.auto_identify,
            r.settings.auto_exclude@.len() == 0,
            r.settings.confirm_before_identify,
            !r.settings.start_with_windows,
            !r.settings.auto_attach,
            r.settings.auto_attach_rules@.len() == 0,
            r.settings.vhfilter_path@.len() == 0,
            !r.settings.told_about_tray,
            r.settings.window_width.is_none(),
            r.settings.window_height.is_none(),
    {
        Store { schema_version: SCHEMA_VERSION, settings: Settings::default(), last_seen: Vec::new() }
    }
}

/// What came back from reading the file.
#[derive(Debug)]
pub enum Loaded {
    /// No file yet. Start empty; writing is safe.
    Fresh,
    /// Read successfully. Writing is safe.
    Read(Store),
    /// Left alone deliberately. **Do not write over it.**
    Refused { reason: String },
}

pub open spec fn views(s: Seq<LastSeen>) -> Seq<LastSeenView> {
    s.map_values(|e: LastSeen| e@)
}

/// The first entry on `id`.
pub open spec fn find_seen(v: Seq<LastSeenView>, id: Seq<char>) -> Option<int>
    decreases v.len(),
{
    if v.len() == 0 {
        None
    } else {
        match find_seen(v.drop_last(), id) {
            Some(k) => Some(k),
            None => if v.last().instance_id == id {
                Some(v.len() - 1)
            } else {
                None
            },
        }
    }
}

/// The entry on `id` moved to the most recent end, created if missing.
pub open spec fn touch(v: Seq<LastSeenView>, id: Seq<char>) -> Seq<LastSeenView> {
    match find_seen(v, id) {
        Some(k) => v.remove(k).push(v[k]),
        None => v.push(LastSeenView { instance_id: id, name: None, identity: None, identified_at: None }),
    }
}

/// The list cut to its most recent [`LAST_SEEN_LIMIT`] entries.
pub open spec fn capped(v: Seq<LastSeenView>) -> Seq<LastSeenView> {
    if v.len() > LAST_SEEN_LIMIT {
        v.skip(v.len() - LAST_SEEN_LIMIT)
    } else {
        v
    }
}

/// What recording a name does to the list, and whether it changed anything.
pub open spec fn with_name(v: Seq<LastSeenView>, id: Seq<char>, name: Seq<char>) -> (Seq<LastSeenView>, bool) {
    let t = touch(v, id);
    let e = t.last();
    if e.name == Some(name) {
        (t, false)
    } else {
        (capped(t.update(t.len() - 1, LastSeenView { name: Some(name), ..e })), true)
    }
}

/// What recording an identification does to the list.
pub open spec fn with_identity(
    v: Seq<LastSeenView>,
    id: Seq<char>,
    identity: SeenIdentityView,
    at: Seq<char>,
) -> (Seq<LastSeenView>, bool) {
    let t = touch(v, id);
    let e = t.last();
    if e.identity == Some(identity) {
        (t, false)
    } else {
        (
            capped(
                t.update(
                    t.len() - 1,
                    LastSeenView { identity: Some(identity), identified_at: Some(at), ..e },
                ),
            ),
            true,
        )
    }
}

/// No two entries are on the same instance id.
pub open spec fn ids_distinct(v: Seq<LastSeenView>) -> bool {
    forall|a: int, b: int| 0 <= a < b < v.len() ==> (#[trigger] v[a]).instance_id != (#[trigger] v[b]).instance_id
}

proof fn lemma_find_seen(v: Seq<LastSeenView>, id: Seq<char>)
    ensures
        match find_seen(v, id) {
            Some(k) => 0 <= k < v.len() && v[k].instance_id == id && forall|j: int|
                0 <= j < k ==> (#[trigger] v[j]).instance_id != id,
            None => forall|j: int| 0 <= j < v.len() ==> (#[trigger] v[j]).instance_id != id,
        },
    decreases v.len(),
{
    if v.len() > 0 {
        lemma_find_seen(v.drop_last(), id);
        assert forall|j: int| 0 <= j < v.len() - 1 implies #[trigger] v[j] == v.drop_last()[j] by {}
    }
}

proof fn lemma_touch(v: Seq<LastSeenView>, id: Seq<char>)
    requires
        ids_distinct(v),
    ensures
        ids_distinct(touch(v, id)),
        touch(v, id).len() > 0,
        touch(v, id).last().instance_id == id,
        forall|j: int| 0 <= j < touch(v, id).len() - 1 ==> (#[trigger] touch(v, id)[j]).instance_id != id,
{
    lemma_find_seen(v, id);
    let t = touch(v, id);
    match find_seen(v, id) {
        Some(k) => {
            let r = v.remove(k);
            assert forall|j: int| 0 <= j < r.len() implies #[trigger] r[j] == (if j < k { v[j] } else { v[j + 1] }) by {}
            assert forall|a: int, b: int| 0 <= a < b < t.len() implies (#[trigger] t[a]).instance_id != (#[trigger] t[b]).instance_id by {
                if b == t.len() - 1 {
                    let oa = if a < k { a } else { a + 1 };
                    assert(t[a] == v[oa]);
                } else {
                    assert(t[a] == r[a]);
                    assert(t[b] == r[b]);
                }
            }
            assert forall|j: int| 0 <= j < t.len() - 1 implies (#[trigger] t[j]).instance_id != id by {
                let oj = if j < k { j } else { j + 1 };
                assert(t[j] == v[oj]);
            }
        },
        None => {
            assert forall|a: int, b: int| 0 <= a < b < t.len() implies (#[trigger] t[a]).instance_id != (#[trigger] t[b]).instance_id by {
                if b == t.len() - 1 {
                    assert(t[a] == v[a]);
                } else {
                    assert(t[a] == v[a]);
                    assert(t[b] == v[b]);
                }
            }
            assert forall|j: int| 0 <= j < t.len() - 1 implies (#[trigger] t[j]).instance_id != id by {
                assert(t[j] == v[j]);
            }
        },
    }
}

proof fn lemma_capped_distinct(v: Seq<LastSeenView>)
    requires
        ids_distinct(v),
    ensures
        ids_distinct(capped(v)),
        capped(v).len() <= LAST_SEEN_LIMIT || capped(v) == v,
{
    let c = capped(v);
    if v.len() > LAST_SEEN_LIMIT {
        let d = v.len() - LAST_SEEN_LIMIT;
        assert forall|a: int, b: int| 0 <= a < b < c.len() implies (#[trigger] c[a]).instance_id != (#[trigger] c[b]).instance_id by {
            assert(c[a] == v[a + d]);
            assert(c[b] == v[b + d]);
        }
    }
}

/// Recording a name keeps the ids distinct.
pub proof fn remembering_a_name_keeps_ids_distinct(v: Seq<LastSeenView>, id: Seq<char>, name: Seq<char>)
    requires
        ids_distinct(v),
    ensures
        ids_distinct(with_name(v, id, name).0),
{
    lemma_touch(v, id);
    let t = touch(v, id);
    let u = t.update(t.len() - 1, LastSeenView { name: Some(name), ..t.last() });
    assert forall|a: int, b: int| 0 <= a < b < u.len() implies (#[trigger] u[a]).instance_id != (#[trigger] u[b]).instance_id by {
        assert(u[a].instance_id == t[a].instance_id);
        assert(u[b].instance_id == t[b].instance_id);
    }
    lemma_capped_distinct(u);
}

/// Recording an identification keeps the ids distinct.
pub proof fn remembering_an_identity_keeps_ids_distinct(
    v: Seq<LastSeenView>,
    id: Seq<char>,
    identity: SeenIdentityView,
    at: Seq<char>,
)
    requires
        ids_distinct(v),
    ensures
        ids_distinct(with_identity(v, id, identity, at).0),
{
    lemma_touch(v, id);
    let t = touch(v, id);
    let u = t.update(
        t.len() - 1,
        LastSeenView { identity: Some(identity), identified_at: Some(at), ..t.last() },
    );
    assert forall|a: int, b: int| 0 <= a < b < u.len() implies (#[trigger] u[a]).instance_id != (#[trigger] u[b]).instance_id by {
        assert(u[a].instance_id == t[a].instance_id);
        assert(u[b].instance_id == t[b].instance_id);
    }
    lemma_capped_distinct(u);
}

/// Touching an entry that is there moves it and adds nothing.
proof fn lemma_touch_len(v: Seq<LastSeenView>, id: Seq<char>)
    ensures
        find_seen(v, id) is Some ==> touch(v, id).len() == v.len(),
        find_seen(v, id) is None ==> touch(v, id).len() == v.len() + 1 && touch(v, id).last().name is None
            && touch(v, id).last().identity is None,
{
    lemma_find_seen(v, id);
}

/// Recording a name or an identification never grows the list past
/// [`LAST_SEEN_LIMIT`]: the least recently seen goes first.
pub proof fn the_remembered_list_stays_within_its_limit(
    v: Seq<LastSeenView>,
    id: Seq<char>,
    name: Seq<char>,
    identity: SeenIdentityView,
    at: Seq<char>,
)
    requires
        v.len() <= LAST_SEEN_LIMIT,
    ensures
        with_name(v, id, name).0.len() <= LAST_SEEN_LIMIT,
        with_identity(v, id, identity, at).0.len() <= LAST_SEEN_LIMIT,
{
    lemma_touch_len(v, id);
}

/// Offering a name the list already holds for the id asks for no write: the
/// same name arrives with every refresh, and only a change is worth writing.
pub proof fn an_unchanged_name_asks_for_no_write(v: Seq<LastSeenView>, id: Seq<char>, name: Seq<char>)
    requires
        find_seen(v, id) matches Some(k) && v[k].name == Some(name),
    ensures
        !with_name(v, id, name).1,
{
    lemma_find_seen(v, id);
}

/// Recording a name, then looking the id up, gives back that name: the
/// entry is the most recent, so the cap never drops it.
pub proof fn a_remembered_name_reads_back(v: Seq<LastSeenView>, id: Seq<char>, name: Seq<char>)
    requires
        ids_distinct(v),
    ensures
        find_seen(with_name(v, id, name).0, id) matches Some(k) && with_name(v, id, name).0[k].name == Some(name),
{
    lemma_touch(v, id);
    let t = touch(v, id);
    let r = with_name(v, id, name).0;
    remembering_a_name_keeps_ids_distinct(v, id, name);
    lemma_find_seen(r, id);
    if t.last().name == Some(name) {
        assert(r[r.len() - 1].instance_id == id);
    } else {
        let u = t.update(t.len() - 1, LastSeenView { name: Some(name), ..t.last() });
        if u.len() > LAST_SEEN_LIMIT {
            let d = u.len() - LAST_SEEN_LIMIT;
            assert(r[r.len() - 1] == u[u.len() - 1]);
        }
        assert(r[r.len() - 1].instance_id == id);
        assert(r[r.len() - 1].name == Some(name));
    }
    let k = find_seen(r, id).unwrap();
    if k != r.len() - 1 {
        assert(r[k].instance_id != r[r.len() - 1].instance_id);
    }
}

/// Recording an identification, then looking the id up, gives it back with
/// the time it was read.
pub proof fn a_remembered_identity_reads_back(
    v: Seq<LastSeenView>,
    id: Seq<char>,
    identity: SeenIdentityView,
    at: Seq<char>,
)
    requires
        ids_distinct(v),
    ensures
        find_seen(with_identity(v, id, identity, at).0, id) matches Some(k) && with_identity(
            v,
            id,
            identity,
            at,
        ).0[k].identity == Some(identity),
{
    lemma_touch(v, id);
    let t = touch(v, id);
    let r = with_identity(v, id, identity, at).0;
    let u = t.update(
        t.len() - 1,
        LastSeenView { identity: Some(identity), identified_at: Some(at), ..t.last() },
    );
    assert forall|a: int, b: int| 0 <= a < b < u.len() implies (#[trigger] u[a]).instance_id != (#[trigger] u[b]).instance_id by {
        assert(u[a].instance_id == t[a].instance_id);
        assert(u[b].instance_id == t[b].instance_id);
    }
    lemma_capped_distinct(u);
    lemma_find_seen(r, id);
    if t.last().identity != Some(identity) {
        if u.len() > LAST_SEEN_LIMIT {
            assert(r[r.len() - 1] == u[u.len() - 1]);
        }
    }
    assert(r[r.len() - 1].instance_id == id);
    let k = find_seen(r, id).unwrap();
    if k != r.len() - 1 {
        assert(r[k].instance_id != r[r.len() - 1].instance_id);
    }
}

fn same_opt(a: &Option<String>, b: &str) -> (r: bool)
    ensures
        r == (opt_chars(*a) == Some(b@)),
{
    match a {
        Some(s) => same_str(s.as_str(), b),
        None => false,
    }
}

fn same_opt_opt(a: &Option<String>, b: &Option<String>) -> (r: bool)
    ensures
        r == (opt_chars(*a) == opt_chars(*b)),
{
    match (a, b) {
        (Some(x), Some(y)) => same_str(x.as_str(), y.as_str()),
        (None, None) => true,
        _ => false,
    }
}

impl SeenIdentity {
    /// Whether two identifications say the same.
    pub fn same_as(&self, other: &SeenIdentity) -> (r: bool)
        ensures
            r == (self@ == other@),
    {
        same_str(self.identity_key.as_str(), other.identity_key.as_str())
            && same_str(self.device_type.as_str(), other.device_type.as_str())
            && same_str(self.device_id.as_str(), other.device_id.as_str())
            && same_opt_opt(&self.hardware_revision, &other.hardware_revision)
            && same_opt_opt(&self.id_source, &other.id_source)
    }
}

impl Store {
    /// The entry on an instance id, if there is one.
    pub fn last_seen(&self, instance_id: &str) -> (r: Option<&LastSeen>)
        ensures
            match find_seen(views(self.last_seen@), instance_id@) {
                Some(k) => r.is_some() && *r.unwrap() == self.last_seen@[k],
                None => r.is_none(),
            },
    {
        let ghost v = views(self.last_seen@);
        let n = self.last_seen.len();
        let mut i: usize = 0;
        proof {
            lemma_find_seen(v, instance_id@);
        }
        while i < n
            invariant
                n == self.last_seen@.len(),
                v == views(self.last_seen@),
                i <= n,
                forall|j: int| 0 <= j < i ==> (#[trigger] v[j]).instance_id != instance_id@,
                match find_seen(v, instance_id@) {
                    Some(k) => 0 <= k < v.len() && v[k].instance_id == instance_id@ && forall|j: int|
                        0 <= j < k ==> (#[trigger] v[j]).instance_id != instance_id@,
                    None => forall|j: int| 0 <= j < v.len() ==> (#[trigger] v[j]).instance_id != instance_id@,
                },
            decreases n - i,
        {
            if same_str(self.last_seen[i].instance_id.as_str(), instance_id) {
                assert(v[i as int].instance_id == instance_id@);
                return Some(&self.last_seen[i]);
            }
            assert(v[i as int].instance_id != instance_id@);
            i = i + 1;
        }
        None
    }

    /// Finds or creates the entry, moving it to the end so the list stays in
    /// least-recently-seen order.
    fn touch_entry(&mut self, instance_id: &str)
        ensures
            views(final(self).last_seen@) == touch(views(old(self).last_seen@), instance_id@),
            final(self).settings == old(self).settings,
            final(self).schema_version == old(self).schema_version,
    {
        let ghost v = views(self.last_seen@);
        proof {
            lemma_find_seen(v, instance_id@);
        }
        let n = self.last_seen.len();
        let mut i: usize = 0;
        while i < n
            invariant
                n == self.last_seen@.len(),
                v == views(self.last_seen@),
                i <= n,
                self.settings == old(self).settings,
                v == views(old(self).last_seen@),
                self.schema_version == old(self).schema_version,
                forall|j: int| 0 <= j < i ==> (#[trigger] v[j]).instance_id != instance_id@,
                match find_seen(v, instance_id@) {
                    Some(k) => 0 <= k < v.len() && v[k].instance_id == instance_id@ && forall|j: int|
                        0 <= j < k ==> (#[trigger] v[j]).instance_id != instance_id@,
                    None => forall|j: int| 0 <= j < v.len() ==> (#[trigger] v[j]).instance_id != instance_id@,
                },
            decreases n - i,
        {
            if same_str(self.last_seen[i].instance_id.as_str(), instance_id) {
                assert(v[i as int].instance_id == instance_id@);
                assert(find_seen(v, instance_id@) == Some(i as int));
                let ghost before = self.last_seen@;
                let moved = self.last_seen.remove(i);
                self.last_seen.push(moved);
                assert(views(self.last_seen@) =~= v.remove(i as int).push(v[i as int]));
                assert(touch(v, instance_id@) == v.remove(i as int).push(v[i as int]));
                assert(views(self.last_seen@) == touch(v, instance_id@));
                return;
            }
            i = i + 1;
        }
        assert(find_seen(v, instance_id@).is_none());
        self.last_seen.push(
            LastSeen { instance_id: str_string(instance_id), name: None, identity: None, identified_at: None },
        );
        assert(views(self.last_seen@) =~= touch(v, instance_id@));
    }

    /// Records the name a device is going by, returning whether that changed
    /// anything. The caller writes the file only when it did.
    pub fn remember_name(&mut self, instance_id: &str, name: &str) -> (r: bool)
        ensures
            (views(final(self).last_seen@), r) == with_name(views(old(self).last_seen@), instance_id@, name@),
            final(self).settings == old(self).settings,
            final(self).schema_version == old(self).schema_version,
    {
        self.touch_entry(instance_id);
        let ghost t = views(self.last_seen@);
        let mut entry = self.last_seen.pop().unwrap();
        if same_opt(&entry.name, name) {
            self.last_seen.push(entry);
            assert(views(self.last_seen@) =~= t);
            return false;
        }
        entry.name = Some(str_string(name));
        self.last_seen.push(entry);
        assert(views(self.last_seen@) =~= t.update(t.len() - 1, LastSeenView { name: Some(name@), ..t.last() }));
        self.cap();
        true
    }

    /// Records what a probe found, with the time it found it.
    pub fn remember_identity(&mut self, instance_id: &str, identity: SeenIdentity, at: String) -> (r: bool)
        ensures
            (views(final(self).last_seen@), r) == with_identity(views(old(self).last_seen@), instance_id@, identity@, at@),
            final(self).settings == old(self).settings,
            final(self).schema_version == old(self).schema_version,
    {
        self.touch_entry(instance_id);
        let ghost t = views(self.last_seen@);
        let mut entry = self.last_seen.pop().unwrap();
        let same = match &entry.identity {
            Some(i) => i.same_as(&identity),
            None => false,
        };
        if same {
            self.last_seen.push(entry);
            assert(views(self.last_seen@) =~= t);
            return false;
        }
        let ghost iv = identity@;
        entry.identity = Some(identity);
        entry.identified_at = Some(at);
        self.last_seen.push(entry);
        assert(views(self.last_seen@) =~= t.update(
            t.len() - 1,
            LastSeenView { identity: Some(iv), identified_at: Some(at@), ..t.last() },
        ));
        self.cap();
        true
    }

    /// Drops every remembered device, returning how many there were. The
    /// settings are left alone.
    pub fn forget_everything_seen(&mut self) -> (r: usize)
        ensures
            r == old(self).last_seen@.len(),
            final(self).last_seen@.len() == 0,
            final(self).settings == old(self).settings,
            final(self).schema_version == old(self).schema_version,
    {
        let dropped = self.last_seen.len();
        self.last_seen.clear();
        dropped
    }

    /// Enforces [`LAST_SEEN_LIMIT`], dropping the least recently seen.
    pub fn cap(&mut self)
        ensures
            views(final(self).last_seen@) == capped(views(old(self).last_seen@)),
            final(self).last_seen@ == (if old(self).last_seen@.len() > LAST_SEEN_LIMIT {
                old(self).last_seen@.skip(old(self).last_seen@.len() - LAST_SEEN_LIMIT)
            } else {
                old(self).last_seen@
            }),
            final(self).last_seen@.len() <= LAST_SEEN_LIMIT,
            final(self).settings == old(self).settings,
            final(self).schema_version == old(self).schema_version,
    {
        let n = self.last_seen.len();
        if n > LAST_SEEN_LIMIT {
            let excess = n - LAST_SEEN_LIMIT;
            let ghost start = self.last_seen@;
            let mut k: usize = 0;
            while k < excess
                invariant
                    excess == n - LAST_SEEN_LIMIT,
                    n == start.len(),
                    k <= excess,
                    self.last_seen@ == start.skip(k as int),
                    self.settings == old(self).settings,
                    self.schema_version == old(self).schema_version,
                decreases excess - k,
            {
                self.last_seen.remove(0);
                assert(self.last_seen@ =~= start.skip(k as int + 1));
                k = k + 1;
            }
            assert(views(self.last_seen@) =~= capped(views(start)));
        }
    }
}

/// Whether a file of this schema may be read: a newer one is refused rather
/// than parsed, since writing over it would throw away what it holds.
pub fn readable_schema(version: u32) -> (r: bool)
    ensures
        r == (version <= SCHEMA_VERSION),
{
    version <= SCHEMA_VERSION
}

/// A store read from the file, capped on the way in so a file edited by hand
/// cannot grow without bound.
pub fn admitted(store: Store) -> (r: Loaded)
    ensures
        r matches Loaded::Read(s) && views(s.last_seen@) == capped(views(store.last_seen@))
            && s.settings == store.settings && s.schema_version == store.schema_version,
{
    let mut s = store;
    s.cap();
    Loaded::Read(s)
}

} // verus!
