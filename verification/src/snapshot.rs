//! One moment in time: the Windows enumeration joined with `usbipd state`.
//!
//! The join key is the Device Instance ID and nothing else. Bus IDs are never
//! used for it.
use vstd::prelude::*;

use crate::hub::HubPort;
use crate::instance_id::InstanceId;
use crate::text::{
    chars_of, compare_chars, lemma_seq_lt_asymmetric, lemma_seq_lt_irreflexive,
    lemma_seq_lt_total, lemma_seq_lt_transitive, lower_seq, lower_vec, parse_dec_u32,
    parse_dec_u32_vec, same_chars, seq_lt, split_once, split_once_vec, string_of, copy_opt_string,
    to_lowercase, unicode_lowercase,
};
use crate::usbipd::{SharingState, UsbipdDevice};
use crate::windevice::{display_name_spec, strip_com_suffix, strip_com_suffix_spec, WinUsbDevice};

verus! {

/// What the identity currently rests on.
#[derive(Debug, Clone, PartialEq, Eq)]
pub enum IdentityBasis {
    /// A USB serial pins down the transport. No probe needed.
    UsbSerial(String),
    /// No serial, so the port is the only handle there is. Identifying the
    /// unit itself requires a probe.
    PortOnly,
}

impl IdentityBasis {
    /// The serial this basis rests on, if any.
    pub open spec fn serial_spec(&self) -> Option<Seq<char>> {
        match self {
            IdentityBasis::UsbSerial(s) => Some(s@),
            IdentityBasis::PortOnly => None,
        }
    }

    pub open spec fn label_spec(&self) -> Seq<char> {
        match self {
            IdentityBasis::UsbSerial(_) => "serial"@,
            IdentityBasis::PortOnly => "port only"@,
        }
    }

    /// The basis an instance ID offers: its serial when it has one.
    pub fn from_instance_id(id: &InstanceId) -> (r: Self)
        ensures
            r.serial_spec() == id.unit@.serial(),
    {
        match id.unit.serial() {
            Some(serial) => IdentityBasis::UsbSerial(serial.to_owned()),
            None => IdentityBasis::PortOnly,
        }
    }

    pub fn label(&self) -> (r: &'static str)
        ensures
            r@ == self.label_spec(),
    {
        match self {
            IdentityBasis::UsbSerial(_) => "serial",
            IdentityBasis::PortOnly => "port only",
        }
    }

    pub fn needs_probe(&self) -> (r: bool)
        ensures
            r == (self is PortOnly),
    {
        match self {
            IdentityBasis::UsbSerial(_) => false,
            IdentityBasis::PortOnly => true,
        }
    }
}

/// One device, with whatever each side knows about it.
#[derive(Debug, Clone)]
pub struct DeviceRow {
    pub instance_id: InstanceId,
    pub name: String,
    /// The node Windows currently exposes. `None` while attached or absent.
    pub windows: Option<WinUsbDevice>,
    pub usbipd: Option<UsbipdDevice>,
    /// The VBoxUSB stub node Windows exposes while the device is attached.
    pub stub: Option<WinUsbDevice>,
    pub identity_basis: IdentityBasis,
}

impl DeviceRow {
    pub open spec fn bus_id_spec(&self) -> Option<Seq<char>> {
        match self.usbipd {
            Some(d) => match d.bus_id {
                Some(b) => Some(b@),
                None => None,
            },
            None => None,
        }
    }

    pub open spec fn com_port_spec(&self) -> Option<Seq<char>> {
        match self.windows {
            Some(w) => match w.com_port {
                Some(c) => Some(c@),
                None => None,
            },
            None => None,
        }
    }

    /// Whichever node currently occupies the device's port: its own node, or
    /// the stub Windows puts in its place while it is attached.
    pub open spec fn port_node_spec(&self) -> Option<WinUsbDevice> {
        if self.windows.is_some() {
            self.windows
        } else {
            self.stub
        }
    }

    pub open spec fn parent_spec(&self) -> Option<Seq<char>> {
        match self.port_node_spec() {
            Some(n) => match n.parent_instance_id {
                Some(p) => Some(p@),
                None => None,
            },
            None => None,
        }
    }

    pub open spec fn location_spec(&self) -> Option<Seq<char>> {
        match self.windows {
            Some(w) => if w.location_paths@.len() > 0 {
                Some(w.location_paths@[0]@)
            } else {
                None
            },
            None => None,
        }
    }

    /// Whether usbipd reports the device as connected.
    pub open spec fn is_connected_row(&self) -> bool {
        self.usbipd.is_some() && self.usbipd.unwrap().connected()
    }

    pub fn sharing_state(&self) -> (r: SharingState)
        ensures
            r == (match self.usbipd {
                Some(d) => d.state(),
                None => SharingState::NotShared,
            }),
    {
        match &self.usbipd {
            Some(d) => d.sharing_state(),
            // Something usbipd does not track, such as a hub or a child node
            // of a composite device.
            None => SharingState::NotShared,
        }
    }

    pub fn bus_id(&self) -> (r: Option<&str>)
        ensures
            r.is_some() == self.bus_id_spec().is_some(),
            r.is_some() ==> r.unwrap()@ == self.bus_id_spec().unwrap(),
    {
        match &self.usbipd {
            Some(d) => match &d.bus_id {
                Some(b) => Some(b.as_str()),
                None => None,
            },
            None => None,
        }
    }

    pub fn com_port(&self) -> (r: Option<&str>)
        ensures
            r.is_some() == self.com_port_spec().is_some(),
            r.is_some() ==> r.unwrap()@ == self.com_port_spec().unwrap(),
    {
        match &self.windows {
            Some(w) => match &w.com_port {
                Some(c) => Some(c.as_str()),
                None => None,
            },
            None => None,
        }
    }

    /// Whichever node currently occupies the device's port.
    fn port_node(&self) -> (r: Option<&WinUsbDevice>)
        ensures
            r.is_some() == self.port_node_spec().is_some(),
            r.is_some() ==> *r.unwrap() == self.port_node_spec().unwrap(),
    {
        match &self.windows {
            Some(w) => Some(w),
            None => match &self.stub {
                Some(s) => Some(s),
                None => None,
            },
        }
    }

    /// The node this device hangs off, taken from the device tree. The stub
    /// stands in while the device is attached, being on the same socket.
    pub fn parent_instance_id(&self) -> (r: Option<&str>)
        ensures
            r.is_some() == self.parent_spec().is_some(),
            r.is_some() ==> r.unwrap()@ == self.parent_spec().unwrap(),
    {
        match self.port_node() {
            Some(n) => match &n.parent_instance_id {
                Some(p) => Some(p.as_str()),
                None => None,
            },
            None => None,
        }
    }

    /// The port number on the parent, from the same node.
    pub fn port_address(&self) -> (r: Option<u32>)
        ensures
            r == (match self.port_node_spec() {
                Some(n) => n.address,
                None => None,
            }),
    {
        match self.port_node() {
            Some(n) => n.address,
            None => None,
        }
    }

    pub fn location_path(&self) -> (r: Option<&str>)
        ensures
            r.is_some() == self.location_spec().is_some(),
            r.is_some() ==> r.unwrap()@ == self.location_spec().unwrap(),
    {
        match &self.windows {
            Some(w) => if w.location_paths.len() > 0 {
                Some(w.location_paths[0].as_str())
            } else {
                None
            },
            None => None,
        }
    }
}

/// One hub, with what it says about its own ports.
#[derive(Debug, Clone)]
pub struct HubNode {
    pub instance_id: String,
    pub name: String,
    /// The hub's own position, for placing it in the tree.
    pub location_path: Option<String>,
    /// The node this hub hangs off, and the port number on it.
    pub parent_instance_id: Option<String>,
    pub address: Option<u32>,
    /// `1a86:8094`. Absent on a root hub.
    pub vid_pid: Option<String>,
    pub manufacturer: Option<String>,
    pub driver_version: Option<String>,
    pub ports: Vec<HubPort>,
}

/// The device list at one point in time.
#[derive(Debug, Clone)]
pub struct Snapshot {
    /// Devices usbipd deals with.
    pub devices: Vec<DeviceRow>,
    /// Nodes Windows exposes but usbipd does not list: hubs, interface nodes of
    /// composite devices, and stubs of attached devices.
    pub other_nodes: Vec<WinUsbDevice>,
    /// Every hub, root or otherwise. Empty unless read from a real machine.
    pub hubs: Vec<HubNode>,
}

/// One part of a bus id as a number, or last place when it is not one.
pub open spec fn order_part(s: Seq<char>) -> u32 {
    match parse_dec_u32(s) {
        Some(v) => v,
        None => u32::MAX,
    }
}

/// Sort key for a bus id such as `8-1`: the parts compared as numbers, so
/// `8-10` follows `8-9`. An unparseable or absent bus id sorts last.
pub open spec fn bus_id_order_spec(bus_id: Option<Seq<char>>) -> (u32, u32) {
    match bus_id {
        None => (u32::MAX, u32::MAX),
        Some(b) => match split_once(b, '-') {
            Some((hub, port)) => (order_part(hub), order_part(port)),
            None => (order_part(b), u32::MAX),
        },
    }
}

fn order_part_of(s: &Vec<char>) -> (r: u32)
    ensures
        r == order_part(s@),
{
    match parse_dec_u32_vec(s) {
        Some(v) => v,
        None => u32::MAX,
    }
}

/// Sort key for a bus id such as `8-1`.
pub fn bus_id_order(bus_id: Option<&str>) -> (r: (u32, u32))
    ensures
        r == bus_id_order_spec(match bus_id {
            Some(b) => Some(b@),
            None => None,
        }),
{
    match bus_id {
        None => (u32::MAX, u32::MAX),
        Some(b) => {
            let chars = chars_of(b);
            match split_once_vec(&chars, '-') {
                Some((hub, port)) => (order_part_of(&hub), order_part_of(&port)),
                None => {
                    proof {
                        assert(parse_dec_u32(Seq::<char>::empty()).is_none());
                    }
                    (order_part_of(&chars), u32::MAX)
                },
            }
        },
    }
}

// ---------------------------------------------------------------------------
// The join
// ---------------------------------------------------------------------------

/// The key two nodes are joined by: the instance id in ASCII lower case.
pub open spec fn node_key(d: WinUsbDevice) -> Seq<char> {
    lower_seq(d.instance_id.raw@)
}

/// The nodes that enter the pool: of several with one key, the last.
pub open spec fn initial_pool(ws: Seq<WinUsbDevice>) -> Seq<bool> {
    Seq::new(
        ws.len(),
        |i: int| forall|j: int| i < j < ws.len() ==> node_key(#[trigger] ws[j]) != node_key(ws[i]),
    )
}

/// The first node at or after `i` still in the pool whose key is `key`.
pub open spec fn find_in_pool(ws: Seq<WinUsbDevice>, pool: Seq<bool>, key: Seq<char>, i: int) -> Option<
    int,
>
    decreases ws.len() - i,
{
    if 0 <= i < ws.len() {
        if pool[i] && node_key(ws[i]) == key {
            Some(i)
        } else {
            find_in_pool(ws, pool, key, i + 1)
        }
    } else {
        None
    }
}

/// Takes the node with `key` out of the pool, if it is there.
pub open spec fn take_from_pool(ws: Seq<WinUsbDevice>, pool: Seq<bool>, key: Seq<char>) -> (
    Option<int>,
    Seq<bool>,
) {
    match find_in_pool(ws, pool, key, 0) {
        Some(i) => (Some(i), pool.update(i, false)),
        None => (None, pool),
    }
}

/// What one usbipd entry claims: its own node, then its stub's node.
pub open spec fn claim_entry(ws: Seq<WinUsbDevice>, pool: Seq<bool>, e: UsbipdDevice) -> (
    Option<int>,
    Option<int>,
    Seq<bool>,
) {
    let own = take_from_pool(ws, pool, lower_seq(e.instance_id@));
    match e.stub_instance_id {
        Some(s) => {
            let st = take_from_pool(ws, own.1, lower_seq(s@));
            (own.0, st.0, st.1)
        },
        None => (own.0, None, own.1),
    }
}

/// The pool once the first `k` entries have claimed their nodes.
pub open spec fn pool_after(ws: Seq<WinUsbDevice>, us: Seq<UsbipdDevice>, k: int) -> Seq<bool>
    decreases k,
{
    if k <= 0 {
        initial_pool(ws)
    } else {
        claim_entry(ws, pool_after(ws, us, k - 1), us[k - 1]).2
    }
}

pub open spec fn node_at(ws: Seq<WinUsbDevice>, i: Option<int>) -> Option<WinUsbDevice> {
    match i {
        Some(j) => Some(ws[j]),
        None => None,
    }
}

/// Whether `r` is the row the `k`-th usbipd entry makes.
///
/// While attached there is no Windows node to read a name from, so usbipd's
/// cached description stands in, without its port suffix.
pub open spec fn row_built(r: DeviceRow, ws: Seq<WinUsbDevice>, us: Seq<UsbipdDevice>, k: int) -> bool {
    let c = claim_entry(ws, pool_after(ws, us, k), us[k]);
    &&& r.instance_id.parsed_from(us[k].instance_id@)
    &&& r.usbipd == Some(us[k])
    &&& r.windows == node_at(ws, c.0)
    &&& r.stub == node_at(ws, c.1)
    &&& r.name@ == (match c.0 {
        Some(i) => display_name_spec(ws[i]),
        None => strip_com_suffix_spec(us[k].description@),
    })
    &&& r.identity_basis.serial_spec() == r.instance_id.unit@.serial()
}

/// Rows sort connected first, then by bus id, then by name, then by id.
pub open spec fn row_key(r: DeviceRow) -> (bool, u32, u32, Seq<char>, Seq<char>) {
    let o = bus_id_order_spec(r.bus_id_spec());
    (!r.is_connected_row(), o.0, o.1, unicode_lowercase(r.name@), r.instance_id.raw@)
}

/// Lexicographic order on row keys.
pub open spec fn key_lt(
    a: (bool, u32, u32, Seq<char>, Seq<char>),
    b: (bool, u32, u32, Seq<char>, Seq<char>),
) -> bool {
    if a.0 != b.0 {
        !a.0 && b.0
    } else if a.1 != b.1 {
        a.1 < b.1
    } else if a.2 != b.2 {
        a.2 < b.2
    } else if a.3 != b.3 {
        seq_lt(a.3, b.3)
    } else {
        seq_lt(a.4, b.4)
    }
}

pub proof fn lemma_key_lt_order(
    a: (bool, u32, u32, Seq<char>, Seq<char>),
    b: (bool, u32, u32, Seq<char>, Seq<char>),
    c: (bool, u32, u32, Seq<char>, Seq<char>),
)
    ensures
        !key_lt(a, a),
        key_lt(a, b) && key_lt(b, c) ==> key_lt(a, c),
        key_lt(a, b) || key_lt(b, a) || a == b,
        !(key_lt(a, b) && key_lt(b, a)),
{
    lemma_seq_lt_irreflexive(a.3);
    lemma_seq_lt_irreflexive(a.4);
    lemma_seq_lt_total(a.3, b.3);
    lemma_seq_lt_total(a.4, b.4);
    lemma_seq_lt_asymmetric(a.3, b.3);
    lemma_seq_lt_asymmetric(a.4, b.4);
    if key_lt(a, b) && key_lt(b, c) {
        if a.3 != b.3 && b.3 != c.3 && seq_lt(a.3, b.3) && seq_lt(b.3, c.3) {
            lemma_seq_lt_transitive(a.3, b.3, c.3);
        }
        if seq_lt(a.3, b.3) && seq_lt(b.3, c.3) {
            lemma_seq_lt_transitive(a.3, b.3, c.3);
        }
        if seq_lt(a.4, b.4) && seq_lt(b.4, c.4) {
            lemma_seq_lt_transitive(a.4, b.4, c.4);
        }
        if a.3 == c.3 && seq_lt(a.3, b.3) && seq_lt(b.3, c.3) {
            lemma_seq_lt_transitive(a.3, b.3, c.3);
            lemma_seq_lt_irreflexive(a.3);
        }
    }
}

pub open spec fn keys_sorted(ks: Seq<(bool, u32, u32, Seq<char>, Seq<char>)>) -> bool {
    forall|a: int, b: int| 0 <= a < b < ks.len() ==> !key_lt(#[trigger] ks[b], #[trigger] ks[a])
}

/// Ties keep the order they came in.
pub open spec fn keys_stable(ks: Seq<(bool, u32, u32, Seq<char>, Seq<char>)>, p: Seq<int>) -> bool {
    forall|a: int, b: int|
        0 <= a < b < ks.len() && !key_lt(#[trigger] ks[a], #[trigger] ks[b]) ==> p[a] < p[b]
}

/// `p` sends each position to a distinct one below `n`.
pub open spec fn distinct_below(p: Seq<int>, n: int) -> bool {
    &&& forall|a: int| 0 <= a < p.len() ==> 0 <= #[trigger] p[a] < n
    &&& forall|a: int, b: int| 0 <= a < b < p.len() ==> #[trigger] p[a] != #[trigger] p[b]
}

/// `out` is `input` sorted by row key, ties in input order; `p` says where
/// each row came from.
pub open spec fn sorted_from(out: Seq<DeviceRow>, input: Seq<DeviceRow>, p: Seq<int>) -> bool {
    &&& out.len() == input.len()
    &&& p.len() == out.len()
    &&& distinct_below(p, input.len() as int)
    &&& forall|k: int| 0 <= k < out.len() ==> #[trigger] out[k] == input[p[k]]
    &&& keys_sorted(out.map_values(|r: DeviceRow| row_key(r)))
    &&& keys_stable(out.map_values(|r: DeviceRow| row_key(r)), p)
}

/// The rows of a join: one per usbipd entry, sorted and stable.
pub open spec fn arranged(
    rows: Seq<DeviceRow>,
    ws: Seq<WinUsbDevice>,
    us: Seq<UsbipdDevice>,
    p: Seq<int>,
) -> bool {
    &&& rows.len() == us.len()
    &&& p.len() == rows.len()
    &&& distinct_below(p, us.len() as int)
    &&& forall|k: int| 0 <= k < rows.len() ==> row_built(#[trigger] rows[k], ws, us, p[k])
    &&& keys_sorted(rows.map_values(|r: DeviceRow| row_key(r)))
    &&& keys_stable(rows.map_values(|r: DeviceRow| row_key(r)), p)
}

/// Whether `d` is one of the nodes in the pool.
pub open spec fn in_pool(d: WinUsbDevice, ws: Seq<WinUsbDevice>, pool: Seq<bool>) -> bool {
    exists|i: int| #![trigger ws[i]] 0 <= i < ws.len() && pool[i] && d == ws[i]
}

/// Whether `d` is one of `out`.
pub open spec fn listed(d: WinUsbDevice, out: Seq<WinUsbDevice>) -> bool {
    exists|k: int| #![trigger out[k]] 0 <= k < out.len() && out[k] == d
}

/// The nodes left over: exactly those still in the pool, strictly ordered
/// by instance id.
pub open spec fn remaining(out: Seq<WinUsbDevice>, ws: Seq<WinUsbDevice>, pool: Seq<bool>) -> bool {
    &&& forall|k: int| 0 <= k < out.len() ==> in_pool(#[trigger] out[k], ws, pool)
    &&& forall|i: int| 0 <= i < ws.len() && pool[i] ==> listed(#[trigger] ws[i], out)
    &&& forall|a: int, b: int|
        0 <= a < b < out.len() ==> seq_lt(
            (#[trigger] out[a]).instance_id.raw@,
            (#[trigger] out[b]).instance_id.raw@,
        )
}

proof fn lemma_insert_sorted(
    ks: Seq<(bool, u32, u32, Seq<char>, Seq<char>)>,
    p: Seq<int>,
    j: int,
    key: (bool, u32, u32, Seq<char>, Seq<char>),
    n: int,
)
    requires
        ks.len() == p.len() == n,
        0 <= j <= n,
        keys_sorted(ks),
        keys_stable(ks, p),
        distinct_below(p, n),
        forall|a: int| 0 <= a < j ==> !key_lt(key, #[trigger] ks[a]),
        forall|a: int| j <= a < n ==> key_lt(key, #[trigger] ks[a]),
    ensures
        keys_sorted(ks.insert(j, key)),
        keys_stable(ks.insert(j, key), p.insert(j, n)),
        distinct_below(p.insert(j, n), n + 1),
{
    let ks2 = ks.insert(j, key);
    let p2 = p.insert(j, n);
    assert forall|a: int, b: int| 0 <= a < b < ks2.len() implies !key_lt(
        #[trigger] ks2[b],
        #[trigger] ks2[a],
    ) by {
        if a == j {
            lemma_key_lt_order(key, ks[b - 1], key);
        } else if b == j {
        } else {
            let oa = if a < j { a } else { a - 1 };
            let ob = if b < j { b } else { b - 1 };
            assert(ks2[a] == ks[oa]);
            assert(ks2[b] == ks[ob]);
        }
    }
    assert forall|a: int, b: int|
        0 <= a < b < ks2.len() && !key_lt(#[trigger] ks2[a], #[trigger] ks2[b]) implies p2[a]
        < p2[b] by {
        if a == j {
        } else if b == j {
            assert(p2[a] == p[a]);
        } else {
            let oa = if a < j { a } else { a - 1 };
            let ob = if b < j { b } else { b - 1 };
            assert(ks2[a] == ks[oa]);
            assert(ks2[b] == ks[ob]);
            assert(p2[a] == p[oa]);
            assert(p2[b] == p[ob]);
        }
    }
    assert forall|a: int| 0 <= a < p2.len() implies 0 <= #[trigger] p2[a] < n + 1 by {
        if a < j {
            assert(p2[a] == p[a]);
        } else if a > j {
            assert(p2[a] == p[a - 1]);
        }
    }
    assert forall|a: int, b: int| 0 <= a < b < p2.len() implies #[trigger] p2[a] != #[trigger] p2[b] by {
        let oa = if a < j { a } else { a - 1 };
        let ob = if b < j { b } else { b - 1 };
        if a != j {
            assert(p2[a] == p[oa]);
        }
        if b != j {
            assert(p2[b] == p[ob]);
        }
    }
}

/// A row's sort key, computed once.
struct SortKey {
    absent: bool,
    hub: u32,
    port: u32,
    name: Vec<char>,
    raw: Vec<char>,
}

impl SortKey {
    spec fn key(&self) -> (bool, u32, u32, Seq<char>, Seq<char>) {
        (self.absent, self.hub, self.port, self.name@, self.raw@)
    }
}

fn key_less(a: &SortKey, b: &SortKey) -> (r: bool)
    ensures
        r == key_lt(a.key(), b.key()),
{
    if a.absent != b.absent {
        !a.absent && b.absent
    } else if a.hub != b.hub {
        a.hub < b.hub
    } else if a.port != b.port {
        a.port < b.port
    } else {
        let c = compare_chars(&a.name, &b.name);
        if c != 0 {
            c == -1
        } else {
            compare_chars(&a.raw, &b.raw) == -1
        }
    }
}

fn sort_key_of(row: &DeviceRow) -> (k: SortKey)
    ensures
        k.key() == row_key(*row),
{
    let absent = match &row.usbipd {
        Some(d) => !d.is_connected(),
        None => true,
    };
    let (hub, port) = bus_id_order(row.bus_id());
    let lowered = to_lowercase(row.name.as_str());
    SortKey {
        absent,
        hub,
        port,
        name: chars_of(lowered.as_str()),
        raw: chars_of(row.instance_id.raw.as_str()),
    }
}

/// Sorts rows by their key, keeping ties in the order they came in.
fn sort_rows(rows: Vec<DeviceRow>) -> (r: Vec<DeviceRow>)
    ensures
        exists|p: Seq<int>| sorted_from(r@, rows@, p),
{
    let ghost input = rows@;
    let n = rows.len();
    let mut rest = rows;
    let mut out: Vec<DeviceRow> = Vec::new();
    let mut keys: Vec<SortKey> = Vec::new();
    let ghost mut p: Seq<int> = Seq::empty();
    let mut k: usize = 0;
    while k < n
        invariant
            n == input.len(),
            k <= n,
            rest@ == input.skip(k as int),
            out@.len() == k,
            keys@.len() == k,
            p.len() == k,
            forall|a: int| 0 <= a < k ==> (#[trigger] keys@[a]).key() == row_key(out@[a]),
            forall|a: int| 0 <= a < k ==> #[trigger] out@[a] == input[p[a]],
            distinct_below(p, k as int),
            keys_sorted(out@.map_values(|r: DeviceRow| row_key(r))),
            keys_stable(out@.map_values(|r: DeviceRow| row_key(r)), p),
        decreases n - k,
    {
        assert(rest@[0] == input[k as int]);
        let row = rest.remove(0);
        assert(rest@ =~= input.skip(k as int + 1));
        let key = sort_key_of(&row);
        let ghost ks = out@.map_values(|r: DeviceRow| row_key(r));
        let mut j: usize = 0;
        while j < k && !key_less(&key, &keys[j])
            invariant
                j <= k,
                k == keys@.len(),
                forall|a: int| 0 <= a < k ==> (#[trigger] keys@[a]).key() == ks[a],
                ks.len() == k,
                forall|a: int| 0 <= a < j ==> !key_lt(key.key(), #[trigger] ks[a]),
            decreases k - j,
        {
            j = j + 1;
        }
        proof {
            assert forall|a: int| j <= a < k implies key_lt(key.key(), #[trigger] ks[a]) by {
                assert(key_lt(key.key(), ks[j as int]));
                if a > j {
                    assert(!key_lt(ks[a], ks[j as int]));
                    lemma_key_lt_order(key.key(), ks[j as int], ks[a]);
                    lemma_key_lt_order(ks[j as int], ks[a], ks[a]);
                }
            }
            lemma_insert_sorted(ks, p, j as int, key.key(), k as int);
        }
        out.insert(j, row);
        keys.insert(j, key);
        proof {
            p = p.insert(j as int, k as int);
            assert(out@.map_values(|r: DeviceRow| row_key(r)) =~= ks.insert(j as int, key.key()));
            assert forall|a: int| 0 <= a < k + 1 implies #[trigger] out@[a] == input[p[a]] by {
                if a == j {
                } else if a < j {
                } else {
                }
            }
        }
        k = k + 1;
    }
    assert(sorted_from(out@, input, p));
    out
}

/// The pool as it stands: a node while it is in the pool, nothing once
/// claimed or shadowed.
pub open spec fn pool_holds(pool: Seq<Option<WinUsbDevice>>, ws: Seq<WinUsbDevice>, alive: Seq<bool>) -> bool {
    &&& pool.len() == ws.len()
    &&& alive.len() == ws.len()
    &&& forall|i: int|
        0 <= i < ws.len() ==> #[trigger] pool[i] == (if alive[i] {
            Some(ws[i])
        } else {
            None
        })
}

/// No two nodes in the pool share a key.
pub open spec fn pool_distinct(ws: Seq<WinUsbDevice>, alive: Seq<bool>) -> bool {
    forall|i: int, j: int|
        0 <= i < j < ws.len() && #[trigger] alive[i] && #[trigger] alive[j] ==> node_key(ws[i])
            != node_key(ws[j])
}

pub open spec fn keys_of(keys: Seq<Vec<char>>, ws: Seq<WinUsbDevice>) -> bool {
    &&& keys.len() == ws.len()
    &&& forall|i: int| 0 <= i < ws.len() ==> (#[trigger] keys[i])@ == node_key(ws[i])
}

proof fn lemma_find_in_pool(ws: Seq<WinUsbDevice>, pool: Seq<bool>, key: Seq<char>, i: int)
    requires
        0 <= i,
    ensures
        find_in_pool(ws, pool, key, i) matches Some(j) ==> i <= j < ws.len() && pool[j]
            && node_key(ws[j]) == key,
    decreases ws.len() - i,
{
    if 0 <= i < ws.len() {
        lemma_find_in_pool(ws, pool, key, i + 1);
    }
}

proof fn lemma_take_keeps_distinct(ws: Seq<WinUsbDevice>, pool: Seq<bool>, key: Seq<char>)
    requires
        pool.len() == ws.len(),
        pool_distinct(ws, pool),
    ensures
        take_from_pool(ws, pool, key).1.len() == ws.len(),
        pool_distinct(ws, take_from_pool(ws, pool, key).1),
        forall|i: int|
            0 <= i < ws.len() && #[trigger] take_from_pool(ws, pool, key).1[i] ==> pool[i],
{
    lemma_find_in_pool(ws, pool, key, 0);
}

proof fn lemma_pool_after(ws: Seq<WinUsbDevice>, us: Seq<UsbipdDevice>, k: int)
    requires
        0 <= k <= us.len(),
    ensures
        pool_after(ws, us, k).len() == ws.len(),
        pool_distinct(ws, pool_after(ws, us, k)),
    decreases k,
{
    if k > 0 {
        lemma_pool_after(ws, us, k - 1);
        let pool = pool_after(ws, us, k - 1);
        let e = us[k - 1];
        lemma_take_keeps_distinct(ws, pool, lower_seq(e.instance_id@));
        let own = take_from_pool(ws, pool, lower_seq(e.instance_id@));
        if let Some(s) = e.stub_instance_id {
            lemma_take_keeps_distinct(ws, own.1, lower_seq(s@));
        }
    } else {
        let init = initial_pool(ws);
        assert forall|i: int, j: int|
            0 <= i < j < ws.len() && #[trigger] init[i] && #[trigger] init[j] implies node_key(ws[i])
            != node_key(ws[j]) by {
            assert(node_key(ws[j]) != node_key(ws[i]));
        }
    }
}

/// Puts every node in the pool, the last of each key winning, and computes
/// the keys.
fn build_pool(windows: Vec<WinUsbDevice>) -> (r: (Vec<Option<WinUsbDevice>>, Vec<Vec<char>>))
    ensures
        pool_holds(r.0@, windows@, initial_pool(windows@)),
        keys_of(r.1@, windows@),
{
    let ghost ws = windows@;
    let n = windows.len();
    let mut keys: Vec<Vec<char>> = Vec::new();
    let mut i: usize = 0;
    while i < n
        invariant
            n == ws.len(),
            windows@ == ws,
            i <= n,
            keys@.len() == i,
            forall|t: int| 0 <= t < i ==> (#[trigger] keys@[t])@ == node_key(ws[t]),
        decreases n - i,
    {
        keys.push(lower_vec(&chars_of(windows[i].instance_id.raw.as_str())));
        i = i + 1;
    }
    let ghost init = initial_pool(ws);
    let mut rest = windows;
    let mut pool: Vec<Option<WinUsbDevice>> = Vec::new();
    i = 0;
    while i < n
        invariant
            n == ws.len(),
            keys_of(keys@, ws),
            i <= n,
            rest@ == ws.skip(i as int),
            pool@.len() == i,
            init == initial_pool(ws),
            forall|t: int|
                0 <= t < i ==> #[trigger] pool@[t] == (if init[t] {
                    Some(ws[t])
                } else {
                    None
                }),
        decreases n - i,
    {
        assert(rest@[0] == ws[i as int]);
        let d = rest.remove(0);
        assert(rest@ =~= ws.skip(i as int + 1));
        let mut shadowed = false;
        let mut j: usize = i + 1;
        while j < n
            invariant
                n == ws.len(),
                keys_of(keys@, ws),
                i < n,
                i + 1 <= j <= n,
                shadowed == exists|t: int| i < t < j && node_key(#[trigger] ws[t]) == node_key(ws[i as int]),
            decreases n - j,
        {
            if same_chars(&keys[j], &keys[i]) {
                shadowed = true;
            }
            j = j + 1;
        }
        if shadowed {
            pool.push(None);
        } else {
            pool.push(Some(d));
        }
        i = i + 1;
    }
    (pool, keys)
}

/// Takes the node with `key` out of the pool, if it is there.
fn take_node(
    pool: &mut Vec<Option<WinUsbDevice>>,
    keys: &Vec<Vec<char>>,
    key: &Vec<char>,
    Ghost(ws): Ghost<Seq<WinUsbDevice>>,
    Ghost(alive): Ghost<Seq<bool>>,
) -> (r: Option<WinUsbDevice>)
    requires
        pool_holds(old(pool)@, ws, alive),
        keys_of(keys@, ws),
    ensures
        r == node_at(ws, take_from_pool(ws, alive, key@).0),
        pool_holds(final(pool)@, ws, take_from_pool(ws, alive, key@).1),
{
    let n = pool.len();
    let mut i: usize = 0;
    while i < n
        invariant
            n == ws.len(),
            i <= n,
            pool_holds(pool@, ws, alive),
            keys_of(keys@, ws),
            find_in_pool(ws, alive, key@, 0) == find_in_pool(ws, alive, key@, i as int),
        decreases n - i,
    {
        let hit = match &pool[i] {
            Some(_) => same_chars(&keys[i], key),
            None => false,
        };
        if hit {
            let ghost before = pool@;
            let taken = pool.remove(i);
            pool.insert(i, None);
            proof {
                assert(pool@ =~= before.update(i as int, None));
                let after = alive.update(i as int, false);
                assert forall|t: int| 0 <= t < ws.len() implies #[trigger] pool@[t] == (if after[t] {
                    Some(ws[t])
                } else {
                    None
                }) by {
                    if t != i {
                        assert(pool@[t] == before[t]);
                    }
                }
            }
            return taken;
        }
        i = i + 1;
    }
    None
}

/// The nodes still in the pool, ordered by instance id.
fn collect_remaining(
    pool: Vec<Option<WinUsbDevice>>,
    Ghost(ws): Ghost<Seq<WinUsbDevice>>,
    Ghost(alive): Ghost<Seq<bool>>,
) -> (r: Vec<WinUsbDevice>)
    requires
        pool_holds(pool@, ws, alive),
        pool_distinct(ws, alive),
    ensures
        remaining(r@, ws, alive),
{
    let n = pool.len();
    let ghost start = pool@;
    let mut rest = pool;
    let mut out: Vec<WinUsbDevice> = Vec::new();
    let mut raws: Vec<Vec<char>> = Vec::new();
    let ghost mut src: Seq<int> = Seq::empty();
    let mut i: usize = 0;
    while i < n
        invariant
            n == ws.len(),
            i <= n,
            pool_holds(start, ws, alive),
            pool_distinct(ws, alive),
            rest@ == start.skip(i as int),
            out@.len() == raws@.len(),
            src.len() == out@.len(),
            forall|a: int| 0 <= a < out@.len() ==> (#[trigger] raws@[a])@ == out@[a].instance_id.raw@,
            forall|a: int|
                0 <= a < out@.len() ==> 0 <= #[trigger] src[a] < i && alive[src[a]] && out@[a]
                    == ws[src[a]],
            forall|t: int|
                0 <= t < i && #[trigger] alive[t] ==> exists|a: int|
                    0 <= a < out@.len() && src[a] == t,
            forall|a: int, b: int|
                0 <= a < b < out@.len() ==> seq_lt(
                    (#[trigger] out@[a]).instance_id.raw@,
                    (#[trigger] out@[b]).instance_id.raw@,
                ),
        decreases n - i,
    {
        assert(rest@[0] == start[i as int]);
        let entry = rest.remove(0);
        assert(rest@ =~= start.skip(i as int + 1));
        match entry {
            Some(d) => {
                let raw = chars_of(d.instance_id.raw.as_str());
                let m = out.len();
                proof {
                    assert forall|a: int| 0 <= a < m implies out@[a].instance_id.raw@ != raw@ by {
                        let t = src[a];
                        assert(alive[t] && alive[i as int]);
                        if out@[a].instance_id.raw@ == raw@ {
                            assert(node_key(ws[t]) == node_key(ws[i as int]));
                        }
                    }
                }
                let mut j: usize = 0;
                while j < m && compare_chars(&raw, &raws[j]) != -1
                    invariant
                        j <= m,
                        m == raws@.len(),
                        m == out@.len(),
                        forall|a: int| 0 <= a < m ==> (#[trigger] raws@[a])@ == out@[a].instance_id.raw@,
                        forall|a: int| 0 <= a < m ==> out@[a].instance_id.raw@ != raw@,
                        forall|a: int| 0 <= a < j ==> seq_lt(#[trigger] out@[a].instance_id.raw@, raw@),
                    decreases m - j,
                {
                    proof {
                        lemma_seq_lt_total(raw@, out@[j as int].instance_id.raw@);
                    }
                    j = j + 1;
                }
                let ghost old_out = out@;
                let ghost old_src = src;
                proof {
                    assert forall|a: int| j <= a < m implies seq_lt(raw@, #[trigger] old_out[a].instance_id.raw@) by {
                        if a > j {
                            lemma_seq_lt_transitive(raw@, old_out[j as int].instance_id.raw@, old_out[a].instance_id.raw@);
                        }
                    }
                }
                out.insert(j, d);
                raws.insert(j, raw);
                proof {
                    src = src.insert(j as int, i as int);
                    assert forall|a: int, b: int| 0 <= a < b < out@.len() implies seq_lt(
                        (#[trigger] out@[a]).instance_id.raw@,
                        (#[trigger] out@[b]).instance_id.raw@,
                    ) by {
                        if a == j {
                            assert(out@[b] == old_out[b - 1]);
                        } else if b == j {
                            assert(out@[a] == old_out[a]);
                        } else {
                            let oa = if a < j { a } else { a - 1 };
                            let ob = if b < j { b } else { b - 1 };
                            assert(out@[a] == old_out[oa]);
                            assert(out@[b] == old_out[ob]);
                        }
                    }
                    assert forall|a: int| 0 <= a < out@.len() implies (#[trigger] raws@[a])@
                        == out@[a].instance_id.raw@ by {
                        if a < j {
                        } else if a > j {
                        }
                    }
                    assert forall|a: int|
                        0 <= a < out@.len() implies 0 <= #[trigger] src[a] < i + 1 && alive[src[a]]
                            && out@[a] == ws[src[a]] by {
                        if a < j {
                            assert(src[a] == old_src[a]);
                        } else if a > j {
                            assert(src[a] == old_src[a - 1]);
                        }
                    }
                    assert forall|t: int|
                        0 <= t < i + 1 && #[trigger] alive[t] implies exists|a: int|
                            0 <= a < out@.len() && src[a] == t by {
                        if t == i {
                            assert(src[j as int] == t);
                        } else {
                            let a0 = choose|a: int| 0 <= a < old_src.len() && old_src[a] == t;
                            if a0 < j {
                                assert(src[a0] == t);
                            } else {
                                assert(src[a0 + 1] == t);
                            }
                        }
                    }
                }
            },
            None => {
                proof {
                    assert(!alive[i as int]);
                }
            },
        }
        i = i + 1;
    }
    proof {
        assert forall|k: int| 0 <= k < out@.len() implies in_pool(#[trigger] out@[k], ws, alive) by {
            assert(out@[k] == ws[src[k]]);
        }
        assert forall|t: int| 0 <= t < ws.len() && alive[t] implies listed(#[trigger] ws[t], out@) by {
            let a = choose|a: int| 0 <= a < out@.len() && src[a] == t;
            assert(out@[a] == ws[t]);
        }
        assert(remaining(out@, ws, alive));
    }
    out
}

impl Snapshot {
    /// Joins the two enumerations by instance id.
    ///
    /// Each usbipd entry takes its own Windows node and, while attached, its
    /// stub's node. What no entry takes is listed apart, ordered by id. Rows
    /// come connected first, then in bus id order, then by name, which keeps
    /// identical adapters on one hub together.
    pub fn join(windows: Vec<WinUsbDevice>, usbipd: Vec<UsbipdDevice>) -> (r: Self)
        ensures
            r.hubs@.len() == 0,
            exists|p: Seq<int>| arranged(r.devices@, windows@, usbipd@, p),
            remaining(r.other_nodes@, windows@, pool_after(windows@, usbipd@, usbipd@.len() as int)),
    {
        let ghost ws = windows@;
        let ghost us = usbipd@;
        let (mut pool, keys) = build_pool(windows);
        let n = usbipd.len();
        let mut rest = usbipd;
        let mut rows: Vec<DeviceRow> = Vec::new();
        let mut k: usize = 0;
        while k < n
            invariant
                n == us.len(),
                k <= n,
                rest@ == us.skip(k as int),
                rows@.len() == k,
                forall|a: int| 0 <= a < k ==> row_built(#[trigger] rows@[a], ws, us, a),
                pool_holds(pool@, ws, pool_after(ws, us, k as int)),
                keys_of(keys@, ws),
            decreases n - k,
        {
            let ghost alive = pool_after(ws, us, k as int);
            assert(rest@[0] == us[k as int]);
            let entry = rest.remove(0);
            assert(rest@ =~= us.skip(k as int + 1));
            let key = lower_vec(&chars_of(entry.instance_id.as_str()));
            let win = take_node(&mut pool, &keys, &key, Ghost(ws), Ghost(alive));
            let ghost own = take_from_pool(ws, alive, lower_seq(entry.instance_id@));
            let stub = match &entry.stub_instance_id {
                Some(s) => {
                    let stub_key = lower_vec(&chars_of(s.as_str()));
                    take_node(&mut pool, &keys, &stub_key, Ghost(ws), Ghost(own.1))
                },
                None => None,
            };
            let instance_id = InstanceId::parse(entry.instance_id.as_str());
            let name = match &win {
                Some(d) => d.display_name(),
                None => strip_com_suffix(entry.description.as_str()),
            };
            let identity_basis = IdentityBasis::from_instance_id(&instance_id);
            let row = DeviceRow {
                identity_basis,
                instance_id,
                name,
                windows: win,
                usbipd: Some(entry),
                stub,
            };
            assert(row_built(row, ws, us, k as int));
            rows.push(row);
            k = k + 1;
        }
        proof {
            lemma_pool_after(ws, us, n as int);
        }
        let other_nodes = collect_remaining(pool, Ghost(ws), Ghost(pool_after(ws, us, n as int)));
        let ghost unsorted = rows@;
        let devices = sort_rows(rows);
        let ghost p = choose|p: Seq<int>| sorted_from(devices@, unsorted, p);
        proof {
            assert forall|k: int| 0 <= k < devices@.len() implies row_built(#[trigger] devices@[k], ws, us, p[k]) by {
                assert(devices@[k] == unsorted[p[k]]);
            }
        }
        assert(arranged(devices@, ws, us, p));
        let r = Snapshot { devices, other_nodes, hubs: Vec::new() };
        assert(arranged(r.devices@, ws, us, p));
        r
    }
}

/// The rows usbipd reports as connected, in order.
pub open spec fn connected_rows(rows: Seq<DeviceRow>) -> Seq<DeviceRow>
    decreases rows.len(),
{
    if rows.len() == 0 {
        Seq::empty()
    } else if rows.last().is_connected_row() {
        connected_rows(rows.drop_last()).push(rows.last())
    } else {
        connected_rows(rows.drop_last())
    }
}

/// A connected row with no serial but a VID/PID: nothing in its descriptors
/// tells it apart from another of its model.
pub open spec fn unnamed_model(r: DeviceRow) -> bool {
    &&& r.is_connected_row()
    &&& r.identity_basis is PortOnly
    &&& r.instance_id.vid_pid_text_spec().is_some()
}

pub open spec fn model_key(r: DeviceRow) -> Seq<char> {
    r.instance_id.vid_pid_text_spec().unwrap()
}

/// The unnamed rows of one model, in order.
pub open spec fn of_model(rows: Seq<DeviceRow>, key: Seq<char>) -> Seq<DeviceRow>
    decreases rows.len(),
{
    if rows.len() == 0 {
        Seq::empty()
    } else if unnamed_model(rows.last()) && model_key(rows.last()) == key {
        of_model(rows.drop_last(), key).push(rows.last())
    } else {
        of_model(rows.drop_last(), key)
    }
}

pub open spec fn derefs(v: Seq<&DeviceRow>) -> Seq<DeviceRow> {
    v.map_values(|x: &DeviceRow| *x)
}

/// The groups a snapshot reports: one per model with two or more unnamed
/// rows, holding those rows in order, the groups ordered by model.
pub open spec fn ambiguous(out: Seq<(String, Vec<&DeviceRow>)>, rows: Seq<DeviceRow>) -> bool {
    &&& forall|g: int|
        0 <= g < out.len() ==> derefs((#[trigger] out[g]).1@) == of_model(rows, out[g].0@)
            && out[g].1@.len() > 1
    &&& forall|i: int|
        0 <= i < rows.len() && unnamed_model(#[trigger] rows[i]) && of_model(
            rows,
            model_key(rows[i]),
        ).len() > 1 ==> exists|g: int| 0 <= g < out.len() && (#[trigger] out[g]).0@ == model_key(rows[i])
    &&& forall|a: int, b: int| 0 <= a < b < out.len() ==> seq_lt((#[trigger] out[a]).0@, (#[trigger] out[b]).0@)
}

proof fn lemma_of_model(rows: Seq<DeviceRow>, key: Seq<char>)
    ensures
        forall|k: int|
            0 <= k < of_model(rows, key).len() ==> unnamed_model(#[trigger] of_model(rows, key)[k])
                && model_key(of_model(rows, key)[k]) == key,
    decreases rows.len(),
{
    if rows.len() > 0 {
        lemma_of_model(rows.drop_last(), key);
        let init = of_model(rows.drop_last(), key);
        let all = of_model(rows, key);
        assert forall|k: int| 0 <= k < all.len() implies unnamed_model(#[trigger] all[k]) && model_key(all[k])
            == key by {
            if k < init.len() {
                assert(all[k] == init[k]);
            }
        }
    }
}

/// Every row in a reported group is connected, as usbipd says by giving it
/// a bus id, has no serial to tell it apart, and is of the group's model: a
/// device that is bound but unplugged is never counted as a twin.
pub proof fn a_reported_group_holds_only_connected_devices_of_its_model(
    out: Seq<(String, Vec<&DeviceRow>)>,
    rows: Seq<DeviceRow>,
    g: int,
    k: int,
)
    requires
        ambiguous(out, rows),
        0 <= g < out.len(),
        0 <= k < out[g].1@.len(),
    ensures
        ({
            let row = *out[g].1@[k];
            &&& row.usbipd matches Some(u) && u.bus_id is Some
            &&& row.identity_basis is PortOnly
            &&& row.instance_id.vid_pid_text_spec() == Some(out[g].0@)
        }),
{
    lemma_of_model(rows, out[g].0@);
    assert(derefs(out[g].1@)[k] == *out[g].1@[k]);
}

/// The model of an unnamed row, as text.
fn model_text(row: &DeviceRow) -> (r: Option<Vec<char>>)
    ensures
        r.is_some() == unnamed_model(*row),
        r.is_some() ==> r.unwrap()@ == model_key(*row),
{
    let connected = match &row.usbipd {
        Some(d) => d.is_connected(),
        None => false,
    };
    if !connected || !row.identity_basis.needs_probe() {
        return None;
    }
    match row.instance_id.vid_pid_string() {
        Some(s) => Some(chars_of(s.as_str())),
        None => None,
    }
}

impl Snapshot {
    /// The rows usbipd reports as connected.
    pub fn connected(&self) -> (r: Vec<&DeviceRow>)
        ensures
            derefs(r@) == connected_rows(self.devices@),
    {
        let mut out: Vec<&DeviceRow> = Vec::new();
        let n = self.devices.len();
        let mut i: usize = 0;
        while i < n
            invariant
                n == self.devices@.len(),
                i <= n,
                derefs(out@) == connected_rows(self.devices@.take(i as int)),
            decreases n - i,
        {
            let row = &self.devices[i];
            let connected = match &row.usbipd {
                Some(d) => d.is_connected(),
                None => false,
            };
            assert(self.devices@.take(i as int + 1).drop_last() == self.devices@.take(i as int));
            if connected {
                let ghost before = out@;
                out.push(row);
                assert(derefs(out@) =~= derefs(before).push(*row));
            }
            i = i + 1;
        }
        assert(self.devices@.take(n as int) == self.devices@);
        out
    }

    /// The unnamed rows of one model, in order.
    fn rows_of_model(&self, key: &Vec<char>) -> (r: Vec<&DeviceRow>)
        ensures
            derefs(r@) == of_model(self.devices@, key@),
    {
        let mut out: Vec<&DeviceRow> = Vec::new();
        let n = self.devices.len();
        let mut i: usize = 0;
        while i < n
            invariant
                n == self.devices@.len(),
                i <= n,
                derefs(out@) == of_model(self.devices@.take(i as int), key@),
            decreases n - i,
        {
            let row = &self.devices[i];
            assert(self.devices@.take(i as int + 1).drop_last() == self.devices@.take(i as int));
            match model_text(row) {
                Some(m) => {
                    if same_chars(&m, key) {
                        let ghost before = out@;
                        out.push(row);
                        assert(derefs(out@) =~= derefs(before).push(*row));
                    }
                },
                None => {},
            }
            i = i + 1;
        }
        assert(self.devices@.take(n as int) == self.devices@);
        out
    }

    /// Groups of connected devices that share a VID/PID and have no serial,
    /// so nothing in their descriptors tells them apart.
    pub fn ambiguous_groups(&self) -> (r: Vec<(String, Vec<&DeviceRow>)>)
        ensures
            ambiguous(r@, self.devices@),
    {
        let ghost rows = self.devices@;
        let n = self.devices.len();
        // The distinct models of unnamed rows.
        let mut models: Vec<Vec<char>> = Vec::new();
        let mut i: usize = 0;
        while i < n
            invariant
                n == rows.len(),
                rows == self.devices@,
                i <= n,
                forall|a: int, b: int| 0 <= a < b < models@.len() ==> (#[trigger] models@[a])@ != (#[trigger] models@[b])@,
                forall|t: int| 0 <= t < i && unnamed_model(#[trigger] rows[t]) ==> exists|a: int|
                    0 <= a < models@.len() && (#[trigger] models@[a])@ == model_key(rows[t]),
            decreases n - i,
        {
            match model_text(&self.devices[i]) {
                Some(m) => {
                    let mut j: usize = 0;
                    let mut seen = false;
                    while j < models.len()
                        invariant
                            j <= models@.len(),
                            seen == exists|a: int| 0 <= a < j && (#[trigger] models@[a])@ == m@,
                        decreases models@.len() - j,
                    {
                        if same_chars(&models[j], &m) {
                            seen = true;
                        }
                        j = j + 1;
                    }
                    if !seen {
                        let ghost before = models@;
                        models.push(m);
                        proof {
                            assert forall|t: int| 0 <= t < i + 1 && unnamed_model(#[trigger] rows[t]) implies exists|a: int|
                                0 <= a < models@.len() && (#[trigger] models@[a])@ == model_key(rows[t]) by {
                                if t == i {
                                    assert(models@[before.len() as int]@ == model_key(rows[t]));
                                } else {
                                    let a = choose|a: int| 0 <= a < before.len() && (#[trigger] before[a])@ == model_key(rows[t]);
                                    assert(models@[a] == before[a]);
                                }
                            }
                        }
                    }
                },
                None => {},
            }
            i = i + 1;
        }
        // One group per model with two or more rows, ordered by model.
        let mut out: Vec<(String, Vec<&DeviceRow>)> = Vec::new();
        let mut keys: Vec<Vec<char>> = Vec::new();
        let ghost mut src: Seq<int> = Seq::empty();
        let m = models.len();
        let mut t: usize = 0;
        while t < m
            invariant
                m == models@.len(),
                t <= m,
                rows == self.devices@,
                forall|a: int, b: int| 0 <= a < b < models@.len() ==> (#[trigger] models@[a])@ != (#[trigger] models@[b])@,
                out@.len() == keys@.len(),
                src.len() == out@.len(),
                forall|g: int| 0 <= g < out@.len() ==> (#[trigger] keys@[g])@ == out@[g].0@,
                forall|g: int|
                    0 <= g < out@.len() ==> derefs((#[trigger] out@[g]).1@) == of_model(rows, out@[g].0@)
                        && out@[g].1@.len() > 1,
                forall|g: int| 0 <= g < out@.len() ==> 0 <= #[trigger] src[g] < t && out@[g].0@ == models@[src[g]]@,
                forall|c: int| 0 <= c < t && of_model(rows, (#[trigger] models@[c])@).len() > 1 ==> exists|g: int|
                    0 <= g < out@.len() && (#[trigger] out@[g]).0@ == models@[c]@,
                forall|a: int, b: int| 0 <= a < b < out@.len() ==> seq_lt((#[trigger] out@[a]).0@, (#[trigger] out@[b]).0@),
            decreases m - t,
        {
            let group = self.rows_of_model(&models[t]);
            if group.len() > 1 {
                let key = string_of(&models[t]);
                let kc = chars_of(key.as_str());
                let len = out.len();
                proof {
                    assert forall|g: int| 0 <= g < len implies out@[g].0@ != kc@ by {
                        assert(src[g] != t);
                    }
                }
                let mut j: usize = 0;
                while j < len && compare_chars(&kc, &keys[j]) != -1
                    invariant
                        j <= len,
                        len == keys@.len(),
                        len == out@.len(),
                        forall|g: int| 0 <= g < len ==> (#[trigger] keys@[g])@ == out@[g].0@,
                        forall|g: int| 0 <= g < len ==> out@[g].0@ != kc@,
                        forall|g: int| 0 <= g < j ==> seq_lt((#[trigger] out@[g]).0@, kc@),
                    decreases len - j,
                {
                    proof {
                        lemma_seq_lt_total(kc@, out@[j as int].0@);
                    }
                    j = j + 1;
                }
                let ghost old_out = out@;
                let ghost old_src = src;
                proof {
                    assert forall|g: int| j <= g < len implies seq_lt(kc@, (#[trigger] old_out[g]).0@) by {
                        if g > j {
                            lemma_seq_lt_transitive(kc@, old_out[j as int].0@, old_out[g].0@);
                        }
                    }
                }
                out.insert(j, (key, group));
                keys.insert(j, kc);
                proof {
                    src = src.insert(j as int, t as int);
                    assert forall|a: int, b: int| 0 <= a < b < out@.len() implies seq_lt(
                        (#[trigger] out@[a]).0@,
                        (#[trigger] out@[b]).0@,
                    ) by {
                        if a == j {
                            assert(out@[b] == old_out[b - 1]);
                        } else if b == j {
                            assert(out@[a] == old_out[a]);
                        } else {
                            let oa = if a < j { a } else { a - 1 };
                            let ob = if b < j { b } else { b - 1 };
                            assert(out@[a] == old_out[oa]);
                            assert(out@[b] == old_out[ob]);
                        }
                    }
                    assert forall|g: int| 0 <= g < out@.len() implies (#[trigger] keys@[g])@ == out@[g].0@ by {
                        if g < j {
                        } else if g > j {
                        }
                    }
                    assert forall|g: int|
                        0 <= g < out@.len() implies derefs((#[trigger] out@[g]).1@) == of_model(rows, out@[g].0@)
                            && out@[g].1@.len() > 1 by {
                        if g < j {
                            assert(out@[g] == old_out[g]);
                        } else if g > j {
                            assert(out@[g] == old_out[g - 1]);
                        }
                    }
                    assert forall|g: int| 0 <= g < out@.len() implies 0 <= #[trigger] src[g] < t + 1 && out@[g].0@ == models@[src[g]]@ by {
                        if g < j {
                            assert(src[g] == old_src[g]);
                            assert(out@[g] == old_out[g]);
                        } else if g > j {
                            assert(src[g] == old_src[g - 1]);
                            assert(out@[g] == old_out[g - 1]);
                        }
                    }
                    assert forall|c: int| 0 <= c < t + 1 && of_model(rows, (#[trigger] models@[c])@).len() > 1 implies exists|g: int|
                        0 <= g < out@.len() && (#[trigger] out@[g]).0@ == models@[c]@ by {
                        if c == t {
                            assert(out@[j as int].0@ == models@[c]@);
                        } else {
                            let g0 = choose|g: int| 0 <= g < old_out.len() && (#[trigger] old_out[g]).0@ == models@[c]@;
                            if g0 < j {
                                assert(out@[g0] == old_out[g0]);
                            } else {
                                assert(out@[g0 + 1] == old_out[g0]);
                            }
                        }
                    }
                }
            }
            t = t + 1;
        }
        proof {
            assert forall|i: int|
                0 <= i < rows.len() && unnamed_model(#[trigger] rows[i]) && of_model(
                    rows,
                    model_key(rows[i]),
                ).len() > 1 implies exists|g: int| 0 <= g < out@.len() && (#[trigger] out@[g]).0@ == model_key(rows[i]) by {
                let c = choose|a: int| 0 <= a < models@.len() && (#[trigger] models@[a])@ == model_key(rows[i]);
                assert(of_model(rows, models@[c]@).len() > 1);
            }
        }
        out
    }
}

/// `Option<String>` order on location paths: none first, then by text.
pub open spec fn path_lt(a: Option<Seq<char>>, b: Option<Seq<char>>) -> bool {
    match (a, b) {
        (None, Some(_)) => true,
        (Some(x), Some(y)) => seq_lt(x, y),
        _ => false,
    }
}

pub open spec fn hub_path(h: HubNode) -> Option<Seq<char>> {
    match h.location_path {
        Some(p) => Some(p@),
        None => None,
    }
}

proof fn lemma_path_lt_order(a: Option<Seq<char>>, b: Option<Seq<char>>, c: Option<Seq<char>>)
    ensures
        !path_lt(a, a),
        path_lt(a, b) && path_lt(b, c) ==> path_lt(a, c),
        path_lt(a, b) || path_lt(b, a) || a == b,
        !(path_lt(a, b) && path_lt(b, a)),
{
    match (a, b, c) {
        (Some(x), Some(y), Some(z)) => {
            lemma_seq_lt_irreflexive(x);
            lemma_seq_lt_total(x, y);
            lemma_seq_lt_asymmetric(x, y);
            if seq_lt(x, y) && seq_lt(y, z) {
                lemma_seq_lt_transitive(x, y, z);
            }
        },
        (Some(x), Some(y), None) => {
            lemma_seq_lt_irreflexive(x);
            lemma_seq_lt_total(x, y);
            lemma_seq_lt_asymmetric(x, y);
        },
        (Some(x), _, _) => {
            lemma_seq_lt_irreflexive(x);
        },
        _ => {},
    }
}

/// `out` is `input` ordered by location path, ties in input order.
pub open spec fn hubs_sorted_from(out: Seq<HubNode>, input: Seq<HubNode>, p: Seq<int>) -> bool {
    &&& out.len() == input.len()
    &&& p.len() == out.len()
    &&& distinct_below(p, input.len() as int)
    &&& forall|k: int| 0 <= k < out.len() ==> #[trigger] out[k] == input[p[k]]
    &&& forall|a: int, b: int|
        0 <= a < b < out.len() ==> !path_lt(hub_path(#[trigger] out[b]), hub_path(#[trigger] out[a]))
    &&& forall|a: int, b: int|
        0 <= a < b < out.len() && !path_lt(hub_path(#[trigger] out[a]), hub_path(#[trigger] out[b]))
            ==> p[a] < p[b]
}

fn path_less(a: &Option<Vec<char>>, b: &Option<Vec<char>>) -> (r: bool)
    ensures
        r == path_lt(
            match a {
                Some(x) => Some(x@),
                None => None,
            },
            match b {
                Some(x) => Some(x@),
                None => None,
            },
        ),
{
    match (a, b) {
        (None, Some(_)) => true,
        (Some(x), Some(y)) => compare_chars(x, y) == -1,
        _ => false,
    }
}

impl HubNode {
    /// The hub a node is, given the ports it reported.
    pub fn from_node(node: &WinUsbDevice, ports: Vec<HubPort>) -> (r: Self)
        ensures
            r.instance_id@ == node.instance_id.raw@,
            r.name@ == display_name_spec(*node),
            r.location_path.is_some() == (node.location_paths@.len() > 0),
            r.location_path.is_some() ==> r.location_path.unwrap()@ == node.location_paths@[0]@,
            r.parent_instance_id.is_some() == node.parent_instance_id.is_some(),
            r.parent_instance_id.is_some() ==> r.parent_instance_id.unwrap()@ == node.parent_instance_id.unwrap()@,
            r.address == node.address,
            r.vid_pid.is_some() == node.instance_id.vid_pid_text_spec().is_some(),
            r.vid_pid.is_some() ==> r.vid_pid.unwrap()@ == node.instance_id.vid_pid_text_spec().unwrap(),
            r.manufacturer.is_some() == node.manufacturer.is_some(),
            r.manufacturer.is_some() ==> r.manufacturer.unwrap()@ == node.manufacturer.unwrap()@,
            r.driver_version.is_some() == node.driver_version.is_some(),
            r.driver_version.is_some() ==> r.driver_version.unwrap()@ == node.driver_version.unwrap()@,
            r.ports == ports,
    {
        HubNode {
            instance_id: node.instance_id.raw.clone(),
            name: node.display_name(),
            location_path: node.first_location_path(),
            parent_instance_id: copy_opt_string(&node.parent_instance_id),
            address: node.address,
            vid_pid: node.instance_id.vid_pid_string(),
            manufacturer: copy_opt_string(&node.manufacturer),
            driver_version: copy_opt_string(&node.driver_version),
            ports,
        }
    }
}

/// Orders hubs by location path, ties kept in the order they came.
pub fn sort_hubs(hubs: Vec<HubNode>) -> (r: Vec<HubNode>)
    ensures
        exists|p: Seq<int>| hubs_sorted_from(r@, hubs@, p),
{
    let ghost input = hubs@;
    let n = hubs.len();
    let mut rest = hubs;
    let mut out: Vec<HubNode> = Vec::new();
    let mut keys: Vec<Option<Vec<char>>> = Vec::new();
    let ghost mut p: Seq<int> = Seq::empty();
    let mut k: usize = 0;
    while k < n
        invariant
            n == input.len(),
            k <= n,
            rest@ == input.skip(k as int),
            out@.len() == k,
            keys@.len() == k,
            p.len() == k,
            forall|a: int| 0 <= a < k ==> (match #[trigger] keys@[a] {
                Some(x) => Some(x@),
                None => None,
            }) == hub_path(out@[a]),
            forall|a: int| 0 <= a < k ==> #[trigger] out@[a] == input[p[a]],
            distinct_below(p, k as int),
            forall|a: int, b: int|
                0 <= a < b < k ==> !path_lt(hub_path(#[trigger] out@[b]), hub_path(#[trigger] out@[a])),
            forall|a: int, b: int|
                0 <= a < b < k && !path_lt(hub_path(#[trigger] out@[a]), hub_path(#[trigger] out@[b]))
                    ==> p[a] < p[b],
        decreases n - k,
    {
        assert(rest@[0] == input[k as int]);
        let hub = rest.remove(0);
        assert(rest@ =~= input.skip(k as int + 1));
        let key: Option<Vec<char>> = match &hub.location_path {
            Some(x) => Some(chars_of(x.as_str())),
            None => None,
        };
        let ghost kv = hub_path(hub);
        let mut j: usize = 0;
        while j < k && !path_less(&key, &keys[j])
            invariant
                j <= k,
                k == keys@.len(),
                k == out@.len(),
                kv == (match key {
                    Some(x) => Some(x@),
                    None => None,
                }),
                forall|a: int| 0 <= a < k ==> (match #[trigger] keys@[a] {
                    Some(x) => Some(x@),
                    None => None,
                }) == hub_path(out@[a]),
                forall|a: int| 0 <= a < j ==> !path_lt(kv, hub_path(#[trigger] out@[a])),
            decreases k - j,
        {
            j = j + 1;
        }
        let ghost old_out = out@;
        let ghost old_p = p;
        proof {
            assert forall|a: int| j <= a < k implies path_lt(kv, hub_path(#[trigger] old_out[a])) by {
                assert(path_lt(kv, hub_path(old_out[j as int])));
                if a > j {
                    lemma_path_lt_order(kv, hub_path(old_out[j as int]), hub_path(old_out[a]));
                    lemma_path_lt_order(hub_path(old_out[j as int]), hub_path(old_out[a]), hub_path(old_out[a]));
                }
            }
        }
        out.insert(j, hub);
        keys.insert(j, key);
        proof {
            p = p.insert(j as int, k as int);
            assert forall|a: int| 0 <= a < k + 1 implies (match #[trigger] keys@[a] {
                Some(x) => Some(x@),
                None => None,
            }) == hub_path(out@[a]) by {
                if a < j {
                } else if a > j {
                }
            }
            assert forall|a: int| 0 <= a < k + 1 implies #[trigger] out@[a] == input[p[a]] by {
                if a < j {
                    assert(out@[a] == old_out[a]);
                } else if a > j {
                    assert(out@[a] == old_out[a - 1]);
                }
            }
            assert forall|a: int, b: int| 0 <= a < b < k + 1 implies !path_lt(
                hub_path(#[trigger] out@[b]),
                hub_path(#[trigger] out@[a]),
            ) by {
                if a == j {
                    assert(out@[b] == old_out[b - 1]);
                    lemma_path_lt_order(kv, hub_path(old_out[b - 1]), kv);
                } else if b == j {
                    assert(out@[a] == old_out[a]);
                } else {
                    let oa = if a < j { a } else { a - 1 };
                    let ob = if b < j { b } else { b - 1 };
                    assert(out@[a] == old_out[oa]);
                    assert(out@[b] == old_out[ob]);
                }
            }
            assert forall|a: int, b: int|
                0 <= a < b < k + 1 && !path_lt(hub_path(#[trigger] out@[a]), hub_path(#[trigger] out@[b]))
                    implies p[a] < p[b] by {
                if a == j {
                    assert(out@[b] == old_out[b - 1]);
                } else if b == j {
                    assert(p[a] == old_p[a]);
                } else {
                    let oa = if a < j { a } else { a - 1 };
                    let ob = if b < j { b } else { b - 1 };
                    assert(out@[a] == old_out[oa]);
                    assert(out@[b] == old_out[ob]);
                    assert(p[a] == old_p[oa]);
                    assert(p[b] == old_p[ob]);
                }
            }
            assert forall|a: int| 0 <= a < p.len() implies 0 <= #[trigger] p[a] < k + 1 by {
                if a < j {
                    assert(p[a] == old_p[a]);
                } else if a > j {
                    assert(p[a] == old_p[a - 1]);
                }
            }
            assert forall|a: int, b: int| 0 <= a < b < p.len() implies #[trigger] p[a] != #[trigger] p[b] by {
                let oa = if a < j { a } else { a - 1 };
                let ob = if b < j { b } else { b - 1 };
                if a != j {
                    assert(p[a] == old_p[oa]);
                }
                if b != j {
                    assert(p[b] == old_p[ob]);
                }
            }
        }
        k = k + 1;
    }
    assert(hubs_sorted_from(out@, input, p));
    out
}

impl Snapshot {
    /// Every node that could be a hub: the rows' own nodes, then the others.
    /// Whether one is, is asked of the hub itself.
    pub fn hub_candidates(&self) -> (r: Vec<&WinUsbDevice>)
        ensures
            r@.map_values(|d: &WinUsbDevice| *d) == row_nodes(self.devices@) + self.other_nodes@,
    {
        let mut out: Vec<&WinUsbDevice> = Vec::new();
        let n = self.devices.len();
        let mut i: usize = 0;
        while i < n
            invariant
                n == self.devices@.len(),
                i <= n,
                out@.map_values(|d: &WinUsbDevice| *d) == row_nodes(self.devices@.take(i as int)),
            decreases n - i,
        {
            assert(self.devices@.take(i as int + 1).drop_last() == self.devices@.take(i as int));
            match &self.devices[i].windows {
                Some(w) => {
                    let ghost before = out@;
                    out.push(w);
                    assert(out@.map_values(|d: &WinUsbDevice| *d) =~= before.map_values(|d: &WinUsbDevice| *d).push(*w));
                },
                None => {},
            }
            i = i + 1;
        }
        assert(self.devices@.take(n as int) == self.devices@);
        let ghost head = out@.map_values(|d: &WinUsbDevice| *d);
        let m = self.other_nodes.len();
        let mut j: usize = 0;
        while j < m
            invariant
                m == self.other_nodes@.len(),
                j <= m,
                out@.map_values(|d: &WinUsbDevice| *d) == head + self.other_nodes@.take(j as int),
            decreases m - j,
        {
            let ghost before = out@;
            out.push(&self.other_nodes[j]);
            assert(out@.map_values(|d: &WinUsbDevice| *d) =~= before.map_values(|d: &WinUsbDevice| *d).push(self.other_nodes@[j as int]));
            assert(self.other_nodes@.take(j as int + 1) == self.other_nodes@.take(j as int).push(self.other_nodes@[j as int]));
            j = j + 1;
        }
        assert(self.other_nodes@.take(m as int) == self.other_nodes@);
        out
    }
}

/// The Windows nodes of rows that have one, in order.
pub open spec fn row_nodes(rows: Seq<DeviceRow>) -> Seq<WinUsbDevice>
    decreases rows.len(),
{
    if rows.len() == 0 {
        Seq::empty()
    } else {
        match rows.last().windows {
            Some(w) => row_nodes(rows.drop_last()).push(w),
            None => row_nodes(rows.drop_last()),
        }
    }
}

} // verus!
