//! Naming a board from its USB descriptors, without touching it.
//!
//! Not a probe, and deliberately so: this route reads what Windows already
//! enumerated and sends nothing. It answers only where the descriptors settle
//! both halves of the question: **which model**, from a VID/PID pair the vendor
//! programmed for that board, and **which unit**, from the serial number.
//!
//! A stock USB-UART bridge answers neither: its pair names the cable, and its
//! serial belongs to the cable too. Those pairs are refused here even if the
//! table ever claims one.
use vstd::prelude::*;

use crate::instance_id::InstanceId;
use crate::probe::board_ids::{
    BOARDS_01, BOARDS_02, BOARDS_03, BOARDS_04, BOARDS_05, BOARDS_06, BOARDS_07, BOARDS_08, BOARDS_09,
    BOARDS_10, BOARDS_11, BOARDS_12,
};
use crate::probe::id_sources::USB_SERIAL;
use crate::probe::identity::{identity_key, key_possible, key_text};
use crate::probe::{details_in_order, TargetIdentity};
use crate::text::{
    all_hex, chars_of, hex_value, is_hex, split_seq, split_vec, str_string, string_of,
};

verus! {

/// One VID/PID pair, and what the board definitions say claims it.
#[derive(Debug, Clone)]
pub struct BoardId {
    /// `vid << 16 | pid`, what the table is sorted and searched on.
    pub key: u32,
    /// The family, e.g. `rp2040`. Known even where the board is not.
    pub family: String,
    /// `None` when several boards report this pair, so no one name is right.
    pub variant: Option<String>,
}

pub open spec fn board_view(b: BoardId) -> (u32, Seq<char>, Option<Seq<char>>) {
    (b.key, b.family@, match b.variant {
        Some(v) => Some(v@),
        None => None,
    })
}

/// Stock USB-UART bridge pairs, as they ship. Never a board identity.
pub open spec fn generic_bridge_pairs() -> Seq<(u16, u16)> {
    seq![
        (0x0403u16, 0x6001u16), (0x0403, 0x6010), (0x0403, 0x6011), (0x0403, 0x6014),
        (0x0403, 0x6015), (0x067B, 0x2303), (0x067B, 0x23A3), (0x067B, 0x23B3),
        (0x067B, 0x23C3), (0x067B, 0x23D3), (0x067B, 0x23E3), (0x067B, 0x23F3),
        (0x10C4, 0xEA60), (0x10C4, 0xEA61), (0x10C4, 0xEA63), (0x10C4, 0xEA70),
        (0x10C4, 0xEA71), (0x1A86, 0x5523), (0x1A86, 0x55D2), (0x1A86, 0x55D3),
        (0x1A86, 0x55D4), (0x1A86, 0x55D5), (0x1A86, 0x7522), (0x1A86, 0x7523),
        (0x1A86, 0x7584), (0x4348, 0x5523),
    ]
}

/// The stock bridge pairs: FTDI, Prolific, Silicon Labs and WCH bridges.
pub fn generic_bridge_ids() -> (r: Vec<(u16, u16)>)
    ensures
        r@ == generic_bridge_pairs(),
{
    let r: Vec<(u16, u16)> = vec![
        (0x0403u16, 0x6001u16), (0x0403, 0x6010), (0x0403, 0x6011), (0x0403, 0x6014),
        (0x0403, 0x6015), (0x067B, 0x2303), (0x067B, 0x23A3), (0x067B, 0x23B3),
        (0x067B, 0x23C3), (0x067B, 0x23D3), (0x067B, 0x23E3), (0x067B, 0x23F3),
        (0x10C4, 0xEA60), (0x10C4, 0xEA61), (0x10C4, 0xEA63), (0x10C4, 0xEA70),
        (0x10C4, 0xEA71), (0x1A86, 0x5523), (0x1A86, 0x55D2), (0x1A86, 0x55D3),
        (0x1A86, 0x55D4), (0x1A86, 0x55D5), (0x1A86, 0x7522), (0x1A86, 0x7523),
        (0x1A86, 0x7584), (0x4348, 0x5523),
    ];
    assert(r@ =~= generic_bridge_pairs());
    r
}

/// Whether the pair is a stock bridge rather than a board.
pub fn is_generic_bridge(vid: u16, pid: u16) -> (r: bool)
    ensures
        r == generic_bridge_pairs().contains((vid, pid)),
{
    let ids = generic_bridge_ids();
    let n = ids.len();
    let mut i: usize = 0;
    while i < n
        invariant
            n == ids@.len(),
            ids@ == generic_bridge_pairs(),
            i <= n,
            forall|k: int| 0 <= k < i ==> ids@[k] != (vid, pid),
        decreases n - i,
    {
        if ids[i].0 == vid && ids[i].1 == pid {
            assert(ids@[i as int] == (vid, pid));
            return true;
        }
        i = i + 1;
    }
    false
}

/// One line of the table: the key, the family, and the board when one.
pub open spec fn table_line(line: Seq<char>) -> Option<(u32, Seq<char>, Option<Seq<char>>)> {
    let parts = split_seq(line, ' ');
    if (parts.len() == 2 || parts.len() == 3) && parts[0].len() == 8 && all_hex(parts[0]) {
        Some((hex_value(parts[0]) as u32, parts[1], if parts.len() == 3 {
            Some(parts[2])
        } else {
            None
        }))
    } else {
        None
    }
}

pub open spec fn table_lines(lines: Seq<Seq<char>>) -> Seq<(u32, Seq<char>, Option<Seq<char>>)>
    decreases lines.len(),
{
    if lines.len() == 0 {
        Seq::empty()
    } else {
        match table_line(lines.last()) {
            Some(e) => table_lines(lines.drop_last()).push(e),
            None => table_lines(lines.drop_last()),
        }
    }
}

/// The table's text, in its parts.
pub open spec fn board_texts() -> Seq<Seq<char>> {
    seq![
        BOARDS_01@, BOARDS_02@, BOARDS_03@, BOARDS_04@, BOARDS_05@, BOARDS_06@, BOARDS_07@,
        BOARDS_08@, BOARDS_09@, BOARDS_10@, BOARDS_11@, BOARDS_12@,
    ]
}

/// The entries of several parts, part after part.
pub open spec fn tables(texts: Seq<Seq<char>>) -> Seq<(u32, Seq<char>, Option<Seq<char>>)>
    decreases texts.len(),
{
    if texts.len() == 0 {
        Seq::empty()
    } else {
        tables(texts.drop_last()) + table_lines(split_seq(texts.last(), '\n'))
    }
}

/// The board table.
pub open spec fn board_table() -> Seq<(u32, Seq<char>, Option<Seq<char>>)> {
    tables(board_texts())
}

fn board_text_parts() -> (r: Vec<&'static str>)
    ensures
        r@.map_values(|t: &str| t@) == board_texts(),
{
    let r: Vec<&'static str> = vec![
        BOARDS_01, BOARDS_02, BOARDS_03, BOARDS_04, BOARDS_05, BOARDS_06, BOARDS_07, BOARDS_08,
        BOARDS_09, BOARDS_10, BOARDS_11, BOARDS_12,
    ];
    assert(r@.map_values(|t: &str| t@) =~= board_texts());
    r
}

/// The key a pair is looked up by: `vid << 16 | pid`.
pub open spec fn pair_key(vid: u16, pid: u16) -> u32 {
    (vid as int * 65536 + pid as int) as u32
}

/// The first entry of the table on `key`.
pub open spec fn first_on(t: Seq<(u32, Seq<char>, Option<Seq<char>>)>, key: u32) -> Option<int> {
    first_on_from(t, key, 0)
}

/// What the board definitions say claims the pair: nothing for a stock
/// bridge, else the table's entry on it.
pub open spec fn board_for(vid: u16, pid: u16) -> Option<(u32, Seq<char>, Option<Seq<char>>)> {
    if generic_bridge_pairs().contains((vid, pid)) {
        None
    } else {
        match first_on(board_table(), pair_key(vid, pid)) {
            Some(i) => Some(board_table()[i]),
            None => None,
        }
    }
}

fn hex8_value(id: &Vec<char>) -> (r: u32)
    requires
        id@.len() == 8,
        all_hex(id@),
    ensures
        r == hex_value(id@) as u32,
{
    let mut v: u64 = 0;
    let mut i: usize = 0;
    while i < 8
        invariant
            id@.len() == 8,
            all_hex(id@),
            i <= 8,
            v == hex_value(id@.take(i as int)),
            v < 0x1_0000_0000,
            i == 0 ==> v == 0,
            i <= 1 ==> v < 0x10,
            i <= 2 ==> v < 0x100,
            i <= 3 ==> v < 0x1000,
            i <= 4 ==> v < 0x1_0000,
            i <= 5 ==> v < 0x10_0000,
            i <= 6 ==> v < 0x100_0000,
            i <= 7 ==> v < 0x1000_0000,
        decreases 8 - i,
    {
        let c = id[i];
        let d: u64 = if '0' <= c && c <= '9' {
            (c as u64) - ('0' as u64)
        } else if 'a' <= c && c <= 'f' {
            (c as u64) - ('a' as u64) + 10
        } else {
            (c as u64) - ('A' as u64) + 10
        };
        assert(id@.take(i as int + 1).drop_last() == id@.take(i as int));
        assert(is_hex(id@[i as int]));
        assert(d < 16);
        v = v * 16 + d;
        i = i + 1;
    }
    assert(id@.take(8) == id@);
    v as u32
}

fn entry_of_line(line: &Vec<char>) -> (r: Option<BoardId>)
    ensures
        match r {
            Some(b) => table_line(line@) == Some(board_view(b)),
            None => table_line(line@).is_none(),
        },
{
    let parts = split_vec(line, ' ');
    let ghost ps = split_seq(line@, ' ');
    if !(parts.len() == 2 || parts.len() == 3) {
        return None;
    }
    assert(parts@[0]@ == ps[0]);
    if parts[0].len() != 8 {
        return None;
    }
    let mut hex = true;
    let mut i: usize = 0;
    while i < 8
        invariant
            parts@.len() >= 2,
            parts@[0]@.len() == 8,
            i <= 8,
            hex == forall|k: int| 0 <= k < i ==> is_hex(#[trigger] parts@[0]@[k]),
        decreases 8 - i,
    {
        let c = parts[0][i];
        if !(('0' <= c && c <= '9') || ('a' <= c && c <= 'f') || ('A' <= c && c <= 'F')) {
            hex = false;
        }
        i = i + 1;
    }
    if !hex {
        return None;
    }
    assert(parts@[1]@ == ps[1]);
    let variant = if parts.len() == 3 {
        assert(parts@[2]@ == ps[2]);
        Some(string_of(&parts[2]))
    } else {
        None
    };
    Some(BoardId { key: hex8_value(&parts[0]), family: string_of(&parts[1]), variant })
}

/// The entries of one part of the table, appended to `out`.
fn read_part(text: &str, out: &mut Vec<BoardId>)
    ensures
        final(out)@.map_values(|b: BoardId| board_view(b)) == old(out)@.map_values(|b: BoardId| board_view(b))
            + table_lines(split_seq(text@, '\n')),
{
    let chars = chars_of(text);
    let lines = split_vec(&chars, '\n');
    let ghost ls = split_seq(text@, '\n');
    let ghost start = out@.map_values(|b: BoardId| board_view(b));
    let n = lines.len();
    let mut i: usize = 0;
    while i < n
        invariant
            n == lines@.len(),
            n == ls.len(),
            forall|k: int| 0 <= k < n ==> (#[trigger] lines@[k])@ == ls[k],
            i <= n,
            out@.map_values(|b: BoardId| board_view(b)) == start + table_lines(ls.take(i as int)),
        decreases n - i,
    {
        assert(ls.take(i as int + 1).drop_last() == ls.take(i as int));
        match entry_of_line(&lines[i]) {
            Some(b) => {
                let ghost before = out@;
                out.push(b);
                assert(out@.map_values(|b: BoardId| board_view(b)) =~= before.map_values(|b: BoardId| board_view(b)).push(board_view(b)));
            },
            None => {},
        }
        i = i + 1;
    }
    assert(ls.take(n as int) == ls);
}

/// The board table, in table order.
pub fn board_ids() -> (r: Vec<BoardId>)
    ensures
        r@.map_values(|b: BoardId| board_view(b)) == board_table(),
{
    let parts = board_text_parts();
    let ghost ts = board_texts();
    let mut out: Vec<BoardId> = Vec::new();
    let n = parts.len();
    let mut i: usize = 0;
    assert(out@.map_values(|b: BoardId| board_view(b)) =~= tables(ts.take(0)));
    while i < n
        invariant
            n == parts@.len(),
            parts@.map_values(|t: &str| t@) == ts,
            i <= n,
            out@.map_values(|b: BoardId| board_view(b)) == tables(ts.take(i as int)),
        decreases n - i,
    {
        assert(ts.take(i as int + 1).drop_last() == ts.take(i as int));
        assert(ts[i as int] == parts@[i as int]@);
        read_part(parts[i], &mut out);
        i = i + 1;
    }
    assert(ts.take(n as int) == ts);
    out
}

/// What the board definitions say claims this pair, if anything.
pub fn board_for_usb_id(vid: u16, pid: u16) -> (r: Option<BoardId>)
    ensures
        match r {
            Some(b) => board_for(vid, pid) == Some(board_view(b)),
            None => board_for(vid, pid).is_none(),
        },
{
    if is_generic_bridge(vid, pid) {
        return None;
    }
    let key: u32 = (vid as u32) * 65536 + (pid as u32);
    let table = board_ids();
    let ghost t = board_table();
    let n = table.len();
    let mut i: usize = 0;
    while i < n
        invariant
            n == table@.len(),
            table@.map_values(|b: BoardId| board_view(b)) == t,
            t == board_table(),
            key == pair_key(vid, pid),
            !generic_bridge_pairs().contains((vid, pid)),
            i <= n,
            first_on(t, key) == first_on_from(t, key, i as int),
        decreases n - i,
    {
        assert(t[i as int] == board_view(table@[i as int]));
        if table[i].key == key {
            assert(first_on_from(t, key, i as int) == Some(i as int));
            let mut table = table;
            let b = table.remove(i);
            return Some(b);
        }
        i = i + 1;
    }
    None
}

/// The first entry at or after `i` on `key`.
pub open spec fn first_on_from(t: Seq<(u32, Seq<char>, Option<Seq<char>>)>, key: u32, i: int) -> Option<int>
    decreases t.len() - i,
{
    if 0 <= i < t.len() {
        if t[i].0 == key {
            Some(i)
        } else {
            first_on_from(t, key, i + 1)
        }
    } else {
        None
    }
}

/// What an instance id names, when its descriptors name a board: the
/// family, the board, and the serial, where the pair names one board and the
/// serial is long enough to be an identity.
pub open spec fn identified(id: InstanceId) -> Option<(Seq<char>, Seq<char>, Seq<char>)> {
    match id.vid_pid_spec() {
        None => None,
        Some((vid, pid)) => match board_for(vid, pid) {
            None => None,
            Some(entry) => match entry.2 {
                // A pair several boards share names the family, not the board.
                None => None,
                Some(variant) => match id.unit@.serial() {
                    None => None,
                    Some(serial) => if key_possible(variant, serial) {
                        Some((entry.1, variant, serial))
                    } else {
                        None
                    },
                },
            },
        },
    }
}

/// The board an instance id names, where its descriptors name one.
///
/// `None` is the normal answer: most devices are bridges, hubs, or boards no
/// definition claims. It means "nothing to say here", never "not a board".
pub fn identify(instance_id: &InstanceId) -> (r: Option<TargetIdentity>)
    ensures
        match identified(*instance_id) {
            None => r.is_none(),
            Some((family, variant, serial)) => r matches Some(t) && {
                &&& t.family@ == family
                &&& t.identity_key@ == key_text(variant, serial)
                &&& t.device_id@ == serial
                &&& t.device_type@ == variant
                &&& t.hardware_revision.is_none()
                &&& t.id_source@ == USB_SERIAL@
                &&& t.details@.len() == 1
                &&& t.details@[0].0@ == "family"@
                &&& t.details@[0].1@ == family
                &&& details_in_order(t.details@)
            },
        },
{
    let (vid, pid) = match instance_id.vid_pid() {
        Some(vp) => vp,
        None => return None,
    };
    let board = match board_for_usb_id(vid, pid) {
        Some(b) => b,
        None => return None,
    };
    let variant = match &board.variant {
        Some(v) => v,
        None => return None,
    };
    let serial = match instance_id.unit.serial() {
        Some(s) => s,
        None => return None,
    };
    // A serial too short to be an identity is no better than none.
    let key = match identity_key(variant.as_str(), serial) {
        Ok(k) => k,
        Err(_) => return None,
    };
    let mut details: Vec<(String, String)> = Vec::new();
    details.push((str_string("family"), board.family.clone()));
    Some(TargetIdentity {
        family: board.family.clone(),
        identity_key: key,
        device_id: str_string(serial),
        device_type: variant.clone(),
        hardware_revision: None,
        id_source: USB_SERIAL,
        details,
    })
}

} // verus!
