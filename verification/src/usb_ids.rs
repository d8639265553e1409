//! Vendor and product names from the USB ID Repository's `usb.ids`.
//!
//! The file is read from the usbipd-win installation rather than shipped. What
//! it says is decided here from its text; reading it is the caller's business.
//! Everything fails soft: a missing file means no vendor names, never a
//! failed enumeration.
use vstd::prelude::*;
use std::collections::HashMap;

use crate::text::{
    is_hex, all_hex, all_hex_vec, chars_of, hex_value, split_once_str, split_once_str_vec, split_seq,
    split_vec, starts_with, string_of, sub_vec, trim, trim_vec,
};

verus! {

broadcast use vstd::std_specs::hash::group_hash_axioms;

/// The key a product is indexed under.
pub open spec fn product_key(vid: u16, pid: u16) -> u32 {
    (vid as int * 65536 + pid as int) as u32
}

fn product_key_of(vid: u16, pid: u16) -> (r: u32)
    ensures
        r == product_key(vid, pid),
{
    (vid as u32) * 65536 + (pid as u32)
}

/// Vendor and product names, indexed for lookup.
#[derive(Debug)]
pub struct UsbIds {
    vendors: HashMap<u16, String>,
    products: HashMap<u32, String>,
}

/// What the index says: vendor names by VID, product names by product key.
pub struct IdsView {
    pub vendors: Map<u16, Seq<char>>,
    pub products: Map<u32, Seq<char>>,
}

/// The index built so far, and the vendor whose products follow.
pub struct ParseState {
    pub vendors: Map<u16, Seq<char>>,
    pub products: Map<u32, Seq<char>>,
    pub vendor: Option<u16>,
}

impl View for UsbIds {
    type V = IdsView;

    closed spec fn view(&self) -> IdsView {
        IdsView {
            vendors: self.vendors@.map_values(|s: String| s@),
            products: self.products@.map_values(|s: String| s@),
        }
    }
}

/// `1a86  QinHeng Electronics` as its id and name: the id exactly four hex
/// digits, which keeps the class and language sections out of the index.
pub open spec fn split_entry_spec(line: Seq<char>) -> Option<(u16, Seq<char>)> {
    match split_once_str(line, seq![' ', ' ']) {
        Some((id, name)) => if id.len() == 4 && all_hex(id) {
            Some((hex_value(id) as u16, trim(name)))
        } else {
            None
        },
        None => None,
    }
}

/// A line as `BufRead::lines` gives it: without a trailing carriage return.
pub open spec fn line_text(piece: Seq<char>) -> Seq<char> {
    if piece.len() > 0 && piece.last() == '\r' {
        piece.drop_last()
    } else {
        piece
    }
}

/// What one line does to the index.
pub open spec fn step(st: ParseState, line: Seq<char>) -> ParseState {
    if line.len() == 0 || line[0] == '#' {
        st
    } else if starts_with(line, seq!['\t', '\t']) {
        // An interface, which nothing here uses.
        st
    } else if line[0] == '\t' {
        match st.vendor {
            None => st,
            Some(v) => match split_entry_spec(line.drop_first()) {
                Some((id, name)) => ParseState { products: st.products.insert(product_key(v, id), name), ..st },
                None => st,
            },
        }
    } else {
        match split_entry_spec(line) {
            Some((id, name)) => ParseState { vendors: st.vendors.insert(id, name), vendor: Some(id), ..st },
            // A section heading such as `C 00  ...`: nothing below it is a
            // product of the last vendor.
            None => ParseState { vendor: None, ..st },
        }
    }
}

/// The index after the given lines.
pub open spec fn steps(lines: Seq<Seq<char>>) -> ParseState
    decreases lines.len(),
{
    if lines.len() == 0 {
        ParseState { vendors: Map::empty(), products: Map::empty(), vendor: None }
    } else {
        step(steps(lines.drop_last()), line_text(lines.last()))
    }
}

/// The index of a whole file.
pub open spec fn parsed(text: Seq<char>) -> IdsView {
    let st = steps(split_seq(text, '\n'));
    IdsView { vendors: st.vendors, products: st.products }
}

fn split_entry(line: &Vec<char>) -> (r: Option<(u16, Vec<char>)>)
    ensures
        match r {
            Some((id, name)) => split_entry_spec(line@) == Some((id, name@)),
            None => split_entry_spec(line@).is_none(),
        },
{
    let sep: Vec<char> = vec![' ', ' '];
    assert(sep@ =~= seq![' ', ' ']);
    match split_once_str_vec(line, &sep) {
        Some((id, name)) => {
            if id.len() != 4 || !all_hex_vec(&id) {
                return None;
            }
            let value = hex4_value(&id);
            Some((value, trim_vec(&name)))
        },
        None => None,
    }
}

/// The value of four hexadecimal digits.
fn hex4_value(id: &Vec<char>) -> (r: u16)
    requires
        id@.len() == 4,
        all_hex(id@),
    ensures
        r == hex_value(id@) as u16,
{
    let mut v: u32 = 0;
    let mut i: usize = 0;
    while i < 4
        invariant
            id@.len() == 4,
            all_hex(id@),
            i <= 4,
            v == hex_value(id@.take(i as int)),
            v < (if i == 0 {
                1int
            } else if i == 1 {
                16int
            } else if i == 2 {
                256int
            } else if i == 3 {
                4096int
            } else {
                65536int
            }),
        decreases 4 - i,
    {
        let c = id[i];
        let d: u32 = if '0' <= c && c <= '9' {
            (c as u32) - ('0' as u32)
        } else if 'a' <= c && c <= 'f' {
            (c as u32) - ('a' as u32) + 10
        } else {
            (c as u32) - ('A' as u32) + 10
        };
        assert(id@.take(i as int + 1).drop_last() == id@.take(i as int));
        assert(is_hex(id@[i as int]));
        assert(d < 16);
        v = v * 16 + d;
        i = i + 1;
    }
    assert(id@.take(4) == id@);
    v as u16
}

impl UsbIds {
    /// An empty index: what a missing file gives.
    pub fn new() -> (r: Self)
        ensures
            r@.vendors == Map::<u16, Seq<char>>::empty(),
            r@.products == Map::<u32, Seq<char>>::empty(),
    {
        let r = UsbIds { vendors: HashMap::new(), products: HashMap::new() };
        assert(r@.vendors =~= Map::<u16, Seq<char>>::empty());
        assert(r@.products =~= Map::<u32, Seq<char>>::empty());
        r
    }

    /// Indexes the text of `usb.ids`.
    pub fn parse(text: &str) -> (r: Self)
        ensures
            r@.vendors == parsed(text@).vendors,
            r@.products == parsed(text@).products,
    {
        let chars = chars_of(text);
        let pieces = split_vec(&chars, '\n');
        let ghost lines = split_seq(text@, '\n');
        let mut ids = UsbIds::new();
        let mut vendor: Option<u16> = None;
        let n = pieces.len();
        let mut i: usize = 0;
        while i < n
            invariant
                n == pieces@.len(),
                n == lines.len(),
                forall|k: int| 0 <= k < n ==> (#[trigger] pieces@[k])@ == lines[k],
                i <= n,
                ids@.vendors == steps(lines.take(i as int)).vendors,
                ids@.products == steps(lines.take(i as int)).products,
                vendor == steps(lines.take(i as int)).vendor,
            decreases n - i,
        {
            let ghost st = steps(lines.take(i as int));
            assert(lines.take(i as int + 1).drop_last() == lines.take(i as int));
            let piece = &pieces[i];
            let line: Vec<char> = if piece.len() > 0 && piece[piece.len() - 1] == '\r' {
                sub_vec(piece, 0, piece.len() - 1)
            } else {
                piece.clone()
            };
            assert(line@ == line_text(lines[i as int]));
            if line.len() == 0 || line[0] == '#' {
            } else if line.len() >= 2 && line[0] == '\t' && line[1] == '\t' {
                assert(starts_with(line@, seq!['\t', '\t'])) by {
                    assert(line@.take(2) =~= seq!['\t', '\t']);
                }
            } else if line[0] == '\t' {
                assert(!starts_with(line@, seq!['\t', '\t']));
                match vendor {
                    Some(v) => {
                        let rest = sub_vec(&line, 1, line.len());
                        assert(rest@ =~= line@.drop_first());
                        match split_entry(&rest) {
                            Some((id, name)) => {
                                let key = product_key_of(v, id);
                                let ghost before = ids@.products;
                                ids.products.insert(key, string_of(&name));
                                assert(ids@.products =~= before.insert(product_key(v, id), name@));
                            },
                            None => {},
                        }
                    },
                    None => {},
                }
            } else {
                assert(!starts_with(line@, seq!['\t', '\t']));
                match split_entry(&line) {
                    Some((id, name)) => {
                        vendor = Some(id);
                        let ghost before = ids@.vendors;
                        ids.vendors.insert(id, string_of(&name));
                        assert(ids@.vendors =~= before.insert(id, name@));
                    },
                    None => {
                        vendor = None;
                    },
                }
            }
            i = i + 1;
        }
        assert(lines.take(n as int) == lines);
        ids
    }

    pub fn vendor(&self, vid: u16) -> (r: Option<&str>)
        ensures
            r.is_some() == self@.vendors.contains_key(vid),
            r.is_some() ==> r.unwrap()@ == self@.vendors[vid],
    {
        match self.vendors.get(&vid) {
            Some(s) => Some(s.as_str()),
            None => None,
        }
    }

    pub fn product(&self, vid: u16, pid: u16) -> (r: Option<&str>)
        ensures
            r.is_some() == self@.products.contains_key(product_key(vid, pid)),
            r.is_some() ==> r.unwrap()@ == self@.products[product_key(vid, pid)],
    {
        let key = product_key_of(vid, pid);
        match self.products.get(&key) {
            Some(s) => Some(s.as_str()),
            None => None,
        }
    }

    pub fn is_empty(&self) -> (r: bool)
        ensures
            r == self@.vendors.is_empty(),
    {
        let r = self.vendors.is_empty();
        assert(self.vendors@.is_empty() == self@.vendors.is_empty()) by {
            if !self.vendors@.is_empty() {
                let k = choose|k: u16| self.vendors@.contains_key(k);
                assert(self@.vendors.contains_key(k));
            }
            if !self@.vendors.is_empty() {
                let k = choose|k: u16| self@.vendors.contains_key(k);
                assert(self.vendors@.contains_key(k));
            }
        }
        r
    }

    /// How many vendors are indexed.
    pub fn vendor_count(&self) -> (r: usize)
        ensures
            r == self@.vendors.len(),
    {
        assert(self@.vendors.dom() =~= self.vendors@.dom());
        self.vendors.len()
    }

    /// How many products are indexed.
    pub fn product_count(&self) -> (r: usize)
        ensures
            r == self@.products.len(),
    {
        assert(self@.products.dom() =~= self.products@.dom());
        self.products.len()
    }
}

} // verus!
