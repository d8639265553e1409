//! Handing a folder or a web page to Windows to open.
//!
//! Only two kinds of thing are ever opened: a folder that exists, and an
//! `https` address. Anything else is refused before Windows sees it. Opening
//! it is the caller's business.
use vstd::prelude::*;

use crate::disk::is_dir;
use crate::text::{push_str, starts_with, str_string};

verus! {

/// Why something was not opened.
#[derive(Debug, Clone, PartialEq, Eq)]
pub enum OpenRefused {
    /// Only `https` addresses are opened.
    NotHttps(String),
    /// The path is not a folder.
    NotAFolder(String),
}

impl OpenRefused {
    pub open spec fn message_spec(&self) -> Seq<char> {
        match self {
            OpenRefused::NotHttps(a) => "refusing to open "@ + a@ + ": only https is opened"@,
            OpenRefused::NotAFolder(p) => p@ + " is not a folder"@,
        }
    }

    /// What the refusal says.
    pub fn message(&self) -> (r: String)
        ensures
            r@ == self.message_spec(),
    {
        match self {
            OpenRefused::NotHttps(a) => {
                let mut m = str_string("refusing to open ");
                push_str(&mut m, a.as_str());
                push_str(&mut m, ": only https is opened");
                m
            },
            OpenRefused::NotAFolder(p) => {
                let mut m = p.clone();
                push_str(&mut m, " is not a folder");
                m
            },
        }
    }
}

/// The folder to open, when `path` is one. Whether it is, the disk says.
pub fn folder(path: &str) -> (r: Result<String, OpenRefused>)
    ensures
        match r {
            Ok(p) => p@ == path@,
            Err(e) => e matches OpenRefused::NotAFolder(p) && p@ == path@,
        },
{
    if !is_dir(path) {
        return Err(OpenRefused::NotAFolder(str_string(path)));
    }
    Ok(str_string(path))
}

/// The address to open, when it is an `https` one.
pub fn url(address: &str) -> (r: Result<String, OpenRefused>)
    ensures
        starts_with(address@, "https://"@) ==> (r matches Ok(a) && a@ == address@),
        !starts_with(address@, "https://"@) ==> (r matches Err(OpenRefused::NotHttps(a)) && a@ == address@),
{
    let text = address;
    let prefix = "https://";
    proof {
        reveal_strlit("https://");
    }
    let chars = crate::text::chars_of(text);
    let p = crate::text::chars_of(prefix);
    if !crate::text::starts_with_vec(&chars, &p) {
        return Err(OpenRefused::NotHttps(str_string(address)));
    }
    Ok(str_string(address))
}

} // verus!
