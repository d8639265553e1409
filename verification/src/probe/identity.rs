//! Identity key formatting.
//!
//! Keys follow the `<variant>-<unique-id>` shape. They are persistence keys:
//! the formatting is deterministic and must not change after a release, since
//! a changed rule would orphan every stored device.
use vstd::prelude::*;

use crate::text::{
    chars_of, is_alnum, is_alnum_char, lower, lower_char, lower_seq, lower_vec, starts_with,
    dec_text, push_str, string_of, str_string, u32_string,
};

verus! {

/// The shortest unique id worth storing. Anything shorter is more likely to
/// collide than to identify.
pub const MIN_UNIQUE_ID_LEN: usize = 6;

#[derive(Debug, Clone, PartialEq, Eq)]
pub enum IdentityKeyError {
    /// The unique id had fewer than [`MIN_UNIQUE_ID_LEN`] usable characters.
    UniqueIdTooShort { got: String },
    /// The variant name was empty once normalised.
    EmptyVariant,
}

/// Names what `format!("{:?}", s)` writes for a string: the text in double
/// quotes, with the escapes `str`'s `Debug` uses.
pub uninterp spec fn debug_quoted(s: Seq<char>) -> Seq<char>;

/// `<str as Debug>::fmt`, through `format!`: a function of the text alone.
#[verifier::external_body]
fn debug_text(s: &str) -> (r: String)
    ensures
        r@ == debug_quoted(s@),
{
    format!("{:?}", s)
}

impl IdentityKeyError {
    pub open spec fn message_spec(&self) -> Seq<char> {
        match self {
            IdentityKeyError::UniqueIdTooShort { got } => "unique id "@ + debug_quoted(got@)
                + " has fewer than "@ + dec_text(MIN_UNIQUE_ID_LEN as nat) + " usable characters"@,
            IdentityKeyError::EmptyVariant => "variant name is empty"@,
        }
    }

    /// What the error says.
    pub fn message(&self) -> (r: String)
        ensures
            r@ == self.message_spec(),
    {
        match self {
            IdentityKeyError::UniqueIdTooShort { got } => {
                let mut m = str_string("unique id ");
                push_str(&mut m, debug_text(got.as_str()).as_str());
                push_str(&mut m, " has fewer than ");
                push_str(&mut m, u32_string(MIN_UNIQUE_ID_LEN as u32).as_str());
                push_str(&mut m, " usable characters");
                m
            },
            IdentityKeyError::EmptyVariant => str_string("variant name is empty"),
        }
    }
}

/// The variant with every run of other characters turned into one `-`,
/// before the ends are trimmed.
pub open spec fn variant_dashed(s: Seq<char>) -> Seq<char>
    decreases s.len(),
{
    if s.len() == 0 {
        Seq::empty()
    } else {
        let out = variant_dashed(s.drop_last());
        let c = s.last();
        if is_alnum(c) {
            out.push(lower(c))
        } else if out.len() > 0 && out.last() == '-' {
            out
        } else {
            out.push('-')
        }
    }
}

pub open spec fn trim_start_dashes(s: Seq<char>) -> Seq<char>
    decreases s.len(),
{
    if s.len() > 0 && s[0] == '-' {
        trim_start_dashes(s.drop_first())
    } else {
        s
    }
}

pub open spec fn trim_end_dashes(s: Seq<char>) -> Seq<char>
    decreases s.len(),
{
    if s.len() > 0 && s.last() == '-' {
        trim_end_dashes(s.drop_last())
    } else {
        s
    }
}

/// Lowercase ASCII, `-` as the only separator, no leading or trailing
/// separator.
pub open spec fn normalized_variant(s: Seq<char>) -> Seq<char> {
    trim_end_dashes(trim_start_dashes(variant_dashed(s)))
}

/// Lowercase ASCII alphanumerics only; separators such as the colons of a MAC
/// address are dropped.
pub open spec fn normalized_unique_id(s: Seq<char>) -> Seq<char>
    decreases s.len(),
{
    if s.len() == 0 {
        Seq::empty()
    } else if is_alnum(s.last()) {
        normalized_unique_id(s.drop_last()).push(lower(s.last()))
    } else {
        normalized_unique_id(s.drop_last())
    }
}

/// The key for a variant and a unique id: `<variant>-<unique>`.
pub open spec fn key_text(variant: Seq<char>, unique_id: Seq<char>) -> Seq<char> {
    normalized_variant(variant) + seq!['-'] + normalized_unique_id(unique_id)
}

/// Whether a key can be built: a variant that survives normalising and a
/// unique id of at least [`MIN_UNIQUE_ID_LEN`] usable characters.
pub open spec fn key_possible(variant: Seq<char>, unique_id: Seq<char>) -> bool {
    normalized_variant(variant).len() > 0 && normalized_unique_id(unique_id).len() >= MIN_UNIQUE_ID_LEN
}

/// Characters a key may hold: lowercase ASCII letters, digits and `-`.
pub open spec fn key_char(c: char) -> bool {
    ('a' <= c && c <= 'z') || ('0' <= c && c <= '9') || c == '-'
}

proof fn lemma_lower_alnum(c: char)
    requires
        is_alnum(c),
    ensures
        key_char(lower(c)),
{
}

proof fn lemma_variant_dashed_chars(s: Seq<char>)
    ensures
        forall|i: int| 0 <= i < variant_dashed(s).len() ==> key_char(#[trigger] variant_dashed(s)[i]),
    decreases s.len(),
{
    if s.len() > 0 {
        lemma_variant_dashed_chars(s.drop_last());
        let out = variant_dashed(s.drop_last());
        let r = variant_dashed(s);
        if is_alnum(s.last()) {
            lemma_lower_alnum(s.last());
        }
        assert forall|i: int| 0 <= i < r.len() implies key_char(#[trigger] r[i]) by {
            if i < out.len() {
                assert(r[i] == out[i]);
            }
        }
    }
}

proof fn lemma_trim_dashes_chars(s: Seq<char>)
    requires
        forall|i: int| 0 <= i < s.len() ==> key_char(#[trigger] s[i]),
    ensures
        forall|i: int| 0 <= i < trim_start_dashes(s).len() ==> key_char(#[trigger] trim_start_dashes(s)[i]),
        forall|i: int| 0 <= i < trim_end_dashes(s).len() ==> key_char(#[trigger] trim_end_dashes(s)[i]),
    decreases s.len(),
{
    if s.len() > 0 {
        assert forall|i: int| 0 <= i < s.drop_first().len() implies key_char(#[trigger] s.drop_first()[i]) by {
            assert(s.drop_first()[i] == s[i + 1]);
        }
        assert forall|i: int| 0 <= i < s.drop_last().len() implies key_char(#[trigger] s.drop_last()[i]) by {
            assert(s.drop_last()[i] == s[i]);
        }
        lemma_trim_dashes_chars(s.drop_first());
        lemma_trim_dashes_chars(s.drop_last());
        let a = trim_start_dashes(s);
        let b = trim_end_dashes(s);
        assert forall|i: int| 0 <= i < a.len() implies key_char(#[trigger] a[i]) by {
            if s[0] == '-' {
                assert(a == trim_start_dashes(s.drop_first()));
                assert(key_char(trim_start_dashes(s.drop_first())[i]));
            } else {
                assert(a == s);
                assert(key_char(s[i]));
            }
        }
        assert forall|i: int| 0 <= i < b.len() implies key_char(#[trigger] b[i]) by {
            if s.last() == '-' {
                assert(b == trim_end_dashes(s.drop_last()));
                assert(key_char(trim_end_dashes(s.drop_last())[i]));
            } else {
                assert(b == s);
                assert(key_char(s[i]));
            }
        }
    }
}

proof fn lemma_unique_chars(s: Seq<char>)
    ensures
        forall|i: int| 0 <= i < normalized_unique_id(s).len() ==> key_char(#[trigger] normalized_unique_id(s)[i]),
    decreases s.len(),
{
    if s.len() > 0 {
        lemma_unique_chars(s.drop_last());
        let out = normalized_unique_id(s.drop_last());
        let r = normalized_unique_id(s);
        if is_alnum(s.last()) {
            lemma_lower_alnum(s.last());
        }
        assert forall|i: int| 0 <= i < r.len() implies key_char(#[trigger] r[i]) by {
            if i < out.len() {
                assert(r[i] == out[i]);
            }
        }
    }
}

/// A key holds only lowercase ASCII letters, digits and `-`: never a `/`, a
/// NUL or anything else a file name or a path could trip on.
pub proof fn keys_hold_only_safe_characters(variant: Seq<char>, unique_id: Seq<char>)
    ensures
        forall|i: int| 0 <= i < key_text(variant, unique_id).len() ==> key_char(#[trigger] key_text(variant, unique_id)[i]),
{
    lemma_variant_dashed_chars(variant);
    lemma_trim_dashes_chars(variant_dashed(variant));
    lemma_trim_dashes_chars(trim_start_dashes(variant_dashed(variant)));
    lemma_unique_chars(unique_id);
    let k = key_text(variant, unique_id);
    let v = normalized_variant(variant);
    let u = normalized_unique_id(unique_id);
    assert forall|i: int| 0 <= i < k.len() implies key_char(#[trigger] k[i]) by {
        if i < v.len() {
            assert(k[i] == v[i]);
        } else if i == v.len() {
            assert(k[i] == '-');
        } else {
            assert(k[i] == u[i - v.len() - 1]);
        }
    }
}

proof fn lemma_dashed_ignores_case(s: Seq<char>)
    ensures
        variant_dashed(lower_seq(s)) == variant_dashed(s),
    decreases s.len(),
{
    if s.len() > 0 {
        lemma_dashed_ignores_case(s.drop_last());
        assert(lower_seq(s).drop_last() =~= lower_seq(s.drop_last()));
    }
}

proof fn lemma_unique_ignores_case(s: Seq<char>)
    ensures
        normalized_unique_id(lower_seq(s)) == normalized_unique_id(s),
    decreases s.len(),
{
    if s.len() > 0 {
        lemma_unique_ignores_case(s.drop_last());
        assert(lower_seq(s).drop_last() =~= lower_seq(s.drop_last()));
    }
}

/// Keys do not depend on how the input was cased: `ESP32-S3` and `esp32-s3`,
/// `7C:DF` and `7c:df`, give the same key and the same verdict.
pub proof fn keys_ignore_case(variant: Seq<char>, unique_id: Seq<char>)
    ensures
        key_text(lower_seq(variant), lower_seq(unique_id)) == key_text(variant, unique_id),
        key_possible(lower_seq(variant), lower_seq(unique_id)) == key_possible(variant, unique_id),
{
    lemma_dashed_ignores_case(variant);
    lemma_unique_ignores_case(unique_id);
}

/// Builds an identity key from a chip variant and a unique id.
pub fn identity_key(variant: &str, unique_id: &str) -> (r: Result<String, IdentityKeyError>)
    ensures
        normalized_variant(variant@).len() == 0 ==> r == Err::<String, IdentityKeyError>(IdentityKeyError::EmptyVariant),
        normalized_variant(variant@).len() > 0 && normalized_unique_id(unique_id@).len() < MIN_UNIQUE_ID_LEN
            ==> (r matches Err(IdentityKeyError::UniqueIdTooShort { got }) && got@ == unique_id@),
        key_possible(variant@, unique_id@) ==> (r matches Ok(k) && k@ == key_text(variant@, unique_id@)),
{
    let v = normalize_variant(variant);
    if v.len() == 0 {
        return Err(IdentityKeyError::EmptyVariant);
    }
    let u = normalize_unique_id(unique_id);
    if u.len() < MIN_UNIQUE_ID_LEN {
        return Err(IdentityKeyError::UniqueIdTooShort { got: str_string(unique_id) });
    }
    let mut key = v;
    key.push('-');
    let n = u.len();
    let mut i: usize = 0;
    let ghost head = key@;
    while i < n
        invariant
            n == u@.len(),
            i <= n,
            key@ == head + u@.take(i as int),
        decreases n - i,
    {
        key.push(u[i]);
        assert(u@.take(i as int + 1) == u@.take(i as int).push(u@[i as int]));
        i = i + 1;
    }
    assert(u@.take(n as int) == u@);
    Ok(string_of(&key))
}

/// Lowercase ASCII, `-` as the only separator, no leading or trailing one.
pub fn normalize_variant(variant: &str) -> (r: Vec<char>)
    ensures
        r@ == normalized_variant(variant@),
{
    let s = chars_of(variant);
    let mut out: Vec<char> = Vec::new();
    let n = s.len();
    let mut i: usize = 0;
    while i < n
        invariant
            n == s@.len(),
            s@ == variant@,
            i <= n,
            out@ == variant_dashed(s@.take(i as int)),
        decreases n - i,
    {
        assert(s@.take(i as int + 1).drop_last() == s@.take(i as int));
        let c = s[i];
        if is_alnum_char(c) {
            out.push(lower_char(c));
        } else if !(out.len() > 0 && out[out.len() - 1] == '-') {
            out.push('-');
        }
        i = i + 1;
    }
    assert(s@.take(n as int) == s@);
    // Trim the dashes at either end.
    let m = out.len();
    let mut a: usize = 0;
    assert(out@.skip(0) == out@);
    while a < m && out[a] == '-'
        invariant
            m == out@.len(),
            a <= m,
            trim_start_dashes(out@) == trim_start_dashes(out@.skip(a as int)),
        decreases m - a,
    {
        assert(out@.skip(a as int).drop_first() == out@.skip(a as int + 1));
        a = a + 1;
    }
    let mut b: usize = m;
    let ghost mid = out@.skip(a as int);
    assert(mid == trim_start_dashes(out@)) by {
        if a < m {
            assert(out@.skip(a as int)[0] == out@[a as int]);
        }
    }
    assert(out@.subrange(a as int, m as int) == mid);
    while b > a && out[b - 1] == '-'
        invariant
            m == out@.len(),
            a <= b <= m,
            mid == out@.skip(a as int),
            trim_end_dashes(mid) == trim_end_dashes(out@.subrange(a as int, b as int)),
        decreases b - a,
    {
        assert(out@.subrange(a as int, b as int).drop_last() == out@.subrange(a as int, b as int - 1));
        b = b - 1;
    }
    let mut r: Vec<char> = Vec::new();
    let mut k: usize = a;
    while k < b
        invariant
            a <= k <= b,
            b <= m,
            m == out@.len(),
            r@ == out@.subrange(a as int, k as int),
        decreases b - k,
    {
        r.push(out[k]);
        assert(out@.subrange(a as int, k as int + 1) == out@.subrange(a as int, k as int).push(out@[k as int]));
        k = k + 1;
    }
    proof {
        let t = out@.subrange(a as int, b as int);
        if b > a {
            assert(t.last() == out@[b - 1]);
        }
        assert(trim_end_dashes(t) == t);
    }
    r
}

/// Lowercase ASCII alphanumerics only.
pub fn normalize_unique_id(unique_id: &str) -> (r: Vec<char>)
    ensures
        r@ == normalized_unique_id(unique_id@),
{
    let s = chars_of(unique_id);
    let mut out: Vec<char> = Vec::new();
    let n = s.len();
    let mut i: usize = 0;
    while i < n
        invariant
            n == s@.len(),
            s@ == unique_id@,
            i <= n,
            out@ == normalized_unique_id(s@.take(i as int)),
        decreases n - i,
    {
        assert(s@.take(i as int + 1).drop_last() == s@.take(i as int));
        let c = s[i];
        if is_alnum_char(c) {
            out.push(lower_char(c));
        }
        i = i + 1;
    }
    assert(s@.take(n as int) == s@);
    out
}

/// The series after `esp32`, with any dashes it starts with dropped.
pub open spec fn esp_series(lower: Seq<char>) -> Seq<char> {
    trim_start_dashes(lower.skip(5))
}

/// espflash's chip name in the variant form used here: a separator before
/// the series, so `esp32s3` becomes `esp32-s3`. A name that is not an
/// `esp32` part is left as it is, in lower case.
pub open spec fn esp_variant_spec(chip_name: Seq<char>) -> Seq<char> {
    let l = lower_seq(chip_name);
    if starts_with(l, seq!['e', 's', 'p', '3', '2']) && l.len() > 5 {
        seq!['e', 's', 'p', '3', '2', '-'] + esp_series(l)
    } else {
        l
    }
}

/// Turns espflash's chip name into the variant form.
pub fn esp_variant(chip_name: &str) -> (r: String)
    ensures
        r@ == esp_variant_spec(chip_name@),
{
    let l = lower_vec(&chars_of(chip_name));
    let prefixed = l.len() > 5 && l[0] == 'e' && l[1] == 's' && l[2] == 'p' && l[3] == '3' && l[4] == '2';
    proof {
        if l@.len() >= 5 {
            if prefixed {
                assert(l@.take(5) =~= seq!['e', 's', 'p', '3', '2']);
            } else if l@.len() > 5 {
                assert(l@.take(5)[0] == l@[0]);
                assert(l@.take(5)[1] == l@[1]);
                assert(l@.take(5)[2] == l@[2]);
                assert(l@.take(5)[3] == l@[3]);
                assert(l@.take(5)[4] == l@[4]);
            }
        }
    }
    if !prefixed {
        return string_of(&l);
    }
    let n = l.len();
    let mut a: usize = 5;
    assert(l@.skip(5) == l@.skip(5));
    while a < n && l[a] == '-'
        invariant
            n == l@.len(),
            5 <= a <= n,
            trim_start_dashes(l@.skip(5)) == trim_start_dashes(l@.skip(a as int)),
        decreases n - a,
    {
        assert(l@.skip(a as int).drop_first() == l@.skip(a as int + 1));
        assert(l@.skip(a as int)[0] == l@[a as int]);
        a = a + 1;
    }
    let mut out: Vec<char> = vec!['e', 's', 'p', '3', '2', '-'];
    let ghost head = out@;
    assert(head =~= seq!['e', 's', 'p', '3', '2', '-']);
    let mut k: usize = a;
    while k < n
        invariant
            n == l@.len(),
            a <= k <= n,
            out@ == head + l@.subrange(a as int, k as int),
        decreases n - k,
    {
        out.push(l[k]);
        assert(l@.subrange(a as int, k as int + 1) == l@.subrange(a as int, k as int).push(l@[k as int]));
        k = k + 1;
    }
    proof {
        assert(l@.subrange(a as int, n as int) == l@.skip(a as int));
        if a < n {
            assert(l@.skip(a as int)[0] == l@[a as int]);
        }
        assert(trim_start_dashes(l@.skip(a as int)) == l@.skip(a as int));
    }
    string_of(&out)
}

} // verus!
