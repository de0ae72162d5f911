//! Turning source scripts and style sheets into minified assets named by a
//! hash of their source: `<stem>-<sha256 hex>.min.js` or `.min.css`.
use vstd::prelude::*;
use vstd::string::*;
use crate::assets::{AssetContent, AssetType};
use crate::minify::{minified_css, minify_css, minify_js};
use crate::text::{chars_of, occurs_at, push_char};

verus! {

/// The SHA-256 digest of `data`.
pub uninterp spec fn sha256_of(data: Seq<u8>) -> Seq<u8>;

/// Relies on `sha2::Sha256::digest`: the SHA-256 digest of the bytes, which
/// is 32 bytes long.
#[verifier::external_body]
fn sha256_digest(data: &[u8]) -> (r: Vec<u8>)
    ensures
        r@ == sha256_of(data@),
        r@.len() == 32,
{
    <sha2::Sha256 as sha2::Digest>::digest(data).to_vec()
}

pub open spec fn hex_digit(n: int) -> char {
    if n < 10 {
        (48 + n) as char
    } else {
        (87 + n) as char
    }
}

/// Two lowercase hexadecimal digits per byte, most significant first.
pub open spec fn hex_lower(b: Seq<u8>) -> Seq<char>
    decreases b.len(),
{
    if b.len() == 0 {
        Seq::empty()
    } else {
        hex_lower(b.drop_last()) + seq![hex_digit(b.last() as int / 16), hex_digit(b.last() as int % 16)]
    }
}

fn hex_char(n: u8) -> (r: char)
    requires
        n < 16,
    ensures
        r == hex_digit(n as int),
{
    if n < 10 {
        (48u8 + n) as char
    } else {
        (87u8 + n) as char
    }
}

/// The hash that names a minified asset: the lowercase hex SHA-256 digest
/// of the source text's UTF-8 bytes.
pub fn calculate_hash(content: &str) -> (r: String)
    ensures
        r@ == hex_lower(sha256_of(content.spec_bytes())),
{
    let digest = sha256_digest(content.as_bytes());
    let mut r = String::new();
    let mut i: usize = 0;
    while i < digest.len()
        invariant
            i <= digest.len(),
            r@ == hex_lower(digest@.take(i as int)),
        decreases digest.len() - i,
    {
        let b = digest[i];
        push_char(&mut r, hex_char(b / 16));
        push_char(&mut r, hex_char(b % 16));
        proof {
            assert(digest@.take(i + 1).drop_last() == digest@.take(i as int));
            assert(digest@.take(i + 1).last() == b);
        }
        i = i + 1;
    }
    proof {
        assert(digest@.take(i as int) == digest@);
    }
    r
}

/// The index of the last `.` in `s`, or -1.
pub open spec fn last_dot(s: Seq<char>) -> int
    decreases s.len(),
{
    if s.len() == 0 {
        -1
    } else if s.last() == '.' {
        s.len() - 1
    } else {
        last_dot(s.drop_last())
    }
}

/// The extension of a file name, as `Path::extension` gives it: the text
/// after the last dot, unless the name has no dot or its only dot leads.
pub open spec fn extension(name: Seq<char>) -> Option<Seq<char>> {
    if last_dot(name) <= 0 {
        None
    } else {
        Some(name.skip(last_dot(name) + 1))
    }
}

/// Whether `pat` occurs somewhere in `s`.
pub open spec fn contains_text(s: Seq<char>, pat: Seq<char>) -> bool {
    exists|i: int| 0 <= i <= s.len() - pat.len() && #[trigger] s.skip(i).take(pat.len() as int) == pat
}

pub open spec fn lower_ascii(c: char) -> char {
    if 'A' <= c <= 'Z' {
        ((c as u32) + 32) as char
    } else {
        c
    }
}

/// Whether `s` lowercases to `lower` (an ASCII lowercase word; no other
/// character lowercases into one).
pub open spec fn lowercases_to(s: Seq<char>, lower: Seq<char>) -> bool {
    s.len() == lower.len() && forall|i: int| 0 <= i < s.len() ==> lower_ascii(#[trigger] s[i]) == lower[i]
}

/// The kind of a source file to minify: a `js` or `css` extension (in any
/// case), with names that contain `.min.` or `-` (already minified or
/// hashed) passed over.
pub open spec fn source_kind(name: Seq<char>) -> Option<AssetType> {
    if contains_text(name, ".min."@) || name.contains('-') {
        None
    } else {
        match extension(name) {
            Some(e) => if lowercases_to(e, "js"@) {
                Some(AssetType::JavaScript)
            } else if lowercases_to(e, "css"@) {
                Some(AssetType::CSS)
            } else {
                None
            },
            None => None,
        }
    }
}

fn find_last_dot(s: &Vec<char>) -> (r: Option<usize>)
    ensures
        match r {
            Some(k) => k == last_dot(s@) && k < s.len(),
            None => last_dot(s@) == -1,
        },
{
    let mut i: usize = s.len();
    assert(s@.take(i as int) == s@);
    while i > 0
        invariant
            i <= s.len(),
            last_dot(s@) == last_dot(s@.take(i as int)),
        decreases i,
    {
        assert(s@.take(i as int).drop_last() == s@.take(i - 1));
        assert(s@.take(i as int).last() == s@[i - 1]);
        if s[i - 1] == '.' {
            assert(s@.take(i as int).last() == '.');
            return Some(i - 1);
        }
        i = i - 1;
    }
    None
}

fn contains_chars(s: &Vec<char>, pat: &Vec<char>) -> (r: bool)
    ensures
        r == contains_text(s@, pat@),
{
    if pat.len() > s.len() {
        return false;
    }
    if pat.len() == 0 {
        assert(s@.skip(0).take(0) == pat@);
        return true;
    }
    let mut i: usize = 0;
    while i < s.len() - pat.len() + 1
        invariant
            1 <= pat.len() <= s.len(),
            i <= s.len() - pat.len() + 1,
            forall|j: int| 0 <= j < i ==> #[trigger] s@.skip(j).take(pat.len() as int) != pat@,
        decreases s.len() - pat.len() + 1 - i,
    {
        if occurs_at(s, i, pat) {
            return true;
        }
        i = i + 1;
    }
    false
}

fn lowercases_to_word(s: &Vec<char>, from: usize, lower: &str) -> (r: bool)
    requires
        from <= s.len(),
    ensures
        r == lowercases_to(s@.skip(from as int), lower@),
{
    let w = chars_of(lower);
    let t = s.len() - from;
    if t != w.len() {
        return false;
    }
    let mut k: usize = 0;
    while k < t
        invariant
            k <= t,
            t == s.len() - from,
            t == w.len(),
            w@ == lower@,
            forall|j: int| 0 <= j < k ==> lower_ascii(#[trigger] s@.skip(from as int)[j]) == w@[j],
        decreases t - k,
    {
        let c = s[from + k];
        let lc = if 'A' <= c && c <= 'Z' {
            ((c as u8) + 32) as char
        } else {
            c
        };
        assert(s@.skip(from as int)[k as int] == c);
        if lc != w[k] {
            return false;
        }
        k = k + 1;
    }
    true
}

/// The kind of a source file to minify, by its name (see `source_kind`).
pub fn static_asset_kind(file_name: &str) -> (r: Option<AssetType>)
    ensures
        r == source_kind(file_name@),
{
    let name = chars_of(file_name);
    let min = chars_of(".min.");
    if contains_chars(&name, &min) {
        return None;
    }
    let mut k: usize = 0;
    while k < name.len()
        invariant
            k <= name.len(),
            name@ == file_name@,
            forall|j: int| 0 <= j < k ==> name@[j] != '-',
        decreases name.len() - k,
    {
        if name[k] == '-' {
            assert(file_name@[k as int] == '-');
            assert(file_name@.contains('-'));
            return None;
        }
        k = k + 1;
    }
    assert(!file_name@.contains('-')) by {
        if file_name@.contains('-') {
            let j = choose|j: int| 0 <= j < file_name@.len() && file_name@[j] == '-';
            assert(name@[j] == '-');
        }
    }
    let from = match find_last_dot(&name) {
        Some(d) if d > 0 => d + 1,
        _ => {
            return None;
        },
    };
    if lowercases_to_word(&name, from, "js") {
        Some(AssetType::JavaScript)
    } else if lowercases_to_word(&name, from, "css") {
        Some(AssetType::CSS)
    } else {
        None
    }
}

/// The name under which a minified source file is written:
/// `<stem>-<hash>.min.js` or `<stem>-<hash>.min.css`, by the extension;
/// no name for other files.
pub open spec fn minified_name(name: Seq<char>, hash: Seq<char>) -> Option<Seq<char>> {
    match extension(name) {
        Some(e) => if lowercases_to(e, "js"@) {
            Some(name.take(last_dot(name)) + "-"@ + hash + ".min.js"@)
        } else if lowercases_to(e, "css"@) {
            Some(name.take(last_dot(name)) + "-"@ + hash + ".min.css"@)
        } else {
            None
        },
        None => None,
    }
}

/// The name under which the minified form of `file_name` is written (see
/// `minified_name`).
pub fn minified_file_name(file_name: &str, hash: &str) -> (r: Option<String>)
    ensures
        match (r, minified_name(file_name@, hash@)) {
            (Some(n), Some(m)) => n@ == m,
            (None, None) => true,
            _ => false,
        },
{
    let name = chars_of(file_name);
    let d = match find_last_dot(&name) {
        Some(d) if d > 0 => d,
        _ => {
            return None;
        },
    };
    let js = lowercases_to_word(&name, d + 1, "js");
    let css = lowercases_to_word(&name, d + 1, "css");
    if !js && !css {
        return None;
    }
    let mut r = String::new();
    let mut i: usize = 0;
    while i < d
        invariant
            i <= d,
            d < name.len(),
            r@ == name@.take(i as int),
        decreases d - i,
    {
        push_char(&mut r, name[i]);
        proof {
            assert(name@.take(i + 1) == name@.take(i as int).push(name@[i as int]));
        }
        i = i + 1;
    }
    r.append("-");
    r.append(hash);
    if js {
        r.append(".min.js");
    } else {
        r.append(".min.css");
    }
    Some(r)
}

/// The processed form of a source file of the given kind: scripts are kept
/// as they are, style sheets minified.
pub fn process_asset(content: &str, asset_type: AssetType) -> (r: AssetContent)
    ensures
        r.asset_type == asset_type,
        r.content@ == match asset_type {
            AssetType::JavaScript => content@,
            AssetType::CSS => minified_css(content@),
        },
{
    let minified = match asset_type {
        AssetType::JavaScript => minify_js(content),
        AssetType::CSS => minify_css(content),
    };
    AssetContent { content: minified, asset_type }
}

} // verus!
