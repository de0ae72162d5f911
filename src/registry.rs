//! The version registry: the ordered set of known releases, the store that
//! holds it with the current and latest release, and the reconciliation pass
//! that merges what the remote registry reports into it.
use vstd::prelude::*;
use crate::version::{key_lt, parse_version, version_key, version_key_less};

verus! {

/// One published release and the integrity descriptor of its artifact.
#[derive(Clone, Debug)]
pub struct VersionInfo {
    pub version: String,
    pub sri_hash: String,
}

/// The mathematical value of a `VersionInfo`.
pub struct VersionEntry {
    pub version: Seq<char>,
    pub sri_hash: Seq<char>,
}

impl View for VersionInfo {
    type V = VersionEntry;

    open spec fn view(&self) -> VersionEntry {
        VersionEntry { version: self.version@, sri_hash: self.sri_hash@ }
    }
}

impl VersionInfo {
    /// The "not yet known" record: empty version and empty hash.
    pub fn placeholder() -> (r: VersionInfo)
        ensures
            r@ == placeholder_entry(),
    {
        VersionInfo { version: String::new(), sri_hash: String::new() }
    }

    /// An owned copy.
    pub fn snapshot(&self) -> (r: VersionInfo)
        ensures
            r@ == self@,
    {
        VersionInfo { version: self.version.clone(), sri_hash: self.sri_hash.clone() }
    }
}

pub open spec fn placeholder_entry() -> VersionEntry {
    VersionEntry { version: Seq::empty(), sri_hash: Seq::empty() }
}

/// The values of a list of records.
pub open spec fn entries(v: Seq<VersionInfo>) -> Seq<VersionEntry> {
    v.map_values(|x: VersionInfo| x@)
}

pub open spec fn entry_key(e: VersionEntry) -> (u32, u32, u32) {
    version_key(e.version)
}

/// Descending precedence: no entry ranks below a later one.
pub open spec fn sorted_desc(s: Seq<VersionEntry>) -> bool {
    forall|i: int, j: int|
        0 <= i < j < s.len() ==> !key_lt(#[trigger] entry_key(s[i]), #[trigger] entry_key(s[j]))
}

/// No two entries share a version string.
pub open spec fn unique_versions(s: Seq<VersionEntry>) -> bool {
    forall|i: int, j: int|
        0 <= i < j < s.len() ==> (#[trigger] s[i]).version != (#[trigger] s[j]).version
}

/// The invariant of a version set.
pub open spec fn well_formed_set(s: Seq<VersionEntry>) -> bool {
    sorted_desc(s) && unique_versions(s)
}

pub open spec fn has_version(s: Seq<VersionEntry>, v: Seq<char>) -> bool {
    exists|i: int| 0 <= i < s.len() && (#[trigger] s[i]).version == v
}

/// Where an entry with key `k` goes: before the first entry that ranks
/// strictly below it.
pub open spec fn insert_index(s: Seq<VersionEntry>, k: (u32, u32, u32)) -> int
    decreases s.len(),
{
    if s.len() == 0 {
        0
    } else if key_lt(entry_key(s[0]), k) {
        0
    } else {
        1 + insert_index(s.skip(1), k)
    }
}

pub open spec fn sorted_insert(s: Seq<VersionEntry>, e: VersionEntry) -> Seq<VersionEntry> {
    s.insert(insert_index(s, entry_key(e)), e)
}

/// Adds `e` in order unless its version is already present.
pub open spec fn insert_new(s: Seq<VersionEntry>, e: VersionEntry) -> Seq<VersionEntry> {
    if has_version(s, e.version) {
        s
    } else {
        sorted_insert(s, e)
    }
}

proof fn lemma_key_lt_transitive(a: (u32, u32, u32), b: (u32, u32, u32), c: (u32, u32, u32))
    ensures
        key_lt(a, b) && key_lt(b, c) ==> key_lt(a, c),
        !key_lt(a, b) && !key_lt(b, c) ==> !key_lt(a, c),
        !key_lt(a, b) && key_lt(c, b) ==> key_lt(c, a),
{
}

proof fn lemma_insert_index(s: Seq<VersionEntry>, k: (u32, u32, u32))
    ensures
        0 <= insert_index(s, k) <= s.len(),
        forall|j: int| 0 <= j < insert_index(s, k) ==> !key_lt(#[trigger] entry_key(s[j]), k),
        insert_index(s, k) < s.len() ==> key_lt(entry_key(s[insert_index(s, k)]), k),
    decreases s.len(),
{
    if s.len() > 0 && !key_lt(entry_key(s[0]), k) {
        lemma_insert_index(s.skip(1), k);
        assert forall|j: int| 0 <= j < insert_index(s, k) implies !key_lt(
            #[trigger] entry_key(s[j]),
            k,
        ) by {
            if j > 0 {
                assert(s[j] == s.skip(1)[j - 1]);
            }
        }
        if insert_index(s, k) < s.len() {
            assert(s[insert_index(s, k)] == s.skip(1)[insert_index(s, k) - 1]);
        }
    }
}

/// Inserting in order keeps a set well formed.
pub proof fn lemma_sorted_insert_well_formed(s: Seq<VersionEntry>, e: VersionEntry)
    requires
        well_formed_set(s),
        !has_version(s, e.version),
    ensures
        well_formed_set(sorted_insert(s, e)),
        sorted_insert(s, e).len() == s.len() + 1,
        has_version(sorted_insert(s, e), e.version),
        forall|v: Seq<char>|
            has_version(sorted_insert(s, e), v) <==> (has_version(s, v) || v == e.version),
{
    let k = entry_key(e);
    let p = insert_index(s, k);
    lemma_insert_index(s, k);
    let r = sorted_insert(s, e);
    assert(r.len() == s.len() + 1);
    assert forall|i: int| 0 <= i < r.len() implies #[trigger] r[i] == (if i < p {
        s[i]
    } else if i == p {
        e
    } else {
        s[i - 1]
    }) by {}
    assert forall|i: int, j: int| 0 <= i < j < r.len() implies !key_lt(
        #[trigger] entry_key(r[i]),
        #[trigger] entry_key(r[j]),
    ) by {
        if i == p {
            lemma_key_lt_transitive(entry_key(s[j - 1]), entry_key(s[p]), k);
        } else if j == p {
        } else if i < p && j > p {
            lemma_key_lt_transitive(entry_key(s[i]), k, entry_key(s[j - 1]));
            assert(!key_lt(entry_key(s[i]), entry_key(s[j - 1])));
        }
    }
    assert forall|i: int, j: int| 0 <= i < j < r.len() implies (#[trigger] r[i]).version != (
    #[trigger] r[j]).version by {
        if i == p {
            assert(s[j - 1].version == r[j].version);
        } else if j == p {
            assert(s[i].version == r[i].version);
        }
    }
    assert(r[p] == e);
    assert forall|v: Seq<char>| has_version(r, v) <==> (has_version(s, v) || v == e.version) by {
        if has_version(r, v) {
            let i = choose|i: int| 0 <= i < r.len() && (#[trigger] r[i]).version == v;
            if i < p {
                assert(s[i].version == v);
            } else if i > p {
                assert(s[i - 1].version == v);
            }
        }
        if has_version(s, v) {
            let i = choose|i: int| 0 <= i < s.len() && (#[trigger] s[i]).version == v;
            if i < p {
                assert(r[i].version == v);
            } else {
                assert(r[i + 1].version == v);
            }
        }
    }
}

/// The position of the record for version `v`, if the list has one.
pub fn find_version(set: &Vec<VersionInfo>, v: &String) -> (r: Option<usize>)
    ensures
        r is None <==> !has_version(entries(set@), v@),
        r matches Some(i) ==> i < set.len() && set@[i as int].version@ == v@ && forall|j: int|
            0 <= j < i ==> (#[trigger] set@[j]).version@ != v@,
{
    let mut i: usize = 0;
    while i < set.len()
        invariant
            i <= set.len(),
            forall|j: int| 0 <= j < i ==> (#[trigger] set@[j]).version@ != v@,
        decreases set.len() - i,
    {
        if set[i].version == *v {
            assert(entries(set@)[i as int].version == v@);
            return Some(i);
        }
        i = i + 1;
    }
    proof {
        if has_version(entries(set@), v@) {
            let j = choose|j: int|
                0 <= j < entries(set@).len() && (#[trigger] entries(set@)[j]).version == v@;
            assert(set@[j].version@ == v@);
        }
    }
    None
}

/// The hash recorded for version `v` by the first entry of `f` that has it.
pub open spec fn lookup_hash(f: Seq<VersionEntry>, v: Seq<char>) -> Option<Seq<char>>
    decreases f.len(),
{
    if f.len() == 0 {
        None
    } else if f[0].version == v {
        Some(f[0].sri_hash)
    } else {
        lookup_hash(f.skip(1), v)
    }
}

pub proof fn lemma_lookup_hash(f: Seq<VersionEntry>, v: Seq<char>, i: int)
    requires
        0 <= i <= f.len(),
        forall|j: int| 0 <= j < i ==> (#[trigger] f[j]).version != v,
        i < f.len() ==> f[i].version == v,
    ensures
        lookup_hash(f, v) == (if i < f.len() {
            Some(f[i].sri_hash)
        } else {
            None::<Seq<char>>
        }),
    decreases f.len(),
{
    if f.len() > 0 && i > 0 {
        assert forall|j: int| 0 <= j < i - 1 implies (#[trigger] f.skip(1)[j]).version != v by {
            assert(f.skip(1)[j] == f[j + 1]);
        }
        lemma_lookup_hash(f.skip(1), v, i - 1);
    }
}

/// Whether a list of records is a well-formed version set.
pub fn is_well_formed_set(set: &Vec<VersionInfo>) -> (r: bool)
    ensures
        r == well_formed_set(entries(set@)),
{
    let ghost s = entries(set@);
    let n = set.len();
    let mut i: usize = 0;
    while i < n
        invariant
            i <= n,
            n == set.len(),
            s == entries(set@),
            forall|a: int, b: int|
                0 <= a < b < n && a < i ==> !key_lt(#[trigger] entry_key(s[a]), #[trigger] entry_key(s[b])),
            forall|a: int, b: int|
                0 <= a < b < n && a < i ==> (#[trigger] s[a]).version != (#[trigger] s[b]).version,
        decreases n - i,
    {
        let ki = parse_version(set[i].version.as_str());
        let mut j: usize = i + 1;
        while j < n
            invariant
                i < j <= n,
                n == set.len(),
                s == entries(set@),
                ki == entry_key(s[i as int]),
                forall|b: int| i < b < j ==> !key_lt(ki, #[trigger] entry_key(s[b])),
                forall|b: int| i < b < j ==> s[i as int].version != (#[trigger] s[b]).version,
            decreases n - j,
        {
            let kj = parse_version(set[j].version.as_str());
            if version_key_less(ki, kj) || set[i].version == set[j].version {
                proof {
                    assert(s[j as int].version == set@[j as int].version@);
                    assert(s[i as int].version == set@[i as int].version@);
                    assert(key_lt(entry_key(s[i as int]), entry_key(s[j as int])) || s[i as int].version
                        == s[j as int].version);
                }
                return false;
            }
            j = j + 1;
        }
        i = i + 1;
    }
    true
}

/// Inserts `info` into a well-formed set at its place in descending order.
pub fn insert_sorted(set: &mut Vec<VersionInfo>, info: VersionInfo)
    requires
        sorted_desc(entries(old(set)@)),
    ensures
        entries(final(set)@) == sorted_insert(entries(old(set)@), info@),
{
    let ghost s = entries(set@);
    let k = parse_version(info.version.as_str());
    let mut i: usize = 0;
    let mut found = false;
    assert(s.skip(0) == s);
    while !found && i < set.len()
        invariant
            i <= set.len(),
            s == entries(set@),
            k == entry_key(info@),
            insert_index(s, k) == i + insert_index(s.skip(i as int), k),
            found ==> i < set.len() && key_lt(entry_key(s[i as int]), k),
        decreases set.len() - i + (if found { 0int } else { 1int }),
    {
        let ki = parse_version(set[i].version.as_str());
        assert(s.skip(i as int)[0] == s[i as int]);
        assert(s.skip(i as int).skip(1) == s.skip(i + 1));
        if version_key_less(ki, k) {
            found = true;
        } else {
            i = i + 1;
        }
    }
    proof {
        if found {
            assert(s.skip(i as int)[0] == s[i as int]);
        }
    }
    set.insert(i, info);
    proof {
        assert(entries(set@) == s.insert(i as int, info@));
    }
}

} // verus!
