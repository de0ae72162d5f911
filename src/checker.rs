//! The version store and the decisions of its refresh loop. The loop itself
//! (timers, network calls, locking) runs outside; it asks this store what to
//! fetch and hands back what it obtained.
use vstd::prelude::*;
use vstd::string::*;
use crate::integrity::{compute_integrity, integrity_of};
use crate::registry::{
    entries, find_version, has_version, insert_new, insert_sorted, lemma_lookup_hash,
    lemma_sorted_insert_well_formed, lookup_hash, placeholder_entry, sorted_insert,
    well_formed_set, is_well_formed_set, VersionEntry, VersionInfo,
};

verus! {

/// Suffix of the cache file's name, after the package name.
pub const CACHE_FILE_NAME: &'static str = "version_cache.json";

/// How many registry positions one reconciliation pass looks at.
pub const PASS_LIMIT: usize = 10;

/// The store a persisted version set restores: its first entry is the
/// current and latest release. Nothing is restored from an empty set or one
/// that is not a well-formed version set.
pub open spec fn restored(cached: Seq<VersionEntry>) -> Option<StoreState> {
    if cached.len() > 0 && well_formed_set(cached) {
        Some(StoreState { current: cached[0], latest: cached[0], versions: cached })
    } else {
        None
    }
}

/// Why the registry's version listing could not be had.
#[derive(Clone, Copy, Debug, PartialEq, Eq, Structural)]
pub enum RegistryError {
    RegistryUnreachable,
    MalformedResponse,
    NoVersionsFound,
}

/// The mathematical value of the store: the current and latest release and
/// the known version set.
pub struct StoreState {
    pub current: VersionEntry,
    pub latest: VersionEntry,
    pub versions: Seq<VersionEntry>,
}

/// The store's invariant: the set is ordered and free of duplicates, the
/// current and latest records agree, and the latest is either the
/// placeholder or a member of the set.
pub open spec fn store_invariant(st: StoreState) -> bool {
    &&& well_formed_set(st.versions)
    &&& st.current == st.latest
    &&& (st.latest == placeholder_entry() || has_version(st.versions, st.latest.version))
}

pub open spec fn empty_state() -> StoreState {
    StoreState { current: placeholder_entry(), latest: placeholder_entry(), versions: Seq::empty() }
}

pub open spec fn string_views(v: Seq<String>) -> Seq<Seq<char>> {
    v.map_values(|s: String| s@)
}

/// The number of registry positions a pass looks at.
pub open spec fn pass_window(n: nat) -> nat {
    if n < PASS_LIMIT {
        n
    } else {
        PASS_LIMIT as nat
    }
}

/// Whether position `i` of the listing asks for a fetch: the top position
/// when it differs from the latest release, any other when its version is
/// not yet known.
pub open spec fn wanted(st: StoreState, listing: Seq<Seq<char>>, i: int) -> bool {
    if i == 0 {
        listing[0] != st.latest.version
    } else {
        !has_version(st.versions, listing[i])
    }
}

/// The versions to fetch for the first `n` positions, each once, in order.
pub open spec fn plan_upto(st: StoreState, listing: Seq<Seq<char>>, n: nat) -> Seq<Seq<char>>
    decreases n,
{
    if n == 0 {
        Seq::empty()
    } else {
        let p = plan_upto(st, listing, (n - 1) as nat);
        let v = listing[n - 1];
        if wanted(st, listing, n - 1) && !p.contains(v) {
            p.push(v)
        } else {
            p
        }
    }
}

/// The versions whose artifacts a pass over `listing` fetches.
pub open spec fn fetch_plan(st: StoreState, listing: Seq<Seq<char>>) -> Seq<Seq<char>> {
    plan_upto(st, listing, pass_window(listing.len()))
}

/// What position `i` of the listing does to the store, given the hashes
/// that were obtained in this pass (`fetched`). A version whose fetch failed
/// has no entry there and is left for the next pass.
pub open spec fn pass_step(
    st: StoreState,
    listing: Seq<Seq<char>>,
    fetched: Seq<VersionEntry>,
    i: int,
) -> StoreState {
    let v = listing[i];
    match lookup_hash(fetched, v) {
        Some(h) => {
            let e = VersionEntry { version: v, sri_hash: h };
            if i == 0 {
                if v != st.latest.version {
                    StoreState { current: e, latest: e, versions: insert_new(st.versions, e) }
                } else {
                    st
                }
            } else if !has_version(st.versions, v) {
                StoreState { versions: sorted_insert(st.versions, e), ..st }
            } else {
                st
            }
        },
        None => st,
    }
}

pub open spec fn pass_upto(
    st: StoreState,
    listing: Seq<Seq<char>>,
    fetched: Seq<VersionEntry>,
    n: nat,
) -> StoreState
    decreases n,
{
    if n == 0 {
        st
    } else {
        pass_step(pass_upto(st, listing, fetched, (n - 1) as nat), listing, fetched, n - 1)
    }
}

/// The store after a reconciliation pass over `listing`.
pub open spec fn reconciled(
    st: StoreState,
    listing: Seq<Seq<char>>,
    fetched: Seq<VersionEntry>,
) -> StoreState {
    pass_upto(st, listing, fetched, pass_window(listing.len()))
}

/// The strings among the registry's `versions` entries, in order; entries
/// that are not strings are `None`.
pub open spec fn listed_strings(items: Seq<Option<String>>) -> Seq<Seq<char>>
    decreases items.len(),
{
    if items.len() == 0 {
        Seq::empty()
    } else {
        let rest = listed_strings(items.drop_last());
        match items.last() {
            Some(s) => rest.push(s@),
            None => rest,
        }
    }
}

pub open spec fn opt_view(o: Option<String>) -> Option<Seq<char>> {
    match o {
        Some(s) => Some(s@),
        None => None,
    }
}

/// The listing a registry document yields: its version strings, then the
/// `latest` tag when the strings lack it; no listing when both are empty.
pub open spec fn listing_of(items: Seq<Option<String>>, latest_tag: Option<Seq<char>>) -> Result<
    Seq<Seq<char>>,
    RegistryError,
> {
    let base = listed_strings(items);
    let all = match latest_tag {
        Some(t) => if base.contains(t) {
            base
        } else {
            base.push(t)
        },
        None => base,
    };
    if all.len() == 0 {
        Err(RegistryError::NoVersionsFound)
    } else {
        Ok(all)
    }
}

/// Builds the version listing from the registry document's `versions`
/// entries and its `latest` tag.
pub fn collect_listing(items: &Vec<Option<String>>, latest_tag: &Option<String>) -> (r: Result<
    Vec<String>,
    RegistryError,
>)
    ensures
        match (r, listing_of(items@, opt_view(*latest_tag))) {
            (Ok(v), Ok(w)) => string_views(v@) == w,
            (Err(e), Err(d)) => e == d,
            _ => false,
        },
{
    let mut versions: Vec<String> = Vec::new();
    let mut i: usize = 0;
    while i < items.len()
        invariant
            i <= items.len(),
            string_views(versions@) == listed_strings(items@.take(i as int)),
        decreases items.len() - i,
    {
        proof {
            assert(items@.take(i + 1).drop_last() == items@.take(i as int));
        }
        match &items[i] {
            Some(s) => {
                let ghost before = versions@;
                versions.push(s.clone());
                proof {
                    assert(string_views(versions@) == string_views(before).push(s@));
                }
            },
            None => {},
        }
        i = i + 1;
    }
    proof {
        assert(items@.take(items.len() as int) == items@);
    }
    match latest_tag {
        Some(t) => {
            if !contains_string(&versions, t) {
                let ghost before = versions@;
                versions.push(t.clone());
                proof {
                    assert(string_views(versions@) == string_views(before).push(t@));
                }
            }
        },
        None => {},
    }
    if versions.len() == 0 {
        Err(RegistryError::NoVersionsFound)
    } else {
        Ok(versions)
    }
}

/// The record of a release whose artifact has the bytes `artifact`.
pub fn release_record(version: &str, artifact: &[u8]) -> (r: VersionInfo)
    ensures
        r@.version == version@,
        r@.sri_hash == integrity_of(artifact@),
{
    VersionInfo { version: String::from_str(version), sri_hash: compute_integrity(artifact) }
}

/// Whether `v` holds a string equal to `s`.
fn contains_string(v: &Vec<String>, s: &String) -> (r: bool)
    ensures
        r == string_views(v@).contains(s@),
{
    let mut i: usize = 0;
    while i < v.len()
        invariant
            i <= v.len(),
            forall|j: int| 0 <= j < i ==> (#[trigger] v@[j])@ != s@,
        decreases v.len() - i,
    {
        if v[i] == *s {
            assert(string_views(v@)[i as int] == s@);
            return true;
        }
        i = i + 1;
    }
    proof {
        if string_views(v@).contains(s@) {
            let j = choose|j: int|
                0 <= j < string_views(v@).len() && string_views(v@)[j] == s@;
            assert(v@[j]@ == s@);
        }
    }
    false
}

/// The in-memory state of the version registry for one package.
#[derive(Clone)]
pub struct VersionChecker {
    package_name: String,
    http_timeout_secs: u64,
    version_check_interval_secs: u64,
    cache_file_path: String,
    current_version_info: VersionInfo,
    latest_version: VersionInfo,
    all_versions: Vec<VersionInfo>,
}

impl View for VersionChecker {
    type V = StoreState;

    closed spec fn view(&self) -> StoreState {
        StoreState {
            current: self.current_version_info@,
            latest: self.latest_version@,
            versions: entries(self.all_versions@),
        }
    }
}

impl VersionChecker {
    pub open spec fn well_formed(&self) -> bool {
        store_invariant(self@)
    }

    pub closed spec fn spec_package_name(&self) -> Seq<char> {
        self.package_name@
    }

    pub closed spec fn spec_http_timeout_secs(&self) -> u64 {
        self.http_timeout_secs
    }

    pub closed spec fn spec_version_check_interval_secs(&self) -> u64 {
        self.version_check_interval_secs
    }

    pub closed spec fn spec_cache_file_path(&self) -> Seq<char> {
        self.cache_file_path@
    }

    /// Whether two stores hold the same package settings.
    pub open spec fn same_settings(&self, other: &VersionChecker) -> bool {
        &&& self.spec_package_name() == other.spec_package_name()
        &&& self.spec_http_timeout_secs() == other.spec_http_timeout_secs()
        &&& self.spec_version_check_interval_secs() == other.spec_version_check_interval_secs()
        &&& self.spec_cache_file_path() == other.spec_cache_file_path()
    }

    /// The package whose releases are tracked.
    pub fn package_name(&self) -> (r: &String)
        ensures
            r@ == self.spec_package_name(),
    {
        &self.package_name
    }

    /// The timeout of each registry request, in seconds.
    pub fn http_timeout_secs(&self) -> (r: u64)
        ensures
            r == self.spec_http_timeout_secs(),
    {
        self.http_timeout_secs
    }

    /// The pause between two reconciliation passes, in seconds.
    pub fn version_check_interval_secs(&self) -> (r: u64)
        ensures
            r == self.spec_version_check_interval_secs(),
    {
        self.version_check_interval_secs
    }

    /// Where the version set is persisted.
    pub fn cache_file_path(&self) -> (r: &String)
        ensures
            r@ == self.spec_cache_file_path(),
    {
        &self.cache_file_path
    }

    /// An empty store for `package_name`; its cache file is
    /// `<cache_dir>/<package>-version_cache.json`, or
    /// `<package>-version_cache.json` without a directory.
    pub fn new(
        package_name: &str,
        http_timeout_secs: u64,
        version_check_interval_secs: u64,
        cache_dir: Option<&str>,
    ) -> (r: VersionChecker)
        ensures
            r.well_formed(),
            r@ == empty_state(),
            r.spec_package_name() == package_name@,
            r.spec_http_timeout_secs() == http_timeout_secs,
            r.spec_version_check_interval_secs() == version_check_interval_secs,
            r.spec_cache_file_path() == match cache_dir {
                Some(dir) => dir@ + "/"@ + package_name@ + "-"@ + CACHE_FILE_NAME@,
                None => package_name@ + "-"@ + CACHE_FILE_NAME@,
            },
    {
        let mut cache_file_path = String::new();
        match cache_dir {
            Some(dir) => {
                cache_file_path.append(dir);
                cache_file_path.append("/");
            },
            None => {},
        }
        cache_file_path.append(package_name);
        cache_file_path.append("-");
        cache_file_path.append(CACHE_FILE_NAME);
        let r = VersionChecker {
            package_name: String::from_str(package_name),
            http_timeout_secs,
            version_check_interval_secs,
            cache_file_path,
            current_version_info: VersionInfo::placeholder(),
            latest_version: VersionInfo::placeholder(),
            all_versions: Vec::new(),
        };
        proof {
            assert(entries(r.all_versions@) == Seq::<VersionEntry>::empty());
        }
        r
    }

    /// Populates an empty store from the persisted version set: the set
    /// becomes the store's, and its first entry the current and latest
    /// release. A cache that is empty, unordered or holds a version twice is
    /// ignored. Returns whether the store was populated, in which case the
    /// first reconciliation pass need not hold up readers.
    pub fn load_cached(&mut self, cached: Vec<VersionInfo>) -> (warm: bool)
        requires
            old(self).well_formed(),
        ensures
            final(self).well_formed(),
            final(self).same_settings(old(self)),
            match restored(entries(cached@)) {
                Some(st) => warm && final(self)@ == st,
                None => !warm && final(self)@ == old(self)@,
            },
    {
        if cached.len() == 0 || !is_well_formed_set(&cached) {
            return false;
        }
        let first = cached[0].snapshot();
        proof {
            assert(entries(cached@)[0].version == first@.version);
        }
        self.current_version_info = first.snapshot();
        self.latest_version = first;
        self.all_versions = cached;
        true
    }

    /// The registry endpoint that lists the package's versions.
    pub fn listing_url(&self) -> (r: String)
        ensures
            r@ == "https://data.jsdelivr.com/v1/package/npm/"@ + self.spec_package_name(),
    {
        let mut r = String::from_str("https://data.jsdelivr.com/v1/package/npm/");
        r.append(self.package_name.as_str());
        r
    }

    /// The CDN address of a version's primary minified artifact.
    pub fn artifact_url(&self, version: &str) -> (r: String)
        ensures
            r@ == "https://cdn.jsdelivr.net/npm/"@ + self.spec_package_name() + "@"@ + version@
                + "/dist/"@ + self.spec_package_name() + "-min.js"@,
    {
        let mut r = String::from_str("https://cdn.jsdelivr.net/npm/");
        r.append(self.package_name.as_str());
        r.append("@");
        r.append(version);
        r.append("/dist/");
        r.append(self.package_name.as_str());
        r.append("-min.js");
        r
    }

    /// A copy of the current release's record.
    pub fn get_current_version_info(&self) -> (r: VersionInfo)
        ensures
            r@ == self@.current,
    {
        self.current_version_info.snapshot()
    }

    /// A copy of the latest release's record.
    pub fn get_latest_version_info(&self) -> (r: VersionInfo)
        ensures
            r@ == self@.latest,
    {
        self.latest_version.snapshot()
    }

    /// A copy of the known version set, in descending order and without
    /// duplicate versions.
    pub fn get_all_versions(&self) -> (r: Vec<VersionInfo>)
        requires
            self.well_formed(),
        ensures
            entries(r@) == self@.versions,
            well_formed_set(entries(r@)),
    {
        let mut r: Vec<VersionInfo> = Vec::new();
        let mut i: usize = 0;
        while i < self.all_versions.len()
            invariant
                i <= self.all_versions.len(),
                entries(r@) == entries(self.all_versions@).take(i as int),
            decreases self.all_versions.len() - i,
        {
            r.push(self.all_versions[i].snapshot());
            proof {
                assert(entries(self.all_versions@).take(i + 1) == entries(
                    self.all_versions@,
                ).take(i as int).push(self.all_versions@[i as int]@));
            }
            i = i + 1;
        }
        proof {
            assert(entries(self.all_versions@).take(i as int) == entries(self.all_versions@));
        }
        r
    }

    /// The versions whose artifacts a pass over `listing` must fetch: the
    /// top position when it differs from the latest release, then each of
    /// the next nine positions whose version is unknown, each version once.
    pub fn plan_fetches(&self, listing: &Vec<String>) -> (r: Vec<String>)
        ensures
            string_views(r@) == fetch_plan(self@, string_views(listing@)),
    {
        let ghost l = string_views(listing@);
        let n: usize = if listing.len() < PASS_LIMIT {
            listing.len()
        } else {
            PASS_LIMIT
        };
        let mut plan: Vec<String> = Vec::new();
        let mut i: usize = 0;
        while i < n
            invariant
                i <= n,
                n == pass_window(l.len()),
                n <= listing.len(),
                l == string_views(listing@),
                string_views(plan@) == plan_upto(self@, l, i as nat),
            decreases n - i,
        {
            let v = &listing[i];
            assert(l[i as int] == v@);
            let want = if i == 0 {
                *v != self.latest_version.version
            } else {
                find_version(&self.all_versions, v).is_none()
            };
            if want && !contains_string(&plan, v) {
                let ghost before = plan@;
                plan.push(v.clone());
                proof {
                    assert(string_views(plan@) == string_views(before).push(v@));
                }
            }
            i = i + 1;
        }
        plan
    }

    /// Merges one pass's results into the store. With the listing
    /// unavailable nothing changes. Otherwise each of the first ten
    /// positions is applied in turn (see `pass_step`), using the hashes in
    /// `fetched`. Returns whether a version was added, in which case the set
    /// is to be persisted.
    pub fn reconcile(
        &mut self,
        listing: &Result<Vec<String>, RegistryError>,
        fetched: &Vec<VersionInfo>,
    ) -> (changed: bool)
        requires
            old(self).well_formed(),
        ensures
            final(self).well_formed(),
            final(self).same_settings(old(self)),
            match listing {
                Ok(l) => final(self)@ == reconciled(old(self)@, string_views(l@), entries(fetched@)),
                Err(_) => final(self)@ == old(self)@,
            },
            changed == (final(self)@.versions.len() > old(self)@.versions.len()),
    {
        let listing = match listing {
            Ok(l) => l,
            Err(_) => {
                return false;
            },
        };
        let ghost l = string_views(listing@);
        let ghost f = entries(fetched@);
        let ghost start = self@;
        let start_len = self.all_versions.len();
        let n: usize = if listing.len() < PASS_LIMIT {
            listing.len()
        } else {
            PASS_LIMIT
        };
        let mut i: usize = 0;
        while i < n
            invariant
                i <= n,
                n == pass_window(l.len()),
                n <= listing.len(),
                l == string_views(listing@),
                f == entries(fetched@),
                self@ == pass_upto(start, l, f, i as nat),
                store_invariant(self@),
                self.same_settings(old(self)),
                self@.versions.len() >= start_len,
            decreases n - i,
        {
            let v = &listing[i];
            assert(l[i as int] == v@);
            let found = find_version(fetched, v);
            proof {
                match found {
                    Some(j) => lemma_lookup_hash(f, v@, j as int),
                    None => {
                        assert forall|j: int| 0 <= j < f.len() implies (#[trigger] f[j]).version
                            != v@ by {
                            if f[j].version == v@ {
                                assert(has_version(f, v@));
                            }
                        }
                        lemma_lookup_hash(f, v@, f.len() as int);
                    },
                }
            }
            if let Some(j) = found {
                let info = VersionInfo {
                    version: v.clone(),
                    sri_hash: fetched[j].sri_hash.clone(),
                };
                let ghost e = info@;
                if i == 0 {
                    if *v != self.latest_version.version {
                        self.current_version_info = info.snapshot();
                        self.latest_version = info.snapshot();
                        if find_version(&self.all_versions, v).is_none() {
                            proof {
                                lemma_sorted_insert_well_formed(entries(self.all_versions@), e);
                            }
                            insert_sorted(&mut self.all_versions, info);
                        }
                    }
                } else if find_version(&self.all_versions, v).is_none() {
                    proof {
                        lemma_sorted_insert_well_formed(entries(self.all_versions@), e);
                    }
                    insert_sorted(&mut self.all_versions, info);
                }
            }
            i = i + 1;
        }
        self.all_versions.len() > start_len
    }
}

} // verus!
