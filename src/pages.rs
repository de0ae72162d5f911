//! The text of the pages the front end serves: the version selector, the
//! sitemap, the substitutions into page templates, and the links to
//! released artifacts.
use vstd::prelude::*;
use vstd::string::*;
use crate::registry::{entries, find_version, has_version, VersionEntry, VersionInfo};
use crate::text::{replace_all, replace_str};
use crate::version::{is_valid_version, matches_version_pattern};

verus! {

/// The version of this package, shown as the demo version.
pub const PACKAGE_VERSION: &'static str = "0.1.0";

/// The opening tag of the version selector.
pub const SELECTOR_OPEN: &'static str = "<select id=\"version-selector\" onchange=\"window.location.href='/' + this.value; document.getElementById('current-version-display').textContent = this.options[this.selectedIndex].text;\">";

/// The sitemap up to its per-version entries; `BASE_URL` and
/// `CURRENT_DATETIME` are substituted.
pub const SITEMAP_HEAD: &'static str = "<?xml version=\"1.0\" encoding=\"UTF-8\"?>\n<urlset xmlns=\"http://www.sitemaps.org/schemas/sitemap/0.9\" xmlns:xsi=\"http://www.w3.org/2001/XMLSchema-instance\" xsi:schemaLocation=\"http://www.sitemaps.org/schemas/sitemap/0.9 http://www.sitemaps.org/schemas/sitemap/0.9/sitemap.xsd\">\n  <url>\n    <loc>BASE_URL/</loc>\n    <lastmod>CURRENT_DATETIME</lastmod>\n    <changefreq>daily</changefreq>\n    <priority>1.0</priority>\n  </url>\n";

/// The demo version shown on pages.
pub fn get_hit_demo_version() -> (r: String)
    ensures
        r@ == PACKAGE_VERSION@,
{
    String::from_str(PACKAGE_VERSION)
}

/// The CDN address of a release's minified script.
pub fn get_cdn_url(version: &str) -> (r: String)
    ensures
        r@ == "https://cdn.jsdelivr.net/npm/highlight-it@"@ + version@
            + "/dist/highlight-it-min.js"@,
{
    let mut r = String::from_str("https://cdn.jsdelivr.net/npm/highlight-it@");
    r.append(version);
    r.append("/dist/highlight-it-min.js");
    r
}

/// The option for the latest release, selected when nothing or the latest
/// release is selected.
pub open spec fn latest_option(latest: Seq<char>, selected: Option<Seq<char>>) -> Seq<char> {
    let attr = if selected is None || selected == Some(latest) {
        " selected"@
    } else {
        ""@
    };
    "<option value=\"\""@ + attr + ">Latest ("@ + latest + ")</option>"@
}

pub open spec fn version_option(v: Seq<char>, selected: Option<Seq<char>>) -> Seq<char> {
    let attr = if selected == Some(v) {
        " selected"@
    } else {
        ""@
    };
    "<option value=\""@ + v + "\""@ + attr + ">"@ + v + "</option>"@
}

/// One option per entry whose version is not the latest, in order.
pub open spec fn version_options(
    all: Seq<VersionEntry>,
    latest: Seq<char>,
    selected: Option<Seq<char>>,
) -> Seq<char>
    decreases all.len(),
{
    if all.len() == 0 {
        Seq::empty()
    } else {
        let rest = version_options(all.drop_last(), latest, selected);
        if all.last().version == latest {
            rest
        } else {
            rest + version_option(all.last().version, selected)
        }
    }
}

pub open spec fn selector_html(
    all: Seq<VersionEntry>,
    latest: Seq<char>,
    selected: Option<Seq<char>>,
) -> Seq<char> {
    SELECTOR_OPEN@ + latest_option(latest, selected) + version_options(all, latest, selected)
        + "</select>"@
}

pub open spec fn opt_string_view(o: Option<String>) -> Option<Seq<char>> {
    match o {
        Some(s) => Some(s@),
        None => None,
    }
}

/// The HTML version selector: a "Latest" option, then one option per
/// other known version; the selected one is marked.
pub fn get_versions_selector(
    all_versions: Vec<VersionInfo>,
    latest_version: String,
    selected_version: Option<String>,
) -> (r: String)
    ensures
        r@ == selector_html(
            entries(all_versions@),
            latest_version@,
            opt_string_view(selected_version),
        ),
{
    let ghost sel = opt_string_view(selected_version);
    let ghost all = entries(all_versions@);
    let mut html = String::from_str(SELECTOR_OPEN);
    let latest_selected = match &selected_version {
        None => true,
        Some(s) => *s == latest_version,
    };
    html.append("<option value=\"\"");
    if latest_selected {
        html.append(" selected");
    } else {
        html.append("");
    }
    html.append(">Latest (");
    html.append(latest_version.as_str());
    html.append(")</option>");
    let ghost head = html@;
    assert(head == SELECTOR_OPEN@ + latest_option(latest_version@, sel));
    let mut i: usize = 0;
    while i < all_versions.len()
        invariant
            i <= all_versions.len(),
            all == entries(all_versions@),
            sel == opt_string_view(selected_version),
            html@ == head + version_options(all.take(i as int), latest_version@, sel),
        decreases all_versions.len() - i,
    {
        let v = &all_versions[i].version;
        proof {
            assert(all.take(i + 1).drop_last() == all.take(i as int));
            assert(all.take(i + 1).last().version == v@);
        }
        if *v != latest_version {
            let is_selected = match &selected_version {
                Some(s) => *s == *v,
                None => false,
            };
            html.append("<option value=\"");
            html.append(v.as_str());
            html.append("\"");
            if is_selected {
                html.append(" selected");
            } else {
                html.append("");
            }
            html.append(">");
            html.append(v.as_str());
            html.append("</option>");
        }
        i = i + 1;
    }
    proof {
        assert(all.take(all_versions.len() as int) == all);
    }
    html.append("</select>");
    html
}

/// One sitemap entry for a release page.
pub open spec fn sitemap_entry(base_url: Seq<char>, datetime: Seq<char>, v: Seq<char>) -> Seq<
    char,
> {
    "  <url>\n    <loc>"@ + base_url + "/"@ + v + "</loc>\n    <lastmod>"@ + datetime
        + "</lastmod>\n    <changefreq>monthly</changefreq>\n    <priority>0.8</priority>\n  </url>\n"@
}

pub open spec fn sitemap_entries(base_url: Seq<char>, datetime: Seq<char>, all: Seq<VersionEntry>) -> Seq<char>
    decreases all.len(),
{
    if all.len() == 0 {
        Seq::empty()
    } else {
        sitemap_entries(base_url, datetime, all.drop_last()) + sitemap_entry(
            base_url,
            datetime,
            all.last().version,
        )
    }
}

/// The sitemap: the home page, then one entry per known version.
pub open spec fn sitemap_xml(base_url: Seq<char>, datetime: Seq<char>, all: Seq<VersionEntry>) -> Seq<char> {
    replace_all(replace_all(SITEMAP_HEAD@, "BASE_URL"@, base_url), "CURRENT_DATETIME"@, datetime)
        + sitemap_entries(base_url, datetime, all) + "</urlset>"@
}

/// The sitemap document for a site at `base_url`, stamped with `datetime`.
pub fn build_sitemap(base_url: &str, datetime: &str, all_versions: &Vec<VersionInfo>) -> (r: String)
    ensures
        r@ == sitemap_xml(base_url@, datetime@, entries(all_versions@)),
{
    proof {
        reveal_strlit("BASE_URL");
        reveal_strlit("CURRENT_DATETIME");
    }
    let head = replace_str(SITEMAP_HEAD, "BASE_URL", base_url);
    let mut sitemap = replace_str(head.as_str(), "CURRENT_DATETIME", datetime);
    let ghost start = sitemap@;
    let ghost all = entries(all_versions@);
    let mut i: usize = 0;
    while i < all_versions.len()
        invariant
            i <= all_versions.len(),
            all == entries(all_versions@),
            sitemap@ == start + sitemap_entries(base_url@, datetime@, all.take(i as int)),
        decreases all_versions.len() - i,
    {
        proof {
            assert(all.take(i + 1).drop_last() == all.take(i as int));
            assert(all.take(i + 1).last().version == all_versions@[i as int].version@);
        }
        sitemap.append("  <url>\n    <loc>");
        sitemap.append(base_url);
        sitemap.append("/");
        sitemap.append(all_versions[i].version.as_str());
        sitemap.append("</loc>\n    <lastmod>");
        sitemap.append(datetime);
        sitemap.append(
            "</lastmod>\n    <changefreq>monthly</changefreq>\n    <priority>0.8</priority>\n  </url>\n",
        );
        i = i + 1;
    }
    proof {
        assert(all.take(all_versions.len() as int) == all);
    }
    sitemap.append("</urlset>");
    sitemap
}

/// The index page: `DEMO_VERSION`, `VERSION_SELECTOR`, `VERSION` and
/// `SRI_HASH` substituted in that order.
pub fn render_index_page(
    template: &str,
    demo_version: &str,
    selector: &str,
    version: &str,
    sri_hash: &str,
) -> (r: String)
    ensures
        r@ == replace_all(
            replace_all(
                replace_all(
                    replace_all(template@, "DEMO_VERSION"@, demo_version@),
                    "VERSION_SELECTOR"@,
                    selector@,
                ),
                "VERSION"@,
                version@,
            ),
            "SRI_HASH"@,
            sri_hash@,
        ),
{
    proof {
        reveal_strlit("DEMO_VERSION");
        reveal_strlit("VERSION_SELECTOR");
        reveal_strlit("VERSION");
        reveal_strlit("SRI_HASH");
    }
    let a = replace_str(template, "DEMO_VERSION", demo_version);
    let b = replace_str(a.as_str(), "VERSION_SELECTOR", selector);
    let c = replace_str(b.as_str(), "VERSION", version);
    replace_str(c.as_str(), "SRI_HASH", sri_hash)
}

/// The not-found page: `DEMO_VERSION`, `VERSION` and `SRI_HASH`
/// substituted in that order.
pub fn render_not_found_page(template: &str, demo_version: &str, version: &str, sri_hash: &str) -> (r: String)
    ensures
        r@ == replace_all(
            replace_all(replace_all(template@, "DEMO_VERSION"@, demo_version@), "VERSION"@, version@),
            "SRI_HASH"@,
            sri_hash@,
        ),
{
    proof {
        reveal_strlit("DEMO_VERSION");
        reveal_strlit("VERSION");
        reveal_strlit("SRI_HASH");
    }
    let a = replace_str(template, "DEMO_VERSION", demo_version);
    let b = replace_str(a.as_str(), "VERSION", version);
    replace_str(b.as_str(), "SRI_HASH", sri_hash)
}

/// The plain body served when no not-found template is available.
pub fn not_found_message(reason: &str) -> (r: String)
    ensures
        r@ == "Page not found: "@ + reason@,
{
    let mut r = String::from_str("Page not found: ");
    r.append(reason);
    r
}

/// A versioned asset: every `VERSION` in its content replaced by `version`.
pub fn stamp_asset_version(content: &str, version: &str) -> (r: String)
    ensures
        r@ == replace_all(content@, "VERSION"@, version@),
{
    proof {
        reveal_strlit("VERSION");
    }
    replace_str(content, "VERSION", version)
}

/// Why a versioned page cannot be served.
#[derive(Clone, Copy, Debug, PartialEq, Eq, Structural)]
pub enum ReleaseLookupError {
    InvalidVersion,
    VersionNotFound,
}

impl ReleaseLookupError {
    /// The reason shown on the not-found page.
    pub fn reason(&self) -> (r: &'static str)
        ensures
            r@ == match self {
                ReleaseLookupError::InvalidVersion => "Invalid version"@,
                ReleaseLookupError::VersionNotFound => "Version not found"@,
            },
    {
        match self {
            ReleaseLookupError::InvalidVersion => "Invalid version",
            ReleaseLookupError::VersionNotFound => "Version not found",
        }
    }
}

/// The record of a requested release: the request must be a valid version
/// segment and name a known version.
pub fn lookup_release(all_versions: &Vec<VersionInfo>, requested: &String) -> (r: Result<
    VersionInfo,
    ReleaseLookupError,
>)
    ensures
        !matches_version_pattern(requested@) <==> r == Err::<VersionInfo, _>(
            ReleaseLookupError::InvalidVersion,
        ),
        matches_version_pattern(requested@) && !has_version(entries(all_versions@), requested@)
            <==> r == Err::<VersionInfo, _>(ReleaseLookupError::VersionNotFound),
        r matches Ok(info) ==> exists|i: int|
            0 <= i < all_versions.len() && all_versions@[i]@ == info@ && info@.version == requested@
                && forall|j: int| 0 <= j < i ==> (#[trigger] all_versions@[j]).version@ != requested@,
{
    if !is_valid_version(requested.as_str()) {
        return Err(ReleaseLookupError::InvalidVersion);
    }
    match find_version(all_versions, requested) {
        Some(i) => Ok(all_versions[i].snapshot()),
        None => Err(ReleaseLookupError::VersionNotFound),
    }
}

/// Whether a static path names a minified script or style sheet.
pub fn is_minified_asset_name(name: &str) -> (r: bool)
    ensures
        r == (ends_with(name@, ".min.js"@) || ends_with(name@, ".min.css"@)),
{
    let cs = crate::text::chars_of(name);
    let js = crate::text::chars_of(".min.js");
    let css = crate::text::chars_of(".min.css");
    crate::text::has_suffix(&cs, &js) || crate::text::has_suffix(&cs, &css)
}

pub open spec fn ends_with(s: Seq<char>, suffix: Seq<char>) -> bool {
    suffix.len() <= s.len() && s.skip(s.len() - suffix.len()) == suffix
}

} // verus!
