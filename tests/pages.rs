use highlight_server::assets::{AssetManager, AssetType};
use highlight_server::pages::{
    build_sitemap, lookup_release, not_found_message, render_index_page, render_not_found_page,
    stamp_asset_version, is_minified_asset_name, ReleaseLookupError, SELECTOR_OPEN,
};
use highlight_server::processing::{calculate_hash, minified_file_name, process_asset, static_asset_kind};
use highlight_server::text::replace_str;
use highlight_server::{
    format_datetime, get_cdn_url, get_current_datetime, get_hit_demo_version, get_versions_selector,
    is_valid_version, minify_css, minify_js, Config, VersionInfo,
};

fn info(version: &str, hash: &str) -> VersionInfo {
    VersionInfo { version: version.to_string(), sri_hash: hash.to_string() }
}

#[test]
fn validator_boundaries() {
    assert!(is_valid_version("2.10.3"));
    assert!(!is_valid_version("2.100.3"));
    assert!(!is_valid_version("v2.10.3"));
    assert!(!is_valid_version("2.10"));
    assert!(is_valid_version("0.0.0"));
    assert!(is_valid_version("9.99.99"));
    assert!(!is_valid_version("10.0.0"));
    assert!(!is_valid_version("2.10.3\n"));
    assert!(!is_valid_version(""));
    assert!(!is_valid_version("2..3"));
}

#[test]
fn cdn_url_and_demo_version() {
    assert_eq!(
        get_cdn_url("2.10.3"),
        "https://cdn.jsdelivr.net/npm/highlight-it@2.10.3/dist/highlight-it-min.js"
    );
    assert_eq!(get_hit_demo_version(), "0.1.0");
}

#[test]
fn datetime_formatting() {
    assert_eq!(format_datetime(0), "1970-01-01T00:00:00+00:00");
    assert_eq!(format_datetime(951786061), "2000-02-29T01:01:01+00:00");
    assert_eq!(format_datetime(1700000000), "2023-11-14T22:13:20+00:00");
    assert_eq!(format_datetime(4102444799), "2099-12-31T23:59:59+00:00");
    let now = get_current_datetime();
    assert_eq!(now.len(), 25);
    assert!(now.ends_with("+00:00"));
}

#[test]
fn selector_marks_latest_by_default() {
    let all = vec![info("1.0.1", "a"), info("1.0.0", "b")];
    let html = get_versions_selector(all, "1.0.1".to_string(), None);
    let expected = format!(
        "{}<option value=\"\" selected>Latest (1.0.1)</option><option value=\"1.0.0\">1.0.0</option></select>",
        SELECTOR_OPEN
    );
    assert_eq!(html, expected);
}

#[test]
fn selector_marks_chosen_version() {
    let all = vec![info("1.0.1", "a"), info("1.0.0", "b")];
    let html = get_versions_selector(all, "1.0.1".to_string(), Some("1.0.0".to_string()));
    let expected = format!(
        "{}<option value=\"\">Latest (1.0.1)</option><option value=\"1.0.0\" selected>1.0.0</option></select>",
        SELECTOR_OPEN
    );
    assert_eq!(html, expected);
}

#[test]
fn sitemap_lists_every_version() {
    let all = vec![info("1.0.1", "a"), info("1.0.0", "b")];
    let xml = build_sitemap("https://x.io", "2023-11-14T22:13:20+00:00", &all);
    assert!(xml.starts_with("<?xml version=\"1.0\" encoding=\"UTF-8\"?>\n<urlset"));
    assert!(xml.contains("<loc>https://x.io/</loc>\n    <lastmod>2023-11-14T22:13:20+00:00</lastmod>\n    <changefreq>daily</changefreq>"));
    assert!(xml.contains("  <url>\n    <loc>https://x.io/1.0.1</loc>\n    <lastmod>2023-11-14T22:13:20+00:00</lastmod>\n    <changefreq>monthly</changefreq>\n    <priority>0.8</priority>\n  </url>\n  <url>\n    <loc>https://x.io/1.0.0</loc>"));
    assert!(xml.ends_with("  </url>\n</urlset>"));
    assert!(!xml.contains("BASE_URL"));
    assert!(!xml.contains("CURRENT_DATETIME"));
}

#[test]
fn template_substitution_order() {
    let t = "v=VERSION d=DEMO_VERSION s=VERSION_SELECTOR h=SRI_HASH";
    assert_eq!(
        render_index_page(t, "0.1.0", "<sel>", "2.0.0", "sha512-x"),
        "v=2.0.0 d=0.1.0 s=<sel> h=sha512-x"
    );
    assert_eq!(
        render_not_found_page(t, "0.1.0", "2.0.0", "sha512-x"),
        "v=2.0.0 d=0.1.0 s=2.0.0_SELECTOR h=sha512-x"
    );
    assert_eq!(not_found_message("Asset not found"), "Page not found: Asset not found");
    assert_eq!(stamp_asset_version("a VERSION b VERSION", "1.2.3"), "a 1.2.3 b 1.2.3");
}

#[test]
fn replace_is_left_to_right_without_overlap() {
    assert_eq!(replace_str("aaaa", "aa", "b"), "bb");
    assert_eq!(replace_str("aaa", "aa", "b"), "ba");
    assert_eq!(replace_str("", "x", "y"), "");
    assert_eq!(replace_str("héllo wörld", "ö", "o"), "héllo world");
}

#[test]
fn release_lookup_reasons() {
    let all = vec![info("1.0.1", "a"), info("1.0.0", "b")];
    let r = lookup_release(&all, &"1.0.0".to_string()).unwrap();
    assert_eq!(r.sri_hash, "b");
    let e = lookup_release(&all, &"1.0.2".to_string()).unwrap_err();
    assert_eq!(e, ReleaseLookupError::VersionNotFound);
    assert_eq!(e.reason(), "Version not found");
    let e = lookup_release(&all, &"latest".to_string()).unwrap_err();
    assert_eq!(e, ReleaseLookupError::InvalidVersion);
    assert_eq!(e.reason(), "Invalid version");
}

#[test]
fn css_minification() {
    let css = "body {\n  color: red;\n}\n/* comment */\r\na , b { margin: 0 }\n\t\u{3000}p  {  x: 1 ;  y: 2 }  \n";
    assert_eq!(minify_css(css), "body{color:red;}a ,b{margin:0}p { x:1 ; y:2}");
    assert_eq!(minify_css(""), "");
    assert_eq!(minify_js("let a = 1;\n"), "let a = 1;\n");
}

#[test]
fn asset_catalog_keeps_minified_files_and_templates() {
    let mut m = AssetManager::new();
    assert!(m.add_static_file("app.min.js", "js".to_string()));
    assert!(m.add_static_file("style.min.css", "css".to_string()));
    assert!(!m.add_static_file("app.js", "raw".to_string()));
    assert!(m.add_template_file("index.min.html", "<html>".to_string()));
    assert!(!m.add_template_file("notes.txt", "x".to_string()));
    let a = m.get_asset("app.min.js").unwrap();
    assert_eq!(a.content, "js");
    assert_eq!(a.asset_type, AssetType::JavaScript);
    assert_eq!(a.asset_type.content_type(), "application/javascript");
    assert_eq!(m.get_asset("style.min.css").unwrap().asset_type.content_type(), "text/css");
    assert!(m.get_asset("app.js").is_none());
    assert_eq!(m.get_template("index.min.html").unwrap(), "<html>");
    assert!(m.get_template("404.html").is_none());
    assert!(m.add_static_file("app.min.js", "newer".to_string()));
    assert_eq!(m.get_asset("app.min.js").unwrap().content, "newer");
    assert!(is_minified_asset_name("x.min.css"));
    assert!(!is_minified_asset_name("x.css"));
}

#[test]
fn source_files_and_hashed_names() {
    assert_eq!(static_asset_kind("app.js"), Some(AssetType::JavaScript));
    assert_eq!(static_asset_kind("Site.CSS"), Some(AssetType::CSS));
    assert_eq!(static_asset_kind("app.min.js"), None);
    assert_eq!(static_asset_kind("app-3f2a.js"), None);
    assert_eq!(static_asset_kind("readme.md"), None);
    assert_eq!(static_asset_kind(".js"), None);
    assert_eq!(calculate_hash("body{}"), "7c98040a541657584690ae2a1cc3b42a8b53b159cc60c5d3abbfecbaeac6c94a");
    assert_eq!(minified_file_name("style.css", "ab12"), Some("style-ab12.min.css".to_string()));
    assert_eq!(minified_file_name("a.b.JS", "ff"), Some("a.b-ff.min.js".to_string()));
    assert_eq!(minified_file_name("notes.txt", "ff"), None);
    let p = process_asset("a {  color: red }\n", AssetType::CSS);
    assert_eq!(p.content, "a{ color:red}");
    assert_eq!(p.asset_type, AssetType::CSS);
}

#[test]
fn config_defaults_and_address() {
    let c = Config::default();
    assert_eq!(c.host, "127.0.0.1");
    assert_eq!(c.port, 8080);
    assert_eq!(c.workers, 4);
    assert_eq!(c.http_timeout, 3);
    assert_eq!(c.version_check_interval, 1800);
    assert_eq!(c.cache_dir.as_deref(), Some("./"));
    assert_eq!(c.server_addr(), "127.0.0.1:8080");
}
