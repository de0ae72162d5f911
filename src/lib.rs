//! A self-refreshing registry of published package versions, together with
//! the small text utilities that the web front end builds its pages with.
pub mod text;
pub mod version;
pub mod registry;
pub mod checker;
pub mod integrity;
pub mod laws;
pub mod datetime;
pub mod pages;
pub mod minify;
pub mod assets;
pub mod processing;
pub mod config;

pub use assets::{Asset, AssetContent, AssetManager, AssetType};
pub use checker::{collect_listing, release_record, RegistryError, VersionChecker};
pub use config::Config;
pub use datetime::{format_datetime, get_current_datetime};
pub use minify::{minify_css, minify_js};
pub use pages::{get_cdn_url, get_hit_demo_version, get_versions_selector};
pub use registry::VersionInfo;
pub use version::is_valid_version;
