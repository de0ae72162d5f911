//! Static assets and page templates held in memory, and the rules by which
//! source files become minified, content-hashed assets.
use vstd::prelude::*;
use vstd::string::*;
use crate::pages::ends_with;
use crate::text::{chars_of, has_suffix};

verus! {

/// The kinds of asset served.
#[derive(Clone, Copy, Debug, PartialEq, Eq, Structural)]
pub enum AssetType {
    JavaScript,
    CSS,
}

impl AssetType {
    /// The media type an asset of this kind is served with.
    pub fn content_type(&self) -> (r: &'static str)
        ensures
            r@ == match self {
                AssetType::JavaScript => "application/javascript"@,
                AssetType::CSS => "text/css"@,
            },
    {
        match self {
            AssetType::JavaScript => "application/javascript",
            AssetType::CSS => "text/css",
        }
    }
}

/// A loaded asset: its content and kind.
#[derive(Clone, Debug)]
pub struct Asset {
    pub content: String,
    pub asset_type: AssetType,
}

/// The processed content of an asset, with its kind.
#[derive(Clone, Debug)]
pub struct AssetContent {
    pub content: String,
    pub asset_type: AssetType,
}

/// The value of a named entry: the most recently added one of that name.
pub open spec fn find_last<V>(s: Seq<(Seq<char>, V)>, name: Seq<char>) -> Option<V>
    decreases s.len(),
{
    if s.len() == 0 {
        None
    } else if s.last().0 == name {
        Some(s.last().1)
    } else {
        find_last(s.drop_last(), name)
    }
}

pub open spec fn asset_entries(v: Seq<(String, Asset)>) -> Seq<(Seq<char>, (Seq<char>, AssetType))> {
    v.map_values(|e: (String, Asset)| (e.0@, (e.1.content@, e.1.asset_type)))
}

pub open spec fn template_entries(v: Seq<(String, String)>) -> Seq<(Seq<char>, Seq<char>)> {
    v.map_values(|e: (String, String)| (e.0@, e.1@))
}

/// The kind of a loaded static file, by its name: `.min.js` files are
/// scripts, `.min.css` files style sheets; other files are not served.
pub open spec fn served_kind(name: Seq<char>) -> Option<AssetType> {
    if ends_with(name, ".min.js"@) {
        Some(AssetType::JavaScript)
    } else if ends_with(name, ".min.css"@) {
        Some(AssetType::CSS)
    } else {
        None
    }
}

/// Whether a file of the templates directory is a page template.
pub fn is_template_name(file_name: &str) -> (r: bool)
    ensures
        r == ends_with(file_name@, ".html"@),
{
    let name = chars_of(file_name);
    let html = chars_of(".html");
    has_suffix(&name, &html)
}

/// The static assets and page templates, by file name.
#[derive(Clone, Debug)]
pub struct AssetManager {
    static_assets: Vec<(String, Asset)>,
    templates: Vec<(String, String)>,
}

impl AssetManager {
    pub closed spec fn asset_view(&self) -> Seq<(Seq<char>, (Seq<char>, AssetType))> {
        asset_entries(self.static_assets@)
    }

    pub closed spec fn template_view(&self) -> Seq<(Seq<char>, Seq<char>)> {
        template_entries(self.templates@)
    }

    /// A manager with no assets and no templates.
    pub fn new() -> (r: AssetManager)
        ensures
            r.asset_view().len() == 0,
            r.template_view().len() == 0,
    {
        AssetManager { static_assets: Vec::new(), templates: Vec::new() }
    }

    /// Takes in a file of the static directory: a `.min.js` or `.min.css`
    /// file is held under its name (replacing an earlier one of that name);
    /// any other file is passed over. Returns whether it was taken.
    pub fn add_static_file(&mut self, file_name: &str, content: String) -> (taken: bool)
        ensures
            taken == (served_kind(file_name@) is Some),
            final(self).template_view() == old(self).template_view(),
            match served_kind(file_name@) {
                Some(k) => final(self).asset_view() == old(self).asset_view().push(
                    (file_name@, (content@, k)),
                ),
                None => final(self).asset_view() == old(self).asset_view(),
            },
    {
        let name = chars_of(file_name);
        let js = chars_of(".min.js");
        let css = chars_of(".min.css");
        let kind = if has_suffix(&name, &js) {
            AssetType::JavaScript
        } else if has_suffix(&name, &css) {
            AssetType::CSS
        } else {
            return false;
        };
        let ghost before = self.static_assets@;
        self.static_assets.push(
            (String::from_str(file_name), Asset { content, asset_type: kind }),
        );
        proof {
            assert(asset_entries(self.static_assets@) == asset_entries(before).push(
                (file_name@, (content@, kind)),
            ));
        }
        true
    }

    /// Takes in a file of the templates directory: an `.html` file is held
    /// under its name (replacing an earlier one of that name); any other
    /// file is passed over. Returns whether it was taken.
    pub fn add_template_file(&mut self, file_name: &str, content: String) -> (taken: bool)
        ensures
            taken == ends_with(file_name@, ".html"@),
            final(self).asset_view() == old(self).asset_view(),
            taken ==> final(self).template_view() == old(self).template_view().push(
                (file_name@, content@),
            ),
            !taken ==> final(self).template_view() == old(self).template_view(),
    {
        if !is_template_name(file_name) {
            return false;
        }
        let ghost before = self.templates@;
        self.templates.push((String::from_str(file_name), content));
        proof {
            assert(template_entries(self.templates@) == template_entries(before).push(
                (file_name@, content@),
            ));
        }
        true
    }

    /// A copy of the asset held under `filename`.
    pub fn get_asset(&self, filename: &str) -> (r: Option<Asset>)
        ensures
            match (r, find_last(self.asset_view(), filename@)) {
                (Some(a), Some(v)) => a.content@ == v.0 && a.asset_type == v.1,
                (None, None) => true,
                _ => false,
            },
    {
        let ghost s = asset_entries(self.static_assets@);
        let key = String::from_str(filename);
        let mut i: usize = self.static_assets.len();
        assert(s.take(i as int) == s);
        while i > 0
            invariant
                i <= self.static_assets.len(),
                s == asset_entries(self.static_assets@),
                key@ == filename@,
                find_last(s, filename@) == find_last(s.take(i as int), filename@),
            decreases i,
        {
            proof {
                assert(s.take(i as int).drop_last() == s.take(i - 1));
                assert(s.take(i as int).last() == s[i - 1]);
            }
            if self.static_assets[i - 1].0 == key {
                let a = &self.static_assets[i - 1].1;
                return Some(
                    Asset { content: a.content.clone(), asset_type: a.asset_type },
                );
            }
            i = i - 1;
        }
        proof {
            assert(s.take(0) == Seq::<(Seq<char>, (Seq<char>, AssetType))>::empty());
        }
        None
    }

    /// A copy of the template held under `filename`.
    pub fn get_template(&self, filename: &str) -> (r: Option<String>)
        ensures
            match (r, find_last(self.template_view(), filename@)) {
                (Some(t), Some(v)) => t@ == v,
                (None, None) => true,
                _ => false,
            },
    {
        let ghost s = template_entries(self.templates@);
        let key = String::from_str(filename);
        let mut i: usize = self.templates.len();
        assert(s.take(i as int) == s);
        while i > 0
            invariant
                i <= self.templates.len(),
                s == template_entries(self.templates@),
                key@ == filename@,
                find_last(s, filename@) == find_last(s.take(i as int), filename@),
            decreases i,
        {
            proof {
                assert(s.take(i as int).drop_last() == s.take(i - 1));
                assert(s.take(i as int).last() == s[i - 1]);
            }
            if self.templates[i - 1].0 == key {
                return Some(self.templates[i - 1].1.clone());
            }
            i = i - 1;
        }
        proof {
            assert(s.take(0) == Seq::<(Seq<char>, Seq<char>)>::empty());
        }
        None
    }
}

} // verus!
