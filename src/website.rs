use vstd::prelude::*;
use crate::push::segment_models;

verus! {

/// The directory that the web front-end is served from when none is
/// configured.
pub fn default_static_dir() -> (r: String)
    ensures
        r@ == "static/"@,
{
    "static/".to_string()
}

/// A file of the web front-end.
#[derive(Clone, Copy, PartialEq, Eq, Structural, Debug)]
pub enum Asset {
    Index,
    Style,
    FrontendJs,
    FrontendWasm,
}

/// The request paths (as segments) of each asset.
pub open spec fn asset_of(path: Seq<Seq<char>>) -> Option<Asset> {
    if path == Seq::<Seq<char>>::empty() || path == seq!["index.html"@] || path == seq!["static"@, "index.html"@] {
        Some(Asset::Index)
    } else if path == seq!["static"@, "style.css"@] {
        Some(Asset::Style)
    } else if path == seq!["static"@, "wasm"@, "frontend.js"@] {
        Some(Asset::FrontendJs)
    } else if path == seq!["static"@, "wasm"@, "frontend_bg.wasm"@] {
        Some(Asset::FrontendWasm)
    } else {
        None
    }
}

/// Whether `path` is exactly the segments `want`.
fn is_path(path: &Vec<String>, want: &Vec<String>) -> (r: bool)
    ensures
        r == (segment_models(path@) == segment_models(want@)),
{
    if path.len() != want.len() {
        proof {
            assert(segment_models(path@).len() != segment_models(want@).len());
        }
        return false;
    }
    let mut i: usize = 0;
    while i < path.len()
        invariant
            path@.len() == want@.len(),
            0 <= i <= path@.len(),
            forall|j: int| 0 <= j < i ==> path@[j]@ == want@[j]@,
        decreases path@.len() - i,
    {
        if path[i] != want[i] {
            proof {
                assert(segment_models(path@)[i as int] != segment_models(want@)[i as int]);
            }
            return false;
        }
        i = i + 1;
    }
    proof {
        assert(segment_models(path@) =~= segment_models(want@));
    }
    true
}

impl Asset {
    /// The asset that a request path names, if any.
    pub fn for_path(path: &Vec<String>) -> (r: Option<Asset>)
        ensures
            r == asset_of(segment_models(path@)),
    {
        let root: Vec<String> = Vec::new();
        let index = vec!["index.html".to_string()];
        let static_index = vec!["static".to_string(), "index.html".to_string()];
        let style = vec!["static".to_string(), "style.css".to_string()];
        let js = vec!["static".to_string(), "wasm".to_string(), "frontend.js".to_string()];
        let wasm = vec!["static".to_string(), "wasm".to_string(), "frontend_bg.wasm".to_string()];
        proof {
            assert(segment_models(root@) =~= Seq::<Seq<char>>::empty());
            assert(segment_models(index@) =~= seq!["index.html"@]);
            assert(segment_models(static_index@) =~= seq!["static"@, "index.html"@]);
            assert(segment_models(style@) =~= seq!["static"@, "style.css"@]);
            assert(segment_models(js@) =~= seq!["static"@, "wasm"@, "frontend.js"@]);
            assert(segment_models(wasm@) =~= seq!["static"@, "wasm"@, "frontend_bg.wasm"@]);
        }
        if is_path(path, &root) || is_path(path, &index) || is_path(path, &static_index) {
            Some(Asset::Index)
        } else if is_path(path, &style) {
            Some(Asset::Style)
        } else if is_path(path, &js) {
            Some(Asset::FrontendJs)
        } else if is_path(path, &wasm) {
            Some(Asset::FrontendWasm)
        } else {
            None
        }
    }

    /// The file of the asset, relative to the static directory.
    pub fn file(&self) -> (r: String)
        ensures
            r@ == match self {
                Asset::Index => "index.html"@,
                Asset::Style => "style.css"@,
                Asset::FrontendJs => "wasm/frontend.js"@,
                Asset::FrontendWasm => "wasm/frontend_bg.wasm"@,
            },
    {
        match self {
            Asset::Index => "index.html".to_string(),
            Asset::Style => "style.css".to_string(),
            Asset::FrontendJs => "wasm/frontend.js".to_string(),
            Asset::FrontendWasm => "wasm/frontend_bg.wasm".to_string(),
        }
    }

    /// The media type the asset is served with.
    pub fn content_type(&self) -> (r: String)
        ensures
            r@ == match self {
                Asset::Index => "text/html; charset=utf-8"@,
                Asset::Style => "text/css; charset=utf-8"@,
                Asset::FrontendJs => "text/javascript; charset=utf-8"@,
                Asset::FrontendWasm => "application/wasm"@,
            },
    {
        match self {
            Asset::Index => "text/html; charset=utf-8".to_string(),
            Asset::Style => "text/css; charset=utf-8".to_string(),
            Asset::FrontendJs => "text/javascript; charset=utf-8".to_string(),
            Asset::FrontendWasm => "application/wasm".to_string(),
        }
    }
}

} // verus!
