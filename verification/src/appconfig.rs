use vstd::prelude::*;

use crate::parameters::{filter_of_string, str_to_filter, FilterKind, OversizedImageHandling};
use crate::strutil::str_eq;
use crate::strutil::str_starts_with;
use vstd::string::StringExecFns;

verus! {

/// Why a configuration map was rejected: the offending settings, each named
/// as `key::value`.
#[derive(Debug, PartialEq)]
pub enum ImgprssrConfigErr {
    InvalidValues(Vec<String>),
}

/// Where source images come from: a local folder, or a plain or TLS HTTP
/// server. A backend is identified by its tag and base location alone;
/// connections are the business of whoever performs the fetch.
#[derive(Debug, Clone, PartialEq)]
pub enum ImgSource {
    Folder(String),
    Https(String),
    Http(String),
}

/// Process-wide defaults: built once at startup, then shared read-only.
#[derive(Clone, Debug, PartialEq)]
pub struct ImgprssrConfig {
    pub default_filter: FilterKind,
    pub default_oversize_handling: OversizedImageHandling,
    pub image_source: ImgSource,
}

impl ImgprssrConfig {
    /// The configuration used when no setting overrides it: nearest-neighbour
    /// filtering, clamping, images from the local `./images` folder.
    pub fn default() -> (r: ImgprssrConfig)
        ensures
            r.default_filter == FilterKind::Nearest,
            r.default_oversize_handling == OversizedImageHandling::Clamp,
            r.image_source is Folder && r.image_source->Folder_0@ == "./images"@,
    {
        ImgprssrConfig {
            default_filter: FilterKind::Nearest,
            default_oversize_handling: OversizedImageHandling::Clamp,
            image_source: ImgSource::Folder("./images".to_owned()),
        }
    }
}

/// The value mapped to key `k` by the settings `ps`, where a later pair with
/// the same key overwrites an earlier one.
pub open spec fn lookup_setting(ps: Seq<(String, String)>, k: Seq<char>) -> Option<Seq<char>>
    decreases ps.len(),
{
    if ps.len() == 0 {
        None
    } else {
        let rest = lookup_setting(ps.drop_first(), k);
        if rest is Some {
            rest
        } else if ps[0].0@ == k {
            Some(ps[0].1@)
        } else {
            None
        }
    }
}

spec fn setting_matches(
    ps: Seq<(String, String)>,
    rest: Seq<(String, String)>,
    k: Seq<char>,
    o: Option<String>,
) -> bool {
    lookup_setting(ps, k) == if lookup_setting(rest, k) is Some {
        lookup_setting(rest, k)
    } else {
        match o {
            Some(s) => Some(s@),
            None => None,
        }
    }
}

/// Whether `src` is the backend that the base location `v` names.
pub open spec fn is_source_for(src: ImgSource, v: Seq<char>) -> bool {
    if "https://"@.is_prefix_of(v) {
        src is Https && src->Https_0@ == v
    } else if "http://"@.is_prefix_of(v) {
        src is Http && src->Http_0@ == v
    } else {
        src is Folder && src->Folder_0@ == v
    }
}

/// Builds the configuration from key/value settings, where a later pair
/// overwrites an earlier one with the same key. `default_filter` must name
/// one of the five filters; it is otherwise reported as invalid.
/// `image_source` selects the backend by its prefix. Everything else keeps
/// its default.
pub fn from_hashmap(hmp: Vec<(String, String)>) -> (r: Result<ImgprssrConfig, ImgprssrConfigErr>)
    ensures
        ({
            let f = lookup_setting(hmp@, "default_filter"@);
            let s = lookup_setting(hmp@, "image_source"@);
            if f is Some && filter_of_string(f->0) is None {
                r is Err && r->Err_0->0@.len() == 1 && r->Err_0->0@[0]@ == "default_filter::"@
                    + f->0
            } else {
                r is Ok && {
                    let c = r->Ok_0;
                    &&& c.default_filter == (if f is Some {
                        filter_of_string(f->0)->0
                    } else {
                        FilterKind::Nearest
                    })
                    &&& c.default_oversize_handling == OversizedImageHandling::Clamp
                    &&& (match s {
                        Some(v) => is_source_for(c.image_source, v),
                        None => c.image_source is Folder && c.image_source->Folder_0@
                            == "./images"@,
                    })
                }
            }
        }),
{
    let mut config = ImgprssrConfig::default();
    let mut errors: Vec<String> = Vec::new();
    let ghost ps = hmp@;
    let mut filter_slot: Option<String> = None;
    let mut source_slot: Option<String> = None;
    let mut idx: usize = 0;
    proof {
        assert(ps.skip(0) =~= ps);
    }
    while idx < hmp.len()
        invariant
            idx <= hmp.len(),
            hmp@ == ps,
            setting_matches(ps, ps.skip(idx as int), "default_filter"@, filter_slot),
            setting_matches(ps, ps.skip(idx as int), "image_source"@, source_slot),
        decreases hmp.len() - idx,
    {
        proof {
            reveal_strlit("default_filter");
            reveal_strlit("image_source");
            assert("default_filter"@.len() == 14);
            assert("image_source"@.len() == 12);
            assert("default_filter"@ != "image_source"@);
            let tail = ps.skip(idx as int);
            assert(tail[0] == ps[idx as int]);
            assert(tail.drop_first() =~= ps.skip(idx as int + 1));
        }
        let key = &hmp[idx].0;
        if str_eq(key.as_str(), "default_filter") {
            filter_slot = Some(hmp[idx].1.clone());
        } else if str_eq(key.as_str(), "image_source") {
            source_slot = Some(hmp[idx].1.clone());
        }
        idx += 1;
    }
    proof {
        assert(ps.skip(hmp.len() as int) =~= Seq::<(String, String)>::empty());
    }
    if let Some(val) = &filter_slot {
        match str_to_filter(val.as_str()) {
            Ok(fltr) => {
                config.default_filter = fltr;
            },
            Err(_) => {
                let mut msg = "default_filter::".to_owned();
                msg.append(val.as_str());
                errors.push(msg);
            },
        }
    }
    if let Some(img_src) = &source_slot {
        if str_starts_with(img_src.as_str(), "https://") {
            config.image_source = ImgSource::Https(img_src.clone());
        } else if str_starts_with(img_src.as_str(), "http://") {
            config.image_source = ImgSource::Http(img_src.clone());
        } else {
            config.image_source = ImgSource::Folder(img_src.clone());
        }
    }
    if errors.len() > 0 {
        return Err(ImgprssrConfigErr::InvalidValues(errors));
    }
    Ok(config)
}

} // verus!
