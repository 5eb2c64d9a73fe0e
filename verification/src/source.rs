use vstd::prelude::*;

use crate::appconfig::ImgSource;
use crate::codec::{decode_image, decoded_image, SourceImage};
use crate::parameters::{spec_parse, ImageParameterParseError, ImageParameters};
use vstd::string::StringExecFns;

verus! {

/// Why a fetch failed: every underlying cause — a missing file, a transport
/// failure, a non-success status, undecodable bytes — collapses to the one
/// variant, so no backend detail leaks to the caller.
#[derive(Debug, PartialEq)]
pub enum FetchError {
    NotFound,
}

/// The base location of a source backend.
pub open spec fn source_base(s: ImgSource) -> Seq<char> {
    match s {
        ImgSource::Folder(b) => b@,
        ImgSource::Https(b) => b@,
        ImgSource::Http(b) => b@,
    }
}

/// Decides a request before any fetch happens: a query string that fails to
/// parse short-circuits with its parameter error, and no fetch location is
/// produced at all; otherwise the fetch location is the backend's base
/// location joined with the request path, beside the validated parameters.
pub fn plan_fetch(source: &ImgSource, target_path: &str, query: &str) -> (r: Result<
    (String, ImageParameters),
    ImageParameterParseError,
>)
    ensures
        spec_parse(query@) is Err ==> r is Err && r->Err_0 == spec_parse(query@)->Err_0,
        spec_parse(query@) is Ok ==> r is Ok && r->Ok_0.1 == spec_parse(query@)->Ok_0
            && r->Ok_0.0@ == source_base(*source) + target_path@,
{
    let params = match ImageParameters::from_str(query) {
        Ok(p) => p,
        Err(e) => {
            return Err(e);
        },
    };
    let base: &String = match source {
        ImgSource::Folder(b) => b,
        ImgSource::Https(b) => b,
        ImgSource::Http(b) => b,
    };
    let mut full = base.clone();
    full.append(target_path);
    Ok((full, params))
}

/// Resolves the outcome of a backend fetch: absent or undecodable bytes
/// collapse uniformly to `NotFound`, and bytes that decode yield exactly the
/// decoded image — so any two backends that hand back byte-identical content
/// resolve to the identical image, dimensions and sniffed format included.
pub fn sourced_image(fetched: Option<Vec<u8>>) -> (r: Result<SourceImage, FetchError>)
    ensures
        fetched is None ==> r == Err::<SourceImage, FetchError>(FetchError::NotFound),
        fetched is Some ==> match r {
            Ok(img) => decoded_image(fetched->0@) == Some(img),
            Err(e) => decoded_image(fetched->0@) is None && e == FetchError::NotFound,
        },
{
    match fetched {
        Some(bytes) => match decode_image(&bytes) {
            Some(img) => Ok(img),
            None => Err(FetchError::NotFound),
        },
        None => Err(FetchError::NotFound),
    }
}

} // verus!
