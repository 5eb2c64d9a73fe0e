use vstd::prelude::*;

use crate::strutil::{
    dec_digits, is_digit_char, lemma_dec_digits, lemma_split_seq_append, lemma_split_seq_whole, u32_digits,
    is_u32_string, parse_u32, split_seq, split_str, str_eq, u32_of_string,
};

verus! {

/// The field-specific reasons a query string is rejected.
#[derive(Debug, PartialEq)]
pub enum ImageParameterParseError {
    WidthParseError,
    HeightParseError,
    FilterParseError,
    OversizeParseError,
}

/// Strategy for a source image that already exceeds the requested bound.
/// `Clamp` means: only ever shrink, never enlarge.
#[derive(Debug, PartialEq, Clone, Copy)]
pub enum OversizedImageHandling {
    Clamp,
}

impl OversizedImageHandling {
    /// Recognizes exactly the literal string `clamp`.
    pub fn from_str(s: &str) -> (r: Result<OversizedImageHandling, ImageParameterParseError>)
        ensures
            s@ == "clamp"@ ==> r == Ok::<_, ImageParameterParseError>(
                OversizedImageHandling::Clamp,
            ),
            s@ != "clamp"@ ==> r == Err::<OversizedImageHandling, _>(
                ImageParameterParseError::OversizeParseError,
            ),
    {
        if str_eq(s, "clamp") {
            Ok(OversizedImageHandling::Clamp)
        } else {
            Err(ImageParameterParseError::OversizeParseError)
        }
    }
}

/// Tag selecting the resampling algorithm handed to the image codec.
#[derive(Clone, Copy, Debug, PartialEq)]
pub enum FilterKind {
    Nearest,
    Triangle,
    CatmullRom,
    Gaussian,
    Lanczos3,
}

/// The validated per-request transform parameters. Every field is optional:
/// an absent width/height means no constraint on that axis, an absent filter
/// or handling means the configured default applies.
#[derive(Debug, PartialEq)]
pub struct ImageParameters {
    pub width: Option<u32>,
    pub height: Option<u32>,
    pub scaling_filter: Option<FilterKind>,
    pub oversized_handling: Option<OversizedImageHandling>,
}

/// The filter selected by one of the five recognized literal strings.
pub open spec fn filter_of_string(s: Seq<char>) -> Option<FilterKind> {
    if s == "nearest"@ {
        Some(FilterKind::Nearest)
    } else if s == "gaussian"@ {
        Some(FilterKind::Gaussian)
    } else if s == "catmullrom"@ {
        Some(FilterKind::CatmullRom)
    } else if s == "lanczos3"@ {
        Some(FilterKind::Lanczos3)
    } else if s == "triangle"@ {
        Some(FilterKind::Triangle)
    } else {
        None
    }
}

/// Maps the five recognized filter names to their tags; anything else is a
/// `FilterParseError`.
pub fn str_to_filter(filter_string: &str) -> (r: Result<FilterKind, ImageParameterParseError>)
    ensures
        r == match filter_of_string(filter_string@) {
            Some(f) => Ok::<FilterKind, ImageParameterParseError>(f),
            None => Err::<FilterKind, ImageParameterParseError>(
                ImageParameterParseError::FilterParseError,
            ),
        },
{
    if str_eq(filter_string, "nearest") {
        Ok(FilterKind::Nearest)
    } else if str_eq(filter_string, "gaussian") {
        Ok(FilterKind::Gaussian)
    } else if str_eq(filter_string, "catmullrom") {
        Ok(FilterKind::CatmullRom)
    } else if str_eq(filter_string, "lanczos3") {
        Ok(FilterKind::Lanczos3)
    } else if str_eq(filter_string, "triangle") {
        Ok(FilterKind::Triangle)
    } else {
        Err(ImageParameterParseError::FilterParseError)
    }
}

/// The key of one `key=value` piece: everything before the first `=`.
pub open spec fn key_of(p: Seq<char>) -> Seq<char> {
    split_seq(p, '=')[0]
}

/// The value of one `key=value` piece: the text between the first `=` and
/// the second one or the end; a bare key stands for the value `true`.
pub open spec fn val_of(p: Seq<char>) -> Seq<char> {
    let parts = split_seq(p, '=');
    if parts.len() == 1 {
        "true"@
    } else {
        parts[1]
    }
}

/// The value mapped to key `k` by the pieces `ps`, where a later piece with
/// the same key overwrites an earlier one.
pub open spec fn lookup_param(ps: Seq<Seq<char>>, k: Seq<char>) -> Option<Seq<char>>
    decreases ps.len(),
{
    if ps.len() == 0 {
        None
    } else {
        let rest = lookup_param(ps.drop_first(), k);
        if rest is Some {
            rest
        } else if key_of(ps[0]) == k {
            Some(val_of(ps[0]))
        } else {
            None
        }
    }
}

/// What parsing a raw query string yields: the pieces between `&` are read
/// as `key=value` pairs, the last occurrence of a key wins, the four
/// recognized keys are validated in order, and the first invalid field
/// decides the error.
pub open spec fn spec_parse(q: Seq<char>) -> Result<ImageParameters, ImageParameterParseError> {
    let ps = split_seq(q, '&');
    let w = lookup_param(ps, "width"@);
    let h = lookup_param(ps, "height"@);
    let os = lookup_param(ps, "oversizehandling"@);
    let f = lookup_param(ps, "filter"@);
    if w is Some && !is_u32_string(w->0) {
        Err(ImageParameterParseError::WidthParseError)
    } else if h is Some && !is_u32_string(h->0) {
        Err(ImageParameterParseError::HeightParseError)
    } else if os is Some && os->0 != "clamp"@ {
        Err(ImageParameterParseError::OversizeParseError)
    } else if f is Some && filter_of_string(f->0) is None {
        Err(ImageParameterParseError::FilterParseError)
    } else {
        Ok(ImageParameters {
            width: if w is Some { Some(u32_of_string(w->0)) } else { None },
            height: if h is Some { Some(u32_of_string(h->0)) } else { None },
            scaling_filter: if f is Some { filter_of_string(f->0) } else { None },
            oversized_handling: if os is Some { Some(OversizedImageHandling::Clamp) } else { None },
        })
    }
}

spec fn slot_view(o: Option<String>) -> Option<Seq<char>> {
    match o {
        Some(s) => Some(s@),
        None => None,
    }
}

spec fn slot_matches(ps: Seq<Seq<char>>, rest: Seq<Seq<char>>, k: Seq<char>, o: Option<String>) -> bool {
    lookup_param(ps, k) == if lookup_param(rest, k) is Some {
        lookup_param(rest, k)
    } else {
        slot_view(o)
    }
}

impl ImageParameters {
    /// Parses a raw query string into validated parameters: the result is
    /// exactly what `spec_parse` describes.
    pub fn from_str(string: &str) -> (r: Result<ImageParameters, ImageParameterParseError>)
        ensures
            r == spec_parse(string@),
    {
        let ghost ps = split_seq(string@, '&');
        let pieces = split_str(string, '&');
        let mut width_slot: Option<String> = None;
        let mut height_slot: Option<String> = None;
        let mut oversize_slot: Option<String> = None;
        let mut filter_slot: Option<String> = None;
        let mut idx: usize = 0;
        proof {
            assert(ps.skip(0) =~~= ps);
        }
        while idx < pieces.len()
            invariant
                idx <= pieces.len(),
                pieces.deep_view() == ps,
                slot_matches(ps, ps.skip(idx as int), "width"@, width_slot),
                slot_matches(ps, ps.skip(idx as int), "height"@, height_slot),
                slot_matches(ps, ps.skip(idx as int), "oversizehandling"@, oversize_slot),
                slot_matches(ps, ps.skip(idx as int), "filter"@, filter_slot),
            decreases pieces.len() - idx,
        {
            let ghost piece_view = ps[idx as int];
            let parts = split_str(pieces[idx].as_str(), '=');
            proof {
                assert(pieces.deep_view()[idx as int] == pieces[idx as int]@);
                crate::strutil::lemma_split_seq_len(piece_view, '=');
                assert(parts.deep_view()[0] == parts[0]@);
                if parts.deep_view().len() > 1 {
                    assert(parts.deep_view()[1] == parts[1]@);
                }
            }
            let key = &parts[0];
            let val: String = if parts.len() > 1 {
                parts[1].clone()
            } else {
                "true".to_owned()
            };
            assert(key@ == key_of(piece_view));
            assert(val@ == val_of(piece_view));
            if str_eq(key.as_str(), "width") {
                width_slot = Some(val);
            } else if str_eq(key.as_str(), "height") {
                height_slot = Some(val);
            } else if str_eq(key.as_str(), "oversizehandling") {
                oversize_slot = Some(val);
            } else if str_eq(key.as_str(), "filter") {
                filter_slot = Some(val);
            }
            proof {
                reveal_strlit("width");
                reveal_strlit("height");
                reveal_strlit("oversizehandling");
                reveal_strlit("filter");
                assert("width"@.len() == 5);
                assert("height"@.len() == 6);
                assert("oversizehandling"@.len() == 16);
                assert("filter"@.len() == 6);
                assert("height"@[0] == 'h');
                assert("filter"@[0] == 'f');
                assert("width"@ != "height"@);
                assert("width"@ != "oversizehandling"@);
                assert("width"@ != "filter"@);
                assert("height"@ != "oversizehandling"@);
                assert("height"@ != "filter"@);
                assert("oversizehandling"@ != "filter"@);
                let tail = ps.skip(idx as int);
                assert(tail[0] == piece_view);
                assert(tail.drop_first() =~~= ps.skip(idx as int + 1));
            }
            idx += 1;
        }
        proof {
            assert(ps.skip(pieces.len() as int) =~~= Seq::<Seq<char>>::empty());
        }
        let width: Option<u32> = match &width_slot {
            Some(v) => match parse_u32(v.as_str()) {
                Some(n) => Some(n),
                None => {
                    return Err(ImageParameterParseError::WidthParseError);
                },
            },
            None => None,
        };
        let height: Option<u32> = match &height_slot {
            Some(v) => match parse_u32(v.as_str()) {
                Some(n) => Some(n),
                None => {
                    return Err(ImageParameterParseError::HeightParseError);
                },
            },
            None => None,
        };
        let oversized_handling: Option<OversizedImageHandling> = match &oversize_slot {
            Some(v) => match OversizedImageHandling::from_str(v.as_str()) {
                Ok(h) => Some(h),
                Err(e) => {
                    return Err(e);
                },
            },
            None => None,
        };
        let scaling_filter: Option<FilterKind> = match &filter_slot {
            Some(v) => match str_to_filter(v.as_str()) {
                Ok(f) => Some(f),
                Err(e) => {
                    return Err(e);
                },
            },
            None => None,
        };
        Ok(ImageParameters { width, height, scaling_filter, oversized_handling })
    }
}

/// A query none of whose pieces carries a recognized key parses to the
/// all-default parameters.
pub proof fn lemma_parse_unrecognized_defaults(q: Seq<char>)
    requires
        lookup_param(split_seq(q, '&'), "width"@) is None,
        lookup_param(split_seq(q, '&'), "height"@) is None,
        lookup_param(split_seq(q, '&'), "oversizehandling"@) is None,
        lookup_param(split_seq(q, '&'), "filter"@) is None,
    ensures
        spec_parse(q) == Ok::<ImageParameters, ImageParameterParseError>(
            ImageParameters {
                width: None,
                height: None,
                scaling_filter: None,
                oversized_handling: None,
            },
        ),
{
}

/// Splitting and looking up the one-piece query `<key>=<numeral>`: the key
/// maps to the numeral, every other key is absent, and the numeral is a
/// valid decimal `u32` denoting `n`.
proof fn lemma_lookup_single_numeral(key: Seq<char>, n: u32)
    requires
        forall|i: int| 0 <= i < key.len() ==> (#[trigger] key[i]) != '&' && key[i] != '=',
    ensures
        ({
            let d = dec_digits(n as nat);
            let ps = split_seq(key + seq!['='] + d, '&');
            &&& forall|k: Seq<char>|
                #[trigger] lookup_param(ps, k) == if k == key {
                    Some(dec_digits(n as nat))
                } else {
                    None::<Seq<char>>
                }
            &&& is_u32_string(d)
            &&& u32_of_string(d) == n
        }),
{
    let d = dec_digits(n as nat);
    lemma_dec_digits(n as nat);
    let q = key + seq!['='] + d;
    assert(forall|i: int| 0 <= i < d.len() ==> is_digit_char(#[trigger] d[i]));
    assert(forall|i: int|
        0 <= i < d.len() ==> (#[trigger] d[i]) != '&' && d[i] != '=' && d[i] != '+');
    assert(forall|i: int| 0 <= i < q.len() ==> q[i] != '&') by {
        assert(forall|i: int|
            key.len() + 1 <= i < q.len() ==> #[trigger] q[i] == d[i - key.len() - 1]);
        assert(q[key.len() as int] == '=');
    }
    lemma_split_seq_whole(q, '&');
    let ps = split_seq(q, '&');
    assert(ps == seq![q]);
    lemma_split_seq_append(key, d, '=');
    lemma_split_seq_whole(d, '=');
    let parts = split_seq(q, '=');
    assert(parts == seq![key] + seq![d]);
    assert(parts.len() == 2);
    assert(key_of(q) == key);
    assert(parts[1] == d);
    assert(val_of(q) == d);
    let empty_ps: Seq<Seq<char>> = Seq::empty();
    assert(ps.drop_first() =~~= empty_ps);
    assert(ps[0] == q);
    assert forall|k: Seq<char>|
        #[trigger] lookup_param(ps, k) == (if k == key {
            Some(d)
        } else {
            None::<Seq<char>>
        }) by {
        assert(lookup_param(empty_ps, k) is None);
    }
    assert(d[0] != '+');
    assert(u32_digits(d) == d);
}

proof fn lemma_recognized_key_literals()
    ensures
        "width"@.len() == 5,
        "height"@.len() == 6,
        "oversizehandling"@.len() == 16,
        "filter"@.len() == 6,
        "width"@ != "height"@,
        "width"@ != "oversizehandling"@,
        "width"@ != "filter"@,
        "height"@ != "oversizehandling"@,
        "height"@ != "filter"@,
        "oversizehandling"@ != "filter"@,
        forall|i: int| 0 <= i < "width"@.len() ==> ("width"@[i]) != '&' && ("width"@[i]) != '=',
        forall|i: int| 0 <= i < "height"@.len() ==> ("height"@[i]) != '&' && ("height"@[i]) != '=',
{
    reveal_strlit("width");
    reveal_strlit("height");
    reveal_strlit("oversizehandling");
    reveal_strlit("filter");
    assert("height"@[0] == 'h');
    assert("filter"@[0] == 'f');
}

/// Any non-negative 32-bit number round-trips: parsing `width=<n>` written
/// with `n`'s own decimal numeral yields exactly `n` as the width and leaves
/// every other field at its default.
pub proof fn lemma_parse_width_round_trip(n: u32)
    ensures
        spec_parse("width="@ + dec_digits(n as nat)) == Ok::<
            ImageParameters,
            ImageParameterParseError,
        >(
            ImageParameters {
                width: Some(n),
                height: None,
                scaling_filter: None,
                oversized_handling: None,
            },
        ),
{
    let d = dec_digits(n as nat);
    lemma_recognized_key_literals();
    lemma_lookup_single_numeral("width"@, n);
    reveal_strlit("width=");
    reveal_strlit("width");
    assert("width="@.len() == 6);
    assert("width"@ + seq!['='] + d =~= "width="@ + d);
    let ps = split_seq("width="@ + d, '&');
    assert(lookup_param(ps, "width"@) == Some(d));
    assert(lookup_param(ps, "height"@) is None);
    assert(lookup_param(ps, "oversizehandling"@) is None);
    assert(lookup_param(ps, "filter"@) is None);
}

/// Any non-negative 32-bit number round-trips on the height axis as well:
/// parsing `height=<n>` written with `n`'s own decimal numeral yields
/// exactly `n` as the height and leaves every other field at its default.
pub proof fn lemma_parse_height_round_trip(n: u32)
    ensures
        spec_parse("height="@ + dec_digits(n as nat)) == Ok::<
            ImageParameters,
            ImageParameterParseError,
        >(
            ImageParameters {
                width: None,
                height: Some(n),
                scaling_filter: None,
                oversized_handling: None,
            },
        ),
{
    let d = dec_digits(n as nat);
    lemma_recognized_key_literals();
    lemma_lookup_single_numeral("height"@, n);
    reveal_strlit("height=");
    reveal_strlit("height");
    assert("height="@.len() == 7);
    assert("height"@ + seq!['='] + d =~= "height="@ + d);
    let ps = split_seq("height="@ + d, '&');
    assert(lookup_param(ps, "height"@) == Some(d));
    assert(lookup_param(ps, "width"@) is None);
    assert(lookup_param(ps, "oversizehandling"@) is None);
    assert(lookup_param(ps, "filter"@) is None);
}

/// A present `width` value that is not a decimal 32-bit numeral fails the
/// whole parse with the width-specific error.
pub proof fn lemma_parse_bad_width(q: Seq<char>, v: Seq<char>)
    requires
        lookup_param(split_seq(q, '&'), "width"@) == Some(v),
        !is_u32_string(v),
    ensures
        spec_parse(q) == Err::<ImageParameters, ImageParameterParseError>(
            ImageParameterParseError::WidthParseError,
        ),
{
}

/// A present `height` value that is not a decimal 32-bit numeral fails the
/// whole parse with the height-specific error, once the width is absent or
/// valid.
pub proof fn lemma_parse_bad_height(q: Seq<char>, v: Seq<char>)
    requires
        lookup_param(split_seq(q, '&'), "width"@) is Some ==> is_u32_string(
            lookup_param(split_seq(q, '&'), "width"@)->0,
        ),
        lookup_param(split_seq(q, '&'), "height"@) == Some(v),
        !is_u32_string(v),
    ensures
        spec_parse(q) == Err::<ImageParameters, ImageParameterParseError>(
            ImageParameterParseError::HeightParseError,
        ),
{
}

/// A present `filter` value outside the five recognized names fails the
/// whole parse with the filter-specific error, once width, height and
/// oversize handling are absent or valid.
pub proof fn lemma_parse_bad_filter(q: Seq<char>, v: Seq<char>)
    requires
        lookup_param(split_seq(q, '&'), "width"@) is Some ==> is_u32_string(
            lookup_param(split_seq(q, '&'), "width"@)->0,
        ),
        lookup_param(split_seq(q, '&'), "height"@) is Some ==> is_u32_string(
            lookup_param(split_seq(q, '&'), "height"@)->0,
        ),
        lookup_param(split_seq(q, '&'), "oversizehandling"@) is Some ==> lookup_param(
            split_seq(q, '&'),
            "oversizehandling"@,
        )->0 == "clamp"@,
        lookup_param(split_seq(q, '&'), "filter"@) == Some(v),
        filter_of_string(v) is None,
    ensures
        spec_parse(q) == Err::<ImageParameters, ImageParameterParseError>(
            ImageParameterParseError::FilterParseError,
        ),
{
}

} // verus!
