use imgprssr::parameters::{
    FilterKind, ImageParameterParseError, ImageParameters, OversizedImageHandling,
};
use imgprssr::strutil::parse_u32;

#[test]
fn it_works() {
    let test: ImageParameters = ImageParameters::from_str("").unwrap();
    assert_eq!(
        test,
        ImageParameters {
            width: None,
            height: None,
            scaling_filter: None,
            oversized_handling: None
        }
    );
}

#[test]
fn parses_width() {
    let cases = [100_u32, 100, 200, 300, 400, 500, 600];
    for width in cases {
        let test: ImageParameters =
            ImageParameters::from_str(&format!("width={}", width)).unwrap();
        assert_eq!(
            test,
            ImageParameters {
                width: Some(width),
                height: None,
                scaling_filter: None,
                oversized_handling: None
            }
        );
    }
}

#[test]
fn invalid_width_returns_err() {
    let cases = ["width=asdw", "width=300.1", "width=300px", "width=true", "width=", "width"];
    for case in cases {
        let test: Result<ImageParameters, ImageParameterParseError> =
            ImageParameters::from_str(case);
        assert_eq!(test.unwrap_err(), ImageParameterParseError::WidthParseError);
    }
}

#[test]
fn parses_height() {
    let cases = [100_u32, 100, 200, 300, 400, 500, 600];
    for height in cases {
        let test: ImageParameters =
            ImageParameters::from_str(&format!("height={}", height)).unwrap();
        assert_eq!(
            test,
            ImageParameters {
                width: None,
                height: Some(height),
                scaling_filter: None,
                oversized_handling: None
            }
        );
    }
}

#[test]
fn invalid_height_returns_err() {
    let cases =
        ["height=asdw", "height=300.1", "height=300px", "height=true", "height=", "height"];
    for case in cases {
        let test: Result<ImageParameters, ImageParameterParseError> =
            ImageParameters::from_str(case);
        assert_eq!(test.unwrap_err(), ImageParameterParseError::HeightParseError);
    }
}

#[test]
fn parses_filters() {
    let cases = [
        (FilterKind::Nearest, "nearest"),
        (FilterKind::Gaussian, "gaussian"),
        (FilterKind::CatmullRom, "catmullrom"),
        (FilterKind::Lanczos3, "lanczos3"),
        (FilterKind::Triangle, "triangle"),
    ];
    for (filter_type, filter_string) in cases {
        let test: ImageParameters =
            ImageParameters::from_str(&format!("filter={}", filter_string)).unwrap();
        assert_eq!(
            test,
            ImageParameters {
                width: None,
                height: None,
                scaling_filter: Some(filter_type),
                oversized_handling: None
            }
        );
    }
}

#[test]
fn parses_oversize_handling() {
    let cases = [(OversizedImageHandling::Clamp, "clamp")];
    for (filter_type, filter_string) in cases {
        let test: ImageParameters =
            ImageParameters::from_str(&format!("oversizehandling={}", filter_string)).unwrap();
        assert_eq!(
            test,
            ImageParameters {
                width: None,
                height: None,
                scaling_filter: None,
                oversized_handling: Some(filter_type)
            }
        );
    }
}

#[test]
fn errors_oversize_handling() {
    let cases = ["akmdsas"];
    for filter_string in cases {
        let test: Result<ImageParameters, ImageParameterParseError> =
            ImageParameters::from_str(&format!("oversizehandling={}", filter_string));
        assert_eq!(test, Err(ImageParameterParseError::OversizeParseError));
    }
}

#[test]
fn non_existent_filter_returns_error() {
    let test: Result<ImageParameters, ImageParameterParseError> =
        ImageParameters::from_str("filter=notreal");
    assert_eq!(test, Err(ImageParameterParseError::FilterParseError));
}

#[test]
fn unrecognized_keys_are_ignored() {
    let test: ImageParameters = ImageParameters::from_str("foo=bar&baz&depth=12").unwrap();
    assert_eq!(
        test,
        ImageParameters {
            width: None,
            height: None,
            scaling_filter: None,
            oversized_handling: None
        }
    );
}

#[test]
fn last_duplicate_key_wins() {
    let test: ImageParameters = ImageParameters::from_str("width=100&width=200").unwrap();
    assert_eq!(test.width, Some(200));
}

#[test]
fn parses_all_fields_together() {
    let test: ImageParameters =
        ImageParameters::from_str("width=1&height=2&filter=nearest&oversizehandling=clamp")
            .unwrap();
    assert_eq!(
        test,
        ImageParameters {
            width: Some(1),
            height: Some(2),
            scaling_filter: Some(FilterKind::Nearest),
            oversized_handling: Some(OversizedImageHandling::Clamp)
        }
    );
}

#[test]
fn width_accepts_u32_bounds() {
    let max = ImageParameters::from_str("width=4294967295").unwrap();
    assert_eq!(max.width, Some(4294967295));
    let over = ImageParameters::from_str("width=4294967296");
    assert_eq!(over, Err(ImageParameterParseError::WidthParseError));
    let zero = ImageParameters::from_str("width=0").unwrap();
    assert_eq!(zero.width, Some(0));
    let plus = ImageParameters::from_str("width=+17").unwrap();
    assert_eq!(plus.width, Some(17));
}

#[test]
fn width_error_reported_before_height() {
    let test = ImageParameters::from_str("width=bad&height=alsobad");
    assert_eq!(test, Err(ImageParameterParseError::WidthParseError));
}

#[test]
fn parse_u32_accepts_and_rejects() {
    assert_eq!(parse_u32("0"), Some(0));
    assert_eq!(parse_u32("42"), Some(42));
    assert_eq!(parse_u32("+42"), Some(42));
    assert_eq!(parse_u32("4294967295"), Some(4294967295));
    assert_eq!(parse_u32("4294967296"), None);
    assert_eq!(parse_u32(""), None);
    assert_eq!(parse_u32("+"), None);
    assert_eq!(parse_u32("-1"), None);
    assert_eq!(parse_u32("1.5"), None);
    assert_eq!(parse_u32("12px"), None);
}

#[test]
fn oversized_handling_from_str_recognizes_clamp() {
    assert_eq!(
        OversizedImageHandling::from_str("clamp"),
        Ok(OversizedImageHandling::Clamp)
    );
    assert_eq!(
        OversizedImageHandling::from_str("stretch"),
        Err(ImageParameterParseError::OversizeParseError)
    );
}
