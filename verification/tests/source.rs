use imgprssr::appconfig::{ImgSource, ImgprssrConfig};
use imgprssr::codec::SourceImage;
use imgprssr::parameters::ImageParameterParseError;
use imgprssr::process::process_image_to_buffer;
use imgprssr::source::{plan_fetch, sourced_image, FetchError};

fn png_bytes(width: u32, height: u32) -> Vec<u8> {
    let img = image::DynamicImage::new_rgb8(width, height);
    let mut buffer = std::io::Cursor::new(Vec::new());
    img.write_to(&mut buffer, image::ImageFormat::Png).unwrap();
    buffer.into_inner()
}

#[test]
fn bad_query_short_circuits_before_any_fetch() {
    let source = ImgSource::Folder("./images".to_owned());
    let planned = plan_fetch(&source, "/test_card_sml.png", "width=asdw");
    assert_eq!(planned, Err(ImageParameterParseError::WidthParseError));
}

#[test]
fn plan_composes_base_and_path() {
    let source = ImgSource::Folder("./images".to_owned());
    let (location, params) = plan_fetch(&source, "/test_card_sml.png", "width=300").unwrap();
    assert_eq!(location, "./images/test_card_sml.png".to_owned());
    assert_eq!(params.width, Some(300));

    let source = ImgSource::Https("https://example.com/images".to_owned());
    let (location, _) = plan_fetch(&source, "/a.png", "").unwrap();
    assert_eq!(location, "https://example.com/images/a.png".to_owned());
}

#[test]
fn missing_fetch_collapses_to_not_found() {
    assert_eq!(sourced_image(None), Err(FetchError::NotFound));
}

#[test]
fn undecodable_bytes_collapse_to_not_found() {
    let garbage = vec![1_u8, 2, 3, 4, 5, 6, 7, 8];
    assert_eq!(sourced_image(Some(garbage)), Err(FetchError::NotFound));
}

#[test]
fn decodable_bytes_yield_image_with_sniffed_dimensions() {
    let bytes = png_bytes(3, 2);
    let img = sourced_image(Some(bytes)).unwrap();
    assert_eq!(img.width(), 3);
    assert_eq!(img.height(), 2);
    assert_eq!(img.format, image::ImageFormat::Png);
}

#[test]
fn transformed_buffer_reencodes_in_source_format() {
    let bytes = png_bytes(4, 2);
    let img: SourceImage = sourced_image(Some(bytes)).unwrap();
    let params = imgprssr::parameters::ImageParameters {
        width: Some(2),
        height: None,
        scaling_filter: None,
        oversized_handling: None,
    };
    let out = process_image_to_buffer(&ImgprssrConfig::default(), img, params).unwrap();
    assert_eq!(image::guess_format(&out).unwrap(), image::ImageFormat::Png);
    let decoded = image::load_from_memory(&out).unwrap();
    assert_eq!(decoded.width(), 2);
    assert_eq!(decoded.height(), 1);
}
