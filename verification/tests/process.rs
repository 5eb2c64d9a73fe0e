use imgprssr::appconfig::ImgprssrConfig;
use imgprssr::codec::SourceImage;
use imgprssr::parameters::{ImageParameters, OversizedImageHandling};
use imgprssr::process::process_image;

fn test_image(width: u32, height: u32) -> SourceImage {
    SourceImage {
        pixels: image::DynamicImage::new_rgb8(width, height),
        width,
        height,
        format: image::ImageFormat::Png,
    }
}

#[test]
fn no_params_doesnt_manipulate_image() {
    let img = test_image(640, 480);
    let params = ImageParameters {
        width: None,
        height: None,
        scaling_filter: None,
        oversized_handling: None,
    };
    let cloned_image = img.clone();
    assert_eq!(process_image(&ImgprssrConfig::default(), img, params), cloned_image);
}

#[test]
fn sets_width_with_matching_aspect_height() {
    let source_size = [1200_u32, 600];
    let cases = [[123_u32, 61], [200_u32, 100], [300_u32, 150], [600_u32, 300]];
    for case in cases {
        let img = test_image(source_size[0], source_size[1]);
        let params = ImageParameters {
            width: Some(case[0]),
            height: None,
            scaling_filter: None,
            oversized_handling: None,
        };
        let processed = process_image(&ImgprssrConfig::default(), img, params);
        assert_eq!(processed.width(), case[0]);
        assert_eq!(processed.height(), case[1]);
    }
}

#[test]
fn sets_absolute_size() {
    let source_size = [1200_u32, 600];
    let cases = [[236, 123], [400, 400], [250, 300]];
    for [width, height] in cases {
        let img = test_image(source_size[0], source_size[1]);
        let params = ImageParameters {
            width: Some(width),
            height: Some(height),
            scaling_filter: None,
            oversized_handling: None,
        };
        let processed = process_image(&ImgprssrConfig::default(), img, params);
        assert_eq!(processed.width(), width);
        assert_eq!(processed.height(), height);
    }
}

#[test]
fn sets_height_with_matching_aspect_width() {
    let source_size = [1200_u32, 600];
    let cases = [[123_u32, 246], [200_u32, 400], [150_u32, 300], [300_u32, 600]];
    for case in cases {
        let img = test_image(source_size[0], source_size[1]);
        let params = ImageParameters {
            width: None,
            height: Some(case[0]),
            scaling_filter: None,
            oversized_handling: None,
        };
        let processed = process_image(&ImgprssrConfig::default(), img, params);
        assert_eq!(processed.height(), case[0]);
        assert_eq!(processed.width(), case[1]);
    }
}

#[test]
fn oversized_width_request_never_upscales() {
    let img = test_image(1200, 600);
    let params = ImageParameters {
        width: Some(2000),
        height: None,
        scaling_filter: None,
        oversized_handling: Some(OversizedImageHandling::Clamp),
    };
    let cloned_image = img.clone();
    let processed = process_image(&ImgprssrConfig::default(), img, params);
    assert_eq!(processed.width(), 1200);
    assert_eq!(processed.height(), 600);
    assert_eq!(processed, cloned_image);
}

#[test]
fn oversized_height_request_never_upscales() {
    let img = test_image(1200, 600);
    let params = ImageParameters {
        width: None,
        height: Some(601),
        scaling_filter: None,
        oversized_handling: None,
    };
    let cloned_image = img.clone();
    let processed = process_image(&ImgprssrConfig::default(), img, params);
    assert_eq!(processed, cloned_image);
}

#[test]
fn fit_to_box_wide_target_crops_height() {
    let img = test_image(1200, 600);
    let params = ImageParameters {
        width: Some(400),
        height: Some(100),
        scaling_filter: None,
        oversized_handling: None,
    };
    let processed = process_image(&ImgprssrConfig::default(), img, params);
    assert_eq!(processed.width(), 400);
    assert_eq!(processed.height(), 100);
}

#[test]
fn fit_to_box_disengages_when_source_is_smaller() {
    let img = test_image(300, 300);
    let params = ImageParameters {
        width: Some(400),
        height: Some(200),
        scaling_filter: None,
        oversized_handling: None,
    };
    let cloned_image = img.clone();
    let processed = process_image(&ImgprssrConfig::default(), img, params);
    assert_eq!(processed, cloned_image);
}

#[test]
fn width_equal_to_source_passes_through() {
    let img = test_image(1200, 600);
    let params = ImageParameters {
        width: Some(1200),
        height: None,
        scaling_filter: None,
        oversized_handling: None,
    };
    let cloned_image = img.clone();
    let processed = process_image(&ImgprssrConfig::default(), img, params);
    assert_eq!(processed, cloned_image);
}
