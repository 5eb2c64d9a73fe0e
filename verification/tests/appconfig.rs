use imgprssr::appconfig::{from_hashmap, ImgSource, ImgprssrConfig, ImgprssrConfigErr};
use imgprssr::parameters::FilterKind;

#[test]
fn it_works_with_empty() {
    assert_eq!(from_hashmap(Vec::new()), Ok(ImgprssrConfig::default()))
}

#[test]
fn valid_string_parsed() {
    let mut hsmp: Vec<(String, String)> = Vec::new();
    let mut cnfg = ImgprssrConfig::default();
    hsmp.push(("default_filter".to_owned(), "gaussian".to_owned()));
    cnfg.default_filter = FilterKind::Gaussian;
    assert_eq!(from_hashmap(hsmp), Ok(cnfg))
}

#[test]
fn invalid_filter_string_returns_err() {
    let mut hsmp: Vec<(String, String)> = Vec::new();
    hsmp.push(("default_filter".to_owned(), "not_real_filter".to_owned()));
    assert_eq!(
        from_hashmap(hsmp),
        Err(ImgprssrConfigErr::InvalidValues(vec![
            "default_filter::not_real_filter".to_owned()
        ]))
    )
}

#[test]
fn valid_file_source_parsed() {
    let mut hsmp: Vec<(String, String)> = Vec::new();
    let mut cnfg = ImgprssrConfig::default();
    hsmp.push(("image_source".to_owned(), "./images".to_owned()));
    cnfg.image_source = ImgSource::Folder("./images".to_owned());
    assert_eq!(from_hashmap(hsmp), Ok(cnfg))
}

#[test]
fn valid_https_source_parsed() {
    let mut hsmp: Vec<(String, String)> = Vec::new();
    let mut cnfg = ImgprssrConfig::default();
    hsmp.push(("image_source".to_owned(), "https://example.com".to_owned()));
    cnfg.image_source = ImgSource::Https("https://example.com".to_owned());
    assert_eq!(from_hashmap(hsmp), Ok(cnfg))
}

#[test]
fn valid_http_source_parsed() {
    let mut hsmp: Vec<(String, String)> = Vec::new();
    let mut cnfg = ImgprssrConfig::default();
    hsmp.push(("image_source".to_owned(), "http://example.com".to_owned()));
    cnfg.image_source = ImgSource::Http("http://example.com".to_owned());
    assert_eq!(from_hashmap(hsmp), Ok(cnfg))
}

#[test]
fn later_setting_overwrites_earlier() {
    let mut hsmp: Vec<(String, String)> = Vec::new();
    let mut cnfg = ImgprssrConfig::default();
    hsmp.push(("default_filter".to_owned(), "gaussian".to_owned()));
    hsmp.push(("default_filter".to_owned(), "triangle".to_owned()));
    cnfg.default_filter = FilterKind::Triangle;
    assert_eq!(from_hashmap(hsmp), Ok(cnfg))
}

#[test]
fn both_settings_parsed_together() {
    let mut hsmp: Vec<(String, String)> = Vec::new();
    hsmp.push(("default_filter".to_owned(), "lanczos3".to_owned()));
    hsmp.push(("image_source".to_owned(), "http://images.example".to_owned()));
    let parsed = from_hashmap(hsmp).unwrap();
    assert_eq!(parsed.default_filter, FilterKind::Lanczos3);
    assert_eq!(
        parsed.image_source,
        ImgSource::Http("http://images.example".to_owned())
    );
}
