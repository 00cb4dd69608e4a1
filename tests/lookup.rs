use md2html::data::PageInfo;
use md2html::lookup::{page_from_parts, page_info};

fn pair(n: &str, v: &str) -> (String, String) {
    (n.to_string(), v.to_string())
}

#[test]
fn page_body_gives_title_and_open_graph_fields() {
    let body = "<html><head><title>Home</title>\n<meta property=\"og:title\" content=\"OG Home\">\n<meta property=\"og:image\" content=\"i.png\">\n<meta property=\"og:site_name\" content=\"Site\">\n</head></html>";
    let info = page_info("http://a", Some(body.to_string()));
    assert_eq!(
        info,
        PageInfo {
            url: "http://a".to_string(),
            title: "Home".to_string(),
            card_title: "OG Home".to_string(),
            image: Some("i.png".to_string()),
            description: None,
            site_name: Some("Site".to_string()),
        }
    );
}

#[test]
fn card_title_falls_back_to_the_page_title() {
    let body = "<title>Only title</title>\n<meta property=\"og:description\" content=\"About\">\n";
    let info = page_info("u", Some(body.to_string()));
    assert_eq!(info.title, "Only title");
    assert_eq!(info.card_title, "Only title");
    assert_eq!(info.description, Some("About".to_string()));
    assert_eq!(info.image, None);
}

#[test]
fn unreachable_page_has_empty_fields() {
    let info = page_info("u", None);
    assert_eq!(
        info,
        PageInfo {
            url: "u".to_string(),
            title: "".to_string(),
            card_title: "".to_string(),
            image: None,
            description: None,
            site_name: None,
        }
    );
}

#[test]
fn later_properties_win_and_unknown_ones_are_ignored() {
    let pairs = vec![pair("title", "A"), pair("type", "article"), pair("title", "B"), pair("image", "x")];
    let info = page_from_parts("u", None, &pairs);
    assert_eq!(info.card_title, "B");
    assert_eq!(info.title, "");
    assert_eq!(info.image, Some("x".to_string()));
    assert_eq!(info.site_name, None);
}
