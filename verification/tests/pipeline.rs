use job_feed::get_detail;
use job_feed::mapped_detail;
use job_feed::parse_date;
use job_feed::parse_xml;
use job_feed::DecodeError;

fn feed_with(items: &str) -> String {
    format!(
        "<?xml version=\"1.0\" encoding=\"UTF-8\"?><rss version=\"2.0\"><channel><title>jobs</title><link>https://example.com</link><description>latest postings</description>{}</channel></rss>",
        items
    )
}

#[test]
fn test_empty_feed_decodes_empty() {
    let xml = feed_with("");
    let res = parse_xml(xml.as_bytes());

    assert_eq!(res, Ok(Vec::new()));
}

#[test]
fn test_entries_without_description_dropped_in_order() {
    let items = "<item><title>Title A</title><link>https://a.example</link><pubDate>Fri, 01 Sep 2023 02:19:13 +0000</pubDate><description><![CDATA[<b>Category</b>: Web Design<br/>]]></description></item><item><title>Title B</title><link>https://b.example</link><pubDate>Fri, 01 Sep 2023 03:19:13 +0000</pubDate></item><item><title>Title C</title><link>https://c.example</link><pubDate>Fri, 01 Sep 2023 04:19:13 +0000</pubDate><description><![CDATA[<b>Category</b>: Writing<br/>]]></description></item>";
    let xml = feed_with(items);
    let posts = parse_xml(xml.as_bytes()).unwrap();

    assert_eq!(posts.len(), 2);
    assert_eq!(posts[0].title, "Title A");
    assert_eq!(posts[0].category, "web_design");
    assert_eq!(posts[1].title, "Title C");
    assert_eq!(posts[1].category, "writing");
}

#[test]
fn test_description_field_extraction() {
    let desc = "<b>Budget</b>: $80<br/><b>Posted On</b>: April 29, 2024 09:00 UTC<br/><b>Category</b>: Presentation Design<br/>";
    let mapping = get_detail(desc).unwrap();

    assert_eq!(mapping.get("Budget"), Some("$80".to_string()));
    assert_eq!(
        mapping.get("Category"),
        Some("Presentation Design".to_string())
    );
    assert_eq!(mapping.get("Posted On"), None);
    assert_eq!(mapping.len(), 2);
}

#[test]
fn test_category_slugs() {
    let web = mapped_detail(
        "Fri, 01 Sep 2023 02:19:13 +0000".to_string(),
        1693534753,
        "t".to_string(),
        "https://a.example".to_string(),
        "<b>Category</b>: Web Design<br/>".to_string(),
    )
    .unwrap();
    assert_eq!(web.category, "web_design");

    let graphic = mapped_detail(
        "Fri, 01 Sep 2023 02:19:13 +0000".to_string(),
        1693534753,
        "t".to_string(),
        "https://a.example".to_string(),
        "<b>Category</b>: Graphic Design<br/>".to_string(),
    )
    .unwrap();
    assert_eq!(graphic.category, "graphic_design");
}

#[test]
fn test_link_query_trimmed() {
    let post = mapped_detail(
        "Fri, 01 Sep 2023 02:19:13 +0000".to_string(),
        1693534753,
        "t".to_string(),
        "https://x.com/jobs/abc?source=rss".to_string(),
        "<b>Category</b>: Web Design<br/>".to_string(),
    )
    .unwrap();

    assert_eq!(post.link, "https://x.com/jobs/abc");
}

#[test]
fn test_date_epoch() {
    let res = parse_date("Fri, 01 Sep 2023 02:19:13 +0000");

    assert_eq!(res, Ok(1693534753));
}

#[test]
fn test_date_offset_applied() {
    let res = parse_date("Fri, 01 Sep 2023 02:19:13 +0100");

    assert_eq!(res, Ok(1693534753 - 3600));
}

#[test]
fn test_date_parse_error() {
    let res = parse_date("April 29, 2024 09:00 UTC");

    assert_eq!(
        res,
        Err(DecodeError::DateParse("April 29, 2024 09:00 UTC".to_string()))
    );
}

#[test]
fn test_bad_date_fails_whole_decode() {
    let items = "<item><title>Title A</title><link>https://a.example</link><pubDate>yesterday</pubDate><description><![CDATA[<b>Category</b>: Web Design<br/>]]></description></item>";
    let xml = feed_with(items);
    let res = parse_xml(xml.as_bytes());

    assert_eq!(res, Err(DecodeError::DateParse("yesterday".to_string())));
}

#[test]
fn test_missing_category_fails_decode() {
    let items = "<item><title>Title A</title><link>https://a.example</link><pubDate>Fri, 01 Sep 2023 02:19:13 +0000</pubDate><description><![CDATA[<b>Budget</b>: $80<br/>]]></description></item>";
    let xml = feed_with(items);
    let res = parse_xml(xml.as_bytes());

    assert_eq!(res, Err(DecodeError::MissingCategory));
}

#[test]
fn test_duplicate_label_keeps_later_value() {
    let desc = "<b>Skills</b>: HTML,   CSS<br/><b>Skills</b>:\n Rust,\n    Tokio  <br/><b>Category</b>: Web Design<br/>";
    let mapping = get_detail(desc).unwrap();

    assert_eq!(mapping.get("Skills"), Some("Rust, Tokio".to_string()));
    assert_eq!(mapping.len(), 2);
}

#[test]
fn test_missing_value_error() {
    let res = get_detail("some text <b>Oops</b>");

    assert_eq!(res, Err(DecodeError::MissingValue("Oops".to_string())));
}

#[test]
fn test_non_text_value_error() {
    let res = get_detail("<b>First</b><b>Second</b>: x<br/>");

    assert_eq!(res, Err(DecodeError::NonTextValue("First".to_string())));
}

#[test]
fn test_feed_parse_error() {
    let res = parse_xml(b"this is no feed envelope at all");

    assert_eq!(res, Err(DecodeError::FeedParse));
}

#[test]
fn test_value_whitespace_collapsed() {
    let desc = "<b>Country</b>:   United\n\t  States   <br/><b>Category</b>: Web Design<br/>";
    let mapping = get_detail(desc).unwrap();

    assert_eq!(mapping.get("Country"), Some("United States".to_string()));
}
