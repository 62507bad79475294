use blogsync::filters::{
    add_homepage, add_metadata, apply_html_filters, apply_md_filters, styling, HtmlFilter,
    MdFilter, WriteTo,
};

#[test]
fn styling_links_the_stylesheet_at_the_beginning() {
    let (fragment, write_to) = styling("<p>ignored</p>");
    assert_eq!(
        fragment,
        "<meta name='viewport' content='width=device-width, initial-scale=1'>\
         <link rel='stylesheet' href='/style.css'>"
    );
    assert!(write_to == WriteTo::Beginning);
}

#[test]
fn add_homepage_appends_the_back_link() {
    let (fragment, write_to) = add_homepage("<p>ignored</p>");
    assert_eq!(fragment, "<br><a href='/'>Back to home page</a>");
    assert!(write_to == WriteTo::End);
}

#[test]
fn add_metadata_builds_the_header() {
    let (fragment, write_to) = add_metadata("body", "path", "My Title", "2023-01-02");
    assert_eq!(fragment, "## **My Title**\n### 2023-01-02\n### bootlegbilly");
    assert!(write_to == WriteTo::Beginning);
}

#[test]
fn apply_md_filters_wraps_the_text() {
    let mut md = "body text\n".to_string();
    apply_md_filters(
        &mut md,
        "my-post",
        "My Title",
        "2023-01-02",
        &[MdFilter::AddMetadata],
    );
    assert_eq!(
        md,
        "## **My Title**\n### 2023-01-02\n### bootlegbillybody text\n"
    );
}

#[test]
fn apply_md_filters_with_no_filters_keeps_the_text() {
    let mut md = "unchanged".to_string();
    apply_md_filters(&mut md, "p", "t", "d", &[]);
    assert_eq!(md, "unchanged");
}

#[test]
fn apply_html_filters_wraps_and_minifies() {
    let mut html = "<p>the body text</p>".to_string();
    apply_html_filters(&mut html, &[HtmlFilter::Styling, HtmlFilter::AddHomepage]);
    assert!(html.contains("the body text"));
    assert!(html.contains("Back to home page"));
    assert!(html.starts_with("<meta"));
    let link_pos = html.find("style.css").unwrap();
    let body_pos = html.find("the body text").unwrap();
    let home_pos = html.find("Back to home page").unwrap();
    assert!(link_pos < body_pos && body_pos < home_pos);
}
