//! HTML-to-text conversion and markup extraction.

use tmz::html::{extract_image_urls, extract_xml_attr, replace_all, strip_html};

#[test]
fn strips_simple_markup() {
    assert_eq!(strip_html("<p>Hello <b>world</b></p>"), "Hello world");
    assert_eq!(strip_html("plain text"), "plain text");
    assert_eq!(strip_html(""), "");
}

#[test]
fn block_elements_become_line_breaks() {
    assert_eq!(strip_html("<div>one</div><div>two</div>"), "one\ntwo");
    assert_eq!(strip_html("a<br>b<br/>c<br />d"), "a\nb\nc\nd");
}

#[test]
fn quoted_replies_are_dropped() {
    let html = "<blockquote itemscope>old reply</blockquote><p>new text</p>";
    assert_eq!(strip_html(html), "new text");
}

#[test]
fn entities_are_decoded() {
    assert_eq!(strip_html("a &amp; b &lt;ok&gt; &quot;x&quot; &#39;y&#39; c&nbsp;d"), "a & b <ok> \"x\" 'y' c d");
    assert_eq!(strip_html("thumbs &#128077; up"), "thumbs \u{1F44D} up");
    // An undecodable reference is passed through.
    assert_eq!(strip_html("bad &#99999999999; ref"), "bad &#99999999999; ref");
}

#[test]
fn whitespace_is_collapsed_and_trimmed() {
    assert_eq!(strip_html("  spaced    out  "), "spaced out");
    assert_eq!(strip_html("<p>  a  b  </p><p>  c  </p>"), "a b\nc");
}

#[test]
fn file_attachments_become_a_summary() {
    let html = "<URIObject type=\"File.1\" uri=\"u\"><FileSize v=\"4096\"/><OriginalName v=\"report.pdf\"/></URIObject>";
    assert_eq!(strip_html(html), "[file: report.pdf (4096 bytes)]");
    let no_size = "<URIObject type=\"File.1\"><OriginalName v=\"notes.txt\"/></URIObject>";
    assert_eq!(strip_html(no_size), "[file: notes.txt]");
}

#[test]
fn xml_attributes_are_extracted() {
    let html = "<FileSize v=\"123\"/><OriginalName v=\"a.txt\"/>";
    assert_eq!(extract_xml_attr(html, "FileSize", "v"), Some("123".to_string()));
    assert_eq!(extract_xml_attr(html, "OriginalName", "v"), Some("a.txt".to_string()));
    assert_eq!(extract_xml_attr(html, "Missing", "v"), None);
}

#[test]
fn replace_all_rewrites_every_occurrence() {
    assert_eq!(replace_all("x-y-z", "-", "+"), "x+y+z");
    assert_eq!(replace_all("aaa", "aa", "b"), "ba");
    assert_eq!(replace_all("none", "zz", "b"), "none");
}

#[test]
fn image_urls_skip_emoji_assets() {
    let html = format!(
        "{}{}{}",
        "<img itemtype=\"http://schema.skype.com/AMSImage\" src=\"https://media.example.test/one\">",
        "<img itemtype=\"http://schema.skype.com/Emoji\" src=\"https://statics.teams.cdn.office.net/smile\">",
        "<img itemtype=\"http://schema.skype.com/AMSImage\" src=\"https://media.example.test/two\">",
    );
    let urls = extract_image_urls(&html);
    assert_eq!(urls, vec!["https://media.example.test/one", "https://media.example.test/two"]);
    assert_eq!(extract_image_urls("no images here"), Vec::<String>::new());
}
