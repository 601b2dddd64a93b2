use svg_pages::markup::{replace_assignments, rewrite_root_tag, svg_size_full_width, MarkupError};

#[test]
fn removes_height_and_sets_width() {
    let doc = "<?xml version=\"1.0\"?>\n<svg height=\"10\" width=\"20\" viewBox=\"0 0 1 1\"><path/></svg>";
    let out = svg_size_full_width(doc).unwrap();
    assert_eq!(
        out,
        "<?xml version=\"1.0\"?>\n<svg  width=\"100%\" viewBox=\"0 0 1 1\"><path/></svg>"
    );
}

#[test]
fn width_is_not_added_when_absent() {
    let out = svg_size_full_width("<svg height=\"5\" viewBox=\"0 0 2 2\"></svg>").unwrap();
    assert_eq!(out, "<svg  viewBox=\"0 0 2 2\"></svg>");
    assert!(!out.contains("width"));
}

#[test]
fn whitespace_around_equals_is_accepted() {
    let out = svg_size_full_width("<svg width = \"3\"\theight\n=\n\"4\">x</svg>").unwrap();
    assert_eq!(out, "<svg width=\"100%\"\t>x</svg>");
}

#[test]
fn only_the_root_tag_is_rewritten() {
    let doc = "<svg width=\"1\"><svg width=\"2\" height=\"3\"></svg></svg>";
    let out = svg_size_full_width(doc).unwrap();
    assert_eq!(out, "<svg width=\"100%\"><svg width=\"2\" height=\"3\"></svg></svg>");
}

#[test]
fn attribute_names_ending_in_width_are_matched_too() {
    let out = svg_size_full_width("<svg stroke-width=\"2\" line-height=\"1\">").unwrap();
    assert_eq!(out, "<svg stroke-width=\"100%\" line->");
}

#[test]
fn rewrite_is_idempotent_on_a_plain_document() {
    let doc = "<svg xmlns=\"http://www.w3.org/2000/svg\" width=\"64\" height=\"32\"><rect/></svg>";
    let once = svg_size_full_width(doc).unwrap();
    let twice = svg_size_full_width(&once).unwrap();
    assert_eq!(once, twice);
    assert_eq!(once, "<svg xmlns=\"http://www.w3.org/2000/svg\" width=\"100%\" ><rect/></svg>");
}

#[test]
fn missing_svg_start_is_an_error() {
    let r = svg_size_full_width("<html><body>no image</body></html>");
    assert!(r == Err(MarkupError::NoStart));
    assert_eq!(MarkupError::NoStart.message(), "No SVG start found");
}

#[test]
fn missing_svg_end_is_an_error() {
    let r = svg_size_full_width("text <svg width=\"1\"");
    assert!(r == Err(MarkupError::NoEnd));
    assert_eq!(MarkupError::NoEnd.message(), "No SVG end found");
}

#[test]
fn empty_document_has_no_root_tag() {
    assert!(svg_size_full_width("") == Err(MarkupError::NoStart));
}

#[test]
fn unterminated_value_is_left_alone() {
    let out = rewrite_root_tag("<svg width=\"12>");
    assert_eq!(out, "<svg width=\"12>");
}

#[test]
fn replacement_is_taken_literally() {
    let out = replace_assignments("a x=\"1\" b", "x", "$0 y=\"2\"");
    assert_eq!(out, "a $0 y=\"2\" b");
}

#[test]
fn non_ascii_content_is_kept() {
    let doc = "<!-- é ü -->\u{3000}<svg\u{3000}height=\"1\" width\u{a0}=\"2\">ø</svg>";
    let out = svg_size_full_width(doc).unwrap();
    assert_eq!(out, "<!-- é ü -->\u{3000}<svg\u{3000} width=\"100%\">ø</svg>");
}

#[test]
fn removing_height_can_join_a_new_height() {
    let once = svg_size_full_width("<svg heheight=\"1\"ight=\"2\">").unwrap();
    assert_eq!(once, "<svg height=\"2\">");
    let twice = svg_size_full_width(&once).unwrap();
    assert_eq!(twice, "<svg >");
}

#[test]
fn removing_height_can_join_a_new_width() {
    let out = svg_size_full_width("<svg wid height=\"1\"th=\"2\">").unwrap();
    assert_eq!(out, "<svg wid th=\"2\">");
    let joined = svg_size_full_width("<svg widheight=\"1\"th=\"2\">").unwrap();
    assert_eq!(joined, "<svg width=\"100%\">");
}
