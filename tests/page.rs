use svg_pages::page::{asset_file_name, page_name, slashes_for_colons};

#[test]
fn hierarchical_page_name_maps_to_nested_file() {
    let name = page_name("Icons:Arrow");
    assert_eq!(name, "icons/arrow");
    assert_eq!(asset_file_name(&name), "icons/arrow.svg");
}

#[test]
fn page_name_is_lower_cased() {
    assert_eq!(page_name("HOME"), "home");
    assert_eq!(asset_file_name(&page_name("Home")), "home.svg");
}

#[test]
fn every_colon_becomes_a_separator() {
    assert_eq!(slashes_for_colons("a::b:c:"), "a//b/c/");
    assert_eq!(slashes_for_colons(""), "");
    assert!(!page_name("X:Y:Z").contains(':'));
}

#[test]
fn parent_segments_are_not_blocked() {
    assert_eq!(asset_file_name(&page_name("..:Secret")), "../secret.svg");
}
