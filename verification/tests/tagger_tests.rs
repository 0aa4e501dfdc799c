use codo::tagger::{add_codo_tag, add_codo_tag_for_user};

#[test]
fn tags_plain_image_under_a_fresh_latest_tag() {
    let user = "alice".to_string();
    assert_eq!(add_codo_tag_for_user("ubuntu", Some(&user)), "ubuntu:latest-codo-alice");
}

#[test]
fn appends_suffix_to_an_explicit_tag() {
    let user = "alice".to_string();
    assert_eq!(add_codo_tag_for_user("img:1.0", Some(&user)), "img:1.0-codo-alice");
}

#[test]
fn missing_user_falls_back_to_bare_marker() {
    assert_eq!(add_codo_tag_for_user("ubuntu", None), "ubuntu:latest-codo");
}

#[test]
fn tag_is_never_empty_for_any_outcome() {
    let user = "bob".to_string();
    assert!(!add_codo_tag_for_user("", None).is_empty());
    assert!(!add_codo_tag_for_user("", Some(&user)).is_empty());
    assert!(!add_codo_tag_for_user("x", None).is_empty());
    assert!(!add_codo_tag("x").is_empty());
}
