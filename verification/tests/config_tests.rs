use codo::config::image_config_dir;

#[test]
fn image_config_dir_joins_base_images_and_name() {
    let base = "/home/me/.config/codo".to_string();
    let dir = image_config_dir(Some(&base), "fedora").unwrap();
    assert_eq!(dir, "/home/me/.config/codo/images/fedora");
}

#[test]
fn image_config_dir_needs_a_base_directory() {
    assert!(image_config_dir(None, "fedora").is_none());
}
