use codo::inventory::images_info;
use codo::launcher::{needs_build, run_invocation};

#[test]
fn present_image_without_force_needs_no_build() {
    let out = "REPOSITORY   TAG   IMAGE ID\nimg   latest-codo-alice   abc\n";
    let inv = images_info(true, Some(0), out).unwrap();
    let tagged = "img:latest-codo-alice".to_string();
    assert!(!needs_build(&inv, &tagged, false));
}

#[test]
fn missing_image_needs_a_build() {
    let out = "REPOSITORY   TAG   IMAGE ID\nimg   latest-codo-alice   abc\n";
    let inv = images_info(true, Some(0), out).unwrap();
    let tagged = "other:latest-codo-alice".to_string();
    assert!(needs_build(&inv, &tagged, false));
}

#[test]
fn forced_build_overrides_presence() {
    let out = "REPOSITORY   TAG   IMAGE ID\nimg   latest-codo-alice   abc\n";
    let inv = images_info(true, Some(0), out).unwrap();
    let tagged = "img:latest-codo-alice".to_string();
    assert!(needs_build(&inv, &tagged, true));
}

#[test]
fn run_invocation_with_directory_and_display() {
    let image = "img:latest-codo".to_string();
    let inner: Vec<String> = vec!["echo".to_string(), "hi".to_string()];
    let wd = "/home/me/work".to_string();
    let display = ":0".to_string();
    let command = run_invocation(&image, &inner, Some(&wd), Some(&display));
    assert_eq!(command, vec![
        "sudo",
        "docker",
        "run",
        "-ti",
        "--rm",
        "-v",
        "/home/me/work:/codo",
        "-w",
        "/codo",
        "-e",
        "DISPLAY=:0",
        "-v",
        "/tmp/.X11-unix:/tmp/.X11-unix",
        "img:latest-codo",
        "echo",
        "hi",
    ]);
}

#[test]
fn run_invocation_without_directory_or_display() {
    let image = "img:latest-codo".to_string();
    let inner: Vec<String> = vec!["true".to_string()];
    let command = run_invocation(&image, &inner, None, None);
    assert_eq!(command, vec!["sudo", "docker", "run", "-ti", "--rm", "img:latest-codo", "true"]);
}
