use codo::builder::{
    build_command, build_user_from_lookup, default_dockerfile, extend_dockerfile, plan_build,
    provisioning_block, scratch_dockerfile_path, ImageConfig, UserIdentity,
};

fn expected_provisioning(uid: u32, gid: u32, username: &str) -> String {
    format!(
        "
            RUN export uid={uid} gid={gid}
            RUN mkdir -p /home/{username}
            RUN echo \"{username}:x:${{uid}}:${{gid}}:{username},,,:/home/{username}:/bin/bash\" >> /etc/passwd
            RUN echo \"{username}:x:${{uid}}:\" >> /etc/group
            RUN echo \"{username} ALL=(ALL) NOPASSWD: ALL\" >> /etc/sudoers
            RUN chmod 0440 /etc/sudoers
            RUN chown ${{uid}}:${{gid}} -R /home/{username}
            USER {username}
            ENV HOME /home/{username}
            ",
        username = username,
        uid = uid,
        gid = gid
    )
}

#[test]
fn lookup_outcome_becomes_a_build_user() {
    let resolved = build_user_from_lookup(5, Some((Some("alice".to_string()), 7))).unwrap();
    assert_eq!(resolved.uid, 5);
    assert_eq!(resolved.gid, 7);
    assert_eq!(resolved.username, "alice");

    let nameless = build_user_from_lookup(5, Some((None, 7))).unwrap();
    assert_eq!(nameless.username, "user");

    assert!(build_user_from_lookup(5, None).is_none());
}

#[test]
fn synthesized_dockerfile_is_exactly_one_from_line() {
    assert_eq!(default_dockerfile("ubuntu"), "FROM ubuntu\n");
    assert_eq!(default_dockerfile("registry.example/img"), "FROM registry.example/img\n");
}

#[test]
fn provisioning_block_matches_the_expected_text() {
    let user = UserIdentity { uid: 1000, gid: 100, username: "alice".to_string() };
    assert_eq!(provisioning_block(&user), expected_provisioning(1000, 100, "alice"));
}

#[test]
fn resolved_user_extends_the_dockerfile() {
    let user = UserIdentity { uid: 1000, gid: 100, username: "alice".to_string() };
    let extended = extend_dockerfile("FROM x\n", Some(&user));
    let expected = format!("FROM x\n{}", expected_provisioning(1000, 100, "alice"));
    assert_eq!(extended, expected);
}

#[test]
fn unresolved_user_leaves_the_dockerfile_unchanged() {
    assert_eq!(extend_dockerfile("FROM x\n", None), "FROM x\n");
}

#[test]
fn plan_without_config_uses_the_scratch_directory() {
    let scratch = "/tmp/codo".to_string();
    let tag = "ubuntu:latest-codo".to_string();
    let req = plan_build("ubuntu", None, &scratch, None, &tag);
    assert_eq!(req.image_name, "ubuntu");
    assert_eq!(req.dockerfile_contents, "FROM ubuntu\n");
    assert_eq!(req.build_context, "/tmp/codo");
    assert_eq!(req.tag, "ubuntu:latest-codo");
    assert!(req.pull_latest);
}

#[test]
fn plan_with_config_uses_template_and_directory() {
    let scratch = "/tmp/codo".to_string();
    let tag = "dev:latest-codo".to_string();
    let config = ImageConfig {
        dir: "/home/me/.config/codo/images/dev".to_string(),
        dockerfile_template: "FROM fedora\nRUN dnf install -y git\n".to_string(),
    };
    let req = plan_build("dev", Some(&config), &scratch, None, &tag);
    assert_eq!(req.dockerfile_contents, "FROM fedora\nRUN dnf install -y git\n");
    assert_eq!(req.build_context, "/home/me/.config/codo/images/dev");
}

#[test]
fn build_command_lists_tag_dockerfile_pull_and_context() {
    let scratch = "/tmp/codo".to_string();
    let tag = "ubuntu:latest-codo".to_string();
    let req = plan_build("ubuntu", None, &scratch, None, &tag);
    let path = scratch_dockerfile_path(&scratch);
    assert_eq!(path, "/tmp/codo/Dockerfile");
    let command = build_command(&req, &path);
    assert_eq!(command, vec![
        "sudo",
        "docker",
        "build",
        "-t",
        "ubuntu:latest-codo",
        "-f",
        "/tmp/codo/Dockerfile",
        "--pull",
        "/tmp/codo",
    ]);
}
