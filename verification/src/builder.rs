use vstd::prelude::*;
use crate::strutil::{spec_decimal, u64_to_string};

verus! {

/// The user an image is provisioned for: the invoking user's id, primary
/// group id and login name on the host.
pub struct UserIdentity {
    pub uid: u32,
    pub gid: u32,
    pub username: String,
}

/// An image's on-disk configuration, as the caller read it: the directory
/// it sits in and the Dockerfile template found there.
pub struct ImageConfig {
    pub dir: String,
    pub dockerfile_template: String,
}

/// Everything one image build needs: the image's name, the Dockerfile
/// text to build, the directory to build in, the tag to apply, and
/// whether the engine should pull the newest base layer.
pub struct BuildRequest {
    pub image_name: String,
    pub dockerfile_contents: String,
    pub build_context: String,
    pub tag: String,
    pub pull_latest: bool,
}

/// Relies on users::get_current_uid, which wraps the getuid call: yields
/// the real user id of this process.
#[verifier::external_body]
fn current_uid() -> u32 {
    users::get_current_uid()
}

/// Relies on users::get_user_by_uid, which looks `uid` up in the OS user
/// database, and on its User::name and User::primary_group_id accessors:
/// yields the entry's login name (nothing inside when the name is not
/// valid UTF-8) and primary group id, or nothing at all when no entry
/// resolves. The outcome depends on the machine's user database, so no
/// more is assumed of it.
#[verifier::external_body]
fn lookup_user(uid: u32) -> Option<(Option<String>, u32)> {
    match users::get_user_by_uid(uid) {
        Some(user) => {
            let gid = user.primary_group_id();
            match user.name().to_owned().into_string() {
                Ok(name) => Some((Some(name), gid)),
                Err(_) => Some((None, gid)),
            }
        },
        None => None,
    }
}

/// The identity one user-database lookup yields: nothing when no entry
/// resolved, and otherwise `uid` with the entry's primary group id and
/// login name, the name falling back to `user` when the entry's name was
/// not valid text.
pub fn build_user_from_lookup(uid: u32, lookup: Option<(Option<String>, u32)>) -> (r: Option<
    UserIdentity,
>)
    ensures
        r is Some <==> lookup is Some,
        (r matches Some(u) ==> lookup matches Some(l) && u.uid == uid && u.gid == l.1
            && u.username@ == (match l.0 {
            Some(n) => n@,
            None => "user"@,
        })),
{
    match lookup {
        Some((name, gid)) => {
            let username = match name {
                Some(n) => n,
                None => "user".to_owned(),
            };
            Some(UserIdentity { uid, gid, username })
        },
        None => None,
    }
}

/// Resolves the user this process runs as, for provisioning containers.
/// Yields nothing when the user database has no entry for the current
/// uid; a build then simply proceeds without provisioning, so resolution
/// failures never turn into errors. The outcome depends on the machine,
/// so nothing more can be promised of it.
pub fn resolve_build_user() -> Option<UserIdentity> {
    let uid = current_uid();
    build_user_from_lookup(uid, lookup_user(uid))
}

/// The Dockerfile synthesized for an image without a configuration
/// directory: a single line deriving from the image itself as the
/// upstream base.
pub fn default_dockerfile(image_name: &str) -> (r: String)
    ensures
        r@ == "FROM "@ + image_name@ + "\n"@,
{
    let mut r = String::new();
    r.append("FROM ");
    r.append(image_name);
    r.append("\n");
    proof {
        assert(r@ =~= "FROM "@ + image_name@ + "\n"@);
    }
    r
}

/// The provisioning instructions appended for `username` with ids `uid`
/// and `gid`: they create a matching user entry in the image, grant it
/// passwordless elevated privileges, and make it the effective container
/// user with a home directory, so files written to a bind-mounted
/// working directory stay owned by the host user.
pub open spec fn spec_provisioning(uid: nat, gid: nat, username: Seq<char>) -> Seq<char> {
    "\n            RUN export uid="@ + spec_decimal(uid) + " gid="@ + spec_decimal(gid)
        + "\n            RUN mkdir -p /home/"@ + username + "\n            RUN echo \""@ + username
        + ":x:${uid}:${gid}:"@ + username + ",,,:/home/"@ + username
        + ":/bin/bash\" >> /etc/passwd\n            RUN echo \""@ + username
        + ":x:${uid}:\" >> /etc/group\n            RUN echo \""@ + username
        + " ALL=(ALL) NOPASSWD: ALL\" >> /etc/sudoers\n            RUN chmod 0440 /etc/sudoers\n            RUN chown ${uid}:${gid} -R /home/"@
        + username + "\n            USER "@ + username + "\n            ENV HOME /home/"@
        + username + "\n            "@
}

/// Renders the provisioning instructions for `user`.
pub fn provisioning_block(user: &UserIdentity) -> (r: String)
    ensures
        r@ == spec_provisioning(user.uid as nat, user.gid as nat, user.username@),
{
    let uid = u64_to_string(user.uid as u64);
    let gid = u64_to_string(user.gid as u64);
    let name = user.username.as_str();
    let mut r = String::new();
    r.append("\n            RUN export uid=");
    r.append(uid.as_str());
    r.append(" gid=");
    r.append(gid.as_str());
    r.append("\n            RUN mkdir -p /home/");
    r.append(name);
    r.append("\n            RUN echo \"");
    r.append(name);
    r.append(":x:${uid}:${gid}:");
    r.append(name);
    r.append(",,,:/home/");
    r.append(name);
    r.append(":/bin/bash\" >> /etc/passwd\n            RUN echo \"");
    r.append(name);
    r.append(":x:${uid}:\" >> /etc/group\n            RUN echo \"");
    r.append(name);
    r.append(
        " ALL=(ALL) NOPASSWD: ALL\" >> /etc/sudoers\n            RUN chmod 0440 /etc/sudoers\n            RUN chown ${uid}:${gid} -R /home/",
    );
    r.append(name);
    r.append("\n            USER ");
    r.append(name);
    r.append("\n            ENV HOME /home/");
    r.append(name);
    r.append("\n            ");
    proof {
        assert(r@ =~= spec_provisioning(user.uid as nat, user.gid as nat, user.username@));
    }
    r
}

/// `dockerfile` with the provisioning instructions for `user` appended
/// when one resolved, and unchanged when none did.
pub fn extend_dockerfile(dockerfile: &str, user: Option<&UserIdentity>) -> (r: String)
    ensures
        (user matches Some(u) ==> r@ == dockerfile@ + spec_provisioning(
            u.uid as nat,
            u.gid as nat,
            u.username@,
        )),
        user is None ==> r@ == dockerfile@,
{
    match user {
        Some(u) => {
            let mut r = dockerfile.to_owned();
            let block = provisioning_block(u);
            r.append(block.as_str());
            r
        },
        None => dockerfile.to_owned(),
    }
}

/// The path the final Dockerfile is written to inside the scratch
/// directory.
pub fn scratch_dockerfile_path(scratch_dir: &String) -> (r: String)
    ensures
        r@ == scratch_dir@ + "/Dockerfile"@,
{
    let mut r = String::new();
    r.append(scratch_dir.as_str());
    r.append("/Dockerfile");
    proof {
        assert(r@ =~= scratch_dir@ + "/Dockerfile"@);
    }
    r
}

/// The Dockerfile a build starts from: the image's configured template
/// when it has one, and the minimal synthesized Dockerfile otherwise.
pub open spec fn spec_base_dockerfile(image: Seq<char>, config: Option<&ImageConfig>) -> Seq<
    char,
> {
    match config {
        Some(c) => c.dockerfile_template@,
        None => "FROM "@ + image + "\n"@,
    }
}

/// The Dockerfile a build uses: the base, extended with provisioning
/// instructions when a user resolved.
pub open spec fn spec_build_dockerfile(
    image: Seq<char>,
    config: Option<&ImageConfig>,
    user: Option<&UserIdentity>,
) -> Seq<char> {
    match user {
        Some(u) => spec_base_dockerfile(image, config) + spec_provisioning(
            u.uid as nat,
            u.gid as nat,
            u.username@,
        ),
        None => spec_base_dockerfile(image, config),
    }
}

/// Plans one image build. The Dockerfile starts from the image's
/// configured template, or the minimal synthesized one when the image
/// has no configuration; the build runs in the configuration directory,
/// or in `scratch_dir` for a synthesized Dockerfile; the provisioning
/// instructions for `user` are appended when one resolved; the image is
/// tagged `tag`; and the newest base layer is always pulled.
pub fn plan_build(
    image_name: &str,
    config: Option<&ImageConfig>,
    scratch_dir: &String,
    user: Option<&UserIdentity>,
    tag: &String,
) -> (r: BuildRequest)
    ensures
        r.image_name@ == image_name@,
        r.dockerfile_contents@ == spec_build_dockerfile(image_name@, config, user),
        r.build_context@ == (match config {
            Some(c) => c.dir@,
            None => scratch_dir@,
        }),
        r.tag@ == tag@,
        r.pull_latest == true,
{
    let (base, build_context): (String, String) = match config {
        Some(c) => (c.dockerfile_template.clone(), c.dir.clone()),
        None => (default_dockerfile(image_name), scratch_dir.clone()),
    };
    let dockerfile_contents = extend_dockerfile(base.as_str(), user);
    BuildRequest {
        image_name: image_name.to_owned(),
        dockerfile_contents,
        build_context,
        tag: tag.clone(),
        pull_latest: true,
    }
}

/// The engine invocation that builds `req`, in the order the engine
/// expects: the tag to apply, the path of the written Dockerfile, the
/// pull request when the newest base layer is wanted, and the build
/// context last.
pub open spec fn spec_build_command(
    tag: Seq<char>,
    dockerfile_path: Seq<char>,
    pull: bool,
    context: Seq<char>,
) -> Seq<Seq<char>> {
    let base = seq!["sudo"@, "docker"@, "build"@, "-t"@, tag, "-f"@, dockerfile_path];
    let with_pull = if pull {
        base + seq!["--pull"@]
    } else {
        base
    };
    with_pull + seq![context]
}

/// Renders the engine invocation that builds `req`, given the path the
/// Dockerfile was written to.
pub fn build_command(req: &BuildRequest, dockerfile_path: &String) -> (r: Vec<String>)
    ensures
        r.deep_view() == spec_build_command(
            req.tag@,
            dockerfile_path@,
            req.pull_latest,
            req.build_context@,
        ),
{
    let mut r: Vec<String> = Vec::new();
    r.push("sudo".to_owned());
    r.push("docker".to_owned());
    r.push("build".to_owned());
    r.push("-t".to_owned());
    r.push(req.tag.clone());
    r.push("-f".to_owned());
    r.push(dockerfile_path.clone());
    if req.pull_latest {
        r.push("--pull".to_owned());
    }
    r.push(req.build_context.clone());
    proof {
        assert(r.deep_view() =~= spec_build_command(
            req.tag@,
            dockerfile_path@,
            req.pull_latest,
            req.build_context@,
        ));
    }
    r
}

} // verus!
