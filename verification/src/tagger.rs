use vstd::prelude::*;
use crate::strutil::{contains_char, opt_str_view};

verus! {

/// The tag suffix marking images this tool built: the tool's own marker,
/// extended with the invoking user's login name when one is known.
pub open spec fn spec_tag_suffix(username: Option<Seq<char>>) -> Seq<char> {
    match username {
        Some(u) => "codo-"@ + u,
        None => "codo"@,
    }
}

/// `image` with the tag suffix `suffix` attached: appended after a dash
/// when `image` already carries an explicit tag, and after a fresh
/// `:latest-` tag otherwise.
pub open spec fn spec_tagged(image: Seq<char>, suffix: Seq<char>) -> Seq<char> {
    if image.contains(':') {
        image + "-"@ + suffix
    } else {
        image + ":latest-"@ + suffix
    }
}

/// Relies on users::get_current_username, which looks the current uid up
/// in the OS user database: yields the login name of the user running this
/// process, where one resolves and the name is valid UTF-8, and nothing
/// otherwise. The outcome depends on the machine's user database, so no
/// more is assumed of it.
#[verifier::external_body]
fn current_username() -> Option<String> {
    match users::get_current_username() {
        Some(name) => name.into_string().ok(),
        None => None,
    }
}

/// Attaches the per-user tag suffix for `username` to `image_name`.
///
/// The result is never empty, whatever the resolution outcome was.
pub fn add_codo_tag_for_user(image_name: &str, username: Option<&String>) -> (r: String)
    ensures
        r@ == spec_tagged(image_name@, spec_tag_suffix(opt_str_view(username))),
        r@.len() > 0,
{
    let mut suffix = String::new();
    match username {
        Some(u) => {
            suffix.append("codo-");
            suffix.append(u.as_str());
        },
        None => {
            suffix.append("codo");
        },
    }
    proof {
        assert(suffix@ =~= spec_tag_suffix(opt_str_view(username)));
    }
    let mut r = String::new();
    r.append(image_name);
    if contains_char(image_name, ':') {
        r.append("-");
        proof {
            reveal_strlit("-");
        }
    } else {
        r.append(":latest-");
        proof {
            reveal_strlit(":latest-");
        }
    }
    r.append(suffix.as_str());
    proof {
        assert(r@ =~= spec_tagged(image_name@, spec_tag_suffix(opt_str_view(username))));
    }
    r
}

/// Attaches the per-user tag suffix for the user running this process to
/// `image_name`. When no login name resolves, the tool's bare marker is
/// the suffix; tagging always succeeds with a non-empty name.
pub fn add_codo_tag(image_name: &str) -> (r: String)
    ensures
        exists|u: Option<Seq<char>>|
            r@ == spec_tagged(image_name@, spec_tag_suffix(u)),
        r@.len() > 0,
{
    let username = current_username();
    add_codo_tag_for_user(image_name, username.as_ref())
}

} // verus!
