use vstd::prelude::*;
use crate::inventory::ImageInventory;
use crate::strutil::opt_str_view;

verus! {

/// Whether the launcher must build before running: the caller forced a
/// build, or the tagged image is missing from the inventory. When the
/// image is present and no build was forced, nothing is built, so an
/// unchanged store makes a run idempotent.
pub fn needs_build(inventory: &ImageInventory, tagged_image: &String, force_build: bool) -> (r:
    bool)
    ensures
        r == (force_build || !inventory@.contains_key(tagged_image@)),
{
    force_build || !inventory.contains_key(tagged_image)
}

/// The engine invocation that runs `inner` in a container of `image`:
/// interactive with a tty and removed on exit; when a working directory
/// is given, it is bound to `/codo` in the container, which becomes the
/// working directory; when a display is set, it is forwarded and the
/// host's X11 socket directory is bound through; then the image, then
/// the inner command verbatim.
pub open spec fn spec_run_invocation(
    image: Seq<char>,
    inner: Seq<Seq<char>>,
    working_dir: Option<Seq<char>>,
    display: Option<Seq<char>>,
) -> Seq<Seq<char>> {
    let base = seq!["sudo"@, "docker"@, "run"@, "-ti"@, "--rm"@];
    let with_dir = match working_dir {
        Some(wd) => base + seq!["-v"@, wd + ":/codo"@, "-w"@, "/codo"@],
        None => base,
    };
    let with_display = match display {
        Some(d) => with_dir + seq![
            "-e"@,
            "DISPLAY="@ + d,
            "-v"@,
            "/tmp/.X11-unix:/tmp/.X11-unix"@,
        ],
        None => with_dir,
    };
    with_display + seq![image] + inner
}

/// Renders the engine invocation that runs `inner_command` in a
/// container of `image_with_tag`.
pub fn run_invocation(
    image_with_tag: &String,
    inner_command: &Vec<String>,
    working_dir: Option<&String>,
    display: Option<&String>,
) -> (r: Vec<String>)
    ensures
        r.deep_view() == spec_run_invocation(
            image_with_tag@,
            inner_command.deep_view(),
            opt_str_view(working_dir),
            opt_str_view(display),
        ),
{
    let mut r: Vec<String> = Vec::new();
    r.push("sudo".to_owned());
    r.push("docker".to_owned());
    r.push("run".to_owned());
    r.push("-ti".to_owned());
    r.push("--rm".to_owned());
    match working_dir {
        Some(wd) => {
            r.push("-v".to_owned());
            let mut bind = String::new();
            bind.append(wd.as_str());
            bind.append(":/codo");
            r.push(bind);
            r.push("-w".to_owned());
            r.push("/codo".to_owned());
        },
        None => {},
    }
    match display {
        Some(d) => {
            r.push("-e".to_owned());
            let mut forwarded = String::new();
            forwarded.append("DISPLAY=");
            forwarded.append(d.as_str());
            r.push(forwarded);
            r.push("-v".to_owned());
            r.push("/tmp/.X11-unix:/tmp/.X11-unix".to_owned());
        },
        None => {},
    }
    r.push(image_with_tag.clone());
    let ghost prefix = r.deep_view();
    proof {
        assert(prefix =~= spec_run_invocation(
            image_with_tag@,
            Seq::<Seq<char>>::empty(),
            opt_str_view(working_dir),
            opt_str_view(display),
        ));
    }
    let mut i: usize = 0;
    while i < inner_command.len()
        invariant
            i <= inner_command@.len(),
            r.deep_view() == prefix + inner_command.deep_view().take(i as int),
        decreases inner_command@.len() - i,
    {
        let ghost old_dv = r.deep_view();
        r.push(inner_command[i].clone());
        proof {
            let dv = inner_command.deep_view();
            assert(r.deep_view() =~= old_dv.push(dv[i as int]));
            assert(dv.take(i + 1) =~= dv.take(i as int).push(dv[i as int]));
            assert(r.deep_view() =~= prefix + dv.take(i + 1));
        }
        i = i + 1;
    }
    proof {
        assert(inner_command.deep_view().take(inner_command@.len() as int)
            =~= inner_command.deep_view());
        assert(r.deep_view() =~= spec_run_invocation(
            image_with_tag@,
            inner_command.deep_view(),
            opt_str_view(working_dir),
            opt_str_view(display),
        ));
    }
    r
}

} // verus!
