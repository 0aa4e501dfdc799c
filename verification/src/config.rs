use vstd::prelude::*;

verus! {

/// The directory that may hold an image's configuration: the tool's own
/// configuration directory, then `images`, then the image's name. Nothing
/// when no configuration directory resolved at all; whether the named
/// directory in fact exists on disk is the caller's business to check.
pub fn image_config_dir(config_dir: Option<&String>, image_name: &str) -> (r: Option<String>)
    ensures
        (r matches Some(p) ==> config_dir matches Some(d) && p@ == d@ + "/images/"@
            + image_name@),
        r is Some <==> config_dir is Some,
{
    match config_dir {
        Some(dir) => {
            let mut p = String::new();
            p.append(dir.as_str());
            p.append("/images/");
            p.append(image_name);
            proof {
                assert(p@ =~= dir@ + "/images/"@ + image_name@);
            }
            Some(p)
        },
        None => None,
    }
}

} // verus!
