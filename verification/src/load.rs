//! Pure path arithmetic of the loader.
//!
//! The surrounding loader reads `HOME` and its siblings from the process
//! environment and does the file I/O; the functions here only combine the
//! strings it found.  Joining uses a `/` separator throughout.
use vstd::prelude::*;

verus! {

/// The directory candidates drawn from the environment, in the order the
/// loader consults them: `HOME`, `USERPROFILE`, and the `HOMEDRIVE` /
/// `HOMEPATH` pair, whose two pieces name one directory together.
///
/// Returns the first candidate that is present; the drive pair counts only
/// when both pieces are present, and contributes their concatenation.
pub fn resolve_home_dir(
    home: Option<String>,
    userprofile: Option<String>,
    homedrive: Option<String>,
    homepath: Option<String>,
) -> (r: Option<String>)
    ensures
        match r {
            Some(dir) => {
                ||| (home matches Some(h) && dir@ == h@)
                ||| (home is None && (userprofile matches Some(u) && dir@ == u@))
                ||| (home is None && userprofile is None && (homedrive matches Some(d)
                    && (homepath matches Some(p) && dir@ == d@ + p@)))
            },
            None => home is None && userprofile is None && (homedrive is None
                || homepath is None),
        },
{
    match home {
        Some(h) => Some(h),
        None => match userprofile {
            Some(u) => Some(u),
            None => match (homedrive, homepath) {
                (Some(d), Some(p)) => {
                    let mut joined = d;
                    joined.append(p.as_str());
                    Some(joined)
                },
                _ => None,
            },
        },
    }
}

/// The `.galaxy` dot-directory under the given home directory, or `./` when
/// no home directory is known.
pub fn galaxy_dot_path(home: Option<&str>) -> (r: String)
    ensures
        match home {
            Some(h) => r@ == h@ + "/.galaxy"@,
            None => r@ == "./"@,
        },
{
    match home {
        Some(h) => {
            let mut out = h.to_owned();
            out.append("/.galaxy");
            out
        },
        None => "./".to_owned(),
    }
}

/// The default location of the secret-value file: `sec_value.yml` inside the
/// `.galaxy` dot-directory.
pub fn sec_value_default_path(home: Option<&str>) -> (r: String)
    ensures
        match home {
            Some(h) => r@ == h@ + "/.galaxy"@ + "/sec_value.yml"@,
            None => r@ == "./"@ + "/sec_value.yml"@,
        },
{
    let mut out = galaxy_dot_path(home);
    out.append("/sec_value.yml");
    out
}

} // verus!
