//! Where the command-line tool keeps keys and sessions: under `aletheia` in
//! the platform's configuration directory. Paths are held as the bytes of
//! their operating-system form.
use vstd::prelude::*;
use crate::encoding::{push_all, push_text, utf8};

verus! {

/// `base` joined with `part` the way `PathBuf::join` does it on Unix, on the
/// paths' bytes: an absolute `part` (starting with `/`) replaces `base`;
/// otherwise `part` is appended, after a `/` unless `base` is empty or
/// already ends with one.
pub open spec fn path_join(base: Seq<u8>, part: Seq<u8>) -> Seq<u8> {
    if part.len() > 0 && part[0] == 47u8 {
        part
    } else if base.len() == 0 || base.last() == 47u8 {
        base + part
    } else {
        base + seq![47u8] + part
    }
}

/// Join a path (its bytes) with a relative or absolute path text.
pub fn join_path(base: &[u8], part: &str) -> (res: Vec<u8>)
    ensures
        res@ == path_join(base@, utf8(part@)),
{
    let mut p: Vec<u8> = Vec::new();
    push_text(&mut p, part);
    assert(p@ =~= utf8(part@));
    if p.len() > 0 && p[0] == 47u8 {
        return p;
    }
    let mut out: Vec<u8> = Vec::new();
    push_all(&mut out, base);
    assert(out@ =~= base@);
    if out.len() > 0 && out[out.len() - 1] != 47u8 {
        out.push(47u8);
    }
    let ghost before = out@;
    push_all(&mut out, p.as_slice());
    proof {
        if base@.len() > 0 && base@.last() != 47u8 {
            assert(before =~= base@ + seq![47u8]);
        }
    }
    out
}

/// The tool's configuration directory, given the platform's configuration
/// directory (`.` when the platform has none).
pub open spec fn config_path(platform_dir: Option<Seq<u8>>) -> Seq<u8> {
    path_join(
        match platform_dir {
            Some(d) => d,
            None => utf8("."@),
        },
        utf8("aletheia"@),
    )
}

/// The platform's configuration directory (`dirs::config_dir`), as the
/// bytes of its operating-system path. It depends on the environment and the
/// platform: nothing is stated of it.
#[verifier::external_body]
fn platform_config_dir() -> (res: Option<Vec<u8>>) {
    dirs::config_dir().map(|p| p.into_os_string().into_encoded_bytes())
}

/// The tool's configuration directory under a given platform configuration
/// directory: `aletheia` inside it, or inside `.` when there is none.
pub fn config_dir_from(platform_dir: Option<Vec<u8>>) -> (res: Vec<u8>)
    ensures
        res@ == config_path(
            match platform_dir {
                Some(d) => Some(d@),
                None => None,
            },
        ),
{
    match platform_dir {
        Some(d) => join_path(d.as_slice(), "aletheia"),
        None => {
            let mut dot: Vec<u8> = Vec::new();
            push_text(&mut dot, ".");
            join_path(dot.as_slice(), "aletheia")
        },
    }
}

/// The tool's configuration directory: `aletheia` inside the platform's
/// configuration directory (inside `.` when the platform has none).
pub fn config_dir() -> (res: Vec<u8>)
    ensures
        exists|platform_dir: Option<Seq<u8>>| res@ == config_path(platform_dir),
{
    let platform_dir = platform_config_dir();
    let ghost p = match &platform_dir {
        Some(d) => Some(d@),
        None => None,
    };
    let res = config_dir_from(platform_dir);
    assert(res@ == config_path(p));
    res
}

/// Where key pairs are written by default: `keys` in the configuration
/// directory.
pub fn keys_dir() -> (res: Vec<u8>)
    ensures
        exists|platform_dir: Option<Seq<u8>>| res@ == path_join(config_path(platform_dir), utf8("keys"@)),
{
    let config = config_dir();
    let ghost p = choose|platform_dir: Option<Seq<u8>>| config@ == config_path(platform_dir);
    let res = join_path(config.as_slice(), "keys");
    assert(res@ == path_join(config_path(p), utf8("keys"@)));
    res
}

/// Where sessions are kept: `sessions` in the configuration directory.
pub fn sessions_dir() -> (res: Vec<u8>)
    ensures
        exists|platform_dir: Option<Seq<u8>>|
            res@ == path_join(config_path(platform_dir), utf8("sessions"@)),
{
    let config = config_dir();
    let ghost p = choose|platform_dir: Option<Seq<u8>>| config@ == config_path(platform_dir);
    let res = join_path(config.as_slice(), "sessions");
    assert(res@ == path_join(config_path(p), utf8("sessions"@)));
    res
}

/// The directory of session `name`: `name` in the sessions directory.
pub fn session_dir(name: &str) -> (res: Vec<u8>)
    ensures
        exists|platform_dir: Option<Seq<u8>>|
            res@ == path_join(path_join(config_path(platform_dir), utf8("sessions"@)), utf8(name@)),
{
    let sessions = sessions_dir();
    let ghost p = choose|platform_dir: Option<Seq<u8>>|
        sessions@ == path_join(config_path(platform_dir), utf8("sessions"@));
    let res = join_path(sessions.as_slice(), name);
    assert(res@ == path_join(path_join(config_path(p), utf8("sessions"@)), utf8(name@)));
    res
}

} // verus!
