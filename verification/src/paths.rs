//! Where the program keeps its files.
use vstd::prelude::*;
use crate::text::{chars_of, decimal, decimal_chars, push_all, string_from_chars};

verus! {

/// `dir` joined with a relative `name` (as `Path::join`): a separator is
/// put between them unless `dir` is empty or already ends with one.
pub open spec fn joined(dir: Seq<char>, name: Seq<char>) -> Seq<char> {
    if dir.len() == 0 || dir.last() == '/' {
        dir + name
    } else {
        dir + seq!['/'] + name
    }
}

/// Joins a directory and a relative name.
pub fn join_path(dir: &str, name: &str) -> (r: String)
    ensures
        r@ == joined(dir@, name@),
{
    let mut out = chars_of(dir);
    let n = out.len();
    if n > 0 && out[n - 1] != '/' {
        out.push('/');
    }
    push_all(&mut out, &chars_of(name));
    string_from_chars(&out)
}

/// The directory for sockets and temporary recordings: `XDG_RUNTIME_DIR`,
/// or a per-user directory under `/tmp`.
pub open spec fn runtime_dir_of(xdg_runtime_dir: Option<Seq<char>>, euid: u32) -> Seq<char> {
    match xdg_runtime_dir {
        Some(d) => d,
        None => "/tmp/gigatype-"@ + decimal(euid as nat),
    }
}

/// The runtime directory, given `XDG_RUNTIME_DIR` and the effective user id.
pub fn runtime_dir(xdg_runtime_dir: Option<&str>, euid: u32) -> (r: String)
    ensures
        r@ == runtime_dir_of(
            match xdg_runtime_dir {
                Some(d) => Some(d@),
                None => None,
            },
            euid,
        ),
{
    match xdg_runtime_dir {
        Some(d) => string_from_chars(&chars_of(d)),
        None => {
            let mut out = chars_of("/tmp/gigatype-");
            push_all(&mut out, &decimal_chars(euid as u64));
            string_from_chars(&out)
        },
    }
}

/// The daemon's socket in the runtime directory.
pub fn socket_path(runtime_dir: &str) -> (r: String)
    ensures
        r@ == joined(runtime_dir@, "gigatype.sock"@),
{
    join_path(runtime_dir, "gigatype.sock")
}

/// The marker that exists while a transcription runs.
pub fn transcribing_path(runtime_dir: &str) -> (r: String)
    ensures
        r@ == joined(runtime_dir@, "gigatype-transcribing"@),
{
    join_path(runtime_dir, "gigatype-transcribing")
}

/// The temporary recording.
pub fn recording_path(runtime_dir: &str) -> (r: String)
    ensures
        r@ == joined(runtime_dir@, "gigatype-recording.wav"@),
{
    join_path(runtime_dir, "gigatype-recording.wav")
}

/// The home directory, or the current directory when `HOME` is unset.
pub open spec fn home_of(home: Option<Seq<char>>) -> Seq<char> {
    match home {
        Some(h) => h,
        None => "."@,
    }
}

fn home_or_here(home: Option<&str>) -> (r: String)
    ensures
        r@ == home_of(
            match home {
                Some(h) => Some(h@),
                None => None,
            },
        ),
{
    match home {
        Some(h) => string_from_chars(&chars_of(h)),
        None => string_from_chars(&chars_of(".")),
    }
}

/// The model directory: `GIGATYPE_MODEL`, or the default location under the
/// home directory.
pub fn model_dir(model: Option<&str>, home: Option<&str>) -> (r: String)
    ensures
        r@ == match model {
            Some(m) => m@,
            None => joined(
                home_of(
                    match home {
                        Some(h) => Some(h@),
                        None => None,
                    },
                ),
                ".local/share/gigatype/models/gigaam-v3-e2e-rnnt"@,
            ),
        },
{
    match model {
        Some(m) => string_from_chars(&chars_of(m)),
        None => {
            let base = home_or_here(home);
            join_path(base.as_str(), ".local/share/gigatype/models/gigaam-v3-e2e-rnnt")
        },
    }
}

/// The directory that holds the transcript history.
pub fn data_dir(home: Option<&str>) -> (r: String)
    ensures
        r@ == joined(
            home_of(
                match home {
                    Some(h) => Some(h@),
                    None => None,
                },
            ),
            ".local/share/gigatype"@,
        ),
{
    let base = home_or_here(home);
    join_path(base.as_str(), ".local/share/gigatype")
}

/// Where the desktop portal's keyboard permission token is kept.
pub fn token_path(home: Option<&str>) -> (r: String)
    ensures
        r@ == joined(
            home_of(
                match home {
                    Some(h) => Some(h@),
                    None => None,
                },
            ),
            ".local/share/gigatype/portal-input-token"@,
        ),
{
    let base = home_or_here(home);
    join_path(base.as_str(), ".local/share/gigatype/portal-input-token")
}

} // verus!
