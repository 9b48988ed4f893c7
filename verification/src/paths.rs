//! File names and search paths.

use vstd::prelude::*;

use crate::config::{text_list, text_view};
use crate::midi_monitor::hex_digit;
use crate::text::chars_of;

verus! {

/// A relative path under a directory.
pub open spec fn under(dir: Seq<char>, path: Seq<char>) -> Seq<char> {
    if dir.len() == 0 || dir.last() == '/' {
        dir + path
    } else {
        dir + seq!['/'] + path
    }
}

/// A relative path under a directory.
pub fn join(dir: &str, path: &str) -> (r: String)
    ensures
        r@ == under(dir@, path@),
{
    let mut r: String = dir.to_owned();
    let chars = chars_of(dir);
    let n: usize = chars.len();
    if n > 0 && chars[n - 1] != '/' {
        r.push('/');
        assert(r@ =~= dir@ + seq!['/']);
    }
    r.append(path);
    r
}

/// Where a plugin is found. A reference with a colon and an absolute path stay
/// as they are; a relative path starts at the session's directory.
pub open spec fn plugin_path(source: Seq<char>, dir: Seq<char>) -> Seq<char> {
    if source.contains(':') || (source.len() > 0 && source[0] == '/') {
        source
    } else {
        under(dir, source)
    }
}

/// Where a plugin is found.
pub fn resolve_plugin_path(plugin_source: &str, session_dir: &str) -> (path: String)
    ensures
        path@ == plugin_path(plugin_source@, session_dir@),
{
    let chars = chars_of(plugin_source);
    let mut i: usize = 0;
    while i < chars.len()
        invariant
            i <= chars.len(),
            chars@ == plugin_source@,
            forall|k: int| 0 <= k < i ==> chars@[k] != ':',
        decreases chars.len() - i,
    {
        if chars[i] == ':' {
            assert(plugin_source@[i as int] == ':');
            return plugin_source.to_owned();
        }
        i += 1;
    }
    assert(!plugin_source@.contains(':'));
    if chars.len() > 0 && chars[0] == '/' {
        return plugin_source.to_owned();
    }
    join(session_dir, plugin_source)
}

/// The directory of the program's settings. Where the system has a place for
/// settings it is there, else it is in the home directory.
pub open spec fn settings_dir(place: Option<Seq<char>>, home: Option<Seq<char>>) -> Option<
    Seq<char>,
> {
    match (place, home) {
        (Some(place), _) => Some(under(place, "tang"@)),
        (None, Some(home)) => Some(under(under(home, ".config"@), "tang"@)),
        (None, None) => None,
    }
}

/// The directory of the program's settings, if there is a place for it.
pub fn dirs_config(place: &Option<String>, home: &Option<String>) -> (dir: Option<String>)
    ensures
        text_view(dir) == settings_dir(text_view(*place), text_view(*home)),
{
    match place {
        Some(place) => Some(join(place.as_str(), "tang")),
        None => match home {
            Some(home) => {
                let dir = join(home.as_str(), ".config");
                Some(join(dir.as_str(), "tang"))
            },
            None => None,
        },
    }
}

/// The directory of the saved sessions.
pub fn dirs_config_sessions(config: &str) -> (dir: String)
    ensures
        dir@ == under(config@, "sessions"@),
{
    join(config, "sessions")
}

/// A number in hexadecimal, without leading zeros.
pub open spec fn hex(n: nat) -> Seq<char>
    decreases n,
{
    if n < 16 {
        seq![hex_digit(n)]
    } else {
        hex(n / 16).push(hex_digit(n % 16))
    }
}

fn push_hex(s: &mut String, n: u128)
    ensures
        final(s)@ == old(s)@ + hex(n as nat),
    decreases n,
{
    let ghost before = s@;
    if n >= 16 {
        push_hex(s, n / 16);
    }
    let d: u8 = (n % 16) as u8;
    let c: char = if d < 10 {
        (d + 48) as char
    } else {
        (d + 87) as char
    };
    s.push(c);
    assert(s@ =~= before + hex(n as nat));
}

/// The file of a new session, named after the time of its making.
pub fn new_session_path(sessions: &str, millis: u128) -> (path: String)
    ensures
        path@ == under(sessions@, "session-"@ + hex(millis as nat) + ".toml"@),
{
    let mut name: String = "session-".to_owned();
    push_hex(&mut name, millis);
    name.append(".toml");
    join(sessions, name.as_str())
}

/// The first `n` directories with colons between them.
pub open spec fn colon_joined(dirs: Seq<Seq<char>>, n: nat) -> Seq<char>
    decreases n,
{
    if n == 0 {
        Seq::empty()
    } else if n == 1 {
        dirs[0]
    } else {
        colon_joined(dirs, (n - 1) as nat) + seq![':'] + dirs[n - 1]
    }
}

/// A search path with further directories in front of it.
pub open spec fn extended(extra: Seq<Seq<char>>, current: Seq<char>) -> Seq<char> {
    let front = colon_joined(extra, extra.len());
    if current.len() == 0 {
        front
    } else {
        front + seq![':'] + current
    }
}

/// The search path with further directories in front of it, or `None` if there
/// are none and it stays as it is.
pub fn extend_search_path(extra: &Vec<String>, current: &str) -> (path: Option<String>)
    ensures
        match path {
            Some(path) => extra@.len() > 0 && path@ == extended(text_list(extra@), current@),
            None => extra@.len() == 0,
        },
{
    if extra.len() == 0 {
        return None;
    }
    let ghost dirs = text_list(extra@);
    let mut path: String = String::new();
    let mut i: usize = 0;
    assert(path@ =~= colon_joined(dirs, 0));
    while i < extra.len()
        invariant
            i <= extra.len(),
            dirs == text_list(extra@),
            path@ == colon_joined(dirs, i as nat),
        decreases extra.len() - i,
    {
        if i > 0 {
            path.push(':');
        }
        path.append(extra[i].as_str());
        assert(path@ =~= colon_joined(dirs, (i + 1) as nat));
        i += 1;
    }
    let chars = chars_of(current);
    if chars.len() > 0 {
        let ghost front = path@;
        path.push(':');
        path.append(current);
        assert(path@ =~= front + seq![':'] + current@);
    }
    Some(path)
}

} // verus!
