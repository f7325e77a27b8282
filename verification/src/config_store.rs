//! Versioned plugin configuration records: where they are kept, and the version check that a
//! write must pass.
use vstd::prelude::*;

use crate::text::{decimal, decimal_spec, owned};

verus! {

/// A stored configuration and its version.
#[derive(Debug, Clone, PartialEq, Eq)]
pub struct ConfigRecord {
    pub version: u64,
    pub content: String,
}

/// The characters that cannot stand in a file name, each replaced by `_`.
pub open spec fn sanitized_char(c: char) -> char {
    if c == '/' || c == '\\' || c == ':' || c == '*' || c == '?' || c == '"' || c == '<' || c == '>'
        || c == '|' {
        '_'
    } else {
        c
    }
}

/// `input` with every character that cannot stand in a file name replaced by `_`.
pub fn sanitize_segment(input: &str) -> (r: String)
    ensures
        r@ == input@.map_values(|c: char| sanitized_char(c)),
{
    let chars = crate::text::chars_of(input);
    let mut out = String::new();
    let mut i: usize = 0;
    while i < chars.len()
        invariant
            i <= chars@.len(),
            chars@ == input@,
            out@ == input@.take(i as int).map_values(|c: char| sanitized_char(c)),
        decreases chars.len() - i,
    {
        let c = chars[i];
        let d = if c == '/' || c == '\\' || c == ':' || c == '*' || c == '?' || c == '"' || c == '<'
            || c == '>' || c == '|' {
            '_'
        } else {
            c
        };
        out.push(d);
        assert(input@.take(i as int + 1).map_values(|c: char| sanitized_char(c)) =~= input@.take(
            i as int,
        ).map_values(|c: char| sanitized_char(c)).push(sanitized_char(c)));
        i = i + 1;
    }
    assert(input@.take(input@.len() as int) =~= input@);
    out
}

/// Where the record of `plugin` for `bot_id` is kept, below the store's root: a directory for
/// the bot and a `.toml` file for the plugin, both sanitized.
pub fn record_location(bot_id: &str, plugin: &str) -> (r: (String, String))
    ensures
        r.0@ == bot_id@.map_values(|c: char| sanitized_char(c)),
        r.1@ == plugin@.map_values(|c: char| sanitized_char(c)) + ".toml"@,
{
    let dir = sanitize_segment(bot_id);
    let mut file = sanitize_segment(plugin);
    file.push_str(".toml");
    (dir, file)
}

/// What a write answers: the next version, or why it is refused.
pub open spec fn next_version_spec(current: Option<u64>, expected: Option<u64>) -> Result<u64, Seq<char>> {
    let actual: u64 = match current {
        Some(v) => v,
        None => 0,
    };
    match expected {
        Some(e) if e != actual => Err(
            "version conflict: expected "@ + decimal_spec(e as nat) + ", actual "@ + decimal_spec(
                actual as nat,
            ),
        ),
        _ => if actual == u64::MAX {
            Err("version overflow"@)
        } else {
            Ok((actual + 1) as u64)
        },
    }
}

/// The version a write gets, given the stored version (`None` when nothing is stored, which
/// counts as 0) and the version the writer expects (`None` to write unconditionally).
pub fn next_config_version(current: Option<u64>, expected: Option<u64>) -> (r: Result<u64, String>)
    ensures
        match next_version_spec(current, expected) {
            Ok(v) => r == Ok::<u64, String>(v),
            Err(m) => r matches Err(msg) && msg@ == m,
        },
{
    let actual: u64 = match current {
        Some(v) => v,
        None => 0,
    };
    match expected {
        Some(e) => {
            if e != actual {
                let mut msg = owned("version conflict: expected ");
                msg.push_str(decimal(e).as_str());
                msg.push_str(", actual ");
                msg.push_str(decimal(actual).as_str());
                return Err(msg);
            }
        },
        None => {},
    }
    match actual.checked_add(1) {
        Some(v) => Ok(v),
        None => Err(owned("version overflow")),
    }
}

/// A writer that read version `v` gets `v + 1`; a second writer that read the same version is
/// refused once the first has written.
pub proof fn law_versioned_write(v: u64)
    requires
        v < u64::MAX - 1,
    ensures
        next_version_spec(Some(v), Some(v)) == Ok::<u64, Seq<char>>((v + 1) as u64),
        next_version_spec(Some((v + 1) as u64), Some(v)) is Err,
        next_version_spec(None, None) == Ok::<u64, Seq<char>>(1),
{
}

} // verus!
