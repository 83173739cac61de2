//! Derivation of the well-known file names and paths of the status
//! directory, and the session key under which a project path's status file
//! is stored.
//!
//! The session key scheme is the documented one for this directory: a
//! 64-bit multiplicative fold over the path's bytes, written as sixteen hex
//! digits.  (External hooks that hash with another utility produce different
//! keys; that mismatch is a known limitation, not handled here.)

use vstd::prelude::*;
use vstd::string::StringExecFns;
use vstd::string::StringSliceAdditionalSpecFns;
use vstd::string::StrSliceExecFns;

verus! {

/// Modulus of 64-bit wrapping arithmetic.
pub open spec fn spec_u64_mod() -> int {
    0x1_0000_0000_0000_0000
}

/// The multiplicative fold of a byte sequence, in 64-bit wrapping
/// arithmetic: `acc * 31 + byte` per byte, starting from zero.
pub open spec fn spec_path_hash(bytes: Seq<u8>) -> int
    decreases bytes.len(),
{
    if bytes.len() == 0 {
        0
    } else {
        (spec_path_hash(bytes.drop_last()) * 31 + bytes.last()) % spec_u64_mod()
    }
}

/// The hex digit for a value below sixteen.
pub open spec fn spec_hex_digit(d: int) -> char {
    if d == 0 { '0' } else if d == 1 { '1' } else if d == 2 { '2' } else if d == 3 { '3' }
    else if d == 4 { '4' } else if d == 5 { '5' } else if d == 6 { '6' } else if d == 7 { '7' }
    else if d == 8 { '8' } else if d == 9 { '9' } else if d == 10 { 'a' } else if d == 11 { 'b' }
    else if d == 12 { 'c' } else if d == 13 { 'd' } else if d == 14 { 'e' } else { 'f' }
}

/// `v` written in hex, padded to `n` digits (low digit last).
pub open spec fn spec_hex_pad(v: int, n: nat) -> Seq<char>
    decreases n,
{
    if n == 0 {
        Seq::empty()
    } else {
        spec_hex_pad(v / 16, (n - 1) as nat).push(spec_hex_digit(v % 16))
    }
}

/// The session key for a project path: the byte fold written as sixteen hex
/// digits.
pub open spec fn spec_session_key(path_bytes: Seq<u8>) -> Seq<char> {
    spec_hex_pad(spec_path_hash(path_bytes), 16)
}

/// One hex digit as a string slice.
fn hex_digit_str(d: u64) -> (r: &'static str)
    requires
        d < 16,
    ensures
        r@.len() == 1,
        r@[0] == spec_hex_digit(d as int),
{
    proof {
        reveal_strlit("0");
        reveal_strlit("1");
        reveal_strlit("2");
        reveal_strlit("3");
        reveal_strlit("4");
        reveal_strlit("5");
        reveal_strlit("6");
        reveal_strlit("7");
        reveal_strlit("8");
        reveal_strlit("9");
        reveal_strlit("a");
        reveal_strlit("b");
        reveal_strlit("c");
        reveal_strlit("d");
        reveal_strlit("e");
        reveal_strlit("f");
    }
    if d == 0 { "0" } else if d == 1 { "1" } else if d == 2 { "2" } else if d == 3 { "3" }
    else if d == 4 { "4" } else if d == 5 { "5" } else if d == 6 { "6" } else if d == 7 { "7" }
    else if d == 8 { "8" } else if d == 9 { "9" } else if d == 10 { "a" } else if d == 11 { "b" }
    else if d == 12 { "c" } else if d == 13 { "d" } else if d == 14 { "e" } else { "f" }
}

/// `v` in hex, padded to `n` digits.
fn hex_pad(v: u64, n: usize) -> (r: String)
    ensures
        r@ == spec_hex_pad(v as int, n as nat),
    decreases n,
{
    if n == 0 {
        String::new()
    } else {
        let mut s = hex_pad(v / 16, n - 1);
        s.append(hex_digit_str(v % 16));
        proof {
            assert(s@ =~= spec_hex_pad(v as int, n as nat));
        }
        s
    }
}

/// The session key under which a project path's status file is stored.
pub fn session_key_for_path(path: &str) -> (r: String)
    ensures
        r@ == spec_session_key(path.spec_bytes()),
        r@.len() == 16,
{
    let bytes = path.as_bytes();
    let mut acc: u64 = 0;
    let mut i: usize = 0;
    proof {
        assert(bytes@.subrange(0, 0) =~= Seq::<u8>::empty());
    }
    while i < bytes.len()
        invariant
            i <= bytes@.len(),
            acc as int == spec_path_hash(bytes@.subrange(0, i as int)),
        decreases bytes@.len() - i,
    {
        let b = bytes[i];
        let wide: u128 = ((acc as u128) * 31u128 + (b as u128)) % 0x1_0000_0000_0000_0000u128;
        proof {
            let pre = bytes@.subrange(0, i + 1);
            assert(pre.drop_last() =~= bytes@.subrange(0, i as int));
            assert(pre.last() == bytes@[i as int]);
        }
        acc = wide as u64;
        i += 1;
    }
    proof {
        assert(bytes@.subrange(0, bytes@.len() as int) =~= bytes@);
    }
    let key = hex_pad(acc, 16);
    proof {
        lemma_hex_pad_len(acc as int, 16);
    }
    key
}

/// A hex rendering padded to `n` digits has length `n`.
proof fn lemma_hex_pad_len(v: int, n: nat)
    ensures
        spec_hex_pad(v, n).len() == n,
    decreases n,
{
    if n > 0 {
        lemma_hex_pad_len(v / 16, (n - 1) as nat);
    }
}

/// The file name of the status file for a session key.
pub fn status_file_name(session_key: &str) -> (r: String)
    ensures
        r@ == session_key@ + ".json"@,
{
    let mut s = session_key.to_owned();
    s.append(".json");
    s
}

/// The full path of the status file for a project path, inside the status
/// directory.
pub fn get_status_file_path(status_dir: &str, project_path: &str) -> (r: String)
    ensures
        r@ == status_dir@ + "/"@ + spec_session_key(project_path.spec_bytes()) + ".json"@,
{
    let key = session_key_for_path(project_path);
    let mut s = status_dir.to_owned();
    s.append("/");
    s.append(key.as_str());
    s.append(".json");
    proof {
        assert(s@ =~= status_dir@ + "/"@ + spec_session_key(project_path.spec_bytes())
            + ".json"@);
    }
    s
}

/// The path of the session-names index file inside the status directory.
pub fn get_names_file_path(status_dir: &str) -> (r: String)
    ensures
        r@ == status_dir@ + "/names.json"@,
{
    let mut s = status_dir.to_owned();
    s.append("/names.json");
    s
}

/// The path of the hooks backup file inside the status directory.
pub fn get_hooks_backup_path(status_dir: &str) -> (r: String)
    ensures
        r@ == status_dir@ + "/hooks_backup.json"@,
{
    let mut s = status_dir.to_owned();
    s.append("/hooks_backup.json");
    s
}

/// The projects (transcript log) directory under the assistant's own
/// configuration directory.
pub fn get_claude_projects_dir(claude_dir: &str) -> (r: String)
    ensures
        r@ == claude_dir@ + "/projects"@,
{
    let mut s = claude_dir.to_owned();
    s.append("/projects");
    s
}

/// Expand a leading tilde segment against the home directory: a path
/// starting `~/` becomes the home directory followed by the remainder
/// (separator included); any other path is returned unchanged.
pub fn expand_tilde(path: &str, home: &str) -> (r: String)
    ensures
        crate::strutil::has_prefix(path@, "~/"@) ==> r@ == home@ + path@.subrange(
            1,
            path@.len() as int,
        ),
        !crate::strutil::has_prefix(path@, "~/"@) ==> r@ == path@,
{
    if crate::strutil::starts_with_str(path, "~/") {
        let n = path.unicode_len();
        proof {
            reveal_strlit("~/");
        }
        let rest = path.substring_char(1, n);
        let mut s = home.to_owned();
        s.append(rest);
        s
    } else {
        path.to_owned()
    }
}

} // verus!
