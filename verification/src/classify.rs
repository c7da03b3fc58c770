//! Classification of an argument string: does it carry a drive designator,
//! and which of the four path categories does it fall into?

use vstd::prelude::*;

verus! {

/// The four mutually exclusive categories an argument string falls into.
/// `Native` covers everything that needs translation: strings carrying a
/// drive designator, or containing a backslash, or matching none of the
/// foreign-path shapes.
#[derive(Debug, PartialEq, Eq, Structural)]
pub enum UnixPathType {
    /// Needs translation: drive designator present, or a backslash present,
    /// or no foreign-path shape matched.
    Native,
    /// No drive designator, no backslash, not rooted, not home-relative:
    /// already foreign-compatible.
    Other,
    /// Begins with `/`: an absolute path in the foreign namespace.
    Root,
    /// Begins with `~/`: a foreign home-relative path.
    Home,
}

/// An ASCII letter, the only characters that can name a drive.
pub open spec fn is_ascii_letter(c: char) -> bool {
    ('a' <= c && c <= 'z') || ('A' <= c && c <= 'Z')
}

/// The drive designator of a string: its first character, when that is an
/// ASCII letter immediately followed by a colon.
pub open spec fn drive_letter_of(s: Seq<char>) -> Option<char> {
    if s.len() >= 2 && is_ascii_letter(s[0]) && s[1] == ':' {
        Some(s[0])
    } else {
        None
    }
}

/// The category of an argument string. A drive designator always wins;
/// otherwise the foreign shapes are tried in order, and a backslash anywhere
/// forces `Native`.
pub open spec fn classify(s: Seq<char>) -> UnixPathType {
    if drive_letter_of(s) is Some {
        UnixPathType::Native
    } else if s.len() >= 1 && s[0] == '/' {
        UnixPathType::Root
    } else if s.len() >= 2 && s[0] == '~' && s[1] == '/' {
        UnixPathType::Home
    } else if s.contains('\\') {
        UnixPathType::Native
    } else {
        UnixPathType::Other
    }
}

/// The string minus its first character, or `None` when it is empty.
pub fn remove_first<'a>(s: &'a str) -> (r: Option<&'a str>)
    ensures
        r is Some <==> s@.len() > 0,
        r matches Some(t) ==> t@ == s@.subrange(1, s@.len() as int),
{
    let n = s.unicode_len();
    if n == 0 {
        None
    } else {
        Some(s.substring_char(1, n))
    }
}

/// The drive designator of a string, case preserved, or `None` when its
/// first two characters are not a letter and a colon.
pub fn get_drive_letter(drive: &str) -> (r: Option<char>)
    ensures
        r == drive_letter_of(drive@),
{
    if drive.unicode_len() < 2 {
        None
    } else {
        let c0 = drive.get_char(0);
        let c1 = drive.get_char(1);
        if c1 == ':' && (('a' <= c0 && c0 <= 'z') || ('A' <= c0 && c0 <= 'Z')) {
            Some(c0)
        } else {
            None
        }
    }
}

/// Whether the string contains the given character.
fn contains_char(s: &str, c: char) -> (r: bool)
    ensures
        r <==> s@.contains(c),
{
    let n = s.unicode_len();
    let mut i: usize = 0;
    while i < n
        invariant
            n == s@.len(),
            0 <= i <= n,
            forall|k: int| 0 <= k < i ==> s@[k] != c,
        decreases n - i,
    {
        if s.get_char(i) == c {
            assert(s@.contains(c));
            return true;
        }
        i = i + 1;
    }
    assert(forall|k: int| 0 <= k < s@.len() ==> s@[k] != c);
    false
}

/// The category of an argument string, as `classify` states it.
pub fn is_unix_path(string: &str) -> (r: UnixPathType)
    ensures
        r == classify(string@),
{
    match get_drive_letter(string) {
        Some(_) => UnixPathType::Native,
        None => {
            let n = string.unicode_len();
            if n >= 1 && string.get_char(0) == '/' {
                UnixPathType::Root
            } else if n >= 2 && string.get_char(0) == '~' && string.get_char(1) == '/' {
                UnixPathType::Home
            } else if contains_char(string, '\\') {
                UnixPathType::Native
            } else {
                UnixPathType::Other
            }
        },
    }
}

} // verus!
