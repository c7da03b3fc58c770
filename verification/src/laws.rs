//! Laws of the translator: statements that relate whole families of inputs,
//! proved once and for all over the spec functions that the executable
//! functions' contracts use.

use vstd::prelude::*;

use crate::classify::classify;
use crate::classify::drive_letter_of;
use crate::classify::is_ascii_letter;
use crate::classify::UnixPathType;
use crate::rewrite::format_path_spec;
use crate::rewrite::lemma_replace_all_absent;
use crate::rewrite::lower_char;
use crate::rewrite::normalized;
use crate::rewrite::occurs;
use crate::rewrite::replace_all;
use crate::translate::convert_path_spec;
use crate::translate::mnt_root_slash;

verus! {

/// No position of `s` holds the letter `d` directly followed by a colon: no
/// drive designator spelled with `d` stands inside `s`.
pub open spec fn no_designator_of(s: Seq<char>, d: char) -> bool {
    forall|i: int| #![trigger s[i]] 0 <= i < s.len() - 1 ==> !(s[i] == d && s[i + 1] == ':')
}

/// An argument with no backslash, no drive designator, not starting with `/`
/// and not starting with `~/` is returned unchanged, whatever the context.
pub proof fn lemma_plain_argument_unchanged(arg: Seq<char>, cwd: Seq<char>, home: Seq<char>)
    requires
        !arg.contains('\\'),
        drive_letter_of(arg) is None,
        !(arg.len() >= 1 && arg[0] == '/'),
        !(arg.len() >= 2 && arg[0] == '~' && arg[1] == '/'),
    ensures
        convert_path_spec(arg, cwd, home) == arg,
{
    assert(classify(arg) == UnixPathType::Other);
    assert(forall|k: int| 0 <= k < arg.len() ==> arg[k] != '\\');
    assert(normalized(arg) =~= arg);
}

/// Drive substitution on an argument that starts with the designator
/// `<d>:<separator>` and carries no other designator spelled with `d`:
/// the designator becomes `p`, the rest is untouched.
proof fn lemma_format_path_drive_prefix(d: char, tail: Seq<char>, p: Seq<char>)
    requires
        is_ascii_letter(d),
        tail.len() >= 1,
        tail[0] == '\\' || tail[0] == '/',
        p.len() >= 1,
        forall|i: int| 0 <= i < p.len() ==> p[i] != ':',
        p[p.len() - 1] == '/',
        no_designator_of(tail, d),
    ensures
        format_path_spec(seq![d, ':'] + tail, d, p) == p + tail.skip(1),
{
    let arg = seq![d, ':'] + tail;
    let pat_bs = seq![d, ':', '\\'];
    let pat_fs = seq![d, ':', '/'];
    let w = p + tail.skip(1);
    assert(arg.len() == tail.len() + 2);
    assert(arg[0] == d && arg[1] == ':' && arg[2] == tail[0]);

    assert(!occurs(tail.skip(1), pat_bs)) by {
        if occurs(tail.skip(1), pat_bs) {
            let i = choose|i: int|
                0 <= i && i + pat_bs.len() <= tail.skip(1).len() && #[trigger] tail.skip(1)
                    .subrange(i, i + pat_bs.len()) == pat_bs;
            assert(tail.skip(1).subrange(i, i + 3)[0] == tail[i + 1]);
            assert(tail.skip(1).subrange(i, i + 3)[1] == tail[i + 2]);
            assert(tail[i + 1] == d && tail[(i + 1) + 1] == ':');
        }
    }
    assert(!occurs(tail.skip(1), pat_fs)) by {
        if occurs(tail.skip(1), pat_fs) {
            let i = choose|i: int|
                0 <= i && i + pat_fs.len() <= tail.skip(1).len() && #[trigger] tail.skip(1)
                    .subrange(i, i + pat_fs.len()) == pat_fs;
            assert(tail.skip(1).subrange(i, i + 3)[0] == tail[i + 1]);
            assert(tail.skip(1).subrange(i, i + 3)[1] == tail[i + 2]);
            assert(tail[i + 1] == d && tail[(i + 1) + 1] == ':');
        }
    }
    assert(!occurs(w, pat_fs)) by {
        if occurs(w, pat_fs) {
            let i = choose|i: int|
                0 <= i && i + pat_fs.len() <= w.len() && #[trigger] w.subrange(i, i + pat_fs.len())
                    == pat_fs;
            assert(w.subrange(i, i + 3)[0] == w[i]);
            assert(w.subrange(i, i + 3)[1] == w[i + 1]);
            assert(w[i] == d && w[i + 1] == ':');
            if i + 1 < p.len() {
                assert(w[i + 1] == p[i + 1]);
            } else if i < p.len() {
                assert(w[i] == p[p.len() - 1]);
            } else {
                assert(w[i] == tail[i - p.len() + 1]);
                assert(w[i + 1] == tail[(i - p.len() + 1) + 1]);
            }
        }
    }

    if tail[0] == '\\' {
        assert(arg.subrange(0, 3) =~= pat_bs);
        assert(arg.skip(3) =~= tail.skip(1));
        assert(replace_all(arg, pat_bs, p) == p + replace_all(tail.skip(1), pat_bs, p));
        lemma_replace_all_absent(tail.skip(1), pat_bs, p);
        lemma_replace_all_absent(w, pat_fs, p);
        assert(format_path_spec(arg, d, p) == w);
    } else {
        assert(arg.subrange(0, 3) != pat_bs) by {
            assert(arg.subrange(0, 3)[2] == arg[2]);
        }
        assert(replace_all(arg, pat_bs, p) == seq![arg[0]] + replace_all(arg.skip(1), pat_bs, p));
        assert(!occurs(arg.skip(1), pat_bs)) by {
            if occurs(arg.skip(1), pat_bs) {
                let i = choose|i: int|
                    0 <= i && i + pat_bs.len() <= arg.skip(1).len() && #[trigger] arg.skip(
                        1,
                    ).subrange(i, i + pat_bs.len()) == pat_bs;
                assert(arg.skip(1).subrange(i, i + 3)[0] == arg.skip(1)[i]);
                assert(arg.skip(1).subrange(i, i + 3)[1] == arg.skip(1)[i + 1]);
                assert(arg.skip(1)[i] == d && arg.skip(1)[i + 1] == ':');
                assert(arg.skip(1)[i] == arg[i + 1]);
                assert(arg.skip(1)[i + 1] == arg[i + 2]);
                assert(i >= 1);
                assert(tail[i - 1] == d && tail[(i - 1) + 1] == ':');
            }
        }
        lemma_replace_all_absent(arg.skip(1), pat_bs, p);
        assert(seq![arg[0]] + arg.skip(1) =~= arg);
        assert(replace_all(arg, pat_bs, p) == arg);
        assert(arg.subrange(0, 3) =~= pat_fs);
        assert(arg.skip(3) =~= tail.skip(1));
        assert(replace_all(arg, pat_fs, p) == p + replace_all(tail.skip(1), pat_fs, p));
        lemma_replace_all_absent(tail.skip(1), pat_fs, p);
        assert(format_path_spec(arg, d, p) == w);
    }
}

/// The lowercase form of an ASCII letter is an ASCII letter and not a colon
/// or a separator.
proof fn lemma_lower_char_letter(d: char)
    requires
        is_ascii_letter(d),
    ensures
        is_ascii_letter(lower_char(d)),
        'a' <= lower_char(d) && lower_char(d) <= 'z',
{
}

/// An argument that opens with a drive designator and a separator, and holds
/// no further designator spelled with the same letter, translates to the
/// designator's mount root followed by the normalized remainder — whatever
/// the separator's spelling and whatever the context.
pub proof fn lemma_drive_designator_translation(
    d: char,
    sep: char,
    rest: Seq<char>,
    cwd: Seq<char>,
    home: Seq<char>,
)
    requires
        is_ascii_letter(d),
        sep == '\\' || sep == '/',
        no_designator_of(rest, d),
    ensures
        convert_path_spec(seq![d, ':', sep] + rest, cwd, home) == normalized(
            mnt_root_slash(d) + rest,
        ),
{
    let tail = seq![sep] + rest;
    let arg = seq![d, ':', sep] + rest;
    let p = mnt_root_slash(d);
    lemma_lower_char_letter(d);
    assert(p.len() == 7);
    assert(forall|i: int| 0 <= i < p.len() ==> p[i] != ':') by {
        assert(p[0] == '/' && p[1] == 'm' && p[2] == 'n' && p[3] == 't' && p[4] == '/' && p[5]
            == lower_char(d) && p[6] == '/');
    }
    assert(p[p.len() - 1] == '/');
    assert(no_designator_of(tail, d)) by {
        assert forall|i: int| 0 <= i < tail.len() - 1 implies !(#[trigger] tail[i] == d && tail[i
            + 1] == ':') by {
            if i == 0 {
                assert(tail[0] == sep);
            } else {
                assert(tail[i] == rest[i - 1]);
                assert(tail[i + 1] == rest[i]);
                assert(!(rest[i - 1] == d && rest[(i - 1) + 1] == ':'));
            }
        }
    }
    lemma_format_path_drive_prefix(d, tail, p);
    assert(seq![d, ':'] + tail =~= arg);
    assert(tail.skip(1) =~= rest);
    assert(arg[0] == d && arg[1] == ':');
    assert(drive_letter_of(arg) == Some(d));
    assert(classify(arg) == UnixPathType::Native);
    assert(convert_path_spec(arg, cwd, home) == normalized(p + rest));
}

/// The two spellings of the separator after a drive designator give the same
/// translation, whatever the context.
pub proof fn lemma_separator_variants_equal(
    d: char,
    rest: Seq<char>,
    cwd: Seq<char>,
    home: Seq<char>,
)
    requires
        is_ascii_letter(d),
        no_designator_of(rest, d),
    ensures
        convert_path_spec(seq![d, ':', '/'] + rest, cwd, home) == convert_path_spec(
            seq![d, ':', '\\'] + rest,
            cwd,
            home,
        ),
{
    lemma_drive_designator_translation(d, '/', rest, cwd, home);
    lemma_drive_designator_translation(d, '\\', rest, cwd, home);
}

/// Drive-letter case insensitivity: an argument whose drive designator is an
/// uppercase letter translates exactly as the same argument with the
/// designator lowercased, whatever the context.
pub proof fn lemma_drive_letter_case_insensitive(
    up: char,
    lo: char,
    sep: char,
    rest: Seq<char>,
    cwd: Seq<char>,
    home: Seq<char>,
)
    requires
        'A' <= up && up <= 'Z',
        lo == lower_char(up),
        sep == '\\' || sep == '/',
        no_designator_of(rest, up),
        no_designator_of(rest, lo),
    ensures
        convert_path_spec(seq![up, ':', sep] + rest, cwd, home) == convert_path_spec(
            seq![lo, ':', sep] + rest,
            cwd,
            home,
        ),
{
    lemma_drive_designator_translation(up, sep, rest, cwd, home);
    lemma_drive_designator_translation(lo, sep, rest, cwd, home);
    assert('a' <= lo && lo <= 'z');
    assert(lower_char(lo) == lo);
    assert(mnt_root_slash(lo) == mnt_root_slash(up));
}

} // verus!
