//! String rewriting: literal substring replacement (drive substitution is
//! built on it) and backslash-to-slash separator normalization.

use vstd::prelude::*;

verus! {

/// Left-to-right, non-overlapping replacement of every occurrence of `pat`
/// inside `s` by `rep`. An empty pattern replaces nothing.
pub open spec fn replace_all(s: Seq<char>, pat: Seq<char>, rep: Seq<char>) -> Seq<char>
    decreases s.len(),
{
    if pat.len() == 0 || s.len() < pat.len() {
        s
    } else if s.subrange(0, pat.len() as int) == pat {
        rep + replace_all(s.skip(pat.len() as int), pat, rep)
    } else {
        seq![s[0]] + replace_all(s.skip(1), pat, rep)
    }
}

/// `pat` occurs somewhere inside `s` as a contiguous run.
pub open spec fn occurs(s: Seq<char>, pat: Seq<char>) -> bool {
    exists|i: int|
        0 <= i && i + pat.len() <= s.len() && #[trigger] s.subrange(i, i + pat.len()) == pat
}

/// Replacement of a pattern that occurs nowhere leaves the string unchanged.
pub proof fn lemma_replace_all_absent(s: Seq<char>, pat: Seq<char>, rep: Seq<char>)
    requires
        pat.len() >= 1,
        !occurs(s, pat),
    ensures
        replace_all(s, pat, rep) == s,
    decreases s.len(),
{
    if s.len() < pat.len() {
    } else {
        assert(s.subrange(0, pat.len() as int) != pat) by {
            if s.subrange(0, pat.len() as int) == pat {
                assert(0 + pat.len() <= s.len() && s.subrange(0, pat.len() as int) == pat);
            }
        }
        assert(!occurs(s.skip(1), pat)) by {
            if occurs(s.skip(1), pat) {
                let i = choose|i: int|
                    0 <= i && i + pat.len() <= s.skip(1).len() && #[trigger] s.skip(1).subrange(
                        i,
                        i + pat.len(),
                    ) == pat;
                assert(s.subrange(i + 1, i + 1 + pat.len()) =~= s.skip(1).subrange(
                    i,
                    i + pat.len(),
                ));
            }
        }
        lemma_replace_all_absent(s.skip(1), pat, rep);
        assert(seq![s[0]] + s.skip(1) =~= s);
    }
}

/// Every backslash replaced by a forward slash, character by character.
pub open spec fn normalized(s: Seq<char>) -> Seq<char> {
    s.map_values(|c: char| if c == '\\' { '/' } else { c })
}

/// The lowercase form of an ASCII letter; other characters are unchanged.
pub open spec fn lower_char(c: char) -> char {
    if 'A' <= c && c <= 'Z' {
        (((c as u8) + 32) as u8) as char
    } else {
        c
    }
}

/// The lowercase form of an ASCII letter, as `lower_char` states it.
pub fn to_lower(c: char) -> (r: char)
    ensures
        r == lower_char(c),
{
    if 'A' <= c && c <= 'Z' {
        ((c as u8) + 32) as char
    } else {
        c
    }
}

/// Relies on `String::push`: appends the one character to the end.
#[verifier::external_body]
fn push_char(s: &mut String, c: char)
    ensures
        final(s)@ == old(s)@.push(c),
{
    s.push(c);
}

/// The characters of the string, in order, as a vector.
pub fn str_to_chars(s: &str) -> (r: Vec<char>)
    ensures
        r@ == s@,
{
    let n = s.unicode_len();
    let mut r: Vec<char> = Vec::new();
    let mut i: usize = 0;
    while i < n
        invariant
            n == s@.len(),
            0 <= i <= n,
            r@ == s@.subrange(0, i as int),
        decreases n - i,
    {
        r.push(s.get_char(i));
        i = i + 1;
        proof {
            assert(r@ =~= s@.subrange(0, i as int));
        }
    }
    proof {
        assert(r@ =~= s@);
    }
    r
}

/// The string holding exactly the given characters, in order.
pub fn chars_to_string(v: &Vec<char>) -> (r: String)
    ensures
        r@ == v@,
{
    let mut r = String::new();
    let mut i: usize = 0;
    proof {
        assert(r@ =~= v@.subrange(0, 0));
    }
    while i < v.len()
        invariant
            0 <= i <= v@.len(),
            r@ == v@.subrange(0, i as int),
        decreases v@.len() - i,
    {
        push_char(&mut r, v[i]);
        i = i + 1;
        proof {
            assert(r@ =~= v@.subrange(0, i as int));
        }
    }
    proof {
        assert(r@ =~= v@);
    }
    r
}

/// Appends every character of `src` to `dst`, in order.
fn push_all(dst: &mut Vec<char>, src: &Vec<char>)
    ensures
        final(dst)@ == old(dst)@ + src@,
{
    let mut i: usize = 0;
    proof {
        assert(dst@ =~= dst@ + src@.subrange(0, 0));
    }
    while i < src.len()
        invariant
            0 <= i <= src@.len(),
            dst@ == old(dst)@ + src@.subrange(0, i as int),
        decreases src@.len() - i,
    {
        dst.push(src[i]);
        i = i + 1;
        proof {
            assert(dst@ =~= old(dst)@ + src@.subrange(0, i as int));
        }
    }
    proof {
        assert(dst@ =~= old(dst)@ + src@);
    }
}

/// Whether `pat` stands inside `s` at position `i`.
fn matches_at(s: &Vec<char>, pat: &Vec<char>, i: usize) -> (r: bool)
    requires
        i + pat@.len() <= s@.len(),
    ensures
        r <==> s@.subrange(i as int, i as int + pat@.len() as int) == pat@,
{
    let ghost sub = s@.subrange(i as int, i as int + pat@.len() as int);
    let sn = s.len();
    let pn = pat.len();
    let mut k: usize = 0;
    while k < pn
        invariant
            sn == s@.len(),
            pn == pat@.len(),
            i + pat@.len() <= s@.len(),
            0 <= k <= pat@.len(),
            sub == s@.subrange(i as int, i as int + pat@.len() as int),
            forall|j: int| 0 <= j < k ==> s@[i + j] == pat@[j],
        decreases pat@.len() - k,
    {
        if s[i + k] != pat[k] {
            proof {
                assert(sub[k as int] == s@[i + k]);
                assert(sub != pat@);
            }
            return false;
        }
        k = k + 1;
    }
    proof {
        assert(sub =~= pat@);
    }
    true
}

/// Left-to-right, non-overlapping replacement of every occurrence of `pat`
/// inside `s` by `rep`, as `replace_all` states it.
fn replace_all_vec(s: &Vec<char>, pat: &Vec<char>, rep: &Vec<char>) -> (r: Vec<char>)
    requires
        pat@.len() >= 1,
    ensures
        r@ == replace_all(s@, pat@, rep@),
{
    let mut out: Vec<char> = Vec::new();
    let mut i: usize = 0;
    proof {
        assert(s@.skip(0) =~= s@);
    }
    while i < s.len()
        invariant
            pat@.len() >= 1,
            0 <= i <= s@.len(),
            replace_all(s@, pat@, rep@) == out@ + replace_all(s@.skip(i as int), pat@, rep@),
        decreases s@.len() - i,
    {
        let ghost rem = s@.skip(i as int);
        proof {
            assert(rem[0] == s@[i as int]);
            assert(rem.skip(1) =~= s@.skip(i as int + 1));
        }
        if pat.len() <= s.len() - i && matches_at(s, pat, i) {
            proof {
                assert(rem.subrange(0, pat@.len() as int) =~= s@.subrange(
                    i as int,
                    i as int + pat@.len() as int,
                ));
                assert(rem.skip(pat@.len() as int) =~= s@.skip(i as int + pat@.len() as int));
                assert(replace_all(rem, pat@, rep@) == rep@ + replace_all(
                    s@.skip(i as int + pat@.len() as int),
                    pat@,
                    rep@,
                ));
                assert(out@ + (rep@ + replace_all(s@.skip(i as int + pat@.len() as int), pat@, rep@))
                    =~= (out@ + rep@) + replace_all(s@.skip(i as int + pat@.len() as int), pat@, rep@));
            }
            push_all(&mut out, rep);
            i = i + pat.len();
        } else {
            proof {
                if rem.len() < pat@.len() {
                    assert(replace_all(rem, pat@, rep@) == rem);
                    assert(rem.skip(1).len() < pat@.len());
                    assert(replace_all(rem.skip(1), pat@, rep@) == rem.skip(1));
                    assert(rem =~= seq![rem[0]] + rem.skip(1));
                } else {
                    assert(rem.subrange(0, pat@.len() as int) =~= s@.subrange(
                        i as int,
                        i as int + pat@.len() as int,
                    ));
                    assert(rem.subrange(0, pat@.len() as int) != pat@);
                    assert(replace_all(rem, pat@, rep@) == seq![rem[0]] + replace_all(
                        rem.skip(1),
                        pat@,
                        rep@,
                    ));
                }
                assert(out@ + (seq![rem[0]] + replace_all(s@.skip(i as int + 1), pat@, rep@))
                    =~= out@.push(s@[i as int]) + replace_all(s@.skip(i as int + 1), pat@, rep@));
            }
            out.push(s[i]);
            i = i + 1;
        }
    }
    proof {
        assert(s@.skip(i as int) =~= Seq::<char>::empty());
        assert(replace_all(Seq::<char>::empty(), pat@, rep@) == Seq::<char>::empty());
        assert(out@ + Seq::<char>::empty() =~= out@);
    }
    out
}

/// Every backslash of the string replaced by a forward slash.
pub fn backslash_to_slash(string: &str) -> (r: String)
    ensures
        r@ == normalized(string@),
{
    let n = string.unicode_len();
    let mut r = String::new();
    let mut i: usize = 0;
    while i < n
        invariant
            n == string@.len(),
            0 <= i <= n,
            r@.len() == i,
            forall|k: int| 0 <= k < i ==> r@[k] == normalized(string@)[k],
        decreases n - i,
    {
        let c = string.get_char(i);
        if c == '\\' {
            push_char(&mut r, '/');
        } else {
            push_char(&mut r, c);
        }
        i = i + 1;
    }
    proof {
        assert(r@ =~= normalized(string@));
    }
    r
}

/// Every occurrence of `<letter>:\` and of `<letter>:/` inside `s` replaced
/// by `p`: the backslash spelling first, then the slash spelling on the
/// result.
pub open spec fn format_path_spec(s: Seq<char>, d: char, p: Seq<char>) -> Seq<char> {
    replace_all(replace_all(s, seq![d, ':', '\\'], p), seq![d, ':', '/'], p)
}

/// Drive substitution: every occurrence of `drive_letter` + `:\` and of
/// `drive_letter` + `:/` inside `string` replaced by `new_path`.
pub fn format_path(string: &str, drive_letter: char, new_path: &str) -> (r: String)
    ensures
        r@ == format_path_spec(string@, drive_letter, new_path@),
{
    let sv = str_to_chars(string);
    let pv = str_to_chars(new_path);
    let mut pat_bs: Vec<char> = Vec::new();
    pat_bs.push(drive_letter);
    pat_bs.push(':');
    pat_bs.push('\\');
    proof {
        assert(pat_bs@ =~= seq![drive_letter, ':', '\\']);
    }
    let mid = replace_all_vec(&sv, &pat_bs, &pv);
    let mut pat_fs: Vec<char> = Vec::new();
    pat_fs.push(drive_letter);
    pat_fs.push(':');
    pat_fs.push('/');
    proof {
        assert(pat_fs@ =~= seq![drive_letter, ':', '/']);
    }
    let out = replace_all_vec(&mid, &pat_fs, &pv);
    chars_to_string(&out)
}

} // verus!
