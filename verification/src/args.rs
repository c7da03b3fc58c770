//! The argument-list filter: the program name is reduced to its file stem,
//! empty arguments are dropped, and every other argument is translated.

use vstd::prelude::*;

use crate::classify::classify;
use crate::classify::UnixPathType;
use crate::rewrite::str_to_chars;
use crate::translate::convert_path;
use crate::translate::convert_path_spec;
use crate::translate::home_view;
use crate::translate::TranslateError;
use crate::translate::TranslationContext;

verus! {

/// A path separator in either convention.
pub open spec fn is_sep(c: char) -> bool {
    c == '/' || c == '\\'
}

/// The last component of a path: the characters after the last separator, or
/// the whole string when it has none. Empty when the string ends with a
/// separator.
pub open spec fn file_name_of(s: Seq<char>) -> Seq<char>
    decreases s.len(),
{
    if s.len() == 0 {
        s
    } else if is_sep(s[s.len() - 1]) {
        Seq::empty()
    } else {
        file_name_of(s.drop_last()).push(s[s.len() - 1])
    }
}

/// The index of the last `.` in the string, or `-1` when it has none.
pub open spec fn last_dot_index(s: Seq<char>) -> int
    decreases s.len(),
{
    if s.len() == 0 {
        -1
    } else if s[s.len() - 1] == '.' {
        s.len() - 1
    } else {
        last_dot_index(s.drop_last())
    }
}

/// The file stem of a path: its last component, minus the extension after the
/// component's last `.`. A `.` at the start of the component begins no
/// extension.
pub open spec fn file_stem_of(s: Seq<char>) -> Seq<char> {
    let name = file_name_of(s);
    let k = last_dot_index(name);
    if k <= 0 {
        name
    } else {
        name.subrange(0, k)
    }
}

/// When no separator stands at or after position `i` and position `i` starts
/// the string or follows a separator, the last component is the suffix
/// from `i`.
proof fn lemma_file_name_suffix(s: Seq<char>, i: int)
    requires
        0 <= i <= s.len(),
        forall|k: int| i <= k < s.len() ==> !is_sep(s[k]),
        i == 0 || is_sep(s[i - 1]),
    ensures
        file_name_of(s) == s.subrange(i, s.len() as int),
    decreases s.len(),
{
    if s.len() == i {
        assert(file_name_of(s) =~= s.subrange(i, s.len() as int));
    } else {
        lemma_file_name_suffix(s.drop_last(), i);
        assert(file_name_of(s.drop_last()).push(s[s.len() - 1]) =~= s.subrange(i, s.len() as int));
    }
}

/// A string without a `.` has no last-dot index.
proof fn lemma_no_dot(s: Seq<char>)
    requires
        forall|k: int| 0 <= k < s.len() ==> s[k] != '.',
    ensures
        last_dot_index(s) == -1,
    decreases s.len(),
{
    if s.len() > 0 {
        lemma_no_dot(s.drop_last());
    }
}

/// A `.` at position `j` with none after it is the last one.
proof fn lemma_last_dot(s: Seq<char>, j: int)
    requires
        0 <= j < s.len(),
        s[j] == '.',
        forall|k: int| j < k < s.len() ==> s[k] != '.',
    ensures
        last_dot_index(s) == j,
    decreases s.len(),
{
    if j < s.len() - 1 {
        lemma_last_dot(s.drop_last(), j);
    }
}

/// The file stem of a path, as `file_stem_of` states it: the last component
/// with its extension stripped.
pub fn file_stem(s: &str) -> (r: String)
    ensures
        r@ == file_stem_of(s@),
{
    let v = str_to_chars(s);
    let n = v.len();
    let mut i: usize = n;
    while i > 0 && !(v[i - 1] == '/' || v[i - 1] == '\\')
        invariant
            0 <= i <= n,
            n == v@.len(),
            v@ == s@,
            forall|k: int| i <= k < n ==> !is_sep(v@[k]),
        decreases i,
    {
        i = i - 1;
    }
    proof {
        lemma_file_name_suffix(s@, i as int);
    }
    let ghost name = s@.subrange(i as int, n as int);
    let mut j: usize = n;
    while j > i && v[j - 1] != '.'
        invariant
            0 <= i <= j <= n,
            n == v@.len(),
            v@ == s@,
            forall|k: int| j <= k < n ==> v@[k] != '.',
        decreases j,
    {
        j = j - 1;
    }
    proof {
        if j == i {
            assert(forall|k: int| 0 <= k < name.len() ==> name[k] != '.');
            lemma_no_dot(name);
        } else {
            assert(name[j - 1 - i] == '.');
            lemma_last_dot(name, j - 1 - i);
        }
    }
    if j - i <= 1 {
        let t = s.substring_char(i, n);
        proof {
            assert(t@ =~= file_stem_of(s@));
        }
        t.to_owned()
    } else {
        let t = s.substring_char(i, j - 1);
        proof {
            assert(t@ =~= file_stem_of(s@));
        }
        t.to_owned()
    }
}

/// The views of a list of strings.
pub open spec fn views_of(args: Seq<String>) -> Seq<Seq<char>> {
    args.map_values(|t: String| t@)
}

/// Some argument after the first is home-relative, so translation needs a
/// home directory.
pub open spec fn needs_home(args: Seq<Seq<char>>) -> bool {
    exists|k: int| 1 <= k < args.len() && #[trigger] classify(args[k]) == UnixPathType::Home
}

/// The translations of the arguments after the first, in order, with empty
/// arguments dropped.
pub open spec fn escape_tail(args: Seq<Seq<char>>, cwd: Seq<char>, home: Seq<char>) -> Seq<
    Seq<char>,
>
    decreases args.len(),
{
    if args.len() == 0 {
        Seq::empty()
    } else if args[0].len() == 0 {
        escape_tail(args.drop_first(), cwd, home)
    } else {
        seq![convert_path_spec(args[0], cwd, home)] + escape_tail(args.drop_first(), cwd, home)
    }
}

/// The whole filtered list: the first argument's file stem, then the
/// translations of the non-empty rest.
pub open spec fn escape_spec(args: Seq<Seq<char>>, cwd: Seq<char>, home: Seq<char>) -> Seq<
    Seq<char>,
> {
    if args.len() == 0 {
        Seq::empty()
    } else {
        seq![file_stem_of(args[0])] + escape_tail(args.drop_first(), cwd, home)
    }
}

/// Filters and translates an argument list: element 0 is reduced to its file
/// stem, empty arguments are dropped, and every other argument is translated
/// against the context. Fails exactly when some translated argument is
/// home-relative while the context resolves no home directory.
pub fn escape(strings: &[String], ctx: &TranslationContext) -> (r: Result<
    Vec<String>,
    TranslateError,
>)
    ensures
        r is Err <==> needs_home(views_of(strings@)) && ctx.home_dir is None,
        r matches Ok(v) ==> views_of(v@) == escape_spec(
            views_of(strings@),
            ctx.current_dir@,
            home_view(*ctx),
        ),
        r matches Err(e) ==> e == TranslateError::HomeDirUnresolved,
{
    let ghost views = views_of(strings@);
    let mut out: Vec<String> = Vec::new();
    if strings.len() == 0 {
        proof {
            assert(views_of(out@) =~= escape_spec(views, ctx.current_dir@, home_view(*ctx)));
        }
        return Ok(out);
    }
    out.push(file_stem(strings[0].as_str()));
    proof {
        assert(views[0] == strings@[0]@);
        assert(views.skip(1) =~= views.drop_first());
        assert(views_of(out@) =~= seq![file_stem_of(views[0])]);
        assert(views_of(out@) + escape_tail(views.skip(1), ctx.current_dir@, home_view(*ctx))
            =~= escape_spec(views, ctx.current_dir@, home_view(*ctx)));
    }
    let mut idx: usize = 1;
    while idx < strings.len()
        invariant
            1 <= idx <= strings@.len(),
            views == views_of(strings@),
            views_of(out@) + escape_tail(views.skip(idx as int), ctx.current_dir@, home_view(*ctx))
                == escape_spec(views, ctx.current_dir@, home_view(*ctx)),
            forall|k: int|
                1 <= k < idx ==> !(#[trigger] classify(views[k]) == UnixPathType::Home
                    && ctx.home_dir is None),
        decreases strings@.len() - idx,
    {
        let ghost rem = views.skip(idx as int);
        proof {
            assert(rem[0] == views[idx as int]);
            assert(views[idx as int] == strings@[idx as int]@);
            assert(rem.drop_first() =~= views.skip(idx as int + 1));
        }
        let arg = &strings[idx];
        if arg.as_str().is_empty() {
            idx = idx + 1;
        } else {
            match convert_path(arg.as_str(), ctx) {
                Ok(t) => {
                    proof {
                        assert(escape_tail(rem, ctx.current_dir@, home_view(*ctx)) == seq![
                            convert_path_spec(rem[0], ctx.current_dir@, home_view(*ctx)),
                        ] + escape_tail(rem.drop_first(), ctx.current_dir@, home_view(*ctx)));
                    }
                    let ghost old_out = out@;
                    out.push(t);
                    proof {
                        assert(views_of(out@) =~= views_of(old_out).push(t@));
                        assert(views_of(old_out).push(t@) + escape_tail(
                            views.skip(idx as int + 1),
                            ctx.current_dir@,
                            home_view(*ctx),
                        ) =~= views_of(old_out) + escape_tail(
                            rem,
                            ctx.current_dir@,
                            home_view(*ctx),
                        ));
                    }
                    idx = idx + 1;
                },
                Err(e) => {
                    proof {
                        assert(classify(views[idx as int]) == UnixPathType::Home);
                        assert(needs_home(views));
                    }
                    return Err(e);
                },
            }
        }
    }
    proof {
        assert(views.skip(idx as int) =~= Seq::<Seq<char>>::empty());
        assert(escape_tail(Seq::<Seq<char>>::empty(), ctx.current_dir@, home_view(*ctx))
            =~= Seq::<Seq<char>>::empty());
        assert(views_of(out@) + Seq::<Seq<char>>::empty() =~= views_of(out@));
        if needs_home(views) && ctx.home_dir is None {
            let k = choose|k: int|
                1 <= k < views.len() && #[trigger] classify(views[k]) == UnixPathType::Home;
            assert(!(classify(views[k]) == UnixPathType::Home && ctx.home_dir is None));
        }
    }
    Ok(out)
}

} // verus!
