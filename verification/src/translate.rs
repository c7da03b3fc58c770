//! The path translator: rewrites one argument string into the foreign
//! namespace's syntax, resolving the current-directory and home-directory
//! special cases from an explicit context.

use vstd::prelude::*;

use crate::classify::classify;
use crate::classify::drive_letter_of;
use crate::classify::get_drive_letter;
use crate::classify::is_unix_path;
use crate::classify::remove_first;
use crate::classify::UnixPathType;
use crate::rewrite::backslash_to_slash;
use crate::rewrite::chars_to_string;
use crate::rewrite::format_path;
use crate::rewrite::format_path_spec;
use crate::rewrite::lower_char;
use crate::rewrite::normalized;
use crate::rewrite::to_lower;

verus! {

/// The environment of one invocation: the current working directory and the
/// resolved home directory, read once and passed in explicitly.
pub struct TranslationContext {
    /// The current working directory of the invoking process.
    pub current_dir: String,
    /// The home directory of the invoking user, when one could be resolved.
    pub home_dir: Option<String>,
}

/// The one exceptional condition of translation.
#[derive(Debug, PartialEq, Eq, Structural)]
pub enum TranslateError {
    /// A home-relative argument was translated while no home directory was
    /// resolvable.
    HomeDirUnresolved,
}

impl TranslateError {
    /// A short description of the error.
    pub fn message(&self) -> (r: String)
        ensures
            r@ == "home directory unresolved"@,
    {
        "home directory unresolved".to_owned()
    }
}

/// The home directory as a character sequence; empty when none is set.
pub open spec fn home_view(ctx: TranslationContext) -> Seq<char> {
    match ctx.home_dir {
        Some(h) => h@,
        None => Seq::empty(),
    }
}

/// The fixed prefix under which host drives appear in the foreign namespace.
pub open spec fn mnt_prefix() -> Seq<char> {
    seq!['/', 'm', 'n', 't']
}

/// The mount root of a drive, without a trailing slash: `/mnt/<letter>`.
pub open spec fn mnt_root(d: char) -> Seq<char> {
    seq!['/', 'm', 'n', 't', '/', lower_char(d)]
}

/// The mount root of a drive with a trailing slash: `/mnt/<letter>/`.
pub open spec fn mnt_root_slash(d: char) -> Seq<char> {
    mnt_root(d).push('/')
}

/// What translation returns for an argument, given the working directory and
/// the home directory. The home directory matters only on the `Home` branch;
/// separators are normalized last on every branch.
pub open spec fn convert_path_spec(arg: Seq<char>, cwd: Seq<char>, home: Seq<char>) -> Seq<char> {
    match classify(arg) {
        UnixPathType::Root => match drive_letter_of(cwd) {
            Some(d) => normalized(mnt_root(d) + format_path_spec(arg, d, mnt_root(d))),
            None => normalized(mnt_prefix() + arg),
        },
        UnixPathType::Home => match drive_letter_of(home) {
            Some(d) => normalized(
                format_path_spec(home + arg.subrange(1, arg.len() as int), d, mnt_root_slash(d)),
            ),
            None => normalized(arg),
        },
        UnixPathType::Other => normalized(arg),
        UnixPathType::Native => match drive_letter_of(arg) {
            Some(d) => normalized(format_path_spec(arg, d, mnt_root_slash(d))),
            None => match drive_letter_of(cwd) {
                Some(d) => if arg.len() >= 1 && arg[0] == '\\' {
                    normalized(mnt_root(d) + format_path_spec(arg, d, mnt_root(d)))
                } else {
                    normalized(
                        format_path_spec(cwd, d, mnt_root_slash(d)) + seq!['/'] + arg,
                    )
                },
                None => normalized(arg),
            },
        },
    }
}

/// The mount root of a drive, `/mnt/<lowercase letter>`.
fn mnt_root_string(d: char) -> (r: String)
    ensures
        r@ == mnt_root(d),
{
    let mut v: Vec<char> = Vec::new();
    v.push('/');
    v.push('m');
    v.push('n');
    v.push('t');
    v.push('/');
    v.push(to_lower(d));
    proof {
        assert(v@ =~= mnt_root(d));
    }
    chars_to_string(&v)
}

/// The mount root of a drive with a trailing slash, `/mnt/<lowercase letter>/`.
fn mnt_root_slash_string(d: char) -> (r: String)
    ensures
        r@ == mnt_root_slash(d),
{
    let mut v: Vec<char> = Vec::new();
    v.push('/');
    v.push('m');
    v.push('n');
    v.push('t');
    v.push('/');
    v.push(to_lower(d));
    v.push('/');
    proof {
        assert(v@ =~= mnt_root_slash(d));
    }
    chars_to_string(&v)
}

/// Translates one argument string into foreign-namespace syntax, against the
/// given context. Fails exactly when the argument is home-relative and the
/// context resolves no home directory; every other input yields a string.
pub fn convert_path(string: &str, ctx: &TranslationContext) -> (r: Result<String, TranslateError>)
    ensures
        r is Err <==> classify(string@) == UnixPathType::Home && ctx.home_dir is None,
        r matches Ok(s) ==> s@ == convert_path_spec(string@, ctx.current_dir@, home_view(*ctx)),
        r matches Err(e) ==> e == TranslateError::HomeDirUnresolved,
{
    match is_unix_path(string) {
        UnixPathType::Root => {
            match get_drive_letter(ctx.current_dir.as_str()) {
                Some(d) => {
                    let root = mnt_root_string(d);
                    let sub = format_path(string, d, root.as_str());
                    let joined = root.concat(sub.as_str());
                    Ok(backslash_to_slash(joined.as_str()))
                },
                None => {
                    let mut p = "/mnt".to_owned();
                    proof {
                        reveal_strlit("/mnt");
                        assert(p@ =~= mnt_prefix());
                    }
                    p.append(string);
                    Ok(backslash_to_slash(p.as_str()))
                },
            }
        },
        UnixPathType::Home => {
            match &ctx.home_dir {
                None => Err(TranslateError::HomeDirUnresolved),
                Some(home) => {
                    match get_drive_letter(home.as_str()) {
                        Some(d) => {
                            let root = mnt_root_slash_string(d);
                            let rest = match remove_first(string) {
                                Some(t) => t,
                                None => "",
                            };
                            proof {
                                reveal_strlit("");
                            }
                            let old_path = home.clone().concat(rest);
                            let sub = format_path(old_path.as_str(), d, root.as_str());
                            Ok(backslash_to_slash(sub.as_str()))
                        },
                        None => Ok(backslash_to_slash(string)),
                    }
                },
            }
        },
        UnixPathType::Other => Ok(backslash_to_slash(string)),
        UnixPathType::Native => {
            match get_drive_letter(string) {
                Some(d) => {
                    let root = mnt_root_slash_string(d);
                    let sub = format_path(string, d, root.as_str());
                    Ok(backslash_to_slash(sub.as_str()))
                },
                None => {
                    match get_drive_letter(ctx.current_dir.as_str()) {
                        Some(d) => {
                            if string.unicode_len() >= 1 && string.get_char(0) == '\\' {
                                let root = mnt_root_string(d);
                                let sub = format_path(string, d, root.as_str());
                                let joined = root.concat(sub.as_str());
                                Ok(backslash_to_slash(joined.as_str()))
                            } else {
                                let root = mnt_root_slash_string(d);
                                let mut j = format_path(ctx.current_dir.as_str(), d, root.as_str());
                                proof {
                                    reveal_strlit("/");
                                    assert("/"@ =~= seq!['/']);
                                }
                                j.append("/");
                                j.append(string);
                                Ok(backslash_to_slash(j.as_str()))
                            }
                        },
                        None => Ok(backslash_to_slash(string)),
                    }
                },
            }
        },
    }
}

} // verus!
