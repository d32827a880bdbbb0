//! The listing's switches and the parsing of its arguments.

use vstd::prelude::*;

use crate::error::ShellError;
use crate::text::{push_char, push_str};

verus! {

/// The three switches of a listing: `-l` long form, `-a` show all, `-F` classify.
#[derive(Clone, Copy, Debug, PartialEq, Eq, Structural)]
pub struct Flag {
    pub l: bool,
    pub a: bool,
    pub f: bool,
}

/// What a positional argument names on disk.
#[derive(Clone, Copy, Debug, PartialEq, Eq, Structural)]
pub enum PathKind {
    Directory,
    /// Anything else that exists.
    File,
    Missing,
}

/// The message for an unknown flag character.
pub open spec fn invalid_flag_text(c: char) -> Seq<char> {
    "invalid flag: '"@ + seq![c] + "', supported flags are: '-a', '-F', '-l'"@
}

/// The message for an argument that names nothing.
pub open spec fn missing_path_text(arg: Seq<char>) -> Seq<char> {
    "cannot access '"@ + arg + "': No such file or directory"@
}

/// Whether an argument is a cluster of flags.
pub open spec fn is_flag_arg(arg: Seq<char>) -> bool {
    arg.len() > 0 && arg[0] == '-'
}

/// The switches after the characters of `s` from index `i` on, or the first
/// character that is not a switch.
pub open spec fn apply_flag_chars(s: Seq<char>, i: int, f: Flag) -> Result<Flag, char>
    decreases s.len() - i,
{
    if i >= s.len() || i < 0 {
        Ok(f)
    } else if s[i] == 'a' {
        apply_flag_chars(s, i + 1, Flag { l: f.l, a: true, f: f.f })
    } else if s[i] == 'F' {
        apply_flag_chars(s, i + 1, Flag { l: f.l, a: f.a, f: true })
    } else if s[i] == 'l' {
        apply_flag_chars(s, i + 1, Flag { l: true, a: f.a, f: f.f })
    } else {
        Err(s[i])
    }
}

/// The state after the first `n` arguments: the switches, the directories and the
/// files so far, and the message of the first error.
pub open spec fn parse_upto(args: Seq<String>, kinds: Seq<PathKind>, n: int) -> (
    Flag,
    Seq<Seq<char>>,
    Seq<Seq<char>>,
    Option<Seq<char>>,
)
    decreases n,
{
    if n <= 0 {
        (Flag { l: false, a: false, f: false }, Seq::empty(), Seq::empty(), None)
    } else {
        let prev = parse_upto(args, kinds, n - 1);
        let arg = args[n - 1]@;
        if prev.3 is Some {
            prev
        } else if is_flag_arg(arg) {
            match apply_flag_chars(arg, 1, prev.0) {
                Ok(f) => (f, prev.1, prev.2, None),
                Err(c) => (prev.0, prev.1, prev.2, Some(invalid_flag_text(c))),
            }
        } else {
            match kinds[n - 1] {
                PathKind::Directory => (prev.0, prev.1.push(arg), prev.2, None),
                PathKind::File => (prev.0, prev.1, prev.2.push(arg), None),
                PathKind::Missing => (prev.0, prev.1, prev.2, Some(missing_path_text(arg))),
            }
        }
    }
}

/// The views of a sequence of strings.
pub open spec fn views(v: Seq<String>) -> Seq<Seq<char>> {
    v.map_values(|s: String| s@)
}

impl Flag {
    /// Reads the switches from `args` and sorts the other arguments, by what
    /// `kinds` says each names, into `directories` and `files`; stops at the first
    /// unknown switch or missing path.
    pub fn parse(
        args: &Vec<String>,
        kinds: &Vec<PathKind>,
        directories: &mut Vec<String>,
        files: &mut Vec<String>,
    ) -> (r: Result<Flag, ShellError>)
        requires
            kinds@.len() == args@.len(),
        ensures
            ({
                let st = parse_upto(args@, kinds@, args@.len() as int);
                &&& views(final(directories)@) == views(old(directories)@) + st.1
                &&& views(final(files)@) == views(old(files)@) + st.2
                &&& match st.3 {
                    None => r == Ok::<Flag, ShellError>(st.0),
                    Some(m) => r matches Err(ShellError::Other(msg)) && msg@ == m,
                }
            }),
    {
        let mut flags = Flag { l: false, a: false, f: false };
        let mut i: usize = 0;
        while i < args.len()
            invariant
                kinds@.len() == args@.len(),
                i <= args@.len(),
                ({
                    let st = parse_upto(args@, kinds@, i as int);
                    &&& st.3 is None
                    &&& st.0 == flags
                    &&& views(directories@) == views(old(directories)@) + st.1
                    &&& views(files@) == views(old(files)@) + st.2
                }),
            decreases args@.len() - i,
        {
            let arg = args[i].as_str();
            let n = arg.unicode_len();
            if n > 0 && arg.get_char(0) == '-' {
                let mut j: usize = 1;
                let ghost start = flags;
                while j < n
                    invariant
                        n == arg@.len(),
                        1 <= j <= n,
                        i < args@.len(),
                        kinds@.len() == args@.len(),
                        arg@ == args@[i as int]@,
                        n > 0 && arg@[0] == '-',
                        parse_upto(args@, kinds@, i as int).3 is None,
                        parse_upto(args@, kinds@, i as int).0 == start,
                        views(directories@) == views(old(directories)@) + parse_upto(args@, kinds@, i as int).1,
                        views(files@) == views(old(files)@) + parse_upto(args@, kinds@, i as int).2,
                        apply_flag_chars(arg@, 1, start) == apply_flag_chars(arg@, j as int, flags),
                    decreases n - j,
                {
                    let ch = arg.get_char(j);
                    if ch == 'a' {
                        flags.a = true;
                    } else if ch == 'F' {
                        flags.f = true;
                    } else if ch == 'l' {
                        flags.l = true;
                    } else {
                        let mut msg = "invalid flag: '".to_string();
                        push_char(&mut msg, ch);
                        push_str(&mut msg, "', supported flags are: '-a', '-F', '-l'");
                        proof {
                            assert(arg@ == args@[i as int]@);
                            assert(apply_flag_chars(arg@, j as int, flags) == Err::<Flag, char>(ch));
                            assert(parse_upto(args@, kinds@, (i + 1) as int).3 == Some(
                                invalid_flag_text(ch),
                            ));
                            lemma_parse_stops(args@, kinds@, (i + 1) as int, args@.len() as int);
                        }
                        return Err(ShellError::Other(msg));
                    }
                    j = j + 1;
                }
            } else {
                match kinds[i] {
                    PathKind::Directory => {
                        let ghost before = directories@;
                        directories.push(args[i].clone());
                        proof {
                            assert(views(directories@) =~= views(before).push(args@[i as int]@));
                            assert(views(directories@) =~= views(old(directories)@) + parse_upto(
                                args@,
                                kinds@,
                                (i + 1) as int,
                            ).1);
                        }
                    },
                    PathKind::File => {
                        let ghost before = files@;
                        files.push(args[i].clone());
                        proof {
                            assert(views(files@) =~= views(before).push(args@[i as int]@));
                            assert(views(files@) =~= views(old(files)@) + parse_upto(
                                args@,
                                kinds@,
                                (i + 1) as int,
                            ).2);
                        }
                    },
                    PathKind::Missing => {
                        let mut msg = "cannot access '".to_string();
                        push_str(&mut msg, arg);
                        push_str(&mut msg, "': No such file or directory");
                        proof {
                            assert(arg@ == args@[i as int]@);
                            assert(parse_upto(args@, kinds@, (i + 1) as int).3 == Some(
                                missing_path_text(arg@),
                            ));
                            lemma_parse_stops(args@, kinds@, (i + 1) as int, args@.len() as int);
                        }
                        return Err(ShellError::Other(msg));
                    },
                }
            }
            i = i + 1;
        }
        Ok(flags)
    }
}

/// Once an argument fails, later ones change nothing.
proof fn lemma_parse_stops(args: Seq<String>, kinds: Seq<PathKind>, i: int, n: int)
    requires
        0 <= i <= n,
        parse_upto(args, kinds, i).3 is Some,
    ensures
        parse_upto(args, kinds, n) == parse_upto(args, kinds, i),
    decreases n - i,
{
    if n > i {
        lemma_parse_stops(args, kinds, i, n - 1);
    }
}

} // verus!
