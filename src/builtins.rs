//! The argument decisions of the file builtins (`rm`, `mv`, `cd`); the file
//! operations themselves stay with the caller.

use vstd::prelude::*;

use crate::error::ShellError;
use crate::parser::string_views;
use crate::text::push_str;

verus! {

/// The `rm` command.
pub struct RmCommand;

/// The `mv` command.
pub struct MvCommand;

/// The `cd` command.
pub struct CdCommand;

/// Where `cd` goes.
#[derive(Clone, Debug, PartialEq, Eq)]
pub enum CdTarget {
    /// The home directory.
    Home,
    /// The previous working directory.
    Previous,
    /// A path, with a leading `~` already expanded.
    Path(String),
}

/// The outcome of `rm`'s arguments: the first bad option, or whether `-r` was given
/// and the targets in order.
pub open spec fn rm_args(args: Seq<Seq<char>>, n: int) -> Result<(bool, Seq<Seq<char>>), Seq<char>>
    decreases n,
{
    if n <= 0 {
        Ok((false, Seq::empty()))
    } else {
        match rm_args(args, n - 1) {
            Err(e) => Err(e),
            Ok((r, t)) => {
                let a = args[n - 1];
                if a.len() > 0 && a[0] == '-' {
                    if a == "-r"@ {
                        Ok((true, t))
                    } else {
                        Err("rm: invalid option -- '"@ + a + "'"@)
                    }
                } else {
                    Ok((r, t.push(a)))
                }
            },
        }
    }
}

/// The targets `rm` refuses to remove.
pub open spec fn protected_target(t: Seq<char>) -> bool {
    t == "."@ || t == ".."@ || t == "./."@ || t == "./.."@
}

impl RmCommand {
    /// Reads `rm`'s arguments: `-r` and the targets; any other option, or no
    /// target at all, is an error.
    pub fn parse_args(args: &Vec<String>) -> (r: Result<(bool, Vec<String>), ShellError>)
        ensures
            ({
                let spec = rm_args(string_views(args@), args@.len() as int);
                match spec {
                    Err(m) => args@.len() > 0 && (r matches Err(ShellError::Other(msg)) && msg@ == m),
                    Ok((rec, t)) => if args@.len() == 0 || t.len() == 0 {
                        r matches Err(ShellError::Other(msg)) && msg@ == "missing operand"@
                    } else {
                        r matches Ok((rr, tt)) && rr == rec && string_views(tt@) == t
                    },
                }
            }),
    {
        let missing = "missing operand";
        proof {
            reveal_strlit("missing operand");
        }
        if args.len() == 0 {
            return Err(ShellError::Other(missing.to_string()));
        }
        let ghost av = string_views(args@);
        let mut recursive = false;
        let mut targets: Vec<String> = Vec::new();
        let mut i: usize = 0;
        proof {
            assert(string_views(targets@) =~= Seq::<Seq<char>>::empty());
        }
        while i < args.len()
            invariant
                av == string_views(args@),
                i <= args@.len(),
                rm_args(av, i as int) == Ok::<(bool, Seq<Seq<char>>), Seq<char>>(
                    (recursive, string_views(targets@)),
                ),
            decreases args@.len() - i,
        {
            let arg = args[i].as_str();
            proof {
                assert(av[i as int] == arg@);
            }
            if arg.unicode_len() > 0 && arg.get_char(0) == '-' {
                if crate::shell::same_text(arg, "-r") {
                    recursive = true;
                } else {
                    let mut msg = "rm: invalid option -- '".to_string();
                    push_str(&mut msg, arg);
                    push_str(&mut msg, "'");
                    proof {
                        assert(arg@ != "-r"@);
                        assert(arg@.len() > 0 && arg@[0] == '-');
                        assert(rm_args(av, i as int + 1) == Err::<(bool, Seq<Seq<char>>), Seq<char>>(
                            msg@,
                        ));
                        lemma_rm_stops(av, i as int + 1, args@.len() as int);
                    }
                    return Err(ShellError::Other(msg));
                }
            } else {
                let ghost before = targets@;
                targets.push(args[i].clone());
                proof {
                    assert(string_views(targets@) =~= string_views(before).push(arg@));
                }
            }
            i = i + 1;
        }
        if targets.len() == 0 {
            return Err(ShellError::Other(missing.to_string()));
        }
        Ok((recursive, targets))
    }

    /// Whether `rm` refuses a target: `.` and `..`, also behind `./`.
    pub fn is_protected(target: &str) -> (r: bool)
        ensures
            r == protected_target(target@),
    {
        crate::shell::same_text(target, ".") || crate::shell::same_text(target, "..")
            || crate::shell::same_text(target, "./.") || crate::shell::same_text(target, "./..")
    }
}

/// Once an option is refused, later arguments change nothing.
proof fn lemma_rm_stops(args: Seq<Seq<char>>, i: int, n: int)
    requires
        0 <= i <= n,
        rm_args(args, i) is Err,
    ensures
        rm_args(args, n) == rm_args(args, i),
    decreases n - i,
{
    if n > i {
        lemma_rm_stops(args, i, n - 1);
    }
}

impl MvCommand {
    /// Splits `mv`'s operands into the sources and the destination, the last one.
    pub fn split_operands(args: &Vec<String>) -> (r: Result<(Vec<String>, String), ShellError>)
        ensures
            args@.len() == 0 ==> (r matches Err(ShellError::ArgsNotFound(c)) && c@ == "mv"@),
            args@.len() == 1 ==> (r matches Err(ShellError::Other(m)) && m@
                == "mv: missing destination file operand after '"@ + args@[0]@ + "'"@),
            args@.len() >= 2 ==> (r matches Ok((s, d)) && string_views(s@) == string_views(
                args@,
            ).drop_last() && d@ == args@.last()@),
    {
        if args.len() == 0 {
            let mv = "mv";
            proof {
                reveal_strlit("mv");
            }
            return Err(ShellError::ArgsNotFound(mv.to_string()));
        }
        if args.len() == 1 {
            let mut m = "mv: missing destination file operand after '".to_string();
            push_str(&mut m, args[0].as_str());
            push_str(&mut m, "'");
            return Err(ShellError::Other(m));
        }
        let last = args.len() - 1;
        let mut sources: Vec<String> = Vec::new();
        let mut i: usize = 0;
        while i < last
            invariant
                last == args@.len() - 1,
                i <= last,
                string_views(sources@) == string_views(args@).subrange(0, i as int),
            decreases last - i,
        {
            let ghost before = sources@;
            sources.push(args[i].clone());
            proof {
                assert(string_views(sources@) =~= string_views(before).push(args@[i as int]@));
                assert(string_views(sources@) =~= string_views(args@).subrange(0, i + 1));
            }
            i = i + 1;
        }
        proof {
            assert(string_views(args@).subrange(0, last as int) =~= string_views(args@).drop_last());
        }
        Ok((sources, args[last].clone()))
    }
}

/// `s` with every `~` replaced by `home`.
pub open spec fn expand_tilde(s: Seq<char>, home: Seq<char>) -> Seq<char>
    decreases s.len(),
{
    if s.len() == 0 {
        Seq::empty()
    } else {
        (if s[0] == '~' {
            home
        } else {
            seq![s[0]]
        }) + expand_tilde(s.skip(1), home)
    }
}

/// Whether `s` starts with `~/`.
pub open spec fn home_relative(s: Seq<char>) -> bool {
    s.len() >= 2 && s[0] == '~' && s[1] == '/'
}

fn expand(s: &str, home: &str) -> (r: String)
    ensures
        r@ == expand_tilde(s@, home@),
{
    let n = s.unicode_len();
    let mut out = String::new();
    let mut i: usize = 0;
    proof {
        assert(s@.skip(0) =~= s@);
    }
    while i < n
        invariant
            n == s@.len(),
            i <= n,
            expand_tilde(s@, home@) == out@ + expand_tilde(s@.skip(i as int), home@),
        decreases n - i,
    {
        let c = s.get_char(i);
        let ghost rest = s@.skip(i as int);
        if c == '~' {
            push_str(&mut out, home);
        } else {
            crate::text::push_char(&mut out, c);
        }
        proof {
            assert(rest.skip(1) =~= s@.skip(i + 1));
            assert(expand_tilde(s@, home@) =~= out@ + expand_tilde(s@.skip(i + 1), home@));
        }
        i = i + 1;
    }
    proof {
        assert(out@ + expand_tilde(s@.skip(n as int), home@) =~= out@);
    }
    out
}

impl CdCommand {
    /// Where `cd` goes for its arguments, `home` being the home directory when it
    /// is known: home for none or `~`, back for `-`, `~/..` expanded, a path as it
    /// is; more than one argument is an error.
    pub fn resolve(args: &Vec<String>, home: &Option<String>) -> (r: Result<CdTarget, ShellError>)
        ensures
            args@.len() == 0 ==> r == Ok::<CdTarget, ShellError>(CdTarget::Home),
            args@.len() > 1 ==> (r matches Err(ShellError::Other(m)) && m@
                == "cd: too many arguments"@),
            args@.len() == 1 ==> ({
                let a = args@[0]@;
                if a == "-"@ {
                    r == Ok::<CdTarget, ShellError>(CdTarget::Previous)
                } else if a == "~"@ {
                    r == Ok::<CdTarget, ShellError>(CdTarget::Home)
                } else if home_relative(a) {
                    match home {
                        Some(h) => r matches Ok(CdTarget::Path(p)) && p@ == expand_tilde(a, h@),
                        None => r matches Err(ShellError::Other(m)) && m@
                            == "cd: HOME environment variable not set"@,
                    }
                } else {
                    r matches Ok(CdTarget::Path(p)) && p@ == a
                }
            }),
    {
        if args.len() == 0 {
            return Ok(CdTarget::Home);
        }
        if args.len() > 1 {
            let m = "cd: too many arguments";
            proof {
                reveal_strlit("cd: too many arguments");
            }
            return Err(ShellError::Other(m.to_string()));
        }
        let a = args[0].as_str();
        if crate::shell::same_text(a, "-") {
            return Ok(CdTarget::Previous);
        }
        if crate::shell::same_text(a, "~") {
            return Ok(CdTarget::Home);
        }
        if a.unicode_len() >= 2 && a.get_char(0) == '~' && a.get_char(1) == '/' {
            match home {
                Some(h) => Ok(CdTarget::Path(expand(a, h.as_str()))),
                None => {
                    let m = "cd: HOME environment variable not set";
                    proof {
                        reveal_strlit("cd: HOME environment variable not set");
                    }
                    Err(ShellError::Other(m.to_string()))
                },
            }
        } else {
            Ok(CdTarget::Path(a.to_string()))
        }
    }
}

} // verus!
