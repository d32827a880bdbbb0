//! The shell's own decisions: which commands exist, what a line asks for, and
//! what `echo` prints.

use vstd::prelude::*;

use crate::error::ShellError;
use crate::parser::{command_of, parse_command, string_views, unclosed_text};
use crate::text::{push_char, push_str};

verus! {

/// The text of `s` with the escapes `\n`, `\r`, `\t` and `\\` replaced; any other
/// escaped character keeps its backslash, and a final lone backslash is dropped.
pub open spec fn unescape(s: Seq<char>) -> Seq<char>
    decreases s.len(),
{
    if s.len() == 0 {
        Seq::empty()
    } else if s[0] == '\\' {
        if s.len() == 1 {
            Seq::empty()
        } else {
            let c = s[1];
            (if c == 'n' {
                seq!['\n']
            } else if c == 'r' {
                seq!['\r']
            } else if c == 't' {
                seq!['\t']
            } else if c == '\\' {
                seq!['\\']
            } else {
                seq!['\\', c]
            }) + unescape(s.skip(2))
        }
    } else {
        seq![s[0]] + unescape(s.skip(1))
    }
}

/// Replaces the escapes of an `echo` argument.
pub fn process_escape(arg: &str) -> (r: String)
    ensures
        r@ == unescape(arg@),
{
    let n = arg.unicode_len();
    let mut result = String::new();
    let mut i: usize = 0;
    proof {
        assert(arg@.skip(0) =~= arg@);
    }
    while i < n
        invariant
            n == arg@.len(),
            i <= n,
            unescape(arg@) == result@ + unescape(arg@.skip(i as int)),
        decreases n - i,
    {
        let ch = arg.get_char(i);
        let ghost rest = arg@.skip(i as int);
        if ch == '\\' {
            if i + 1 < n {
                let next_char = arg.get_char(i + 1);
                if next_char == 'n' {
                    push_char(&mut result, '\n');
                } else if next_char == 'r' {
                    push_char(&mut result, '\r');
                } else if next_char == 't' {
                    push_char(&mut result, '\t');
                } else if next_char == '\\' {
                    push_char(&mut result, '\\');
                } else {
                    push_char(&mut result, '\\');
                    push_char(&mut result, next_char);
                }
                proof {
                    assert(rest.skip(2) =~= arg@.skip(i + 2));
                    assert(rest[1] == next_char);
                }
                i = i + 2;
            } else {
                proof {
                    assert(rest.len() == 1);
                    assert(arg@.skip(i + 1).len() == 0);
                }
                i = i + 1;
            }
        } else {
            push_char(&mut result, ch);
            proof {
                assert(rest.skip(1) =~= arg@.skip(i + 1));
            }
            i = i + 1;
        }
        proof {
            assert(unescape(arg@) =~= result@ + unescape(arg@.skip(i as int)));
        }
    }
    proof {
        assert(arg@.skip(n as int).len() == 0);
        assert(result@ + Seq::<char>::empty() =~= result@);
    }
    result
}

/// The first `n` words joined by single spaces.
pub open spec fn join_spaced(words: Seq<Seq<char>>, n: int) -> Seq<char>
    decreases n,
{
    if n <= 0 {
        Seq::empty()
    } else if n == 1 {
        words[0]
    } else {
        join_spaced(words, n - 1) + seq![' '] + words[n - 1]
    }
}

/// What `echo` prints for its arguments.
pub open spec fn echo_text(args: Seq<String>) -> Seq<char> {
    join_spaced(Seq::new(args.len(), |i: int| unescape(args[i]@)), args.len() as int).push('\n')
}

/// The `echo` command.
pub struct EchoCommand;

impl EchoCommand {
    /// The line `echo` prints: its arguments unescaped, one space apart.
    pub fn output(args: &Vec<String>) -> (r: String)
        ensures
            r@ == echo_text(args@),
    {
        let ghost words = Seq::new(args@.len(), |i: int| unescape(args@[i]@));
        let mut out = String::new();
        let mut i: usize = 0;
        while i < args.len()
            invariant
                i <= args@.len(),
                words == Seq::new(args@.len(), |i: int| unescape(args@[i]@)),
                out@ == join_spaced(words, i as int),
            decreases args@.len() - i,
        {
            if i > 0 {
                push_char(&mut out, ' ');
            }
            let piece = process_escape(args[i].as_str());
            push_str(&mut out, piece.as_str());
            proof {
                if i == 0 {
                    assert(out@ =~= join_spaced(words, 1));
                }
            }
            i = i + 1;
        }
        push_char(&mut out, '\n');
        out
    }
}

/// The names of the shell's commands.
pub open spec fn command_names() -> Seq<Seq<char>> {
    seq![
        "exit"@,
        "pwd"@,
        "echo"@,
        "mkdir"@,
        "cd"@,
        "ls"@,
        "rm"@,
        "mv"@,
        "cp"@,
        "cat"@,
    ]
}

/// The shell: the commands it knows by name.
pub struct Shell {
    commands: Vec<String>,
}

impl Shell {
    /// The names this shell knows.
    pub closed spec fn names(&self) -> Seq<Seq<char>> {
        string_views(self.commands@)
    }

    /// A shell that knows the ten built-in commands.
    pub fn new() -> (s: Shell)
        ensures
            s.names() == command_names(),
    {
        let mut shell = Shell { commands: Vec::new() };
        shell.register_commands();
        shell
    }

    fn register_commands(&mut self)
        ensures
            final(self).names() == old(self).names() + command_names(),
    {
        let ghost start = string_views(self.commands@);
        self.commands.push("exit".to_string());
        self.commands.push("pwd".to_string());
        self.commands.push("echo".to_string());
        self.commands.push("mkdir".to_string());
        self.commands.push("cd".to_string());
        self.commands.push("ls".to_string());
        self.commands.push("rm".to_string());
        self.commands.push("mv".to_string());
        self.commands.push("cp".to_string());
        self.commands.push("cat".to_string());
        proof {
            assert(string_views(self.commands@) =~= start + command_names());
        }
    }

    /// Whether the shell knows a command called `cmd`.
    pub fn knows(&self, cmd: &str) -> (r: bool)
        ensures
            r == self.names().contains(cmd@),
    {
        let mut i: usize = 0;
        while i < self.commands.len()
            invariant
                i <= self.commands@.len(),
                forall|k: int| 0 <= k < i ==> self.commands@[k]@ != cmd@,
            decreases self.commands@.len() - i,
        {
            if same_text(self.commands[i].as_str(), cmd) {
                proof {
                    assert(self.names()[i as int] == cmd@);
                }
                return true;
            }
            i = i + 1;
        }
        proof {
            if self.names().contains(cmd@) {
                let k = choose|k: int| 0 <= k < self.names().len() && self.names()[k] == cmd@;
                assert(self.commands@[k]@ == cmd@);
            }
        }
        false
    }

    /// What a command line asks of the shell: `None` for a blank line, else the
    /// known command and its arguments; an unknown command is an error.
    pub fn execute_command(&self, input: String) -> (r: Result<Option<(String, Vec<String>)>, ShellError>)
        ensures
            match command_of(input@) {
                None => r matches Err(ShellError::Other(m)) && m@ == unclosed_text(),
                Some(Err(_)) => r == Err::<Option<(String, Vec<String>)>, ShellError>(
                    ShellError::Backticks,
                ),
                Some(Ok((cmd, args))) => if cmd.len() == 0 {
                    r == Ok::<Option<(String, Vec<String>)>, ShellError>(None)
                } else if self.names().contains(cmd) {
                    r matches Ok(Some((c, a))) && c@ == cmd && string_views(a@) == args
                } else {
                    r matches Err(ShellError::CommandNotFound(c)) && c@ == cmd
                },
            },
    {
        let (cmd, args) = match parse_command(input) {
            Ok(p) => p,
            Err(e) => {
                return Err(e);
            },
        };
        if cmd.as_str().unicode_len() == 0 {
            return Ok(None);
        }
        if self.knows(cmd.as_str()) {
            Ok(Some((cmd, args)))
        } else {
            Err(ShellError::CommandNotFound(cmd))
        }
    }
}

/// Whether two strings hold the same characters.
pub(crate) fn same_text(a: &str, b: &str) -> (r: bool)
    ensures
        r == (a@ == b@),
{
    let n = a.unicode_len();
    if n != b.unicode_len() {
        return false;
    }
    let mut i: usize = 0;
    while i < n
        invariant
            n == a@.len() == b@.len(),
            i <= n,
            forall|k: int| 0 <= k < i ==> a@[k] == b@[k],
        decreases n - i,
    {
        if a.get_char(i) != b.get_char(i) {
            return false;
        }
        i = i + 1;
    }
    proof {
        assert(a@ =~= b@);
    }
    true
}

} // verus!
