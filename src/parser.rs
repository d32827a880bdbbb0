//! Splitting a command line into words: spaces separate words, single quotes
//! keep everything literally, double quotes keep everything but `\\`, and a
//! backslash outside quotes takes the next character literally.

use vstd::prelude::*;

use crate::error::ShellError;
use crate::text::{push_char, trim_ws, trimmed};

verus! {

/// Where the scanner stands with respect to quotes.
#[derive(Clone, Copy, Debug, PartialEq, Eq, Structural)]
pub enum ParseState {
    Normal,
    SingleQuote,
    DoubleQuote,
}

/// The words of `s` from index `i` on, given the state, the word being built and
/// the words already ended; `None` when a quote is left open.
pub open spec fn lex(
    s: Seq<char>,
    i: int,
    st: ParseState,
    cur: Seq<char>,
    words: Seq<Seq<char>>,
) -> Option<Seq<Seq<char>>>
    decreases s.len() - i,
{
    if i >= s.len() || i < 0 {
        match st {
            ParseState::Normal => Some(
                if cur.len() > 0 {
                    words.push(cur)
                } else {
                    words
                },
            ),
            _ => None,
        }
    } else {
        let c = s[i];
        match st {
            ParseState::Normal => if c == ' ' {
                if cur.len() > 0 {
                    lex(s, i + 1, st, Seq::empty(), words.push(cur))
                } else {
                    lex(s, i + 1, st, cur, words)
                }
            } else if c == '\'' {
                lex(s, i + 1, ParseState::SingleQuote, cur, words)
            } else if c == '"' {
                lex(s, i + 1, ParseState::DoubleQuote, cur, words)
            } else if c == '\\' {
                if i + 1 < s.len() {
                    lex(s, i + 2, st, cur.push(s[i + 1]), words)
                } else {
                    lex(s, i + 1, st, cur, words)
                }
            } else {
                lex(s, i + 1, st, cur.push(c), words)
            },
            ParseState::SingleQuote => if c == '\'' {
                lex(s, i + 1, ParseState::Normal, cur, words)
            } else {
                lex(s, i + 1, st, cur.push(c), words)
            },
            ParseState::DoubleQuote => if c == '"' {
                lex(s, i + 1, ParseState::Normal, cur, words)
            } else if c == '\\' {
                if i + 1 < s.len() {
                    if s[i + 1] == '\\' {
                        lex(s, i + 2, st, cur.push('\\'), words)
                    } else {
                        lex(s, i + 2, st, cur.push('\\').push(s[i + 1]), words)
                    }
                } else {
                    lex(s, i + 1, st, cur.push('\\'), words)
                }
            } else {
                lex(s, i + 1, st, cur.push(c), words)
            },
        }
    }
}

/// The words of a command line, or `None` when a quote is left open.
pub open spec fn words_of(s: Seq<char>) -> Option<Seq<Seq<char>>> {
    lex(s, 0, ParseState::Normal, Seq::empty(), Seq::empty())
}

/// The message for a quote left open.
pub open spec fn unclosed_text() -> Seq<char> {
    "unclosed quote"@
}

/// The views of a sequence of strings.
pub open spec fn string_views(v: Seq<String>) -> Seq<Seq<char>> {
    v.map_values(|s: String| s@)
}

/// The words of a command line; an open quote is an error.
pub fn parse(input: &str) -> (r: Result<Vec<String>, ShellError>)
    ensures
        match words_of(input@) {
            Some(w) => r matches Ok(v) && string_views(v@) == w,
            None => r matches Err(ShellError::Other(m)) && m@ == unclosed_text(),
        },
{
    let n = input.unicode_len();
    let mut result: Vec<String> = Vec::new();
    let mut current_word = String::new();
    let mut state = ParseState::Normal;
    let mut i: usize = 0;
    proof {
        assert(string_views(result@) =~= Seq::<Seq<char>>::empty());
    }
    while i < n
        invariant
            n == input@.len(),
            i <= n,
            words_of(input@) == lex(input@, i as int, state, current_word@, string_views(result@)),
        decreases n - i,
    {
        let ch = input.get_char(i);
        let ghost words = string_views(result@);
        match state {
            ParseState::Normal => {
                if ch == ' ' {
                    if current_word.as_str().unicode_len() > 0 {
                        result.push(current_word);
                        current_word = String::new();
                        proof {
                            assert(string_views(result@) =~= words.push(
                                result@[result@.len() - 1]@,
                            ));
                        }
                    }
                    i = i + 1;
                } else if ch == '\'' {
                    state = ParseState::SingleQuote;
                    i = i + 1;
                } else if ch == '"' {
                    state = ParseState::DoubleQuote;
                    i = i + 1;
                } else if ch == '\\' {
                    if i + 1 < n {
                        let next_ch = input.get_char(i + 1);
                        push_char(&mut current_word, next_ch);
                        i = i + 2;
                    } else {
                        i = i + 1;
                    }
                } else {
                    push_char(&mut current_word, ch);
                    i = i + 1;
                }
            },
            ParseState::SingleQuote => {
                if ch == '\'' {
                    state = ParseState::Normal;
                } else {
                    push_char(&mut current_word, ch);
                }
                i = i + 1;
            },
            ParseState::DoubleQuote => {
                if ch == '"' {
                    state = ParseState::Normal;
                    i = i + 1;
                } else if ch == '\\' {
                    if i + 1 < n {
                        let next_ch = input.get_char(i + 1);
                        if next_ch == '\\' {
                            push_char(&mut current_word, ch);
                        } else {
                            push_char(&mut current_word, '\\');
                            push_char(&mut current_word, next_ch);
                        }
                        i = i + 2;
                    } else {
                        push_char(&mut current_word, '\\');
                        i = i + 1;
                    }
                } else {
                    push_char(&mut current_word, ch);
                    i = i + 1;
                }
            },
        }
    }
    match state {
        ParseState::Normal => {
            if current_word.as_str().unicode_len() > 0 {
                let ghost words = string_views(result@);
                result.push(current_word);
                proof {
                    assert(string_views(result@) =~= words.push(result@[result@.len() - 1]@));
                }
            }
            Ok(result)
        },
        _ => {
            let msg = "unclosed quote".to_string();
            proof {
                reveal_strlit("unclosed quote");
            }
            Err(ShellError::Other(msg))
        },
    }
}

/// What a command line asks for: nothing for a blank line, a backtick error, the
/// error of an open quote, or the command word and its arguments.
pub open spec fn command_of(input: Seq<char>) -> Option<Result<(Seq<char>, Seq<Seq<char>>), ()>> {
    let t = trimmed(input);
    if t.len() == 0 {
        Some(Ok((Seq::empty(), Seq::empty())))
    } else if t.contains('`') {
        Some(Err(()))
    } else {
        match words_of(t) {
            None => None,
            Some(w) => Some(
                Ok(
                    if w.len() == 0 {
                        (Seq::empty(), Seq::empty())
                    } else {
                        (w[0], w.skip(1))
                    },
                ),
            ),
        }
    }
}

/// Whether `c` occurs in `s`.
fn has_char(s: &str, c: char) -> (r: bool)
    ensures
        r == s@.contains(c),
{
    let n = s.unicode_len();
    let mut i: usize = 0;
    while i < n
        invariant
            n == s@.len(),
            i <= n,
            forall|k: int| 0 <= k < i ==> s@[k] != c,
        decreases n - i,
    {
        if s.get_char(i) == c {
            return true;
        }
        i = i + 1;
    }
    false
}

/// Splits a command line into the command and its arguments. A blank line gives an
/// empty command; a backtick is refused; an open quote is an error.
pub fn parse_command(input: String) -> (r: Result<(String, Vec<String>), ShellError>)
    ensures
        match command_of(input@) {
            None => r matches Err(ShellError::Other(m)) && m@ == unclosed_text(),
            Some(Err(_)) => r == Err::<(String, Vec<String>), ShellError>(ShellError::Backticks),
            Some(Ok((cmd, args))) => r matches Ok((c, a)) && c@ == cmd && string_views(a@) == args,
        },
{
    let input = trim_ws(input.as_str());
    if input.as_str().unicode_len() == 0 {
        let none: Vec<String> = Vec::new();
        proof {
            assert(string_views(none@) =~= Seq::<Seq<char>>::empty());
        }
        return Ok((String::new(), none));
    }
    if has_char(input.as_str(), '`') {
        return Err(ShellError::Backticks);
    }
    let parts = match parse(input.as_str()) {
        Ok(p) => p,
        Err(e) => {
            return Err(e);
        },
    };
    if parts.len() == 0 {
        let none: Vec<String> = Vec::new();
        proof {
            assert(string_views(none@) =~= Seq::<Seq<char>>::empty());
        }
        return Ok((String::new(), none));
    }
    let cmd = parts[0].clone();
    let mut args: Vec<String> = Vec::new();
    let mut i: usize = 1;
    while i < parts.len()
        invariant
            1 <= i <= parts@.len(),
            string_views(args@) == string_views(parts@).subrange(1, i as int),
        decreases parts@.len() - i,
    {
        let ghost before = args@;
        args.push(parts[i].clone());
        proof {
            assert(string_views(args@) =~= string_views(before).push(parts@[i as int]@));
            assert(string_views(args@) =~= string_views(parts@).subrange(1, i + 1));
        }
        i = i + 1;
    }
    proof {
        assert(string_views(parts@).subrange(1, parts@.len() as int) =~= string_views(parts@).skip(1));
    }
    Ok((cmd, args))
}

} // verus!
