//! Display names: quoting of unsafe names, and decoration by entry kind (colour,
//! classify suffix, and the target of a symbolic link in the long form).

use vstd::prelude::*;

use crate::color::{
    colorize, colorize_device, colorize_dir, colorize_executable, colorize_symlink, device_painted,
    paint_with_suffix, painted, painted_then, suffix_if, symlink_color_spec, Color,
};
use crate::flags::Flag;
use crate::meta::{EntryMeta, FileKind};
use crate::text::{
    push_char, push_str, visible, lemma_visible_append, lemma_visible_plain,
    lemma_visible_plain_prefix,
};

verus! {

/// Characters that make a name unsafe to paste into a shell unquoted.
pub open spec fn is_unsafe_char(c: char) -> bool {
    c == ' ' || c == '\t' || c == '\n' || c == '\'' || c == '"' || c == '$' || c == '`' || c
        == '\\' || c == '!' || c == '*' || c == '?' || c == '&' || c == ';' || c == '|' || c
        == '<' || c == '>' || c == '(' || c == ')' || c == '[' || c == ']' || c == '{' || c
        == '}' || c == '~' || c == '#'
}

/// Whether `s` holds an unsafe character.
pub open spec fn needs_quotes(s: Seq<char>) -> bool {
    exists|i: int| 0 <= i < s.len() && is_unsafe_char(s[i])
}

/// `s` wrapped in single quotes when it needs quoting, in double quotes when it
/// also holds a single quote, and `s` itself otherwise.
pub open spec fn quoted(s: Seq<char>) -> Seq<char> {
    if needs_quotes(s) {
        let q = if s.contains('\'') {
            '"'
        } else {
            '\''
        };
        seq![q] + s + seq![q]
    } else {
        s
    }
}

fn unsafe_char(c: char) -> (r: bool)
    ensures
        r == is_unsafe_char(c),
{
    c == ' ' || c == '\t' || c == '\n' || c == '\'' || c == '"' || c == '$' || c == '`' || c
        == '\\' || c == '!' || c == '*' || c == '?' || c == '&' || c == ';' || c == '|' || c
        == '<' || c == '>' || c == '(' || c == ')' || c == '[' || c == ']' || c == '{' || c
        == '}' || c == '~' || c == '#'
}

/// Quotes `name` when it holds a character a shell would interpret.
pub fn quote_if_needed(name: &mut String)
    ensures
        final(name)@ == quoted(old(name)@),
{
    let n = name.as_str().unicode_len();
    let mut i: usize = 0;
    let mut unsafe_found = false;
    let mut has_single = false;
    while i < n
        invariant
            n == name@.len(),
            i <= n,
            unsafe_found == exists|k: int| 0 <= k < i && is_unsafe_char(name@[k]),
            has_single == exists|k: int| 0 <= k < i && name@[k] == '\'',
        decreases n - i,
    {
        let c = name.as_str().get_char(i);
        if unsafe_char(c) {
            unsafe_found = true;
        }
        if c == '\'' {
            has_single = true;
        }
        proof {
            if unsafe_found && !is_unsafe_char(c) {
                let k = choose|k: int| 0 <= k < i && is_unsafe_char(name@[k]);
                assert(0 <= k < i + 1 && is_unsafe_char(name@[k]));
            }
            if has_single && c != '\'' {
                let k = choose|k: int| 0 <= k < i && name@[k] == '\'';
                assert(0 <= k < i + 1 && name@[k] == '\'');
            }
        }
        i = i + 1;
    }
    proof {
        if has_single {
            let k = choose|k: int| 0 <= k < n && name@[k] == '\'';
            assert(name@.contains('\''));
        }
        if name@.contains('\'') {
            let k = choose|k: int| 0 <= k < name@.len() && name@[k] == '\'';
            assert(0 <= k < n && name@[k] == '\'');
        }
    }
    if unsafe_found {
        let q = if has_single {
            '"'
        } else {
            '\''
        };
        let mut s = String::new();
        push_char(&mut s, q);
        push_str(&mut s, name.as_str());
        push_char(&mut s, q);
        proof {
            assert(s@ =~= seq![q] + old(name)@ + seq![q]);
        }
        *name = s;
    }
}

/// Whether any execute bit is set.
pub open spec fn is_exec_mode(mode: u32) -> bool {
    mode & 0o111 != 0
}

/// Whether any of the user, group or other execute bits is set.
pub fn is_executable(mode: u32) -> (r: bool)
    ensures
        r == is_exec_mode(mode),
{
    mode & 0o111 != 0
}

/// The classify suffix of an entry that is not followed as a link.
pub open spec fn kind_suffix(kind: FileKind, mode: u32, flags: Flag) -> Seq<char> {
    match kind {
        FileKind::Directory => suffix_if(flags.f, '/'),
        FileKind::Symlink => suffix_if(flags.f && !flags.l, '@'),
        FileKind::Regular => if is_exec_mode(mode) {
            suffix_if(flags.f, '*')
        } else {
            Seq::empty()
        },
        _ => Seq::empty(),
    }
}

/// Whether an entry is a character or block device.
pub open spec fn is_device_kind(kind: FileKind) -> bool {
    kind == FileKind::CharDevice || kind == FileKind::BlockDevice
}

/// The colour a name is painted in, by the kind of what it names: directories blue,
/// links red when broken and sky blue otherwise, devices brown, executable regular
/// files green, and nothing else painted.
pub open spec fn kind_color(kind: FileKind, mode: u32, broken: bool) -> Option<Color> {
    match kind {
        FileKind::Directory => Some(Color::Blue),
        FileKind::Symlink => Some(symlink_color_spec(broken)),
        FileKind::CharDevice | FileKind::BlockDevice => Some(Color::Brown),
        FileKind::Regular => if is_exec_mode(mode) {
            Some(Color::Green)
        } else {
            None
        },
        _ => None,
    }
}

/// The colour an entry's name is painted in.
pub open spec fn name_color_spec(metadata: EntryMeta) -> Option<Color> {
    kind_color(metadata.kind, metadata.mode, metadata.broken)
}

/// The colour an entry's name is painted in, if any.
pub fn name_color(metadata: &EntryMeta) -> (r: Option<Color>)
    ensures
        r == name_color_spec(*metadata),
{
    match metadata.kind {
        FileKind::Directory => Some(Color::Blue),
        FileKind::Symlink => Some(crate::color::symlink_color(metadata.broken)),
        FileKind::CharDevice | FileKind::BlockDevice => Some(Color::Brown),
        FileKind::Regular => if is_executable(metadata.mode) {
            Some(Color::Green)
        } else {
            None
        },
        _ => None,
    }
}

/// `r` is `name` decorated by the kind of what it names, not followed as a link:
/// painted in the kind's colour (a device also on black) with the classify suffix,
/// or left exactly as it is with no colour.
pub open spec fn kind_shown(r: Seq<char>, name: Seq<char>, kind: FileKind, mode: u32, flags: Flag) -> bool {
    match kind_color(kind, mode, false) {
        None => r == name + kind_suffix(kind, mode, flags),
        Some(c) => if is_device_kind(kind) {
            device_painted(r, name)
        } else {
            painted_then(r, name, c, kind_suffix(kind, mode, flags))
        },
    }
}

/// `t` is what follows ` -> ` for a symbolic link in the long form: `invalid symlink`
/// in red when the link cannot be read; the target in red when it is missing; a
/// target that is itself a link as it is; any other target decorated by its kind.
pub open spec fn target_shown(t: Seq<char>, metadata: EntryMeta, flags: Flag) -> bool {
    match metadata.link {
        None => painted(t, "invalid symlink"@, Color::Red, true),
        Some(lt) => if metadata.broken {
            painted_then(t, lt.text@, Color::Red, Seq::empty())
        } else if lt.kind == FileKind::Symlink {
            t == lt.text@
        } else {
            kind_shown(t, lt.text@, lt.kind, lt.mode, flags)
        },
    }
}

/// `r` is `name` decorated for the entry `metadata` describes: painted in
/// `name_color_spec`, with the classify suffix, a device on black, and in the long
/// form a link followed by ` -> ` and its target; a name with no colour stays
/// exactly as it is.
pub open spec fn decorated(r: Seq<char>, name: Seq<char>, metadata: EntryMeta, flags: Flag) -> bool {
    match name_color_spec(metadata) {
        None => r == name + kind_suffix(metadata.kind, metadata.mode, flags),
        Some(c) => if is_device_kind(metadata.kind) {
            device_painted(r, name)
        } else if metadata.kind == FileKind::Symlink && flags.l {
            exists|p: Seq<char>, t: Seq<char>|
                #![trigger painted(p, name, c, true), target_shown(t, metadata, flags)]
                painted(p, name, c, true) && target_shown(t, metadata, flags) && r == p + " -> "@
                    + t
        } else {
            painted_then(r, name, c, kind_suffix(metadata.kind, metadata.mode, flags))
        },
    }
}

/// What a terminal shows after ` -> ` for a symbolic link in the long form.
pub open spec fn target_text(metadata: EntryMeta, flags: Flag) -> Seq<char> {
    match metadata.link {
        None => "invalid symlink"@,
        Some(t) => if metadata.broken || t.kind == FileKind::Symlink {
            visible(t.text@)
        } else {
            visible(t.text@) + kind_suffix(t.kind, t.mode, flags)
        },
    }
}

/// What a terminal shows for a decorated name.
pub open spec fn decorated_text(name: Seq<char>, metadata: EntryMeta, flags: Flag) -> Seq<char> {
    if metadata.kind == FileKind::Symlink && flags.l {
        visible(name) + kind_suffix(metadata.kind, metadata.mode, flags) + " -> "@ + target_text(
            metadata,
            flags,
        )
    } else {
        visible(name) + kind_suffix(metadata.kind, metadata.mode, flags)
    }
}

/// Decorates a name by the kind of what it names, without following a link.
fn decorate_kind(kind: FileKind, mode: u32, file_name: &mut String, flags: &Flag)
    requires
        kind != FileKind::Symlink,
    ensures
        kind_shown(final(file_name)@, old(file_name)@, kind, mode, *flags),
        visible(final(file_name)@) == visible(old(file_name)@) + kind_suffix(kind, mode, *flags),
{
    match kind {
        FileKind::Directory => colorize_dir(file_name, flags),
        FileKind::CharDevice | FileKind::BlockDevice => {
            colorize_device(file_name, flags);
            proof {
                assert(visible(old(file_name)@) + Seq::<char>::empty() =~= visible(
                    old(file_name)@,
                ));
            }
        },
        FileKind::Regular => {
            if is_executable(mode) {
                colorize_executable(file_name, flags);
            } else {
                proof {
                    assert(file_name@ =~= old(file_name)@ + Seq::<char>::empty());
                    assert(visible(old(file_name)@) + Seq::<char>::empty() =~= visible(
                        old(file_name)@,
                    ));
                }
            }
        },
        _ => {
            proof {
                assert(file_name@ =~= old(file_name)@ + Seq::<char>::empty());
                assert(visible(old(file_name)@) + Seq::<char>::empty() =~= visible(
                    old(file_name)@,
                ));
            }
        },
    }
}

/// Appends ` -> ` and a decorated target to a name.
fn push_arrow(file_name: &mut String, target: &str)
    ensures
        final(file_name)@ == old(file_name)@ + " -> "@ + target@,
        visible(final(file_name)@) == visible(old(file_name)@) + " -> "@ + visible(target@),
{
    let arrow = " -> ";
    proof {
        reveal_strlit(" -> ");
        lemma_visible_append(old(file_name)@, arrow@ + target@);
        lemma_visible_plain_prefix(arrow@, target@);
        assert(old(file_name)@ + (arrow@ + target@) =~= old(file_name)@ + arrow@ + target@);
    }
    push_str(file_name, arrow);
    push_str(file_name, target);
}

/// Decorates a symbolic link's name; in the long form the target follows, itself
/// decorated by its kind but never followed further.
fn format_symlink(metadata: &EntryMeta, file_name: &mut String, flags: &Flag)
    requires
        metadata.kind == FileKind::Symlink,
    ensures
        decorated(final(file_name)@, old(file_name)@, *metadata, *flags),
        visible(final(file_name)@) == decorated_text(old(file_name)@, *metadata, *flags),
{
    colorize_symlink(file_name, metadata.broken, flags);
    if flags.l {
        let ghost named = file_name@;
        proof {
            let p = choose|p: Seq<char>|
                #[trigger] painted(p, old(file_name)@, symlink_color_spec(metadata.broken), true)
                    && named == p + suffix_if(flags.f && !flags.l, '@');
            assert(named =~= p);
        }
        match &metadata.link {
            Some(t) => {
                let mut target_str = t.text.clone();
                if metadata.broken {
                    colorize_symlink(&mut target_str, true, flags);
                    proof {
                        assert(visible(t.text@) + suffix_if(false, '@') =~= visible(t.text@));
                    }
                } else if t.kind != FileKind::Symlink {
                    decorate_kind(t.kind, t.mode, &mut target_str, flags);
                }
                proof {
                    assert(target_shown(target_str@, *metadata, *flags));
                }
                push_arrow(file_name, target_str.as_str());
                proof {
                    assert(painted(named, old(file_name)@, symlink_color_spec(metadata.broken), true));
                }
            },
            None => {
                let msg = "invalid symlink";
                let shown = colorize(msg, Color::Red, true);
                proof {
                    reveal_strlit("invalid symlink");
                    lemma_visible_plain(msg@);
                }
                push_arrow(file_name, shown.as_str());
                proof {
                    assert(painted(named, old(file_name)@, symlink_color_spec(metadata.broken), true));
                    assert(target_shown(shown@, *metadata, *flags));
                }
            },
        }
    }
}

/// In the long form a symbolic link that cannot be read shows as its name,
/// ` -> ` and `invalid symlink`, with no classify suffix; when the link is broken
/// both the name and `invalid symlink` are painted red, the broken-link colour.
pub proof fn lemma_unreadable_link(name: Seq<char>, metadata: EntryMeta, flags: Flag)
    requires
        metadata.kind == FileKind::Symlink,
        metadata.link is None,
        flags.l,
    ensures
        decorated_text(name, metadata, flags) == visible(name) + " -> "@ + "invalid symlink"@,
        forall|r: Seq<char>|
            #[trigger] decorated(r, name, metadata, flags) && metadata.broken ==> exists|
                p: Seq<char>,
                t: Seq<char>,
            |
                #![trigger painted(p, name, Color::Red, true), painted(t, "invalid symlink"@, Color::Red, true)]
                painted(p, name, Color::Red, true) && painted(t, "invalid symlink"@, Color::Red, true)
                    && r == p + " -> "@ + t,
{
    assert(visible(name) + Seq::<char>::empty() =~= visible(name));
    assert forall|r: Seq<char>| #[trigger] decorated(r, name, metadata, flags) && metadata.broken implies exists|
        p: Seq<char>,
        t: Seq<char>,
    |
        #![trigger painted(p, name, Color::Red, true), painted(t, "invalid symlink"@, Color::Red, true)]
        painted(p, name, Color::Red, true) && painted(t, "invalid symlink"@, Color::Red, true) && r
            == p + " -> "@ + t by {
        let (p, t) = choose|p: Seq<char>, t: Seq<char>|
            #![trigger painted(p, name, Color::Red, true), target_shown(t, metadata, flags)]
            painted(p, name, Color::Red, true) && target_shown(t, metadata, flags) && r == p
                + " -> "@ + t;
        assert(painted(t, "invalid symlink"@, Color::Red, true));
    }
}

/// Decorates `file_name` for the entry `metadata` describes: colour by kind, the
/// classify suffix under `-F`, and a link's target in the long form.
pub fn format_path(metadata: &EntryMeta, file_name: &mut String, flags: &Flag)
    ensures
        decorated(final(file_name)@, old(file_name)@, *metadata, *flags),
        name_color_spec(*metadata) is None ==> final(file_name)@ == old(file_name)@ + kind_suffix(
            metadata.kind,
            metadata.mode,
            *flags,
        ),
        visible(final(file_name)@) == decorated_text(old(file_name)@, *metadata, *flags),
{
    match name_color(metadata) {
        None => {
            proof {
                assert(file_name@ =~= old(file_name)@ + kind_suffix(
                    metadata.kind,
                    metadata.mode,
                    *flags,
                ));
                assert(visible(old(file_name)@) + Seq::<char>::empty() =~= visible(
                    old(file_name)@,
                ));
            }
        },
        Some(color) => {
            if metadata.kind == FileKind::Symlink {
                format_symlink(metadata, file_name, flags);
            } else if metadata.kind == FileKind::CharDevice || metadata.kind
                == FileKind::BlockDevice {
                colorize_device(file_name, flags);
                proof {
                    assert(visible(old(file_name)@) + Seq::<char>::empty() =~= visible(
                        old(file_name)@,
                    ));
                }
            } else {
                let mark = if metadata.kind == FileKind::Directory {
                    '/'
                } else {
                    '*'
                };
                paint_with_suffix(file_name, color, flags.f, mark);
            }
        },
    }
}

} // verus!
