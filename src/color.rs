//! Terminal colours for names, and the decorations that go with each kind of entry.

use vstd::prelude::*;
use colored::Colorize;

use crate::flags::Flag;
use crate::text::{push_char, visible, continues_sgr, lemma_visible_append, lemma_visible_plain};

verus! {

/// The colours a listing uses.
#[derive(Clone, Copy, Debug, PartialEq, Eq, Structural)]
pub enum Color {
    Red,
    Orange,
    Green,
    Blue,
    SkyBlue,
    Brown,
}

/// The SGR sequence `ESC [ codes m`.
pub open spec fn sgr(codes: Seq<char>) -> Seq<char> {
    seq!['\x1b', '['] + codes + seq!['m']
}

/// The SGR sequence that resets all attributes.
pub open spec fn reset_sgr() -> Seq<char> {
    sgr(seq!['0'])
}

/// `t` with `style` inserted after each reset sequence in it, so that an inner
/// reset does not end the outer style.
pub open spec fn restyle(t: Seq<char>, style: Seq<char>) -> Seq<char>
    decreases t.len(),
{
    if t.len() == 0 {
        t
    } else if t.len() >= 4 && t.take(4) == reset_sgr() {
        reset_sgr() + style + restyle(t.skip(4), style)
    } else {
        seq![t[0]] + restyle(t.skip(1), style)
    }
}

/// `r` is `text` wrapped in the style `codes`: the style, the text restyled after
/// its inner resets, and a reset.
pub open spec fn wrapped(r: Seq<char>, text: Seq<char>, codes: Seq<char>) -> bool {
    r == sgr(codes) + restyle(text, sgr(codes)) + reset_sgr()
}

/// One of the sixteen plain foreground codes, `30`–`37` and `90`–`97`.
pub open spec fn plain_fg_code(code: Seq<char>) -> bool {
    code.len() == 2 && (code[0] == '3' || code[0] == '9') && '0' <= code[1] && code[1] <= '7'
}

/// The foreground codes that may stand for `color`: the fixed code of a basic colour;
/// for a 24-bit colour its `38;2;r;g;b` code, or a plain code where the terminal is
/// not known to show 24-bit colour.
pub open spec fn fg_code(color: Color, code: Seq<char>) -> bool {
    match color {
        Color::Red => code == "31"@,
        Color::Green => code == "32"@,
        Color::Blue => code == "34"@,
        Color::Orange => code == "38;2;255;165;0"@ || plain_fg_code(code),
        Color::SkyBlue => code == "38;2;135;206;235"@ || plain_fg_code(code),
        Color::Brown => code == "38;2;156;109;71"@ || plain_fg_code(code),
    }
}

/// `r` is `text` as painted in `color` (bold when `bold`): unchanged when colouring
/// is off, else wrapped in that colour's style.
pub open spec fn painted(r: Seq<char>, text: Seq<char>, color: Color, bold: bool) -> bool {
    r == text || exists|code: Seq<char>|
        #[trigger] fg_code(color, code) && wrapped(
            r,
            text,
            if bold {
                seq!['1', ';'] + code
            } else {
                code
            },
        )
}

/// `r` is `text` on a black background: unchanged when colouring is off.
pub open spec fn on_black_painted(r: Seq<char>, text: Seq<char>) -> bool {
    r == text || wrapped(r, text, "40"@)
}

/// Relies on colored's `Colorize` methods and `ColoredString`'s `Display`
/// (`compute_style`, `escape_inner_reset_sequences`): with colouring off the text
/// comes back unchanged; else it is wrapped in the style (bold first, then the
/// colour's foreground code) with the style repeated after each inner reset. Either
/// way what a terminal shows is the text itself.
#[verifier::external_body]
pub fn colorize(text: &str, color: Color, bold: bool) -> (r: String)
    ensures
        painted(r@, text@, color, bold),
        visible(r@) == visible(text@),
{
    let result = match color {
        Color::Red => text.red(),
        Color::Green => text.green(),
        Color::Blue => text.blue(),
        Color::Orange => text.truecolor(255, 165, 0),
        Color::SkyBlue => text.truecolor(135, 206, 235),
        Color::Brown => text.truecolor(156, 109, 71),
    };
    if bold { result.bold().to_string() } else { result.to_string() }
}

/// Relies on colored's `on_black` and `ColoredString`'s `Display`: the text unchanged,
/// or wrapped in the black-background style `40` as for `colorize`.
#[verifier::external_body]
fn on_black(text: &str) -> (r: String)
    ensures
        on_black_painted(r@, text@),
        visible(r@) == visible(text@),
{
    text.on_black().to_string()
}

/// The classify suffix as a sequence: `c` when `on`, nothing otherwise.
pub open spec fn suffix_if(on: bool, c: char) -> Seq<char> {
    if on {
        seq![c]
    } else {
        Seq::empty()
    }
}

/// The colour of a symbolic link's name: red when its target is missing.
pub open spec fn symlink_color_spec(is_broken: bool) -> Color {
    if is_broken {
        Color::Red
    } else {
        Color::SkyBlue
    }
}

/// `r` is `name` painted bold in `color`, followed by `suffix`.
pub open spec fn painted_then(r: Seq<char>, name: Seq<char>, color: Color, suffix: Seq<char>) -> bool {
    exists|p: Seq<char>| #[trigger] painted(p, name, color, true) && r == p + suffix
}

/// `r` is `name` painted as a device node: bold brown, on black.
pub open spec fn device_painted(r: Seq<char>, name: Seq<char>) -> bool {
    exists|p: Seq<char>| #[trigger] painted(p, name, Color::Brown, true) && on_black_painted(r, p)
}

/// Appends `c` when `on`, keeping the visible text in step.
fn push_suffix(name: &mut String, on: bool, c: char)
    requires
        !continues_sgr(c),
        c != '\x1b',
    ensures
        final(name)@ == old(name)@ + suffix_if(on, c),
        visible(final(name)@) == visible(old(name)@) + suffix_if(on, c),
{
    if on {
        proof {
            lemma_visible_append(name@, seq![c]);
            lemma_visible_plain(seq![c]);
        }
        push_char(name, c);
        proof {
            assert(name@ =~= old(name)@ + seq![c]);
        }
    } else {
        proof {
            assert(name@ =~= old(name)@ + Seq::<char>::empty());
        }
    }
}

/// Paints a device node's name brown and bold on black.
pub fn colorize_device(file_name: &mut String, _flags: &Flag)
    ensures
        device_painted(final(file_name)@, old(file_name)@),
        visible(final(file_name)@) == visible(old(file_name)@),
{
    let styled = colorize(file_name.as_str(), Color::Brown, true);
    *file_name = on_black(styled.as_str());
}

/// Paints a name bold in `color`, and appends `c` when `on`.
pub(crate) fn paint_with_suffix(file_name: &mut String, color: Color, on: bool, c: char)
    requires
        !continues_sgr(c),
        c != '\x1b',
    ensures
        painted_then(final(file_name)@, old(file_name)@, color, suffix_if(on, c)),
        visible(final(file_name)@) == visible(old(file_name)@) + suffix_if(on, c),
{
    let p = colorize(file_name.as_str(), color, true);
    *file_name = p;
    push_suffix(file_name, on, c);
    proof {
        assert(painted(p@, old(file_name)@, color, true));
    }
}

/// Paints a directory's name blue and bold, and appends `/` under `-F`.
pub fn colorize_dir(file_name: &mut String, flags: &Flag)
    ensures
        painted_then(final(file_name)@, old(file_name)@, Color::Blue, suffix_if(flags.f, '/')),
        visible(final(file_name)@) == visible(old(file_name)@) + suffix_if(flags.f, '/'),
{
    paint_with_suffix(file_name, Color::Blue, flags.f, '/');
}

/// Paints an executable's name green and bold, and appends `*` under `-F`.
pub fn colorize_executable(file_name: &mut String, flags: &Flag)
    ensures
        painted_then(final(file_name)@, old(file_name)@, Color::Green, suffix_if(flags.f, '*')),
        visible(final(file_name)@) == visible(old(file_name)@) + suffix_if(flags.f, '*'),
{
    paint_with_suffix(file_name, Color::Green, flags.f, '*');
}

/// The colour for a symbolic link's name.
pub fn symlink_color(is_broken: bool) -> (c: Color)
    ensures
        c == symlink_color_spec(is_broken),
{
    if is_broken {
        Color::Red
    } else {
        Color::SkyBlue
    }
}

/// Paints a symbolic link's name (red when broken, sky blue otherwise), and
/// appends `@` under `-F` in the short form.
pub fn colorize_symlink(file_name: &mut String, is_broken: bool, flags: &Flag)
    ensures
        painted_then(
            final(file_name)@,
            old(file_name)@,
            symlink_color_spec(is_broken),
            suffix_if(flags.f && !flags.l, '@'),
        ),
        visible(final(file_name)@) == visible(old(file_name)@) + suffix_if(
            flags.f && !flags.l,
            '@',
        ),
{
    let color = symlink_color(is_broken);
    paint_with_suffix(file_name, color, flags.f && !flags.l, '@');
}

} // verus!
