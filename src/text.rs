//! Character-level helpers shared by the listing code: appending characters,
//! decimal rendering, padding, and the visible text of a styled string.

use vstd::prelude::*;
use vstd::string::StringExecFns;

verus! {

/// Appends one character; relies on `String::push`.
#[verifier::external_body]
pub(crate) fn push_char(s: &mut String, c: char)
    ensures
        final(s)@ == old(s)@.push(c),
{
    s.push(c)
}

/// Appends a string slice.
pub(crate) fn push_str(s: &mut String, t: &str)
    ensures
        final(s)@ == old(s)@ + t@,
{
    s.append(t);
}

/// The decimal digit for `d < 10`.
pub open spec fn digit_char(d: nat) -> char {
    if d < 10 {
        (('0' as u8) + (d as u8)) as char
    } else {
        '0'
    }
}

/// Decimal rendering of a natural number, without leading zeros.
pub open spec fn decimal(n: nat) -> Seq<char>
    decreases n,
{
    if n < 10 {
        seq![digit_char(n)]
    } else {
        decimal(n / 10).push(digit_char(n % 10))
    }
}

/// Decimal rendering of `n`.
pub fn decimal_string(n: u64) -> (r: String)
    ensures
        r@ == decimal(n as nat),
    decreases n,
{
    let d = (n % 10) as u8;
    let c = (('0' as u8) + d) as char;
    if n < 10 {
        let mut s = String::new();
        push_char(&mut s, c);
        proof {
            assert(s@ =~= seq![digit_char(n as nat)]);
        }
        s
    } else {
        let mut s = decimal_string(n / 10);
        push_char(&mut s, c);
        s
    }
}

/// `n` space characters.
pub open spec fn spaces(n: nat) -> Seq<char> {
    Seq::new(n, |i: int| ' ')
}

/// Appends `n` spaces.
pub(crate) fn push_spaces(s: &mut String, n: usize)
    ensures
        final(s)@ == old(s)@ + spaces(n as nat),
{
    let mut i: usize = 0;
    while i < n
        invariant
            i <= n,
            s@ == old(s)@ + spaces(i as nat),
        decreases n - i,
    {
        push_char(s, ' ');
        i = i + 1;
        proof {
            assert(s@ =~= old(s)@ + spaces(i as nat));
        }
    }
}

/// A character that may stand inside the parameter list of an SGR sequence.
pub open spec fn is_sgr_param(c: char) -> bool {
    ('0' <= c && c <= '9') || c == ';'
}

/// How many parameter characters follow, in `s`, from index `i` on.
pub open spec fn param_run(s: Seq<char>, i: int) -> nat
    decreases s.len() - i,
{
    if 0 <= i < s.len() && is_sgr_param(s[i]) {
        1 + param_run(s, i + 1)
    } else {
        0
    }
}

/// Length of the SGR escape sequence (`ESC [ params m`) that starts `s`, or 0
/// when `s` does not start with one.
pub open spec fn sgr_len(s: Seq<char>) -> nat {
    if s.len() >= 2 && s[0] == '\x1b' && s[1] == '[' && 2 + param_run(s, 2) < s.len() && s[2
        + param_run(s, 2) as int] == 'm' {
        3 + param_run(s, 2)
    } else {
        0
    }
}

/// The text a terminal shows for `s`: every SGR escape sequence removed, scanning
/// from the left without overlap.
pub open spec fn visible(s: Seq<char>) -> Seq<char>
    decreases s.len(),
{
    if s.len() == 0 {
        s
    } else if sgr_len(s) > 0 {
        visible(s.skip(sgr_len(s) as int))
    } else {
        seq![s[0]] + visible(s.skip(1))
    }
}

/// A character that can extend or complete an escape sequence left open before it.
pub open spec fn continues_sgr(c: char) -> bool {
    is_sgr_param(c) || c == 'm' || c == '['
}

/// Text that cannot complete an escape sequence left open at the end of what precedes it.
pub open spec fn separable(b: Seq<char>) -> bool {
    b.len() == 0 || !continues_sgr(b[0])
}

proof fn lemma_param_run_bound(s: Seq<char>, i: int)
    requires
        0 <= i <= s.len(),
    ensures
        i + param_run(s, i) <= s.len(),
    decreases s.len() - i,
{
    if i < s.len() && is_sgr_param(s[i]) {
        lemma_param_run_bound(s, i + 1);
    }
}

proof fn lemma_param_run_append(a: Seq<char>, b: Seq<char>, i: int)
    requires
        0 <= i <= a.len(),
        separable(b),
    ensures
        param_run(a + b, i) == param_run(a, i),
    decreases a.len() - i,
{
    if i < a.len() {
        assert((a + b)[i] == a[i]);
        if is_sgr_param(a[i]) {
            lemma_param_run_append(a, b, i + 1);
        }
    } else if b.len() > 0 {
        assert((a + b)[i] == b[0]);
    }
}

/// Removing escape sequences distributes over a concatenation whose second part
/// cannot complete a sequence left open by the first.
pub proof fn lemma_visible_append(a: Seq<char>, b: Seq<char>)
    requires
        separable(b),
    ensures
        visible(a + b) == visible(a) + visible(b),
    decreases a.len(),
{
    if a.len() == 0 {
        assert(a + b =~= b);
    } else {
        let ab = a + b;
        if a.len() >= 2 {
            lemma_param_run_append(a, b, 2);
            lemma_param_run_bound(a, 2);
            assert(ab[0] == a[0] && ab[1] == a[1]);
            let k = 2 + param_run(a, 2) as int;
            if k < a.len() {
                assert(ab[k] == a[k]);
            } else if b.len() > 0 {
                assert(ab[k] == b[0]);
            }
        } else if b.len() > 0 {
            assert(ab[1] == b[0]);
        }
        assert(sgr_len(ab) == sgr_len(a));
        let n = sgr_len(a) as int;
        if n > 0 {
            assert(ab.skip(n) =~= a.skip(n) + b);
            lemma_visible_append(a.skip(n), b);
        } else {
            assert(ab.skip(1) =~= a.skip(1) + b);
            lemma_visible_append(a.skip(1), b);
            assert(ab[0] == a[0]);
        }
    }
}

/// Text without an escape character is its own visible text.
pub proof fn lemma_visible_plain(s: Seq<char>)
    requires
        forall|i: int| 0 <= i < s.len() ==> s[i] != '\x1b',
    ensures
        visible(s) == s,
    decreases s.len(),
{
    if s.len() > 0 {
        lemma_visible_plain(s.skip(1));
        assert(s =~= seq![s[0]] + s.skip(1));
    }
}

/// Text without an escape character in front passes through unchanged.
pub proof fn lemma_visible_plain_prefix(a: Seq<char>, b: Seq<char>)
    requires
        forall|i: int| 0 <= i < a.len() ==> a[i] != '\x1b',
    ensures
        visible(a + b) == a + visible(b),
    decreases a.len(),
{
    if a.len() > 0 {
        let ab = a + b;
        assert(ab[0] == a[0]);
        assert(ab.skip(1) =~= a.skip(1) + b);
        lemma_visible_plain_prefix(a.skip(1), b);
        assert(a =~= seq![a[0]] + a.skip(1));
    } else {
        assert(a + b =~= b);
    }
}

/// Whether `s` holds no escape character.
pub open spec fn no_escape(s: Seq<char>) -> bool {
    forall|i: int| 0 <= i < s.len() ==> s[i] != '\x1b'
}

/// A character `str::trim` removes: Unicode `White_Space`.
pub open spec fn is_ws(c: char) -> bool {
    c == '\t' || c == '\n' || c == '\x0B' || c == '\x0C' || c == '\r' || c == ' ' || c
        == '\u{85}' || c == '\u{A0}' || c == '\u{1680}' || ('\u{2000}' <= c && c <= '\u{200A}')
        || c == '\u{2028}' || c == '\u{2029}' || c == '\u{202F}' || c == '\u{205F}' || c
        == '\u{3000}'
}

fn whitespace(c: char) -> (r: bool)
    ensures
        r == is_ws(c),
{
    c == '\t' || c == '\n' || c == '\x0B' || c == '\x0C' || c == '\r' || c == ' ' || c
        == '\u{85}' || c == '\u{A0}' || c == '\u{1680}' || ('\u{2000}' <= c && c <= '\u{200A}')
        || c == '\u{2028}' || c == '\u{2029}' || c == '\u{202F}' || c == '\u{205F}' || c
        == '\u{3000}'
}

/// `s` without leading white space.
pub open spec fn trim_start(s: Seq<char>) -> Seq<char>
    decreases s.len(),
{
    if s.len() > 0 && is_ws(s[0]) {
        trim_start(s.skip(1))
    } else {
        s
    }
}

/// `s` without trailing white space.
pub open spec fn trim_end(s: Seq<char>) -> Seq<char>
    decreases s.len(),
{
    if s.len() > 0 && is_ws(s.last()) {
        trim_end(s.drop_last())
    } else {
        s
    }
}

/// `s` without leading or trailing white space.
pub open spec fn trimmed(s: Seq<char>) -> Seq<char> {
    trim_end(trim_start(s))
}

/// `s` with white space trimmed from both ends.
pub fn trim_ws(s: &str) -> (r: String)
    ensures
        r@ == trimmed(s@),
{
    let n = s.unicode_len();
    let mut i: usize = 0;
    proof {
        assert(s@.skip(0) =~= s@);
    }
    while i < n && whitespace(s.get_char(i))
        invariant
            n == s@.len(),
            i <= n,
            trim_start(s@) == trim_start(s@.skip(i as int)),
        decreases n - i,
    {
        proof {
            assert(s@.skip(i as int).skip(1) =~= s@.skip(i + 1));
        }
        i = i + 1;
    }
    let mut j: usize = n;
    proof {
        assert(trim_start(s@.skip(i as int)) == s@.skip(i as int));
        assert(s@.subrange(i as int, j as int) =~= s@.skip(i as int));
    }
    while j > i && whitespace(s.get_char(j - 1))
        invariant
            n == s@.len(),
            i <= j <= n,
            trimmed(s@) == trim_end(s@.subrange(i as int, j as int)),
        decreases j,
    {
        proof {
            assert(s@.subrange(i as int, j as int).drop_last() =~= s@.subrange(i as int, j - 1));
        }
        j = j - 1;
    }
    s.substring_char(i, j).to_string()
}

/// Relies on `regex::Regex::replace_all` with the pattern `\x1b\[[0-9;]*m` and an
/// empty replacement: the leftmost non-overlapping SGR sequences are removed.
#[verifier::external_body]
pub fn strip_ansi_codes(s: &str) -> (r: String)
    ensures
        r@ == visible(s@),
{
    let re = regex::Regex::new(r"\x1b\[[0-9;]*m").unwrap();
    re.replace_all(s, "").to_string()
}

} // verus!
