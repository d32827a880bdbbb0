//! The order of entries: a case-insensitive key with punctuation stripped, and a
//! stable sort by it.

use vstd::prelude::*;

use crate::text::push_char;

verus! {

/// Whether std counts `c` as alphanumeric (Unicode `Alphabetic` or `Numeric`).
pub uninterp spec fn is_alnum(c: char) -> bool;

/// The upper-case form std gives a string.
pub uninterp spec fn upper_of(s: Seq<char>) -> Seq<char>;

/// An ASCII letter or digit.
pub open spec fn ascii_alnum(c: char) -> bool {
    ('a' <= c && c <= 'z') || ('A' <= c && c <= 'Z') || ('0' <= c && c <= '9')
}

/// The ASCII upper-case form of a character; other characters stay as they are.
pub open spec fn ascii_upper(c: char) -> char {
    if 'a' <= c && c <= 'z' {
        ((c as u32) - 32) as char
    } else {
        c
    }
}

/// Whether every character of `s` is ASCII.
pub open spec fn all_ascii(s: Seq<char>) -> bool {
    forall|i: int| 0 <= i < s.len() ==> (s[i] as u32) < 128
}

/// Relies on `char::is_alphanumeric`; on ASCII it holds of letters and digits alone.
#[verifier::external_body]
fn alphanumeric(c: char) -> (r: bool)
    ensures
        r == is_alnum(c),
        (c as u32) < 128 ==> (r <==> ascii_alnum(c)),
{
    c.is_alphanumeric()
}

/// Relies on `str::to_uppercase`; on ASCII text it raises the letters and keeps the
/// rest.
#[verifier::external_body]
fn uppercase(s: &str) -> (r: String)
    ensures
        r@ == upper_of(s@),
        all_ascii(s@) ==> r@ == s@.map_values(|c: char| ascii_upper(c)),
{
    s.to_uppercase()
}

/// The characters of `s` that are alphanumeric, in order.
pub open spec fn alnum_only(s: Seq<char>) -> Seq<char> {
    s.filter(|c: char| is_alnum(c))
}

/// The sort key of a name: its alphanumeric characters, upper-cased.
pub open spec fn sort_key(s: Seq<char>) -> Seq<char> {
    upper_of(alnum_only(s))
}

/// The sort key of ASCII text: its letters and digits, letters raised.
pub open spec fn ascii_key(s: Seq<char>) -> Seq<char>
    decreases s.len(),
{
    if s.len() == 0 {
        Seq::empty()
    } else if ascii_alnum(s.last()) {
        ascii_key(s.drop_last()).push(ascii_upper(s.last()))
    } else {
        ascii_key(s.drop_last())
    }
}

/// The sort key of a name: punctuation stripped, upper-cased; for ASCII names, the
/// letters and digits with the letters raised.
pub fn clean_string(s: String) -> (r: String)
    ensures
        r@ == sort_key(s@),
        all_ascii(s@) ==> r@ == ascii_key(s@),
{
    let n = s.as_str().unicode_len();
    let mut kept = String::new();
    let mut i: usize = 0;
    while i < n
        invariant
            n == s@.len(),
            i <= n,
            kept@ == alnum_only(s@.take(i as int)),
            all_ascii(s@) ==> all_ascii(kept@),
            all_ascii(s@) ==> kept@.map_values(|c: char| ascii_upper(c)) == ascii_key(
                s@.take(i as int),
            ),
        decreases n - i,
    {
        let c = s.as_str().get_char(i);
        let ghost before = kept@;
        proof {
            assert(s@.take(i + 1) =~= s@.take(i as int).push(c));
            assert(s@.take(i + 1).drop_last() =~= s@.take(i as int));
            s@.take(i as int).lemma_filter_push(c, |c: char| is_alnum(c));
        }
        if alphanumeric(c) {
            push_char(&mut kept, c);
            proof {
                assert(kept@.map_values(|c: char| ascii_upper(c)) =~= before.map_values(
                    |c: char| ascii_upper(c),
                ).push(ascii_upper(c)));
            }
        }
        i = i + 1;
    }
    proof {
        assert(s@.take(n as int) =~= s@);
    }
    uppercase(kept.as_str())
}

/// The ASCII key of two pieces of text is the keys of the pieces, joined.
pub proof fn lemma_ascii_key_append(a: Seq<char>, b: Seq<char>)
    ensures
        ascii_key(a + b) == ascii_key(a) + ascii_key(b),
    decreases b.len(),
{
    if b.len() == 0 {
        assert(a + b =~= a);
        assert(ascii_key(a) + ascii_key(b) =~= ascii_key(a));
    } else {
        assert((a + b).drop_last() =~= a + b.drop_last());
        lemma_ascii_key_append(a, b.drop_last());
        if ascii_alnum(b.last()) {
            assert(ascii_key(a) + ascii_key(b) =~= (ascii_key(a) + ascii_key(b.drop_last())).push(
                ascii_upper(b.last()),
            ));
        }
    }
}

/// In ASCII names punctuation does not count: a character that is not a letter or
/// digit leaves the key unchanged wherever it stands, so `.bashrc`, `-bashrc` and
/// `bashrc` share one key.
pub proof fn lemma_ascii_punctuation_ignored(a: Seq<char>, c: char, b: Seq<char>)
    requires
        !ascii_alnum(c),
    ensures
        ascii_key(a + seq![c] + b) == ascii_key(a + b),
{
    lemma_ascii_key_append(a + seq![c], b);
    lemma_ascii_key_append(a, seq![c]);
    lemma_ascii_key_append(a, b);
    assert(seq![c].drop_last() =~= Seq::<char>::empty());
    assert(seq![c].last() == c);
    assert(ascii_key(Seq::<char>::empty()) == Seq::<char>::empty());
    assert(ascii_key(seq![c]) == ascii_key(Seq::<char>::empty()));
    assert(ascii_key(a) + Seq::<char>::empty() =~= ascii_key(a));
}

/// In ASCII names case does not count: raising every letter leaves the key unchanged,
/// so raising a name before taking its key gives the same key.
pub proof fn lemma_ascii_case_ignored(s: Seq<char>)
    requires
        all_ascii(s),
    ensures
        ascii_key(s.map_values(|c: char| ascii_upper(c))) == ascii_key(s),
    decreases s.len(),
{
    if s.len() > 0 {
        let u = s.map_values(|c: char| ascii_upper(c));
        assert(u.drop_last() =~= s.drop_last().map_values(|c: char| ascii_upper(c)));
        lemma_ascii_case_ignored(s.drop_last());
        let c = s.last();
        assert(u.last() == ascii_upper(c));
        assert((c as u32) < 128);
        if 'a' <= c && c <= 'z' {
            assert('A' <= ascii_upper(c) && ascii_upper(c) <= 'Z');
        }
        assert(ascii_alnum(ascii_upper(c)) == ascii_alnum(c));
        assert(ascii_upper(ascii_upper(c)) == ascii_upper(c));
    }
}

/// A character that is not alphanumeric leaves the sort key unchanged wherever
/// it stands, so `.foo`, `-foo` and `foo` all share the key of `foo`.
pub proof fn lemma_punctuation_ignored(a: Seq<char>, c: char, b: Seq<char>)
    requires
        !is_alnum(c),
    ensures
        sort_key(a + seq![c] + b) == sort_key(a + b),
{
    let f = |x: char| is_alnum(x);
    Seq::filter_distributes_over_add(a + seq![c], b, f);
    Seq::filter_distributes_over_add(a, seq![c], f);
    Seq::filter_distributes_over_add(a, b, f);
    assert(Seq::<char>::empty().push(c) =~= seq![c]);
    Seq::<char>::empty().lemma_filter_len(f);
    assert(Seq::<char>::empty().filter(f) =~= Seq::<char>::empty());
    Seq::<char>::empty().lemma_filter_push(c, f);
    assert(seq![c].filter(f) =~= Seq::<char>::empty());
    assert(a.filter(f) + Seq::<char>::empty() =~= a.filter(f));
}

/// Lexicographic order by code point, a proper prefix first.
pub open spec fn lex_lt(a: Seq<char>, b: Seq<char>) -> bool
    decreases a.len(),
{
    if a.len() == 0 {
        b.len() > 0
    } else if b.len() == 0 {
        false
    } else if a[0] != b[0] {
        a[0] < b[0]
    } else {
        lex_lt(a.skip(1), b.skip(1))
    }
}

/// Of two different sequences exactly one comes first.
pub proof fn lemma_lex_total(a: Seq<char>, b: Seq<char>)
    ensures
        !lex_lt(a, a),
        a != b ==> (lex_lt(a, b) || lex_lt(b, a)),
        !(lex_lt(a, b) && lex_lt(b, a)),
    decreases a.len(),
{
    if a.len() > 0 {
        lemma_lex_total(a.skip(1), a.skip(1));
        if b.len() > 0 {
            lemma_lex_total(a.skip(1), b.skip(1));
            if a != b && a[0] == b[0] {
                assert(a.skip(1) != b.skip(1)) by {
                    if a.skip(1) == b.skip(1) {
                        assert(a =~= seq![a[0]] + a.skip(1));
                        assert(b =~= seq![b[0]] + b.skip(1));
                    }
                }
            }
        }
    } else if b.len() == 0 {
        assert(a =~= b);
    }
}

/// Whether `a` comes after `b` in code-point order.
pub fn greater(a: &str, b: &str) -> (r: bool)
    ensures
        r == lex_lt(b@, a@),
{
    let na = a.unicode_len();
    let nb = b.unicode_len();
    let mut i: usize = 0;
    proof {
        assert(a@.skip(0) =~= a@);
        assert(b@.skip(0) =~= b@);
    }
    while i < na && i < nb
        invariant
            na == a@.len(),
            nb == b@.len(),
            i <= na,
            i <= nb,
            lex_lt(b@, a@) == lex_lt(b@.skip(i as int), a@.skip(i as int)),
        decreases na - i,
    {
        let ca = a.get_char(i);
        let cb = b.get_char(i);
        if ca != cb {
            proof {
                assert(b@.skip(i as int)[0] == cb);
                assert(a@.skip(i as int)[0] == ca);
            }
            return cb < ca;
        }
        proof {
            assert(b@.skip(i as int).skip(1) =~= b@.skip(i + 1));
            assert(a@.skip(i as int).skip(1) =~= a@.skip(i + 1));
        }
        i = i + 1;
    }
    proof {
        if i == nb {
            assert(b@.skip(i as int).len() == 0);
        }
    }
    i < na && i == nb
}

/// Whether `order` lists each index below `n` once.
pub open spec fn is_permutation(order: Seq<usize>, n: nat) -> bool {
    &&& order.len() == n
    &&& forall|k: int| 0 <= k < order.len() ==> order[k] < n
    &&& forall|k1: int, k2: int| 0 <= k1 < k2 < order.len() ==> order[k1] != order[k2]
}

/// Whether `order` puts the keys in ascending order, keeping the given order of
/// equal keys.
pub open spec fn stably_sorted(keys: Seq<Seq<char>>, order: Seq<usize>) -> bool {
    &&& forall|k: int|
        0 <= k < order.len() - 1 ==> !#[trigger] lex_lt(keys[order[k + 1] as int], keys[order[k] as int])
    &&& forall|k1: int, k2: int|
        0 <= k1 < k2 < order.len() && keys[order[k1] as int] == keys[order[k2] as int]
            ==> order[k1] < order[k2]
}

/// The stable order of `keys`: a permutation of their indices, ascending by key,
/// equal keys in their given order.
pub fn sort_order(keys: &Vec<String>) -> (order: Vec<usize>)
    ensures
        is_permutation(order@, keys.len() as nat),
        stably_sorted(keys@.map_values(|s: String| s@), order@),
{
    let ghost kv = keys@.map_values(|s: String| s@);
    let n = keys.len();
    let mut order: Vec<usize> = Vec::new();
    let mut i: usize = 0;
    while i < n
        invariant
            n == keys.len(),
            kv == keys@.map_values(|s: String| s@),
            i <= n,
            is_permutation(order@, i as nat),
            stably_sorted(kv, order@),
        decreases n - i,
    {
        let mut pos: usize = order.len();
        while pos > 0 && greater(keys[order[pos - 1]].as_str(), keys[i].as_str())
            invariant
                n == keys.len(),
                kv == keys@.map_values(|s: String| s@),
                i < n,
                pos <= order.len(),
                is_permutation(order@, i as nat),
                forall|k: int| pos <= k < order.len() ==> lex_lt(kv[i as int], kv[order[k] as int]),
            decreases pos,
        {
            pos = pos - 1;
        }
        let ghost old_order = order@;
        order.insert(pos, i);
        proof {
            assert(order@ == old_order.insert(pos as int, i));
            assert forall|k: int| pos < k < order@.len() implies lex_lt(
                kv[i as int],
                kv[order@[k] as int],
            ) by {
                assert(order@[k] == old_order[k - 1]);
            }
            assert forall|k: int| 0 <= k < order@.len() - 1 implies !#[trigger] lex_lt(
                kv[order@[k + 1] as int],
                kv[order@[k] as int],
            ) by {
                if k + 1 < pos {
                    assert(order@[k] == old_order[k] && order@[k + 1] == old_order[k + 1]);
                    assert(!lex_lt(kv[old_order[k + 1] as int], kv[old_order[k] as int]));
                } else if k + 1 == pos {
                    assert(order@[k] == old_order[k]);
                } else if k == pos {
                    assert(order@[k + 1] == old_order[k]);
                    lemma_lex_total(kv[i as int], kv[order@[k + 1] as int]);
                } else {
                    assert(order@[k] == old_order[k - 1] && order@[k + 1] == old_order[k]);
                    let j = k - 1;
                    assert(!lex_lt(kv[old_order[j + 1] as int], kv[old_order[j] as int]));
                    assert(j + 1 == k);
                }
            }
            assert forall|k1: int, k2: int|
                0 <= k1 < k2 < order@.len() && kv[order@[k1] as int] == kv[order@[k2] as int]
                    implies order@[k1] < order@[k2] by {
                if k1 == pos {
                    lemma_lex_total(kv[i as int], kv[i as int]);
                } else if k2 == pos {
                } else {
                    let j1 = if k1 < pos { k1 } else { k1 - 1 };
                    let j2 = if k2 < pos { k2 } else { k2 - 1 };
                    assert(order@[k1] == old_order[j1] && order@[k2] == old_order[j2]);
                }
            }
            assert forall|k1: int, k2: int| 0 <= k1 < k2 < order@.len() implies order@[k1]
                != order@[k2] by {
                if k1 != pos && k2 != pos {
                    let j1 = if k1 < pos { k1 } else { k1 - 1 };
                    let j2 = if k2 < pos { k2 } else { k2 - 1 };
                    assert(order@[k1] == old_order[j1] && order@[k2] == old_order[j2]);
                } else if k1 == pos {
                    assert(order@[k2] == old_order[k2 - 1]);
                } else {
                    assert(order@[k1] == old_order[k1]);
                }
            }
            assert forall|k: int| 0 <= k < order@.len() implies order@[k] < i + 1 by {
                if k < pos {
                    assert(order@[k] == old_order[k]);
                } else if k > pos {
                    assert(order@[k] == old_order[k - 1]);
                }
            }
        }
        i = i + 1;
    }
    order
}

} // verus!
