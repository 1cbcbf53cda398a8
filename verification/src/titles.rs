//! Normalising manga titles before they are searched for: characters outside
//! ASCII are either mapped to a plain letter or dropped.
use vstd::prelude::*;
use vstd::string::*;

use crate::text::push_char;

verus! {

/// Whether `c` lies in the ASCII range.
pub open spec fn is_ascii_char(c: char) -> bool {
    (c as u32) < 128
}

/// The plain letter that an accented letter is written as, where there is one:
/// `é` and `É` become `e`, `ö` and `ō` become `o`, `ū` becomes `u`.
pub open spec fn accent_replacement(c: char) -> Option<char> {
    if c == '\u{e9}' || c == '\u{c9}' {
        Some('e')
    } else if c == '\u{f6}' || c == '\u{14d}' {
        Some('o')
    } else if c == '\u{16b}' {
        Some('u')
    } else {
        None
    }
}

/// What a character of a title becomes: itself if ASCII, its replacement if it
/// has one, nothing otherwise.
pub open spec fn kept_char(c: char) -> Option<char> {
    if is_ascii_char(c) {
        Some(c)
    } else {
        accent_replacement(c)
    }
}

/// The title with every character mapped by `kept_char`, dropped ones left out.
pub open spec fn stripped_title(s: Seq<char>) -> Seq<char>
    decreases s.len(),
{
    if s.len() == 0 {
        Seq::empty()
    } else {
        let rest = stripped_title(s.drop_last());
        match kept_char(s.last()) {
            Some(k) => rest.push(k),
            None => rest,
        }
    }
}

/// The characters of the title that `kept_char` drops, in order.
pub open spec fn dropped_chars(s: Seq<char>) -> Seq<char>
    decreases s.len(),
{
    if s.len() == 0 {
        Seq::empty()
    } else {
        let rest = dropped_chars(s.drop_last());
        match kept_char(s.last()) {
            Some(_) => rest,
            None => rest.push(s.last()),
        }
    }
}

/// Whether the title holds a character outside ASCII.
pub open spec fn has_non_ascii(s: Seq<char>) -> bool {
    exists|i: int| 0 <= i < s.len() && !is_ascii_char(#[trigger] s[i])
}

fn char_is_ascii(c: char) -> (b: bool)
    ensures
        b == is_ascii_char(c),
{
    (c as u32) < 128
}

fn replace_accent(c: char) -> (r: Option<char>)
    ensures
        r == accent_replacement(c),
{
    if c == '\u{e9}' || c == '\u{c9}' {
        Some('e')
    } else if c == '\u{f6}' || c == '\u{14d}' {
        Some('o')
    } else if c == '\u{16b}' {
        Some('u')
    } else {
        None
    }
}

/// Maps the accented letters of `input` to plain ones and drops the other
/// characters outside ASCII.
///
/// Returns the new title, whether `input` held any character outside ASCII,
/// and the characters that were dropped, in the order they occur.
pub fn remove_accents(input: String) -> (res: (String, bool, Vec<char>))
    ensures
        res.0@ == stripped_title(input@),
        res.1 == has_non_ascii(input@),
        res.2@ == dropped_chars(input@),
{
    let s = input.as_str();
    let n = s.unicode_len();
    let mut flag = false;
    let mut removed: Vec<char> = Vec::new();
    let mut out = String::new();
    let mut i: usize = 0;
    while i < n
        invariant
            n == input@.len(),
            s@ == input@,
            i <= n,
            out@ == stripped_title(input@.take(i as int)),
            removed@ == dropped_chars(input@.take(i as int)),
            flag == has_non_ascii(input@.take(i as int)),
        decreases n - i,
    {
        let c = s.get_char(i);
        let ghost prefix = input@.take(i as int);
        let ghost next = input@.take(i + 1);
        assert(next.drop_last() =~= prefix);
        assert(next.last() == c);
        if char_is_ascii(c) {
            push_char(&mut out, c);
        } else {
            flag = true;
            match replace_accent(c) {
                Some(k) => push_char(&mut out, k),
                None => removed.push(c),
            }
        }
        proof {
            if has_non_ascii(next) {
                let j = choose|j: int| 0 <= j < next.len() && !is_ascii_char(#[trigger] next[j]);
                if j < i {
                    assert(prefix[j] == next[j]);
                }
            }
            if has_non_ascii(prefix) {
                let j = choose|j: int| 0 <= j < prefix.len() && !is_ascii_char(#[trigger] prefix[j]);
                assert(prefix[j] == next[j]);
            }
            if !is_ascii_char(c) {
                assert(!is_ascii_char(next[i as int]));
            }
        }
        i = i + 1;
    }
    assert(input@.take(n as int) =~= input@);
    (out, flag, removed)
}


/// A title without characters outside ASCII maps to itself and drops nothing.
pub proof fn lemma_ascii_title_unchanged(s: Seq<char>)
    requires
        !has_non_ascii(s),
    ensures
        stripped_title(s) == s,
        dropped_chars(s) == Seq::<char>::empty(),
    decreases s.len(),
{
    if s.len() > 0 {
        assert forall|i: int| 0 <= i < s.drop_last().len() implies is_ascii_char(
            #[trigger] s.drop_last()[i],
        ) by {
            assert(s.drop_last()[i] == s[i]);
        }
        lemma_ascii_title_unchanged(s.drop_last());
        assert(is_ascii_char(s[s.len() - 1]));
        assert(s.drop_last().push(s.last()) =~= s);
    }
}

/// A title whose characters are all ASCII drops nothing; so a title from
/// which something is dropped raises the flag.
pub proof fn lemma_no_drops_without_flag(s: Seq<char>)
    ensures
        !has_non_ascii(s) ==> dropped_chars(s) == Seq::<char>::empty(),
{
    if !has_non_ascii(s) {
        lemma_ascii_title_unchanged(s);
    }
}

/// Every character of a normalised title is ASCII, and every character is
/// either kept (possibly replaced) or reported as dropped.
pub proof fn lemma_stripped_title_shape(s: Seq<char>)
    ensures
        forall|i: int| 0 <= i < stripped_title(s).len() ==> is_ascii_char(#[trigger] stripped_title(s)[i]),
        forall|i: int| 0 <= i < dropped_chars(s).len() ==> !is_ascii_char(#[trigger] dropped_chars(s)[i])
            && s.contains(dropped_chars(s)[i]),
        stripped_title(s).len() + dropped_chars(s).len() == s.len(),
    decreases s.len(),
{
    if s.len() > 0 {
        let p = s.drop_last();
        lemma_stripped_title_shape(p);
        assert forall|i: int| 0 <= i < dropped_chars(s).len() implies !is_ascii_char(
            #[trigger] dropped_chars(s)[i],
        ) && s.contains(dropped_chars(s)[i]) by {
            if i < dropped_chars(p).len() {
                assert(dropped_chars(s)[i] == dropped_chars(p)[i]);
                let j = choose|j: int| 0 <= j < p.len() && p[j] == dropped_chars(p)[i];
                assert(s[j] == p[j]);
            } else {
                assert(s[s.len() - 1] == s.last());
            }
        }
    }
}

/// Normalising a title a second time changes nothing: the result holds no
/// character outside ASCII, maps to itself and drops nothing.
pub proof fn law_remove_accents_idempotent(s: Seq<char>)
    ensures
        !has_non_ascii(stripped_title(s)),
        stripped_title(stripped_title(s)) == stripped_title(s),
        dropped_chars(stripped_title(s)) == Seq::<char>::empty(),
{
    lemma_stripped_title_shape(s);
    lemma_ascii_title_unchanged(stripped_title(s));
}

/// Normalising a title made of two parts is normalising each part: the
/// results, the dropped characters and the flags join up.
pub proof fn law_remove_accents_concat(a: Seq<char>, b: Seq<char>)
    ensures
        stripped_title(a + b) == stripped_title(a) + stripped_title(b),
        dropped_chars(a + b) == dropped_chars(a) + dropped_chars(b),
        has_non_ascii(a + b) == (has_non_ascii(a) || has_non_ascii(b)),
    decreases b.len(),
{
    if b.len() == 0 {
        assert(a + b =~= a);
        assert(stripped_title(a) + stripped_title(b) =~= stripped_title(a));
        assert(dropped_chars(a) + dropped_chars(b) =~= dropped_chars(a));
    } else {
        law_remove_accents_concat(a, b.drop_last());
        assert((a + b).drop_last() =~= a + b.drop_last());
        assert((a + b).last() == b.last());
        assert(stripped_title(a) + stripped_title(b.drop_last()).push(b.last()) =~= (stripped_title(a)
            + stripped_title(b.drop_last())).push(b.last()));
        assert(dropped_chars(a) + dropped_chars(b.drop_last()).push(b.last()) =~= (dropped_chars(a)
            + dropped_chars(b.drop_last())).push(b.last()));
        let ab = a + b;
        if has_non_ascii(ab) {
            let j = choose|j: int| 0 <= j < ab.len() && !is_ascii_char(#[trigger] ab[j]);
            if j < a.len() {
                assert(a[j] == ab[j]);
            } else {
                assert(b[j - a.len()] == ab[j]);
            }
        }
        if has_non_ascii(a) {
            let j = choose|j: int| 0 <= j < a.len() && !is_ascii_char(#[trigger] a[j]);
            assert(ab[j] == a[j]);
        }
        if has_non_ascii(b) {
            let j = choose|j: int| 0 <= j < b.len() && !is_ascii_char(#[trigger] b[j]);
            assert(ab[a.len() + j] == b[j]);
        }
    }
}

/// Only `é`, `É`, `ö`, `ō` and `ū` are replaced (by `e`, `e`, `o`, `o`,
/// `u`): every other character outside ASCII that a title holds is dropped
/// and reported, and nothing else is reported as dropped.
pub proof fn law_only_five_letters_replaced(s: Seq<char>)
    ensures
        forall|i: int|
            0 <= i < s.len() && (s[i] as u32) >= 128 && s[i] != '\u{e9}' && s[i] != '\u{c9}' && s[i]
                != '\u{f6}' && s[i] != '\u{14d}' && s[i] != '\u{16b}' ==> #[trigger] dropped_chars(s).contains(
                s[i],
            ),
        forall|c: char| #[trigger] dropped_chars(s).contains(c) ==> (c as u32) >= 128 && c != '\u{e9}' && c
            != '\u{c9}' && c != '\u{f6}' && c != '\u{14d}' && c != '\u{16b}' && s.contains(c),
        stripped_title(seq!['\u{e9}']) == seq!['e'],
        stripped_title(seq!['\u{c9}']) == seq!['e'],
        stripped_title(seq!['\u{f6}']) == seq!['o'],
        stripped_title(seq!['\u{14d}']) == seq!['o'],
        stripped_title(seq!['\u{16b}']) == seq!['u'],
    decreases s.len(),
{
    reveal_with_fuel(stripped_title, 2);
    if s.len() > 0 {
        let p = s.drop_last();
        law_only_five_letters_replaced(p);
        let last = s.last();
        assert forall|i: int|
            0 <= i < s.len() && (s[i] as u32) >= 128 && s[i] != '\u{e9}' && s[i] != '\u{c9}' && s[i]
                != '\u{f6}' && s[i] != '\u{14d}' && s[i] != '\u{16b}' implies #[trigger] dropped_chars(
            s,
        ).contains(s[i]) by {
            if i < p.len() {
                assert(p[i] == s[i]);
                assert(dropped_chars(p).contains(p[i]));
                let k = choose|k: int| 0 <= k < dropped_chars(p).len() && dropped_chars(p)[k] == p[i];
                assert(dropped_chars(s) == dropped_chars(p) || dropped_chars(s) == dropped_chars(p).push(last));
                assert(dropped_chars(s)[k] == p[i]);
            } else {
                assert(s[i] == last);
                assert(dropped_chars(s) == dropped_chars(p).push(last));
                assert(dropped_chars(s)[dropped_chars(p).len() as int] == last);
            }
        }
        assert forall|c: char| #[trigger] dropped_chars(s).contains(c) implies (c as u32) >= 128 && c
            != '\u{e9}' && c != '\u{c9}' && c != '\u{f6}' && c != '\u{14d}' && c != '\u{16b}' && s.contains(
            c,
        ) by {
            let k = choose|k: int| 0 <= k < dropped_chars(s).len() && dropped_chars(s)[k] == c;
            assert(dropped_chars(s) == dropped_chars(p) || dropped_chars(s) == dropped_chars(p).push(last));
            if k < dropped_chars(p).len() {
                assert(dropped_chars(p)[k] == c);
                assert(dropped_chars(p).contains(c));
                let j = choose|j: int| 0 <= j < p.len() && p[j] == c;
                assert(s[j] == c);
            } else {
                assert(c == last);
                assert(s[s.len() - 1] == c);
            }
        }
    }
    assert(seq!['\u{e9}'].drop_last() =~= Seq::<char>::empty());
    assert(seq!['\u{c9}'].drop_last() =~= Seq::<char>::empty());
    assert(seq!['\u{f6}'].drop_last() =~= Seq::<char>::empty());
    assert(seq!['\u{14d}'].drop_last() =~= Seq::<char>::empty());
    assert(seq!['\u{16b}'].drop_last() =~= Seq::<char>::empty());
}

/// A title made of ASCII characters only comes back unchanged, with the flag
/// unset and nothing dropped.
pub proof fn law_ascii_title_untouched(s: Seq<char>)
    requires
        forall|i: int| 0 <= i < s.len() ==> is_ascii_char(#[trigger] s[i]),
    ensures
        !has_non_ascii(s),
        stripped_title(s) == s,
        dropped_chars(s) == Seq::<char>::empty(),
{
    lemma_ascii_title_unchanged(s);
}

} // verus!
