//! Text as sequences of characters: the few operations on strings that the
//! rest of the library is written in.

use vstd::prelude::*;

verus! {

/// `String::push` of std: the character is appended, nothing else changes.
#[verifier::external_body]
fn push_char(text: &mut String, c: char)
    ensures
        final(text)@ == old(text)@.push(c),
{
    text.push(c)
}

/// The characters of `text`, in order.
pub fn chars_of(text: &str) -> (chars: Vec<char>)
    ensures
        chars@ == text@,
{
    let mut chars: Vec<char> = Vec::new();
    for c in it: text.chars()
        invariant
            chars@ == it.seq().take(it.index() as int),
            it.seq() == text@,
    {
        chars.push(c);
    }
    chars
}

/// The string made of `chars[from..to]`.
pub(crate) fn string_of_range(chars: &Vec<char>, from: usize, to: usize) -> (text: String)
    requires
        from <= to <= chars.len(),
    ensures
        text@ == chars@.subrange(from as int, to as int),
{
    let mut text = String::new();
    let mut i: usize = from;
    while i < to
        invariant
            from <= i <= to <= chars.len(),
            text@ == chars@.subrange(from as int, i as int),
        decreases to - i,
    {
        push_char(&mut text, chars[i]);
        i += 1;
    }
    text
}

/// The string made of `chars`.
pub fn string_of(chars: &Vec<char>) -> (text: String)
    ensures
        text@ == chars@,
{
    string_of_range(chars, 0, chars.len())
}

/// Whether two texts hold the same characters.
pub fn text_eq(a: &str, b: &str) -> (same: bool)
    ensures
        same == (a@ == b@),
{
    let a = chars_of(a);
    let b = chars_of(b);
    chars_eq(&a, &b)
}

/// Whether two vectors hold the same characters.
pub fn chars_eq(a: &Vec<char>, b: &Vec<char>) -> (same: bool)
    ensures
        same == (a@ == b@),
{
    if a.len() != b.len() {
        return false;
    }
    let mut i: usize = 0;
    while i < a.len()
        invariant
            i <= a.len(),
            a.len() == b.len(),
            a@.take(i as int) == b@.take(i as int),
        decreases a.len() - i,
    {
        if a[i] != b[i] {
            return false;
        }
        i += 1;
    }
    assert(a@ =~= a@.take(a.len() as int));
    assert(b@ =~= b@.take(b.len() as int));
    true
}

/// The texts that the strings of `strings` hold.
pub open spec fn views(strings: Seq<String>) -> Seq<Seq<char>> {
    Seq::new(strings.len(), |i: int| strings[i]@)
}

/// The first place at or after `from` where `s` holds `sep`; the length of
/// `s` where it holds none.
pub open spec fn index_of_from(s: Seq<char>, sep: char, from: int) -> int
    decreases s.len() - from,
{
    if 0 <= from < s.len() && s[from] != sep {
        index_of_from(s, sep, from + 1)
    } else {
        from
    }
}

/// The pieces of `s` from `from` on, cut at each `sep`.
pub open spec fn split_from(s: Seq<char>, sep: char, from: int) -> Seq<Seq<char>>
    decreases s.len() - from,
{
    let end = index_of_from(s, sep, from);
    if 0 <= from <= end < s.len() {
        seq![s.subrange(from, end)] + split_from(s, sep, end + 1)
    } else {
        seq![s.subrange(from, s.len() as int)]
    }
}

/// The pieces of `s`, cut at each `sep`: one more than there are separators,
/// empty ones included.
pub open spec fn split(s: Seq<char>, sep: char) -> Seq<Seq<char>> {
    split_from(s, sep, 0)
}

/// Whether `s` begins with `c`.
pub open spec fn begins_with(s: Seq<char>, c: char) -> bool {
    s.len() > 0 && s[0] == c
}

pub(crate) proof fn lemma_index_of_from(s: Seq<char>, sep: char, from: int)
    requires
        0 <= from <= s.len(),
    ensures
        from <= index_of_from(s, sep, from) <= s.len(),
        forall|i: int| from <= i < index_of_from(s, sep, from) ==> s[i] != sep,
        index_of_from(s, sep, from) < s.len() ==> s[index_of_from(s, sep, from)] == sep,
    decreases s.len() - from,
{
    if from < s.len() && s[from] != sep {
        lemma_index_of_from(s, sep, from + 1);
    }
}

/// Cuts `chars` at each `sep`.
pub fn split_chars(chars: &Vec<char>, sep: char) -> (pieces: Vec<String>)
    ensures
        views(pieces@) == split(chars@, sep),
        pieces.len() >= 1,
{
    let mut pieces: Vec<String> = Vec::new();
    let mut start: usize = 0;
    let mut i: usize = 0;
    while i < chars.len()
        invariant
            start <= i <= chars.len(),
            index_of_from(chars@, sep, start as int) == index_of_from(chars@, sep, i as int),
            views(pieces@) + split_from(chars@, sep, start as int) == split(chars@, sep),
        decreases chars.len() - i,
    {
        if chars[i] == sep {
            let piece = string_of_range(chars, start, i);
            proof {
                let before = views(pieces@);
                let rest = split_from(chars@, sep, i as int + 1);
                assert(views(pieces@.push(piece)) == before + seq![piece@]);
                assert(before + (seq![piece@] + rest) == before + seq![piece@] + rest);
            }
            pieces.push(piece);
            start = i + 1;
        }
        i += 1;
    }
    let piece = string_of_range(chars, start, chars.len());
    proof {
        let before = views(pieces@);
        assert(views(pieces@.push(piece)) == before + seq![piece@]);
    }
    pieces.push(piece);
    pieces
}

/// Cuts `text` at each `sep`.
pub fn split_text(text: &str, sep: char) -> (pieces: Vec<String>)
    ensures
        views(pieces@) == split(text@, sep),
        pieces.len() >= 1,
{
    let chars = chars_of(text);
    split_chars(&chars, sep)
}

/// Whether `text` begins with `c`.
pub fn starts_with_char(text: &str, c: char) -> (found: bool)
    ensures
        found == begins_with(text@, c),
{
    let mut it = text.chars();
    match it.next() {
        Some(first) => first == c,
        None => false,
    }
}

/// The digit that stands for `d`, where `d` is less than ten.
pub open spec fn digit_char(d: nat) -> char {
    ((d + 48) as u8) as char
}

/// `n` written in decimal.
pub open spec fn decimal(n: nat) -> Seq<char>
    decreases n,
{
    if n < 10 {
        seq![digit_char(n)]
    } else {
        decimal(n / 10).push(digit_char(n % 10))
    }
}

/// Writes `n` in decimal.
pub fn decimal_text(n: u128) -> (text: String)
    ensures
        text@ == decimal(n as nat),
{
    let mut digits: Vec<char> = Vec::new();
    let mut rest: u128 = n;
    // the digits come out last one first
    while rest >= 10
        invariant
            decimal(n as nat) == decimal(rest as nat) + digits@.reverse(),
        decreases rest,
    {
        let d = (rest % 10) as u8;
        let c = (d + 48) as char;
        proof {
            let before = digits@;
            assert(c == digit_char((rest % 10) as nat));
            assert(before.push(c).reverse() == seq![c] + before.reverse());
            assert(decimal(rest as nat) == decimal((rest / 10) as nat).push(c));
            assert(decimal((rest / 10) as nat).push(c) + before.reverse() == decimal(
                (rest / 10) as nat,
            ) + (seq![c] + before.reverse()));
        }
        digits.push(c);
        rest = rest / 10;
    }
    let first = ((rest as u8) + 48) as char;
    let mut text = String::new();
    push_char(&mut text, first);
    let mut i: usize = digits.len();
    while i > 0
        invariant
            i <= digits.len(),
            text@ == seq![first] + digits@.reverse().take(digits.len() - i),
        decreases i,
    {
        i -= 1;
        proof {
            let reversed = digits@.reverse();
            let k = digits.len() - i - 1;
            assert(reversed[k] == digits@[i as int]);
            assert(reversed.take(k + 1) == reversed.take(k).push(reversed[k]));
            assert((seq![first] + reversed.take(k)).push(reversed[k]) == seq![first]
                + reversed.take(k).push(reversed[k]));
        }
        push_char(&mut text, digits[i]);
    }
    proof {
        let reversed = digits@.reverse();
        assert(reversed.take(digits.len() as int) == reversed);
        assert(decimal(rest as nat) == seq![first]);
    }
    text
}

/// `a` with `b` after it.
pub fn chain(a: &str, b: &str) -> (text: String)
    ensures
        text@ == a@ + b@,
{
    let mut text = String::from_str(a);
    text.append(b);
    text
}

/// `a`, `b` and `c`, one after the other.
pub fn chain3(a: &str, b: &str, c: &str) -> (text: String)
    ensures
        text@ == a@ + b@ + c@,
{
    let mut text = String::from_str(a);
    text.append(b);
    text.append(c);
    text
}

/// How `c` is written inside a string literal.
pub open spec fn escaped_char(c: char) -> Seq<char> {
    if c == '"' {
        seq!['\\', '"']
    } else if c == '\\' {
        seq!['\\', '\\']
    } else if c == '\n' {
        seq!['\\', 'n']
    } else if c == '\r' {
        seq!['\\', 'r']
    } else {
        seq![c]
    }
}

/// How the first `upto` characters of `s` are written inside a string
/// literal.
pub open spec fn escaped_upto(s: Seq<char>, upto: int) -> Seq<char>
    decreases upto,
{
    if upto <= 0 || upto > s.len() {
        Seq::empty()
    } else {
        escaped_upto(s, upto - 1) + escaped_char(s[upto - 1])
    }
}

/// The string literal that stands for `s`: between quotes, with `\` in front
/// of each quote and each `\`, and line ends written as `\n` and `\r`.
pub open spec fn literal(s: Seq<char>) -> Seq<char> {
    seq!['"'] + escaped_upto(s, s.len() as int) + seq!['"']
}

/// Writes `text` as a string literal.
pub fn literal_text(text: &str) -> (written: String)
    ensures
        written@ == literal(text@),
{
    let chars = chars_of(text);
    let mut written = String::new();
    push_char(&mut written, '"');
    let mut i: usize = 0;
    while i < chars.len()
        invariant
            i <= chars.len(),
            written@ == seq!['"'] + escaped_upto(chars@, i as int),
        decreases chars.len() - i,
    {
        let c = chars[i];
        let ghost before = written@;
        if c == '"' {
            push_char(&mut written, '\\');
            push_char(&mut written, '"');
        } else if c == '\\' {
            push_char(&mut written, '\\');
            push_char(&mut written, '\\');
        } else if c == '\n' {
            push_char(&mut written, '\\');
            push_char(&mut written, 'n');
        } else if c == '\r' {
            push_char(&mut written, '\\');
            push_char(&mut written, 'r');
        } else {
            push_char(&mut written, c);
        }
        proof {
            assert(written@ == before + escaped_char(c));
            assert(seq!['"'] + escaped_upto(chars@, i as int) + escaped_char(c) == seq!['"'] + (
            escaped_upto(chars@, i as int) + escaped_char(c)));
        }
        i += 1;
    }
    push_char(&mut written, '"');
    written
}

/// The part of `s` in front of the first `sep`; all of `s` where it holds
/// none.
pub open spec fn before(s: Seq<char>, sep: char) -> Seq<char> {
    s.subrange(0, index_of_from(s, sep, 0))
}

/// The part of `s` behind the first `sep`, if `s` holds one.
pub open spec fn after(s: Seq<char>, sep: char) -> Option<Seq<char>> {
    let at = index_of_from(s, sep, 0);
    if 0 <= at < s.len() {
        Some(s.subrange(at + 1, s.len() as int))
    } else {
        None
    }
}

/// Cuts `text` at the first `sep`: what stands in front of it, and what
/// stands behind it if there is one.
pub fn cut(text: &str, sep: char) -> (parts: (String, Option<String>))
    ensures
        parts.0@ == before(text@, sep),
        match parts.1 {
            Some(rest) => after(text@, sep) == Some(rest@),
            None => after(text@, sep) is None,
        },
{
    let chars = chars_of(text);
    let mut i: usize = 0;
    while i < chars.len() && chars[i] != sep
        invariant
            i <= chars.len(),
            index_of_from(chars@, sep, 0) == index_of_from(chars@, sep, i as int),
        decreases chars.len() - i,
    {
        i += 1;
    }
    let head = string_of_range(&chars, 0, i);
    if i < chars.len() {
        (head, Some(string_of_range(&chars, i + 1, chars.len())))
    } else {
        (head, None)
    }
}

/// Whether `s` begins with the characters of `start`.
pub open spec fn has_prefix(s: Seq<char>, start: Seq<char>) -> bool {
    start.len() <= s.len() && s.subrange(0, start.len() as int) == start
}

/// Whether `text` begins with `start`.
pub fn starts_with(text: &str, start: &str) -> (found: bool)
    ensures
        found == has_prefix(text@, start@),
{
    let chars = chars_of(text);
    let wanted = chars_of(start);
    if wanted.len() > chars.len() {
        return false;
    }
    let mut i: usize = 0;
    while i < wanted.len()
        invariant
            i <= wanted.len() <= chars.len(),
            chars@ == text@,
            wanted@ == start@,
            chars@.subrange(0, i as int) == wanted@.subrange(0, i as int),
        decreases wanted.len() - i,
    {
        if chars[i] != wanted[i] {
            assert(chars@.subrange(0, wanted.len() as int)[i as int] != wanted@[i as int]);
            return false;
        }
        assert(chars@.subrange(0, i + 1) == chars@.subrange(0, i as int).push(chars@[i as int]));
        assert(wanted@.subrange(0, i + 1) == wanted@.subrange(0, i as int).push(
            wanted@[i as int],
        ));
        i += 1;
    }
    assert(wanted@.subrange(0, wanted.len() as int) == wanted@);
    true
}

} // verus!
