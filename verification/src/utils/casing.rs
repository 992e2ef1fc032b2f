//! The naming engine: splitting free text into words, and writing the words
//! as a `snake_case` or a `PascalCase` name.
//!
//! A word is a run of lower-case letters and digits, with one upper-case
//! letter in front of it if there is one, or else a run of upper-case letters.
//! Every other character separates words. Words are taken from the left, each
//! as long as it can be.

use crate::text::{chars_of, string_of};
use crate::utils::keywords::{is_keyword, is_keyword_chars, is_reserved, is_reserved_chars};
use vstd::prelude::*;

verus! {

pub open spec fn is_upper(c: char) -> bool {
    'A' <= c && c <= 'Z'
}

pub open spec fn is_lower(c: char) -> bool {
    'a' <= c && c <= 'z'
}

pub open spec fn is_digit(c: char) -> bool {
    '0' <= c && c <= '9'
}

/// A lower-case letter or a digit.
pub open spec fn is_small(c: char) -> bool {
    is_lower(c) || is_digit(c)
}

/// `c` in lower case; only the letters `A` to `Z` change.
pub open spec fn lower(c: char) -> char {
    if is_upper(c) {
        ((c as u8) + 32) as char
    } else {
        c
    }
}

/// `c` in upper case; only the letters `a` to `z` change.
pub open spec fn upper(c: char) -> char {
    if is_lower(c) {
        ((c as u8) - 32) as char
    } else {
        c
    }
}

/// The text `s` with each of the letters `A` to `Z` in lower case. Every
/// other character stays as it is: the words of a name are made of these
/// letters and of digits, and so are the methods of a request.
pub open spec fn lower_text(s: Seq<char>) -> Seq<char> {
    Seq::new(s.len(), |i: int| lower(s[i]))
}

/// The text `s` with each of the letters `a` to `z` in upper case. Every
/// other character stays as it is.
pub open spec fn upper_text(s: Seq<char>) -> Seq<char> {
    Seq::new(s.len(), |i: int| upper(s[i]))
}

/// Where the run of lower-case letters and digits that begins at `from` ends.
pub open spec fn small_run_end(s: Seq<char>, from: int) -> int
    decreases s.len() - from,
{
    if 0 <= from < s.len() && is_small(s[from]) {
        small_run_end(s, from + 1)
    } else {
        from
    }
}

/// Where the run of upper-case letters that begins at `from` ends.
pub open spec fn upper_run_end(s: Seq<char>, from: int) -> int
    decreases s.len() - from,
{
    if 0 <= from < s.len() && is_upper(s[from]) {
        upper_run_end(s, from + 1)
    } else {
        from
    }
}

/// Where the word that begins at `start` ends; `start` itself where no word
/// begins there.
pub open spec fn word_end(s: Seq<char>, start: int) -> int {
    if !(0 <= start < s.len()) {
        start
    } else if is_upper(s[start]) {
        if start + 1 < s.len() && is_small(s[start + 1]) {
            small_run_end(s, start + 1)
        } else {
            upper_run_end(s, start)
        }
    } else {
        small_run_end(s, start)
    }
}

/// The words of `s` that begin at `from` or later.
pub open spec fn words_from(s: Seq<char>, from: int) -> Seq<Seq<char>>
    decreases s.len() - from,
{
    if !(0 <= from < s.len()) {
        Seq::empty()
    } else {
        let end = word_end(s, from);
        if from < end <= s.len() {
            seq![s.subrange(from, end)] + words_from(s, end)
        } else {
            words_from(s, from + 1)
        }
    }
}

/// The words of `s`, in order.
pub open spec fn words(s: Seq<char>) -> Seq<Seq<char>> {
    words_from(s, 0)
}

/// `parts` one after the other, with `sep` between each two.
pub open spec fn join(parts: Seq<Seq<char>>, sep: Seq<char>) -> Seq<char>
    decreases parts.len(),
{
    if parts.len() == 0 {
        Seq::empty()
    } else if parts.len() == 1 {
        parts[0]
    } else {
        parts[0] + sep + join(parts.drop_first(), sep)
    }
}

/// A word with its first letter in upper case and the others in lower case.
pub open spec fn capitalized(word: Seq<char>) -> Seq<char> {
    if word.len() > 1 {
        seq![upper(word[0])] + lower_text(word.subrange(1, word.len() as int))
    } else {
        upper_text(word)
    }
}

/// The capitalized words of `ws`, one after the other.
pub open spec fn capitalized_concat(ws: Seq<Seq<char>>) -> Seq<char>
    decreases ws.len(),
{
    if ws.len() == 0 {
        Seq::empty()
    } else {
        capitalized(ws[0]) + capitalized_concat(ws.drop_first())
    }
}

/// The `snake_case` name of `s`: its words in lower case, joined by `_`.
pub open spec fn snake_case(s: Seq<char>) -> Seq<char> {
    lower_text(join(words(s), seq!['_']))
}

/// The `PascalCase` name of `s`: its words, each capitalized, one after the
/// other.
pub open spec fn pascal_case(s: Seq<char>) -> Seq<char> {
    capitalized_concat(words(s))
}

/// The texts that the vectors of `ws` hold.
pub open spec fn texts(ws: Seq<Vec<char>>) -> Seq<Seq<char>> {
    Seq::new(ws.len(), |i: int| ws[i]@)
}

fn is_upper_char(c: char) -> (r: bool)
    ensures
        r == is_upper(c),
{
    'A' <= c && c <= 'Z'
}

fn is_small_char(c: char) -> (r: bool)
    ensures
        r == is_small(c),
{
    ('a' <= c && c <= 'z') || ('0' <= c && c <= '9')
}

fn lower_char(c: char) -> (r: char)
    ensures
        r == lower(c),
{
    if 'A' <= c && c <= 'Z' {
        ((c as u8) + 32) as char
    } else {
        c
    }
}

fn upper_char(c: char) -> (r: char)
    ensures
        r == upper(c),
{
    if 'a' <= c && c <= 'z' {
        ((c as u8) - 32) as char
    } else {
        c
    }
}

fn find_small_run_end(chars: &Vec<char>, from: usize) -> (end: usize)
    requires
        from <= chars.len(),
    ensures
        end == small_run_end(chars@, from as int),
        from <= end <= chars.len(),
{
    let mut end: usize = from;
    while end < chars.len() && is_small_char(chars[end])
        invariant
            from <= end <= chars.len(),
            small_run_end(chars@, from as int) == small_run_end(chars@, end as int),
        decreases chars.len() - end,
    {
        end += 1;
    }
    end
}

fn find_upper_run_end(chars: &Vec<char>, from: usize) -> (end: usize)
    requires
        from <= chars.len(),
    ensures
        end == upper_run_end(chars@, from as int),
        from <= end <= chars.len(),
{
    let mut end: usize = from;
    while end < chars.len() && is_upper_char(chars[end])
        invariant
            from <= end <= chars.len(),
            upper_run_end(chars@, from as int) == upper_run_end(chars@, end as int),
        decreases chars.len() - end,
    {
        end += 1;
    }
    end
}

fn find_word_end(chars: &Vec<char>, start: usize) -> (end: usize)
    requires
        start < chars.len(),
    ensures
        end == word_end(chars@, start as int),
        start <= end <= chars.len(),
{
    if is_upper_char(chars[start]) {
        if start + 1 < chars.len() && is_small_char(chars[start + 1]) {
            find_small_run_end(chars, start + 1)
        } else {
            find_upper_run_end(chars, start)
        }
    } else {
        find_small_run_end(chars, start)
    }
}

/// The words of `chars`, in order.
pub fn split_words(chars: &Vec<char>) -> (found: Vec<Vec<char>>)
    ensures
        texts(found@) == words(chars@),
{
    let mut found: Vec<Vec<char>> = Vec::new();
    let mut at: usize = 0;
    while at < chars.len()
        invariant
            at <= chars.len(),
            texts(found@) + words_from(chars@, at as int) == words(chars@),
        decreases chars.len() - at,
    {
        let end = find_word_end(chars, at);
        if at < end {
            let mut word: Vec<char> = Vec::new();
            let mut i: usize = at;
            while i < end
                invariant
                    at <= i <= end <= chars.len(),
                    word@ == chars@.subrange(at as int, i as int),
                decreases end - i,
            {
                word.push(chars[i]);
                i += 1;
            }
            proof {
                let before = texts(found@);
                assert(texts(found@.push(word)) == before + seq![word@]);
                assert(before + (seq![word@] + words_from(chars@, end as int)) == before + seq![
                    word@,
                ] + words_from(chars@, end as int));
            }
            found.push(word);
            at = end;
        } else {
            at += 1;
        }
    }
    assert(words_from(chars@, at as int) == Seq::<Seq<char>>::empty());
    assert(texts(found@) + Seq::<Seq<char>>::empty() == texts(found@));
    found
}

/// Joining one more part: the separator goes in front of it.
pub(crate) proof fn lemma_join_push(parts: Seq<Seq<char>>, sep: Seq<char>, part: Seq<char>)
    ensures
        join(parts.push(part), sep) == if parts.len() == 0 {
            part
        } else {
            join(parts, sep) + sep + part
        },
    decreases parts.len(),
{
    reveal_with_fuel(join, 3);
    if parts.len() == 0 {
        assert(parts.push(part)[0] == part);
    } else if parts.len() == 1 {
        assert(parts.push(part).drop_first() == seq![part]);
        assert(seq![part][0] == part);
    } else {
        let rest = parts.drop_first();
        lemma_join_push(rest, sep, part);
        assert(parts.push(part).drop_first() == rest.push(part));
        assert(parts[0] + sep + (join(rest, sep) + sep + part) == parts[0] + sep + join(rest, sep)
            + sep + part);
    }
}

/// Capitalizing one more word: it goes at the end.
pub(crate) proof fn lemma_capitalized_concat_push(ws: Seq<Seq<char>>, word: Seq<char>)
    ensures
        capitalized_concat(ws.push(word)) == capitalized_concat(ws) + capitalized(word),
    decreases ws.len(),
{
    reveal_with_fuel(capitalized_concat, 3);
    if ws.len() == 0 {
        assert(ws.push(word).drop_first() == Seq::<Seq<char>>::empty());
        assert(ws.push(word)[0] == word);
        assert(capitalized(word) + Seq::<char>::empty() == capitalized(word));
    } else {
        let rest = ws.drop_first();
        lemma_capitalized_concat_push(rest, word);
        assert(ws.push(word).drop_first() == rest.push(word));
        assert(ws[0] == ws.push(word)[0]);
        assert(capitalized(ws[0]) + (capitalized_concat(rest) + capitalized(word)) == capitalized(
            ws[0],
        ) + capitalized_concat(rest) + capitalized(word));
    }
}

/// The `snake_case` name of the words `found`.
fn snake_of_words(found: &Vec<Vec<char>>) -> (name: Vec<char>)
    ensures
        name@ == lower_text(join(texts(found@), seq!['_'])),
{
    let ghost parts = texts(found@);
    let ghost sep = seq!['_'];
    let mut name: Vec<char> = Vec::new();
    let mut i: usize = 0;
    while i < found.len()
        invariant
            i <= found.len(),
            parts == texts(found@),
            sep == seq!['_'],
            name@ == lower_text(join(parts.take(i as int), sep)),
        decreases found.len() - i,
    {
        let ghost before = name@;
        if i > 0 {
            name.push('_');
        }
        let word = &found[i];
        let ghost start = name@;
        let mut k: usize = 0;
        while k < word.len()
            invariant
                k <= word.len(),
                name@ == start + lower_text(word@.take(k as int)),
            decreases word.len() - k,
        {
            name.push(lower_char(word[k]));
            k += 1;
        }
        proof {
            assert(word@.take(word.len() as int) == word@);
            assert(parts.take(i as int + 1) == parts.take(i as int).push(parts[i as int]));
            lemma_join_push(parts.take(i as int), sep, parts[i as int]);
            assert(parts[i as int] == word@);
            if i > 0 {
                assert(lower_text(join(parts.take(i as int), sep) + sep + word@) == lower_text(
                    join(parts.take(i as int), sep),
                ) + seq!['_'] + lower_text(word@));
            }
        }
        i += 1;
    }
    assert(parts.take(found.len() as int) == parts);
    name
}

/// The `PascalCase` name of the words `found`.
fn pascal_of_words(found: &Vec<Vec<char>>) -> (name: Vec<char>)
    ensures
        name@ == capitalized_concat(texts(found@)),
{
    let ghost parts = texts(found@);
    let mut name: Vec<char> = Vec::new();
    let mut i: usize = 0;
    while i < found.len()
        invariant
            i <= found.len(),
            parts == texts(found@),
            name@ == capitalized_concat(parts.take(i as int)),
        decreases found.len() - i,
    {
        let word = &found[i];
        let ghost start = name@;
        let several = word.len() > 1;
        let mut k: usize = 0;
        while k < word.len()
            invariant
                k <= word.len(),
                several == (word.len() > 1),
                name@ == start + capitalized(word@).take(k as int),
                capitalized(word@).len() == word.len(),
            decreases word.len() - k,
        {
            let c = if several && k > 0 {
                lower_char(word[k])
            } else {
                upper_char(word[k])
            };
            assert(c == capitalized(word@)[k as int]);
            name.push(c);
            assert(capitalized(word@).take(k as int + 1) == capitalized(word@).take(k as int).push(
                c,
            ));
            k += 1;
        }
        proof {
            assert(capitalized(word@).take(word.len() as int) == capitalized(word@));
            assert(parts.take(i as int + 1) == parts.take(i as int).push(parts[i as int]));
            lemma_capitalized_concat_push(parts.take(i as int), parts[i as int]);
            assert(parts[i as int] == word@);
        }
        i += 1;
    }
    assert(parts.take(found.len() as int) == parts);
    name
}

/// Writes `text` in `snake_case`: its words in lower case with `_`
/// between them. Text without a word gives the empty name.
pub fn convert_casing_to_snake(text: &str) -> (name: String)
    ensures
        name@ == snake_case(text@),
{
    let chars = chars_of(text);
    let found = split_words(&chars);
    let name = snake_of_words(&found);
    string_of(&name)
}

/// Writes `text` in `PascalCase`: its words one after the other, each
/// with its first letter in upper case and the others in lower case.
pub fn convert_casing_to_pascal(text: &str) -> (name: String)
    ensures
        name@ == pascal_case(text@),
{
    let chars = chars_of(text);
    let found = split_words(&chars);
    let name = pascal_of_words(&found);
    string_of(&name)
}

/// A name written as identifiers are: letters, digits and `_`, not
/// beginning with a digit, and not `_` alone.
pub open spec fn is_name(s: Seq<char>) -> bool {
    &&& s.len() > 0
    &&& !is_digit(s[0])
    &&& s != seq!['_']
    &&& forall|i: int| 0 <= i < s.len() ==> is_upper(#[trigger] s[i]) || is_small(s[i]) || s[i] == '_'
}

/// A name that can stand for a field, a method or a type: it is written as
/// identifiers are, and it is no keyword.
pub open spec fn is_identifier(s: Seq<char>) -> bool {
    is_name(s) && !is_keyword(s)
}

/// `name` with `_` after it where it is a keyword, and as it is where it is
/// none.
pub open spec fn escaped(name: Seq<char>) -> Seq<char> {
    if is_keyword(name) {
        name + seq!['_']
    } else {
        name
    }
}

/// The name of the field or method that `text` describes: its `snake_case`
/// name, with `_` in front where that begins with a digit, and `unnamed` where
/// `text` holds no word; and with `_` after it where that is a keyword.
pub open spec fn field_label(text: Seq<char>) -> Seq<char> {
    escaped(plain_field_label(text))
}

/// A name that can stand for a generated type: an identifier that is not
/// the name of a type that the generated code uses itself.
pub open spec fn is_type_identifier(s: Seq<char>) -> bool {
    is_identifier(s) && !is_reserved(s)
}

/// `name` with `_` after it where it is a keyword or reserved, and as it is
/// where it is neither.
pub open spec fn escaped_type(name: Seq<char>) -> Seq<char> {
    if is_keyword(name) || is_reserved(name) {
        name + seq!['_']
    } else {
        name
    }
}

/// The name of the type that `text` describes: its `PascalCase` name, with
/// `T` in front where that begins with a digit, and `Unnamed` where `text`
/// holds no word; and with `_` after it where that is a keyword or the name of
/// a type that the generated code uses itself.
pub open spec fn type_label(text: Seq<char>) -> Seq<char> {
    escaped_type(plain_type_label(text))
}

/// The name of a field before keywords are seen to.
pub open spec fn plain_field_label(text: Seq<char>) -> Seq<char> {
    let name = snake_case(text);
    if name.len() == 0 {
        "unnamed"@
    } else if is_digit(name[0]) {
        seq!['_'] + name
    } else {
        name
    }
}

/// The name of a type before keywords are seen to.
pub open spec fn plain_type_label(text: Seq<char>) -> Seq<char> {
    let name = pascal_case(text);
    if name.len() == 0 {
        "Unnamed"@
    } else if is_digit(name[0]) {
        seq!['T'] + name
    } else {
        name
    }
}

fn with_prefix(prefix: char, name: &Vec<char>) -> (all: Vec<char>)
    ensures
        all@ == seq![prefix] + name@,
{
    let mut all: Vec<char> = Vec::new();
    all.push(prefix);
    let mut i: usize = 0;
    while i < name.len()
        invariant
            i <= name.len(),
            all@ == seq![prefix] + name@.take(i as int),
        decreases name.len() - i,
    {
        all.push(name[i]);
        i += 1;
    }
    assert(name@.take(name.len() as int) == name@);
    all
}

/// The identifier of the field or method that `text` describes.
pub fn field_identifier(text: &str) -> (name: String)
    ensures
        name@ == field_label(text@),
        is_identifier(name@),
{
    proof {
        crate::utils::casing_laws::lemma_field_label_is_identifier(text@);
    }
    let chars = chars_of(text);
    let found = split_words(&chars);
    let mut name = snake_of_words(&found);
    if name.len() == 0 {
        name = chars_of("unnamed");
    } else if '0' <= name[0] && name[0] <= '9' {
        name = with_prefix('_', &name);
    }
    if is_keyword_chars(&name) {
        let ghost plain = name@;
        name.push('_');
        assert(name@ == plain + seq!['_']);
    }
    string_of(&name)
}

/// The identifier of the type that `text` describes.
pub fn type_identifier(text: &str) -> (name: String)
    ensures
        name@ == type_label(text@),
        is_type_identifier(name@),
{
    proof {
        crate::utils::casing_laws::lemma_type_label_is_identifier(text@);
    }
    let chars = chars_of(text);
    let found = split_words(&chars);
    let mut name = pascal_of_words(&found);
    if name.len() == 0 {
        name = chars_of("Unnamed");
    } else if '0' <= name[0] && name[0] <= '9' {
        name = with_prefix('T', &name);
    }
    if is_keyword_chars(&name) || is_reserved_chars(&name) {
        let ghost plain = name@;
        name.push('_');
        assert(name@ == plain + seq!['_']);
    }
    string_of(&name)
}

/// Whether `text` can stand for a generated type.
pub fn check_type_identifier(text: &str) -> (valid: bool)
    ensures
        valid == is_type_identifier(text@),
{
    let chars = chars_of(text);
    check_identifier(text) && !is_reserved_chars(&chars)
}

/// Whether `text` can stand for a field, a method or a type.
pub fn check_identifier(text: &str) -> (valid: bool)
    ensures
        valid == is_identifier(text@),
{
    let chars = chars_of(text);
    if chars.len() == 0 {
        return false;
    }
    if '0' <= chars[0] && chars[0] <= '9' {
        return false;
    }
    if chars.len() == 1 && chars[0] == '_' {
        assert(chars@ == seq!['_']);
        return false;
    }
    let mut i: usize = 0;
    while i < chars.len()
        invariant
            i <= chars.len(),
            chars@ == text@,
            forall|k: int|
                0 <= k < i ==> is_upper(#[trigger] chars@[k]) || is_small(chars@[k]) || chars@[k]
                    == '_',
        decreases chars.len() - i,
    {
        let c = chars[i];
        if !(is_upper_char(c) || is_small_char(c) || c == '_') {
            assert(!is_upper(chars@[i as int]));
            return false;
        }
        i += 1;
    }
    assert(chars@ != seq!['_']) by {
        if chars@.len() == 1 {
            assert(chars@[0] != '_');
            assert(seq!['_'][0] == '_');
        } else {
            assert(seq!['_'].len() == 1);
        }
    }
    !is_keyword_chars(&chars)
}

/// `text` with its letters `A` to `Z` in lower case.
pub fn to_lower_text(text: &str) -> (lowered: String)
    ensures
        lowered@ == lower_text(text@),
{
    let chars = chars_of(text);
    let mut lowered: Vec<char> = Vec::new();
    let mut i: usize = 0;
    while i < chars.len()
        invariant
            i <= chars.len(),
            lowered@ == lower_text(chars@.take(i as int)),
        decreases chars.len() - i,
    {
        lowered.push(lower_char(chars[i]));
        assert(lowered@ == lower_text(chars@.take(i + 1)));
        i += 1;
    }
    assert(chars@.take(chars.len() as int) == chars@);
    string_of(&lowered)
}

/// `text` with its letters `a` to `z` in upper case.
pub fn to_upper_text(text: &str) -> (raised: String)
    ensures
        raised@ == upper_text(text@),
{
    let chars = chars_of(text);
    let mut raised: Vec<char> = Vec::new();
    let mut i: usize = 0;
    while i < chars.len()
        invariant
            i <= chars.len(),
            raised@ == upper_text(chars@.take(i as int)),
        decreases chars.len() - i,
    {
        raised.push(upper_char(chars[i]));
        assert(raised@ == upper_text(chars@.take(i + 1)));
        i += 1;
    }
    assert(chars@.take(chars.len() as int) == chars@);
    string_of(&raised)
}

/// Writes `parts` one after the other, with `sep` between each two.
pub fn join_texts(parts: &Vec<String>, sep: &str) -> (joined: String)
    ensures
        joined@ == join(crate::text::views(parts@), sep@),
{
    let ghost texts = crate::text::views(parts@);
    let mut joined = String::new();
    let mut i: usize = 0;
    while i < parts.len()
        invariant
            i <= parts.len(),
            texts == crate::text::views(parts@),
            joined@ == join(texts.take(i as int), sep@),
        decreases parts.len() - i,
    {
        proof {
            assert(texts.take(i + 1) == texts.take(i as int).push(texts[i as int]));
            lemma_join_push(texts.take(i as int), sep@, texts[i as int]);
            assert(texts[i as int] == parts@[i as int]@);
            if i == 0 {
                assert(joined@ + parts@[0]@ == parts@[0]@);
            }
        }
        if i > 0 {
            joined.append(sep);
        }
        joined.append(parts[i].as_str());
        i += 1;
    }
    assert(texts.take(parts.len() as int) == texts);
    joined
}

} // verus!
