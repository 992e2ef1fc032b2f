//! What holds of the naming engine whatever the text: a `snake_case` name is
//! its own `snake_case` name, and a `PascalCase` name is its own `PascalCase`
//! name.

use crate::utils::casing::{
    capitalized, capitalized_concat, escaped, field_label, is_digit, is_identifier, is_lower,
    is_name, is_type_identifier, is_small, is_upper, join, lower_text, pascal_case, plain_field_label,
    plain_type_label, small_run_end, snake_case, type_label, upper_run_end, word_end, words,
    words_from,
};
use crate::utils::keywords::{
    is_keyword, is_reserved, lemma_keyword_ends_in_letter, lemma_reserved_ends_in_letter,
};
use vstd::prelude::*;

verus! {

/// Every character of `s` is a lower-case letter or a digit.
pub open spec fn all_small(s: Seq<char>) -> bool {
    forall|i: int| 0 <= i < s.len() ==> is_small(#[trigger] s[i])
}

/// Every text of `ws` is a non-empty run of lower-case letters and digits.
pub open spec fn all_small_words(ws: Seq<Seq<char>>) -> bool {
    forall|i: int| 0 <= i < ws.len() ==> (#[trigger] ws[i]).len() > 0 && all_small(ws[i])
}

/// Every text of `ws` is a non-empty run of letters and digits.
pub open spec fn all_plain_words(ws: Seq<Seq<char>>) -> bool {
    forall|i: int|
        0 <= i < ws.len() ==> (#[trigger] ws[i]).len() > 0 && forall|k: int|
            0 <= k < ws[i].len() ==> is_upper(#[trigger] ws[i][k]) || is_small(ws[i][k])
}

/// Each text of `ws` in lower case.
pub open spec fn lowered(ws: Seq<Seq<char>>) -> Seq<Seq<char>> {
    Seq::new(ws.len(), |i: int| lower_text(ws[i]))
}

/// A name in `PascalCase`: letters and digits only, no lower-case letter in
/// front, and after each upper-case letter, unless it is the last character, a
/// lower-case letter or a digit.
pub open spec fn is_pascal_case(s: Seq<char>) -> bool {
    &&& forall|i: int| 0 <= i < s.len() ==> is_upper(#[trigger] s[i]) || is_small(s[i])
    &&& s.len() > 0 ==> !is_lower(s[0])
    &&& forall|i: int| 0 <= i && i + 1 < s.len() && is_upper(#[trigger] s[i]) ==> is_small(s[i + 1])
}

proof fn lemma_small_run(s: Seq<char>, from: int)
    requires
        0 <= from <= s.len(),
    ensures
        from <= small_run_end(s, from) <= s.len(),
        forall|i: int| from <= i < small_run_end(s, from) ==> is_small(#[trigger] s[i]),
        small_run_end(s, from) < s.len() ==> !is_small(s[small_run_end(s, from)]),
    decreases s.len() - from,
{
    if from < s.len() && is_small(s[from]) {
        lemma_small_run(s, from + 1);
    }
}

proof fn lemma_upper_run(s: Seq<char>, from: int)
    requires
        0 <= from <= s.len(),
    ensures
        from <= upper_run_end(s, from) <= s.len(),
        forall|i: int| from <= i < upper_run_end(s, from) ==> is_upper(#[trigger] s[i]),
        upper_run_end(s, from) < s.len() ==> !is_upper(s[upper_run_end(s, from)]),
    decreases s.len() - from,
{
    if from < s.len() && is_upper(s[from]) {
        lemma_upper_run(s, from + 1);
    }
}

/// A word lies within the text, and holds letters and digits only.
proof fn lemma_word(s: Seq<char>, start: int)
    requires
        0 <= start <= s.len(),
    ensures
        start <= word_end(s, start) <= s.len(),
        forall|i: int|
            start <= i < word_end(s, start) ==> is_upper(#[trigger] s[i]) || is_small(s[i]),
{
    if start < s.len() {
        lemma_small_run(s, start);
        lemma_upper_run(s, start);
        if start + 1 <= s.len() {
            lemma_small_run(s, start + 1);
        }
    }
}

proof fn lemma_small_run_shift(a: Seq<char>, b: Seq<char>, k: int)
    requires
        0 <= k <= b.len(),
    ensures
        small_run_end(a + b, a.len() + k) == a.len() + small_run_end(b, k),
    decreases b.len() - k,
{
    if k < b.len() {
        assert((a + b)[a.len() + k] == b[k]);
        if is_small(b[k]) {
            lemma_small_run_shift(a, b, k + 1);
        }
    }
}

proof fn lemma_upper_run_shift(a: Seq<char>, b: Seq<char>, k: int)
    requires
        0 <= k <= b.len(),
    ensures
        upper_run_end(a + b, a.len() + k) == a.len() + upper_run_end(b, k),
    decreases b.len() - k,
{
    if k < b.len() {
        assert((a + b)[a.len() + k] == b[k]);
        if is_upper(b[k]) {
            lemma_upper_run_shift(a, b, k + 1);
        }
    }
}

proof fn lemma_word_shift(a: Seq<char>, b: Seq<char>, k: int)
    requires
        0 <= k <= b.len(),
    ensures
        word_end(a + b, a.len() + k) == a.len() + word_end(b, k),
{
    if k < b.len() {
        assert((a + b)[a.len() + k] == b[k]);
        lemma_small_run_shift(a, b, k);
        lemma_upper_run_shift(a, b, k);
        if k + 1 < b.len() {
            assert((a + b)[a.len() + k + 1] == b[k + 1]);
        }
        if k + 1 <= b.len() {
            lemma_small_run_shift(a, b, k + 1);
        }
    }
}

/// What comes before a position has no part in the words after it.
proof fn lemma_words_shift(a: Seq<char>, b: Seq<char>, k: int)
    requires
        0 <= k <= b.len(),
    ensures
        words_from(a + b, a.len() + k) == words_from(b, k),
    decreases b.len() - k,
{
    if k < b.len() {
        lemma_word_shift(a, b, k);
        lemma_word(b, k);
        let end = word_end(b, k);
        if k < end {
            lemma_words_shift(a, b, end);
            assert((a + b).subrange(a.len() + k, a.len() + end) == b.subrange(k, end));
        } else {
            lemma_words_shift(a, b, k + 1);
        }
    }
}

/// The words that a text is split into hold letters and digits only, and none
/// is empty.
proof fn lemma_words_plain(s: Seq<char>, from: int)
    requires
        0 <= from <= s.len(),
    ensures
        all_plain_words(words_from(s, from)),
    decreases s.len() - from,
{
    if from < s.len() {
        lemma_word(s, from);
        let end = word_end(s, from);
        if from < end {
            lemma_words_plain(s, end);
            let word = s.subrange(from, end);
            let rest = words_from(s, end);
            let all = seq![word] + rest;
            assert forall|i: int| 0 <= i < all.len() implies (#[trigger] all[i]).len() > 0
                && forall|k: int|
                0 <= k < all[i].len() ==> is_upper(#[trigger] all[i][k]) || is_small(all[i][k]) by {
                if i == 0 {
                    assert forall|k: int| 0 <= k < word.len() implies is_upper(#[trigger] word[k])
                        || is_small(word[k]) by {
                        assert(word[k] == s[from + k]);
                    }
                } else {
                    assert(all[i] == rest[i - 1]);
                }
            }
        } else {
            lemma_words_plain(s, from + 1);
        }
    }
}

proof fn lemma_lower_text_add(a: Seq<char>, b: Seq<char>)
    ensures
        lower_text(a + b) == lower_text(a) + lower_text(b),
{
    assert(lower_text(a + b) =~= lower_text(a) + lower_text(b));
}

/// Lower case goes through a join by `_`.
proof fn lemma_lower_join(ws: Seq<Seq<char>>)
    ensures
        lower_text(join(ws, seq!['_'])) == join(lowered(ws), seq!['_']),
    decreases ws.len(),
{
    let sep = seq!['_'];
    if ws.len() == 0 {
        assert(lower_text(Seq::<char>::empty()) =~= Seq::<char>::empty());
    } else if ws.len() == 1 {
    } else {
        let rest = ws.drop_first();
        lemma_lower_join(rest);
        assert(lowered(ws).drop_first() == lowered(rest));
        lemma_lower_text_add(ws[0] + sep, join(rest, sep));
        lemma_lower_text_add(ws[0], sep);
        assert(lower_text(sep) =~= sep);
    }
}

/// A run of lower-case letters and digits, with nothing or something else
/// after it, is one word.
proof fn lemma_small_prefix_run(w: Seq<char>, rest: Seq<char>, k: int)
    requires
        all_small(w),
        rest.len() > 0 ==> !is_small(rest[0]),
        0 <= k <= w.len(),
    ensures
        small_run_end(w + rest, k) == w.len(),
    decreases w.len() - k,
{
    let t = w + rest;
    if k < w.len() {
        assert(t[k] == w[k]);
        lemma_small_prefix_run(w, rest, k + 1);
    } else if rest.len() > 0 {
        assert(t[k] == rest[0]);
    }
}

/// Words of lower-case letters and digits, joined by `_`, are split into
/// themselves.
proof fn lemma_words_of_join(ws: Seq<Seq<char>>)
    requires
        all_small_words(ws),
    ensures
        words(join(ws, seq!['_'])) == ws,
    decreases ws.len(),
{
    let sep = seq!['_'];
    if ws.len() == 0 {
    } else {
        let w = ws[0];
        let rest = ws.drop_first();
        assert(w.len() > 0 && all_small(w));
        assert(all_small_words(rest)) by {
            assert forall|i: int| 0 <= i < rest.len() implies (#[trigger] rest[i]).len() > 0
                && all_small(rest[i]) by {
                assert(rest[i] == ws[i + 1]);
            }
        }
        let tail = if ws.len() == 1 {
            Seq::<char>::empty()
        } else {
            sep + join(rest, sep)
        };
        let t = w + tail;
        assert(join(ws, sep) == t) by {
            if ws.len() == 1 {
                assert(w + Seq::<char>::empty() == w);
            } else {
                assert(w + sep + join(rest, sep) == w + (sep + join(rest, sep)));
            }
        }
        if tail.len() > 0 {
            assert(tail[0] == '_');
        }
        lemma_small_prefix_run(w, tail, 0);
        assert(t[0] == w[0]);
        assert(word_end(t, 0) == w.len());
        assert(t.subrange(0, w.len() as int) == w);
        if ws.len() == 1 {
            assert(words_from(t, w.len() as int) == Seq::<Seq<char>>::empty());
            assert(seq![w] + Seq::<Seq<char>>::empty() == ws);
        } else {
            let after = join(rest, sep);
            // the separator is no word, so the scan goes on behind it
            assert(t[w.len() as int] == '_');
            assert(small_run_end(t, w.len() as int) == w.len());
            assert(word_end(t, w.len() as int) == w.len());
            assert(words_from(t, w.len() as int) == words_from(t, w.len() as int + 1));
            assert(t == (w + sep) + after);
            lemma_words_shift(w + sep, after, 0);
            lemma_words_of_join(rest);
            assert(seq![w] + rest == ws);
        }
    }
}

proof fn lemma_lowered_small(ws: Seq<Seq<char>>)
    requires
        all_plain_words(ws),
    ensures
        all_small_words(lowered(ws)),
        lowered(lowered(ws)) == lowered(ws),
{
    let lw = lowered(ws);
    assert forall|i: int| 0 <= i < lw.len() implies (#[trigger] lw[i]).len() > 0 && all_small(
        lw[i],
    ) && lower_text(lw[i]) == lw[i] by {
        assert(ws[i].len() > 0);
        assert forall|k: int| 0 <= k < lw[i].len() implies is_small(#[trigger] lw[i][k]) by {
            assert(is_upper(ws[i][k]) || is_small(ws[i][k]));
        }
        assert(lower_text(lw[i]) =~= lw[i]);
    }
    assert(lowered(lw) =~= lw);
}

/// Converting a `snake_case` name again changes nothing: whatever `s` is, its
/// `snake_case` name is the `snake_case` name of itself.
pub proof fn lemma_snake_case_idempotent(s: Seq<char>)
    ensures
        snake_case(snake_case(s)) == snake_case(s),
{
    let ws = words(s);
    let lw = lowered(ws);
    lemma_words_plain(s, 0);
    lemma_lower_join(ws);
    lemma_lowered_small(ws);
    lemma_words_of_join(lw);
    lemma_lower_join(lw);
}

/// The `snake_case` name of any text holds lower-case letters, digits and
/// `_` only.
pub proof fn lemma_snake_case_alphabet(s: Seq<char>)
    ensures
        forall|i: int|
            0 <= i < snake_case(s).len() ==> is_small(#[trigger] snake_case(s)[i]) || snake_case(
                s,
            )[i] == '_',
{
    let ws = words(s);
    lemma_words_plain(s, 0);
    lemma_lower_join(ws);
    lemma_lowered_small(ws);
    lemma_join_small(lowered(ws));
}

proof fn lemma_join_small(ws: Seq<Seq<char>>)
    requires
        all_small_words(ws),
    ensures
        forall|i: int|
            0 <= i < join(ws, seq!['_']).len() ==> is_small(#[trigger] join(ws, seq!['_'])[i])
                || join(ws, seq!['_'])[i] == '_',
    decreases ws.len(),
{
    let sep = seq!['_'];
    if ws.len() == 0 {
    } else if ws.len() == 1 {
        assert(all_small(ws[0]));
    } else {
        let rest = ws.drop_first();
        assert(all_small_words(rest)) by {
            assert forall|i: int| 0 <= i < rest.len() implies (#[trigger] rest[i]).len() > 0
                && all_small(rest[i]) by {
                assert(rest[i] == ws[i + 1]);
            }
        }
        lemma_join_small(rest);
        assert(all_small(ws[0]));
        let t = join(ws, sep);
        assert forall|i: int| 0 <= i < t.len() implies is_small(#[trigger] t[i]) || t[i] == '_' by {
            if i < ws[0].len() {
                assert(t[i] == ws[0][i]);
            } else if i == ws[0].len() {
                assert(t[i] == '_');
            } else {
                assert(t[i] == join(rest, sep)[i - ws[0].len() - 1]);
            }
        }
    }
}

/// In a `PascalCase` name the words that begin at a word's first letter are
/// written as they stand.
proof fn lemma_pascal_from(s: Seq<char>, from: int)
    requires
        is_pascal_case(s),
        0 <= from <= s.len(),
        from < s.len() ==> !is_lower(s[from]),
    ensures
        capitalized_concat(words_from(s, from)) == s.subrange(from, s.len() as int),
    decreases s.len() - from,
{
    if from < s.len() {
        lemma_word(s, from);
        lemma_small_run(s, from);
        lemma_upper_run(s, from);
        if from + 1 <= s.len() {
            lemma_small_run(s, from + 1);
        }
        let end = word_end(s, from);
        assert(is_upper(s[from]) || is_small(s[from]));
        // a word begins here, and ends where the next one begins
        assert(from < end) by {
            if is_upper(s[from]) {
                if !(from + 1 < s.len() && is_small(s[from + 1])) {
                    assert(upper_run_end(s, from) == upper_run_end(s, from + 1));
                }
            } else {
                assert(small_run_end(s, from) == small_run_end(s, from + 1));
            }
        }
        assert(is_upper(s[from]) && !(from + 1 < s.len()) ==> end == s.len());
        assert(end < s.len() ==> !is_lower(s[end]));
        let word = s.subrange(from, end);
        assert(capitalized(word) == word) by {
            assert(word[0] == s[from]);
            if word.len() > 1 {
                assert forall|k: int| 1 <= k < word.len() implies is_small(#[trigger] word[k]) by {
                    assert(word[k] == s[from + k]);
                    if is_upper(s[from]) {
                        assert(from + 1 < s.len());
                    }
                }
                assert(capitalized(word) =~= word);
            } else {
                assert(capitalized(word) =~= word);
            }
        }
        lemma_pascal_from(s, end);
        assert(words_from(s, from) == seq![word] + words_from(s, end));
        assert((seq![word] + words_from(s, end)).drop_first() == words_from(s, end));
        assert((seq![word] + words_from(s, end))[0] == word);
        assert(word + s.subrange(end, s.len() as int) == s.subrange(from, s.len() as int));
    } else {
        assert(s.subrange(from, s.len() as int) == Seq::<char>::empty());
    }
}

/// Converting a `PascalCase` name again changes nothing.
pub proof fn lemma_pascal_case_fixed(s: Seq<char>)
    requires
        is_pascal_case(s),
    ensures
        pascal_case(s) == s,
{
    lemma_pascal_from(s, 0);
    assert(s.subrange(0, s.len() as int) == s);
}

proof fn lemma_capitalized_plain(ws: Seq<Seq<char>>)
    requires
        all_plain_words(ws),
    ensures
        forall|i: int|
            0 <= i < capitalized_concat(ws).len() ==> is_upper(#[trigger] capitalized_concat(ws)[i])
                || is_small(capitalized_concat(ws)[i]),
    decreases ws.len(),
{
    if ws.len() > 0 {
        let rest = ws.drop_first();
        assert(all_plain_words(rest)) by {
            assert forall|i: int| 0 <= i < rest.len() implies (#[trigger] rest[i]).len() > 0
                && forall|k: int|
                0 <= k < rest[i].len() ==> is_upper(#[trigger] rest[i][k]) || is_small(
                    rest[i][k],
                ) by {
                assert(rest[i] == ws[i + 1]);
            }
        }
        lemma_capitalized_plain(rest);
        let word = ws[0];
        let head = capitalized(word);
        let all = capitalized_concat(ws);
        assert(word.len() > 0);
        assert forall|i: int| 0 <= i < all.len() implies is_upper(#[trigger] all[i]) || is_small(
            all[i],
        ) by {
            if i < head.len() {
                assert(all[i] == head[i]);
                assert(is_upper(word[i]) || is_small(word[i]));
            } else {
                assert(all[i] == capitalized_concat(rest)[i - head.len()]);
            }
        }
    }
}

/// A name stays a name with `_` after it, and is then no keyword.
pub proof fn lemma_escaped_is_identifier(name: Seq<char>)
    requires
        is_name(name),
    ensures
        is_identifier(escaped(name)),
{
    if is_keyword(name) {
        let longer = name + seq!['_'];
        assert(longer[0] == name[0]);
        assert(longer.last() == '_');
        assert(longer != seq!['_']) by {
            assert(seq!['_'].len() == 1);
        }
        assert forall|i: int| 0 <= i < longer.len() implies is_upper(#[trigger] longer[i])
            || is_small(longer[i]) || longer[i] == '_' by {
            if i < name.len() {
                assert(longer[i] == name[i]);
            }
        }
        if is_keyword(longer) {
            lemma_keyword_ends_in_letter(longer);
        }
    }
}

/// The name of a field or method is an identifier, whatever it is made
/// from.
pub proof fn lemma_field_label_is_identifier(text: Seq<char>)
    ensures
        is_identifier(field_label(text)),
{
    lemma_plain_field_label(text);
    lemma_escaped_is_identifier(plain_field_label(text));
}

/// The name of a type can stand for a generated type, whatever it is made
/// from.
pub proof fn lemma_type_label_is_identifier(text: Seq<char>)
    ensures
        is_type_identifier(type_label(text)),
{
    lemma_plain_type_label(text);
    let name = plain_type_label(text);
    lemma_escaped_is_identifier(name);
    if is_keyword(name) || is_reserved(name) {
        let longer = name + seq!['_'];
        assert(longer[0] == name[0]);
        assert(longer.last() == '_');
        assert(longer != seq!['_']) by {
            assert(seq!['_'].len() == 1);
        }
        assert forall|i: int| 0 <= i < longer.len() implies is_upper(#[trigger] longer[i])
            || is_small(longer[i]) || longer[i] == '_' by {
            if i < name.len() {
                assert(longer[i] == name[i]);
            }
        }
        if is_keyword(longer) {
            lemma_keyword_ends_in_letter(longer);
        }
        if is_reserved(longer) {
            lemma_reserved_ends_in_letter(longer);
        }
    }
}

proof fn lemma_plain_field_label(text: Seq<char>)
    ensures
        is_name(plain_field_label(text)),
{
    let name = snake_case(text);
    lemma_snake_case_alphabet(text);
    lemma_words_plain(text, 0);
    lemma_lower_join(words(text));
    lemma_lowered_small(words(text));
    let result = plain_field_label(text);
    if name.len() == 0 {
        reveal_strlit("unnamed");
        assert(result.len() == 7);
        assert(result != seq!['_']);
    } else {
        // the first word is not empty, so the name does not begin with `_`
        let lw = lowered(words(text));
        assert(name == join(lw, seq!['_']));
        assert(lw.len() > 0);
        assert(lw[0].len() > 0 && all_small(lw[0]));
        assert(name[0] == lw[0][0]) by {
            if lw.len() > 1 {
                assert(name == lw[0] + seq!['_'] + join(lw.drop_first(), seq!['_']));
            }
        }
        if is_digit(name[0]) {
            assert(result.len() > 1);
            assert(result != seq!['_']);
            assert forall|i: int| 0 <= i < result.len() implies is_upper(#[trigger] result[i])
                || is_small(result[i]) || result[i] == '_' by {
                if i > 0 {
                    assert(result[i] == name[i - 1]);
                }
            }
        } else {
            assert(result != seq!['_']) by {
                assert(seq!['_'][0] == '_');
            }
        }
    }
}

proof fn lemma_plain_type_label(text: Seq<char>)
    ensures
        is_name(plain_type_label(text)),
{
    let name = pascal_case(text);
    lemma_words_plain(text, 0);
    lemma_capitalized_plain(words(text));
    let result = plain_type_label(text);
    if name.len() == 0 {
        reveal_strlit("Unnamed");
        assert(result.len() == 7);
        assert(result != seq!['_']);
    } else if is_digit(name[0]) {
        assert(result.len() > 1);
        assert(result != seq!['_']);
        assert forall|i: int| 0 <= i < result.len() implies is_upper(#[trigger] result[i])
            || is_small(result[i]) || result[i] == '_' by {
            if i > 0 {
                assert(result[i] == name[i - 1]);
            }
        }
    } else {
        assert(result != seq!['_']) by {
            assert(seq!['_'][0] == '_');
        }
    }
}

} // verus!
