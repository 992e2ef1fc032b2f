//! Names that are kept apart: where a name is taken, the first with a number
//! after it that is not.

use crate::text::{chain, decimal, decimal_text, digit_char, text_eq, views};
use crate::utils::casing::{is_digit, is_identifier, is_small, is_type_identifier, is_upper};
use crate::utils::keywords::{
    is_keyword, is_reserved, lemma_keyword_ends_in_letter, lemma_reserved_ends_in_letter,
};
use vstd::prelude::*;

verus! {

/// The name `stem` with the number `k` after it.
pub open spec fn numbered(stem: Seq<char>, k: nat) -> Seq<char> {
    stem + decimal(k)
}

/// The first of `stem` with `k`, `k + 1`, ... after it that is not among
/// `used`; the one with `limit + 1` where all up to `limit` are.
pub open spec fn first_unused(used: Seq<Seq<char>>, stem: Seq<char>, k: nat, limit: nat) -> Seq<
    char,
>
    decreases limit + 1 - k,
{
    if k > limit || !used.contains(numbered(stem, k)) {
        numbered(stem, k)
    } else {
        first_unused(used, stem, k + 1, limit)
    }
}

/// The name that `stem` is given beside the names `used`: `stem` itself,
/// or, where that is used, the first with a number from 2 on after it that is
/// not. There is one number more to try than names are used.
pub open spec fn unused_name(used: Seq<Seq<char>>, stem: Seq<char>) -> Seq<char> {
    if !used.contains(stem) {
        stem
    } else {
        first_unused(used, stem, 2, used.len() + 2)
    }
}

/// The names that the first `upto` of `stems` are given, one after the
/// other, beside the names `taken` and beside each other.
pub open spec fn names_given(taken: Seq<Seq<char>>, stems: Seq<Seq<char>>, upto: int) -> Seq<
    Seq<char>,
>
    decreases upto,
{
    if upto <= 0 || upto > stems.len() {
        Seq::empty()
    } else {
        let before = names_given(taken, stems, upto - 1);
        before.push(unused_name(taken + before, stems[upto - 1]))
    }
}

/// The name that `stems[i]` is given.
pub open spec fn name_given(taken: Seq<Seq<char>>, stems: Seq<Seq<char>>, i: int) -> Seq<char> {
    names_given(taken, stems, i + 1).last()
}

/// The digits of a number are digits.
pub(crate) proof fn lemma_decimal_digits(n: nat)
    ensures
        decimal(n).len() >= 1,
        n >= 10 ==> decimal(n).len() >= 2,
        forall|i: int| 0 <= i < decimal(n).len() ==> is_digit(#[trigger] decimal(n)[i]),
    decreases n,
{
    if n >= 10 {
        lemma_decimal_digits(n / 10);
    }
}

/// Two numbers that are written the same are the same.
pub(crate) proof fn lemma_decimal_injective(a: nat, b: nat)
    requires
        decimal(a) == decimal(b),
    ensures
        a == b,
    decreases a,
{
    lemma_decimal_digits(a);
    lemma_decimal_digits(b);
    if a >= 10 {
        assert(decimal(a).drop_last() == decimal(a / 10));
        assert(decimal(b).drop_last() == decimal(b / 10));
        assert(decimal(a).last() == digit_char(a % 10));
        assert(decimal(b).last() == digit_char(b % 10));
        lemma_decimal_injective(a / 10, b / 10);
    } else {
        assert(decimal(a)[0] == digit_char(a));
        assert(decimal(b)[0] == digit_char(b));
    }
}

/// An identifier with a number after it is an identifier.
pub(crate) proof fn lemma_numbered_is_identifier(stem: Seq<char>, k: nat)
    requires
        is_identifier(stem),
    ensures
        is_identifier(numbered(stem, k)),
        !is_reserved(numbered(stem, k)),
{
    lemma_decimal_digits(k);
    let name = numbered(stem, k);
    assert(name.last() == decimal(k).last());
    if is_keyword(name) {
        lemma_keyword_ends_in_letter(name);
    }
    if is_reserved(name) {
        lemma_reserved_ends_in_letter(name);
    }
    assert(name[0] == stem[0]);
    assert(name != seq!['_']) by {
        assert(name.len() >= 2);
        assert(seq!['_'].len() == 1);
    }
    assert forall|i: int| 0 <= i < name.len() implies is_upper(#[trigger] name[i]) || is_small(
        name[i],
    ) || name[i] == '_' by {
        if i < stem.len() {
            assert(name[i] == stem[i]);
        } else {
            assert(name[i] == decimal(k)[i - stem.len()]);
        }
    }
}

/// Among the numbers from 2 to two more than there are names used, one
/// gives a name that is not used: there is one number more than names.
pub(crate) proof fn lemma_some_number_is_unused(used: Seq<Seq<char>>, stem: Seq<char>)
    ensures
        exists|k: nat| 2 <= k <= used.len() + 2 && !used.contains(#[trigger] numbered(stem, k)),
{
    let n = used.len();
    let candidates = Seq::new(n + 1, |i: int| numbered(stem, (i + 2) as nat));
    if forall|k: nat| 2 <= k <= n + 2 ==> used.contains(#[trigger] numbered(stem, k)) {
        assert(candidates.no_duplicates()) by {
            assert forall|i: int, j: int|
                0 <= i < candidates.len() && 0 <= j < candidates.len() && i != j implies candidates[i]
                != candidates[j] by {
                if candidates[i] == candidates[j] {
                    let a = decimal((i + 2) as nat);
                    let b = decimal((j + 2) as nat);
                    assert(a == (stem + a).subrange(stem.len() as int, (stem + a).len() as int));
                    assert(b == (stem + b).subrange(stem.len() as int, (stem + b).len() as int));
                    lemma_decimal_injective((i + 2) as nat, (j + 2) as nat);
                }
            }
        }
        candidates.unique_seq_to_set();
        used.lemma_cardinality_of_set();
        vstd::seq_lib::seq_to_set_is_finite(used);
        assert(candidates.to_set().subset_of(used.to_set())) by {
            assert forall|x: Seq<char>| candidates.to_set().contains(x) implies used.to_set().contains(
                x,
            ) by {
                let i = choose|i: int| 0 <= i < candidates.len() && candidates[i] == x;
                assert(used.contains(numbered(stem, (i + 2) as nat)));
            }
        }
        vstd::set_lib::lemma_len_subset(candidates.to_set(), used.to_set());
    }
}

proof fn lemma_first_unused(used: Seq<Seq<char>>, stem: Seq<char>, k: nat, limit: nat, free: nat)
    requires
        k <= free <= limit,
        !used.contains(numbered(stem, free)),
    ensures
        !used.contains(first_unused(used, stem, k, limit)),
        exists|found: nat|
            k <= found <= limit && first_unused(used, stem, k, limit) == numbered(stem, found),
    decreases limit + 1 - k,
{
    if used.contains(numbered(stem, k)) {
        lemma_first_unused(used, stem, (k + 1) as nat, limit, free);
        let found = choose|found: nat|
            k + 1 <= found <= limit && first_unused(used, stem, (k + 1) as nat, limit) == numbered(
                stem,
                found,
            );
        assert(first_unused(used, stem, k, limit) == numbered(stem, found));
    } else {
        assert(first_unused(used, stem, k, limit) == numbered(stem, k));
    }
}

/// The name that is given is not used, whatever is; and it is an identifier
/// where the stem is one.
pub proof fn lemma_unused_name(used: Seq<Seq<char>>, stem: Seq<char>)
    ensures
        !used.contains(unused_name(used, stem)),
        is_identifier(stem) ==> is_identifier(unused_name(used, stem)),
        is_type_identifier(stem) ==> is_type_identifier(unused_name(used, stem)),
{
    if used.contains(stem) {
        lemma_some_number_is_unused(used, stem);
        let free = choose|k: nat|
            2 <= k <= used.len() + 2 && !used.contains(#[trigger] numbered(stem, k));
        lemma_first_unused(used, stem, 2, used.len() + 2, free);
        let found = choose|found: nat|
            2 <= found <= used.len() + 2 && first_unused(used, stem, 2, used.len() + 2)
                == numbered(stem, found);
        if is_identifier(stem) {
            lemma_numbered_is_identifier(stem, found);
        }
    }
}

/// The names that are given are as many as the stems, no two of them are the
/// same, none is one of those taken, and each is an identifier where its stem
/// is one. A name that is given stays as more are given.
pub proof fn lemma_names_given(taken: Seq<Seq<char>>, stems: Seq<Seq<char>>, upto: int)
    requires
        0 <= upto <= stems.len(),
    ensures
        names_given(taken, stems, upto).len() == upto,
        names_given(taken, stems, upto).no_duplicates(),
        forall|i: int|
            0 <= i < upto ==> !taken.contains(#[trigger] names_given(taken, stems, upto)[i]),
        forall|i: int|
            0 <= i < upto && is_identifier(stems[i]) ==> is_identifier(
                #[trigger] names_given(taken, stems, upto)[i],
            ),
        forall|i: int|
            0 <= i < upto && is_type_identifier(stems[i]) ==> is_type_identifier(
                #[trigger] names_given(taken, stems, upto)[i],
            ),
        forall|i: int|
            0 <= i < upto ==> #[trigger] names_given(taken, stems, upto)[i] == name_given(
                taken,
                stems,
                i,
            ),
    decreases upto,
{
    if upto > 0 {
        lemma_names_given(taken, stems, upto - 1);
        let before = names_given(taken, stems, upto - 1);
        let all = names_given(taken, stems, upto);
        let added = unused_name(taken + before, stems[upto - 1]);
        lemma_unused_name(taken + before, stems[upto - 1]);
        assert(all == before.push(added));
        assert forall|i: int| 0 <= i < upto - 1 implies before[i] != added by {
            assert((taken + before)[taken.len() + i] == before[i]);
        }
        assert(!taken.contains(added)) by {
            if taken.contains(added) {
                let i = choose|i: int| 0 <= i < taken.len() && taken[i] == added;
                assert((taken + before)[i] == added);
            }
        }
        assert forall|i: int| 0 <= i < upto implies !taken.contains(#[trigger] all[i]) by {
            if i < upto - 1 {
                assert(all[i] == before[i]);
            }
        }
        assert forall|i: int| 0 <= i < upto implies #[trigger] all[i] == name_given(
            taken,
            stems,
            i,
        ) by {
            if i < upto - 1 {
                assert(all[i] == before[i]);
            }
        }
    }
}

/// Whether `text` is among `used`.
pub fn is_used(used: &Vec<String>, text: &str) -> (found: bool)
    ensures
        found == views(used@).contains(text@),
{
    let mut i: usize = 0;
    while i < used.len()
        invariant
            i <= used.len(),
            forall|k: int| 0 <= k < i ==> views(used@)[k] != text@,
        decreases used.len() - i,
    {
        if text_eq(used[i].as_str(), text) {
            assert(views(used@)[i as int] == text@);
            return true;
        }
        i += 1;
    }
    false
}

/// Gives `stem` a name beside the names `used`.
pub fn unused_identifier(used: &Vec<String>, stem: &str) -> (name: String)
    ensures
        name@ == unused_name(views(used@), stem@),
{
    if !is_used(used, stem) {
        return String::from_str(stem);
    }
    let limit: u128 = used.len() as u128 + 2;
    let mut k: u128 = 2;
    while k <= limit
        invariant
            2 <= k <= limit + 1,
            limit == used.len() + 2,
            views(used@).contains(stem@),
            first_unused(views(used@), stem@, 2, limit as nat) == first_unused(
                views(used@),
                stem@,
                k as nat,
                limit as nat,
            ),
        decreases limit + 1 - k,
    {
        let candidate = chain(stem, decimal_text(k).as_str());
        if !is_used(used, candidate.as_str()) {
            return candidate;
        }
        k += 1;
    }
    chain(stem, decimal_text(k).as_str())
}

} // verus!
