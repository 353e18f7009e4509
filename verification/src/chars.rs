//! Runs of characters: the scanning primitive shared by the template
//! tokenizer and the resolution-ladder parser.

use itertools::Itertools;
use std::str::Chars;
use vstd::prelude::*;
use vstd::std_specs::iter::IteratorSpec;

verus! {

/// Whether `c` belongs to the run selected by `mark`: the characters equal
/// to `mark` when `equal` is set, the characters different from it otherwise.
pub open spec fn in_run(c: char, mark: char, equal: bool) -> bool {
    (c == mark) == equal
}

/// The number of leading characters of `s` that belong to the run selected
/// by `mark` and `equal`.
pub open spec fn run_len(s: Seq<char>, mark: char, equal: bool) -> nat
    decreases s.len(),
{
    if s.len() > 0 && in_run(s[0], mark, equal) {
        1 + run_len(s.drop_first(), mark, equal)
    } else {
        0
    }
}

/// A run never exceeds the sequence, holds only characters of the run, and
/// ends at the end of the sequence or before a character outside the run.
pub proof fn lemma_run_len_bounds(s: Seq<char>, mark: char, equal: bool)
    ensures
        run_len(s, mark, equal) <= s.len(),
        forall|i: int| 0 <= i < run_len(s, mark, equal) ==> in_run(#[trigger] s[i], mark, equal),
        run_len(s, mark, equal) < s.len() ==> !in_run(
            s[run_len(s, mark, equal) as int],
            mark,
            equal,
        ),
    decreases s.len(),
{
    if s.len() > 0 && in_run(s[0], mark, equal) {
        let t = s.drop_first();
        lemma_run_len_bounds(t, mark, equal);
        assert forall|i: int| 0 <= i < run_len(s, mark, equal) implies in_run(
            #[trigger] s[i],
            mark,
            equal,
        ) by {
            if i > 0 {
                assert(s[i] == t[i - 1]);
            }
        }
        if run_len(s, mark, equal) < s.len() {
            assert(s[run_len(s, mark, equal) as int] == t[run_len(t, mark, equal) as int]);
        }
    }
}

/// The run is the only length with the properties of `lemma_run_len_bounds`.
pub proof fn lemma_run_len_unique(s: Seq<char>, mark: char, equal: bool, n: nat)
    requires
        n <= s.len(),
        forall|i: int| 0 <= i < n ==> in_run(#[trigger] s[i], mark, equal),
        n < s.len() ==> !in_run(s[n as int], mark, equal),
    ensures
        run_len(s, mark, equal) == n,
    decreases n,
{
    if n > 0 {
        let t = s.drop_first();
        assert(in_run(s[0], mark, equal));
        assert forall|i: int| 0 <= i < n - 1 implies in_run(#[trigger] t[i], mark, equal) by {
            assert(t[i] == s[i + 1]);
        }
        lemma_run_len_unique(t, mark, equal, (n - 1) as nat);
    }
}

/// A prefix of `s` that holds only characters of the run, and ends at the end
/// of `s` or before a character outside the run, is the leading run of `s`.
pub proof fn lemma_run_taken(s: Seq<char>, run: Seq<char>, mark: char, equal: bool)
    requires
        run.len() <= s.len(),
        run == s.take(run.len() as int),
        forall|i: int| 0 <= i < run.len() ==> in_run(#[trigger] run[i], mark, equal),
        run.len() < s.len() ==> !in_run(s[run.len() as int], mark, equal),
    ensures
        run.len() == run_len(s, mark, equal),
{
    assert forall|i: int| 0 <= i < run.len() implies in_run(#[trigger] s[i], mark, equal) by {
        assert(s[i] == run[i]);
    }
    lemma_run_len_unique(s, mark, equal, run.len());
}

/// Whether `c` belongs to the run selected by `mark` and `equal`.
pub fn accepts(c: char, mark: char, equal: bool) -> (b: bool)
    ensures
        b == in_run(c, mark, equal),
{
    (c == mark) == equal
}

/// Takes the leading run selected by `mark` and `equal` off `chars`.
///
/// This is `itertools::Itertools::take_while_ref` with `accepts` as its
/// predicate, collected into a `String`. The contract is not proved. It
/// claims what the adaptor documents: the characters handed out are the
/// longest prefix of the remaining ones that the predicate accepts, in
/// order, and the iterator is left at the first character that was not
/// accepted, which it still holds.
#[verifier::external_body]
pub(crate) fn take_run(chars: &mut Chars<'_>, mark: char, equal: bool) -> (run: String)
    ensures
        run@.len() <= (*old(chars)).remaining().len(),
        run@ == (*old(chars)).remaining().take(run@.len() as int),
        forall|i: int| 0 <= i < run@.len() ==> in_run(#[trigger] run@[i], mark, equal),
        run@.len() < (*old(chars)).remaining().len() ==> !in_run(
            (*old(chars)).remaining()[run@.len() as int],
            mark,
            equal,
        ),
        (*final(chars)).remaining() == (*old(chars)).remaining().skip(run@.len() as int),
{
    chars.take_while_ref(|c| accepts(*c, mark, equal)).collect()
}

/// The characters of a text.
pub fn chars_of(text: &str) -> (chars: Vec<char>)
    ensures
        chars@ == text@,
{
    let mut iter = text.chars();
    let mut chars: Vec<char> = Vec::new();
    let ghost mut rest: Seq<char> = text@;
    loop
        invariant
            iter.remaining() == rest,
            chars@ + rest == text@,
        decreases rest.len(),
    {
        match iter.next() {
            None => {
                proof {
                    assert(chars@ =~= chars@ + rest);
                }
                return chars;
            },
            Some(c) => {
                proof {
                    assert(chars@.push(c) + rest.drop_first() =~= chars@ + rest);
                    rest = rest.drop_first();
                }
                chars.push(c);
            },
        }
    }
}

/// The fields of `s` between the separators `sep`. A field ends before the
/// next separator or at the end of `s` and may be empty, so that a text
/// without a separator is one field.
pub open spec fn split(s: Seq<char>, sep: char) -> Seq<Seq<char>>
    decreases s.len(),
{
    let field = run_len(s, sep, false);
    if field >= s.len() {
        seq![s]
    } else {
        seq![s.take(field as int)] + split(s.skip(field as int + 1), sep)
    }
}

/// A text has at least one field.
pub proof fn lemma_split_len(s: Seq<char>, sep: char)
    ensures
        split(s, sep).len() >= 1,
    decreases s.len(),
{
    let field = run_len(s, sep, false);
    if field < s.len() {
        lemma_split_len(s.skip(field as int + 1), sep);
    }
}

/// The texts that `fields` hold.
pub open spec fn texts(fields: Seq<Vec<char>>) -> Seq<Seq<char>> {
    fields.map_values(|field: Vec<char>| field@)
}

/// Splits `chars` at each separator `sep`.
pub fn split_at(chars: &Vec<char>, sep: char) -> (fields: Vec<Vec<char>>)
    ensures
        texts(fields@) == split(chars@, sep),
        fields@.len() >= 1,
{
    let mut fields: Vec<Vec<char>> = Vec::new();
    let mut field: Vec<char> = Vec::new();
    let mut i: usize = 0;
    let ghost mut start: int = 0;
    proof {
        assert(chars@.skip(0) =~= chars@);
        assert(texts(fields@) + split(chars@, sep) =~= split(chars@, sep));
    }
    while i < chars.len()
        invariant
            0 <= start <= i <= chars.len(),
            field@ == chars@.subrange(start, i as int),
            forall|j: int| 0 <= j < field@.len() ==> field@[j] != sep,
            split(chars@, sep) == texts(fields@) + split(chars@.skip(start), sep),
        decreases chars.len() - i,
    {
        let c = chars[i];
        let ghost rest = chars@.skip(start);
        if c == sep {
            proof {
                assert forall|j: int| 0 <= j < field@.len() implies in_run(
                    #[trigger] rest[j],
                    sep,
                    false,
                ) by {
                    assert(rest[j] == field@[j]);
                }
                lemma_run_len_unique(rest, sep, false, field@.len());
                assert(rest.take(field@.len() as int) =~= field@);
                assert(rest.skip(field@.len() as int + 1) =~= chars@.skip(i as int + 1));
                assert(texts(fields@.push(field)) =~= texts(fields@) + seq![field@]);
                assert(texts(fields@) + (seq![field@] + split(chars@.skip(i as int + 1), sep))
                    =~= (texts(fields@) + seq![field@]) + split(chars@.skip(i as int + 1), sep));
                start = i as int + 1;
            }
            fields.push(field);
            field = Vec::new();
        } else {
            field.push(c);
        }
        i = i + 1;
        proof {
            assert(field@ =~= chars@.subrange(start, i as int));
        }
    }
    proof {
        let rest = chars@.skip(start);
        assert(rest =~= field@);
        assert forall|j: int| 0 <= j < rest.len() implies in_run(#[trigger] rest[j], sep, false) by {
            assert(rest[j] == field@[j]);
        }
        lemma_run_len_unique(rest, sep, false, rest.len());
        assert(texts(fields@.push(field)) =~= texts(fields@) + seq![field@]);
    }
    fields.push(field);
    fields
}

/// Whether `c` is one of the digits `0` to `9`.
pub open spec fn is_digit(c: char) -> bool {
    '0' <= c <= '9'
}

/// The number that the decimal digits `digits` write.
pub open spec fn decimal_value(digits: Seq<char>) -> nat
    decreases digits.len(),
{
    if digits.len() == 0 {
        0
    } else {
        (decimal_value(digits.drop_last()) * 10 + (digits.last() as int - '0' as int)) as nat
    }
}

/// Whether `digits` holds digits only.
pub open spec fn all_digits(digits: Seq<char>) -> bool {
    forall|i: int| 0 <= i < digits.len() ==> is_digit(#[trigger] digits[i])
}

/// `text` without the `+` that may stand in front of a number.
pub open spec fn unsigned(text: Seq<char>) -> Seq<char> {
    if text.len() > 0 && text[0] == '+' {
        text.drop_first()
    } else {
        text
    }
}

/// The unsigned 32-bit number that `text` writes in decimal: an optional `+`
/// and then at least one digit, with a value of at most `u32::MAX`. Any
/// other text writes none.
pub open spec fn decimal(text: Seq<char>) -> Option<u32> {
    let digits = unsigned(text);
    if digits.len() > 0 && all_digits(digits) && decimal_value(digits) <= u32::MAX {
        Some(decimal_value(digits) as u32)
    } else {
        None
    }
}

/// Digits in front write no more than all the digits.
proof fn lemma_decimal_value_prefix(digits: Seq<char>, n: int)
    requires
        0 <= n <= digits.len(),
        all_digits(digits),
    ensures
        decimal_value(digits.take(n)) <= decimal_value(digits),
    decreases digits.len() - n,
{
    if n < digits.len() {
        let longer = digits.take(n + 1);
        assert(longer.drop_last() =~= digits.take(n));
        assert(is_digit(digits[n]));
        assert(longer.last() == digits[n]);
        lemma_decimal_value_prefix(digits, n + 1);
    } else {
        assert(digits.take(n) =~= digits);
    }
}

/// Reads an unsigned 32-bit number in decimal.
pub fn parse_u32(text: &Vec<char>) -> (value: Option<u32>)
    ensures
        value == decimal(text@),
{
    let start: usize = if text.len() > 0 && text[0] == '+' {
        1
    } else {
        0
    };
    let ghost digits = unsigned(text@);
    proof {
        assert(digits =~= text@.skip(start as int));
    }
    if start == text.len() {
        return None;
    }
    let mut value: u64 = 0;
    let mut i: usize = start;
    while i < text.len()
        invariant
            start <= i <= text.len(),
            digits == unsigned(text@),
            digits == text@.skip(start as int),
            all_digits(digits.take(i - start)),
            value == decimal_value(digits.take(i - start)),
            value <= u32::MAX,
        decreases text.len() - i,
    {
        let c = text[i];
        if c < '0' || c > '9' {
            proof {
                assert(digits[i - start] == c);
            }
            return None;
        }
        let digit: u64 = (c as u32 - '0' as u32) as u64;
        let ghost longer = digits.take(i - start + 1);
        proof {
            assert(digits[i - start] == c);
            assert(longer.drop_last() =~= digits.take(i - start));
            assert(longer.last() == c);
            assert forall|j: int| 0 <= j < longer.len() implies is_digit(#[trigger] longer[j]) by {
                if j < i - start {
                    assert(longer[j] == digits.take(i - start)[j]);
                }
            }
        }
        value = value * 10 + digit;
        i = i + 1;
        if value > 0xffff_ffff {
            proof {
                if all_digits(digits) {
                    lemma_decimal_value_prefix(digits, i - start);
                }
            }
            return None;
        }
    }
    proof {
        assert(digits.take(i - start) =~= digits);
    }
    Some(value as u32)
}

} // verus!
