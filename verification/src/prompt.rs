//! Reading answers typed at a terminal prompt.
use vstd::prelude::*;

use crate::files::digits_value;
use crate::text::{chars_of, lower_all, lower_chars, trim, trim_chars};

verus! {

/// What a yes/no answer means: blank takes the default, `y` and `yes` in any ASCII
/// case mean yes, anything else means no.
pub open spec fn interpret_spec(answer: Seq<char>, default_yes: bool) -> bool {
    let word = lower_all(trim(answer));
    if word.len() == 0 {
        default_yes
    } else {
        word == "y"@ || word == "yes"@
    }
}

pub fn interpret(answer: &str, default_yes: bool) -> (yes: bool)
    ensures
        yes == interpret_spec(answer@, default_yes),
{
    let word = lower_chars(trim_chars(chars_of(answer).as_slice()).as_slice());
    if word.len() == 0 {
        return default_yes;
    }
    proof {
        reveal_strlit("y");
        reveal_strlit("yes");
    }
    if word.len() == 1 {
        assert(word@ == "y"@ <==> word@[0] == 'y') by {
            if word@[0] == 'y' {
                assert(word@ =~= "y"@);
            }
        }
        word[0] == 'y'
    } else if word.len() == 3 {
        assert(word@ == "yes"@ <==> (word@[0] == 'y' && word@[1] == 'e' && word@[2] == 's')) by {
            if word@[0] == 'y' && word@[1] == 'e' && word@[2] == 's' {
                assert(word@ =~= "yes"@);
            }
        }
        word[0] == 'y' && word[1] == 'e' && word[2] == 's'
    } else {
        false
    }
}

pub open spec fn is_digit(c: char) -> bool {
    '0' <= c && c <= '9'
}

/// `text` without the `+` it may start with.
pub open spec fn unsigned_digits(text: Seq<char>) -> Seq<char> {
    if text.len() > 0 && text[0] == '+' {
        text.drop_first()
    } else {
        text
    }
}

pub open spec fn all_digits(ds: Seq<char>) -> bool {
    forall|i: int| 0 <= i < ds.len() ==> is_digit(#[trigger] ds[i])
}

/// The number `text` stands for as `usize::from_str` reads it: an optional `+`, then
/// one or more ASCII digits, with a value that fits in `usize`.
pub open spec fn parse_usize_spec(text: Seq<char>) -> Option<nat> {
    let digits = unsigned_digits(text);
    if digits.len() == 0 || !all_digits(digits) {
        None
    } else if digits_value(digits) > usize::MAX {
        None
    } else {
        Some(digits_value(digits) as nat)
    }
}

proof fn lemma_value_grows(ds: Seq<char>, i: int)
    requires
        0 <= i <= ds.len(),
        forall|k: int| 0 <= k < ds.len() ==> is_digit(#[trigger] ds[k]),
    ensures
        0 <= digits_value(ds.take(i)) <= digits_value(ds),
    decreases ds.len(),
{
    if ds.len() == 0 {
        assert(ds.take(i) =~= ds);
    } else {
        let before = ds.drop_last();
        assert forall|k: int| 0 <= k < before.len() implies is_digit(#[trigger] before[k]) by {
            assert(before[k] == ds[k]);
        }
        if i == ds.len() {
            assert(ds.take(i) =~= ds);
            lemma_value_grows(before, 0);
        } else {
            lemma_value_grows(before, i);
            assert(before.take(i) =~= ds.take(i));
            lemma_value_grows(before, before.len() as int);
            assert(before.take(before.len() as int) =~= before);
            assert(is_digit(ds.last()));
        }
    }
}

fn parse_usize(text: &[char]) -> (value: Option<usize>)
    ensures
        match value {
            Some(v) => parse_usize_spec(text@) == Some(v as nat),
            None => parse_usize_spec(text@) is None,
        },
{
    let start: usize = if text.len() > 0 && text[0] == '+' {
        1
    } else {
        0
    };
    let ghost digits = unsigned_digits(text@);
    assert(digits =~= text@.skip(start as int));
    if start >= text.len() {
        return None;
    }
    let mut i: usize = start;
    while i < text.len()
        invariant
            start <= i <= text.len(),
            start < text.len(),
            digits == text@.skip(start as int),
            digits == unsigned_digits(text@),
            forall|k: int| start <= k < i ==> is_digit(#[trigger] text@[k]),
        decreases text.len() - i,
    {
        if !('0' <= text[i] && text[i] <= '9') {
            assert(!is_digit(text@[i as int]));
            assert(digits[i - start] == text@[i as int]);
            return None;
        }
        i = i + 1;
    }
    assert forall|k: int| 0 <= k < digits.len() implies is_digit(#[trigger] digits[k]) by {
        assert(digits[k] == text@[k + start]);
    }
    let mut value: usize = 0;
    let mut j: usize = start;
    assert(digits.take(0) =~= Seq::<char>::empty());
    while j < text.len()
        invariant
            start <= j <= text.len(),
            digits == text@.skip(start as int),
            digits == unsigned_digits(text@),
            forall|k: int| 0 <= k < digits.len() ==> is_digit(#[trigger] digits[k]),
            value == digits_value(digits.take(j - start)),
        decreases text.len() - j,
    {
        assert(digits[j - start] == text@[j as int]);
        assert(is_digit(digits[j - start]));
        assert(digits.take(j - start + 1).drop_last() =~= digits.take(j - start));
        assert(digits.take(j - start + 1).last() == text@[j as int]);
        let d: usize = (text[j] as u32 - 48) as usize;
        assert(digits_value(digits.take(j - start + 1)) == value * 10 + d);
        match value.checked_mul(10) {
            Some(tens) => match tens.checked_add(d) {
                Some(next) => {
                    value = next;
                },
                None => {
                    proof {
                        lemma_value_grows(digits, j - start + 1);
                    }
                    return None;
                },
            },
            None => {
                proof {
                    lemma_value_grows(digits, j - start + 1);
                }
                return None;
            },
        }
        j = j + 1;
    }
    assert(digits.take(digits.len() as int) =~= digits);
    Some(value)
}

/// The index a typed choice among `count` items picks: the answer, trimmed, read as a
/// number from 1 to `count`, less one.
pub open spec fn choice_spec(answer: Seq<char>, count: nat) -> Option<nat> {
    match parse_usize_spec(trim(answer)) {
        Some(n) => if 1 <= n <= count {
            Some((n - 1) as nat)
        } else {
            None
        },
        None => None,
    }
}

pub fn parse_choice(answer: &str, count: usize) -> (choice: Option<usize>)
    ensures
        match choice {
            Some(c) => choice_spec(answer@, count as nat) == Some(c as nat),
            None => choice_spec(answer@, count as nat) is None,
        },
{
    let trimmed = trim_chars(chars_of(answer).as_slice());
    match parse_usize(trimmed.as_slice()) {
        Some(n) => if 1 <= n && n <= count {
            Some(n - 1)
        } else {
            None
        },
        None => None,
    }
}

} // verus!
