//! Reading the level a player typed: decimal text to a level of the pass.

use vstd::prelude::*;
use crate::xp::MAX_LEVEL;

verus! {

/// Whether `c` is an ASCII decimal digit.
pub open spec fn is_digit(c: char) -> bool {
    '0' <= c && c <= '9'
}

/// The value of the decimal digit `c`.
pub open spec fn digit_value(c: char) -> nat {
    (c as int - '0' as int) as nat
}

/// Whether every character of `s` is a decimal digit.
pub open spec fn all_digits(s: Seq<char>) -> bool {
    forall|i: int| 0 <= i < s.len() ==> is_digit(#[trigger] s[i])
}

/// The number that the digits `s` spell, most significant first.
pub open spec fn decimal_value(s: Seq<char>) -> nat
    decreases s.len(),
{
    if s.len() == 0 {
        0
    } else {
        decimal_value(s.drop_last()) * 10 + digit_value(s.last())
    }
}

/// The digits of an unsigned number's text: what follows one optional
/// leading `+`.
pub open spec fn digits_part(s: Seq<char>) -> Seq<char> {
    if s.len() > 0 && s[0] == '+' {
        s.drop_first()
    } else {
        s
    }
}

/// The unsigned number that `s` spells, as Rust's integer parsing reads it:
/// an optional `+`, then one or more decimal digits and nothing else.
/// `None` for any other text, a sign `-` or surrounding spaces included.
pub open spec fn parsed_unsigned(s: Seq<char>) -> Option<nat> {
    let d = digits_part(s);
    if d.len() > 0 && all_digits(d) {
        Some(decimal_value(d))
    } else {
        None
    }
}

/// The level that the text `s` stands for: the number it spells where that
/// is a level of the pass, and 0 for anything else.
pub open spec fn level_of(s: Seq<char>) -> nat {
    match parsed_unsigned(s) {
        Some(v) => if v <= MAX_LEVEL {
            v
        } else {
            0
        },
        None => 0,
    }
}

/// `v` held to at most one past the last level, which is all that parsing
/// needs to know of a number beyond the pass.
pub open spec fn capped(v: nat) -> nat {
    if v <= MAX_LEVEL + 1 {
        v
    } else {
        (MAX_LEVEL + 1) as nat
    }
}

/// The decimal digit for `d`, which is below ten.
pub open spec fn digit_char(d: nat) -> char {
    seq!['0', '1', '2', '3', '4', '5', '6', '7', '8', '9'][d as int]
}

/// The usual decimal text of `n`: no sign and no leading zeros.
pub open spec fn decimal_text(n: nat) -> Seq<char>
    decreases n,
{
    if n < 10 {
        seq![digit_char(n)]
    } else {
        decimal_text(n / 10).push(digit_char(n % 10))
    }
}

proof fn lemma_digit_char(d: nat)
    requires
        d < 10,
    ensures
        is_digit(digit_char(d)),
        digit_value(digit_char(d)) == d,
        digit_char(d) != '+',
{
}

/// The decimal text of `n` is digits only, and spells `n`.
proof fn lemma_decimal_text(n: nat)
    ensures
        decimal_text(n).len() > 0,
        decimal_text(n)[0] != '+',
        all_digits(decimal_text(n)),
        decimal_value(decimal_text(n)) == n,
    decreases n,
{
    if n < 10 {
        lemma_digit_char(n);
        assert(decimal_text(n).drop_last() =~= Seq::<char>::empty());
        assert(decimal_value(decimal_text(n)) == decimal_value(Seq::<char>::empty()) * 10
            + digit_value(digit_char(n)));
    } else {
        let t = decimal_text(n);
        let head = decimal_text(n / 10);
        lemma_decimal_text(n / 10);
        lemma_digit_char(n % 10);
        assert(t.drop_last() =~= head);
        assert(t[0] == head[0]);
        assert(t.last() == digit_char(n % 10));
        assert(decimal_value(t) == decimal_value(head) * 10 + digit_value(t.last()));
        assert((n / 10) * 10 + n % 10 == n);
        assert forall|k: int| 0 <= k < t.len() implies is_digit(#[trigger] t[k]) by {
            if k < head.len() {
                assert(t[k] == head[k]);
            }
        }
    }
}

/// Text that is no unsigned number, or spells one above the last level, is
/// read as level 0.
pub proof fn lemma_rejected_text_is_level_zero(s: Seq<char>)
    requires
        parsed_unsigned(s) is None || parsed_unsigned(s).unwrap() > MAX_LEVEL,
    ensures
        level_of(s) == 0,
{
}

/// The decimal text of any level of the pass is read back as that level.
pub proof fn lemma_level_text_round_trip(level: nat)
    requires
        level <= MAX_LEVEL,
    ensures
        parsed_unsigned(decimal_text(level)) == Some(level),
        level_of(decimal_text(level)) == level,
{
    lemma_decimal_text(level);
}

/// The level that `raw` stands for. Text that is no unsigned decimal number,
/// and numbers above the last level, give level 0; this never fails.
pub fn parse_level(raw: &str) -> (r: usize)
    ensures
        r == level_of(raw@),
        r <= MAX_LEVEL,
{
    let n = raw.unicode_len();
    let mut start: usize = 0;
    if n > 0 && raw.get_char(0) == '+' {
        start = 1;
    }
    assert(digits_part(raw@) =~= raw@.subrange(start as int, n as int));
    if start >= n {
        return 0;
    }
    let mut value: usize = 0;
    let mut i: usize = start;
    while i < n
        invariant
            start <= i <= n,
            start < n,
            n == raw@.len(),
            digits_part(raw@) == raw@.subrange(start as int, n as int),
            all_digits(raw@.subrange(start as int, i as int)),
            value == capped(decimal_value(raw@.subrange(start as int, i as int))),
        decreases n - i,
    {
        let c = raw.get_char(i);
        if !('0' <= c && c <= '9') {
            assert(digits_part(raw@)[i - start] == c);
            return 0;
        }
        let ghost before = raw@.subrange(start as int, i as int);
        let ghost after = raw@.subrange(start as int, i + 1);
        assert(after.drop_last() =~= before);
        assert(after.last() == c);
        let d = (c as u32 - '0' as u32) as usize;
        if value <= MAX_LEVEL {
            value = value * 10 + d;
            if value > MAX_LEVEL + 1 {
                value = MAX_LEVEL + 1;
            }
        }
        i = i + 1;
        assert(all_digits(after)) by {
            assert forall|k: int| 0 <= k < after.len() implies is_digit(#[trigger] after[k]) by {
                if k < before.len() {
                    assert(after[k] == before[k]);
                }
            }
        }
    }
    assert(raw@.subrange(start as int, n as int) == digits_part(raw@));
    if value <= MAX_LEVEL {
        value
    } else {
        0
    }
}

} // verus!
