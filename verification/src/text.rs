//! The few operations on text that the workers need.

use crate::scan::{first_from, first_index, lemma_first_from_unique, lemma_first_index_unique};
use vstd::prelude::*;
use vstd::string::{StrSliceExecFns, StringExecFns};

verus! {

/// The decimal digit `d`, as a character.
pub open spec fn digit_char(d: nat) -> char {
    if d == 0 {
        '0'
    } else if d == 1 {
        '1'
    } else if d == 2 {
        '2'
    } else if d == 3 {
        '3'
    } else if d == 4 {
        '4'
    } else if d == 5 {
        '5'
    } else if d == 6 {
        '6'
    } else if d == 7 {
        '7'
    } else if d == 8 {
        '8'
    } else {
        '9'
    }
}

/// The decimal numeral of `n`, without leading zeros.
pub open spec fn decimal(n: nat) -> Seq<char>
    decreases n,
{
    if n < 10 {
        seq![digit_char(n)]
    } else {
        decimal(n / 10).push(digit_char(n % 10))
    }
}

/// The numeral of one decimal digit.
fn digit_str(d: u64) -> (s: &'static str)
    requires
        d < 10,
    ensures
        s@ == seq![digit_char(d as nat)],
{
    let s = match d {
        0 => "0",
        1 => "1",
        2 => "2",
        3 => "3",
        4 => "4",
        5 => "5",
        6 => "6",
        7 => "7",
        8 => "8",
        _ => "9",
    };
    proof {
        reveal_strlit("0");
        reveal_strlit("1");
        reveal_strlit("2");
        reveal_strlit("3");
        reveal_strlit("4");
        reveal_strlit("5");
        reveal_strlit("6");
        reveal_strlit("7");
        reveal_strlit("8");
        reveal_strlit("9");
        assert(s@ =~= seq![digit_char(d as nat)]);
    }
    s
}

/// Appends the decimal numeral of `n` to `out`.
pub fn push_decimal(out: &mut String, n: u64)
    ensures
        final(out)@ == old(out)@ + decimal(n as nat),
    decreases n,
{
    if n >= 10 {
        push_decimal(out, n / 10);
    }
    out.append(digit_str(n % 10));
    assert(out@ =~= old(out)@ + decimal(n as nat));
}

/// `s` begins with `prefix`.
pub fn starts_with(s: &str, prefix: &str) -> (b: bool)
    ensures
        b == prefix@.is_prefix_of(s@),
{
    let n = prefix.unicode_len();
    if s.unicode_len() < n {
        return false;
    }
    let mut i: usize = 0;
    while i < n
        invariant
            i <= n,
            n == prefix@.len(),
            n <= s@.len(),
            forall|k: int| 0 <= k < i ==> s@[k] == prefix@[k],
        decreases n - i,
    {
        if s.get_char(i) != prefix.get_char(i) {
            assert(s@.subrange(0, n as int)[i as int] != prefix@[i as int]);
            return false;
        }
        i += 1;
    }
    assert(prefix@ =~= s@.subrange(0, n as int));
    true
}

/// `a` and `b` are the same text.
pub fn same_text(a: &str, b: &str) -> (same: bool)
    ensures
        same == (a@ == b@),
{
    let same = a.unicode_len() == b.unicode_len() && starts_with(a, b);
    assert(same ==> a@ =~= b@);
    same
}

/// The second of the fields that the colons of `s` part, if `s` holds a
/// colon at all: what stands between the first colon and the next one, or
/// the end of `s`.
pub open spec fn second_field(s: Seq<char>) -> Option<Seq<char>> {
    let colon = |c: char| c == ':';
    let first = first_index(s, colon);
    if first < s.len() {
        Some(s.subrange(first + 1, first_from(s, colon, first + 1)))
    } else {
        None
    }
}

/// Computes `second_field`.
pub fn second_field_of(s: &str) -> (field: Option<&str>)
    ensures
        match field {
            Some(f) => second_field(s@) == Some(f@),
            None => second_field(s@) is None,
        },
{
    let ghost colon = |c: char| c == ':';
    let n = s.unicode_len();
    let mut first: usize = n;
    let mut second: usize = n;
    let mut i: usize = 0;
    for c in it: s.chars()
        invariant
            i == it.index(),
            it.seq() == s@,
            n == s@.len(),
            first <= n,
            second <= n,
            forall|k: int| 0 <= k < i && k < first ==> s@[k] != ':',
            first < n ==> first < i && s@[first as int] == ':',
            first == n ==> second == n,
            forall|k: int| first < k < i && k < second ==> s@[k] != ':',
            second < n ==> first < second < i && s@[second as int] == ':',
    {
        if c == ':' {
            if first == n {
                first = i;
            } else if second == n {
                second = i;
            }
        }
        i += 1;
    }
    proof {
        lemma_first_index_unique(s@, colon, first as int);
        if first < n {
            lemma_first_from_unique(s@, colon, first + 1, second as int);
        }
    }
    if first < n {
        Some(s.substring_char(first + 1, second))
    } else {
        None
    }
}

} // verus!
