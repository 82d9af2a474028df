//! Small text routines: joining, cutting at a character, and decimal numbers.

use vstd::prelude::*;

verus! {

/// What std documents of `String::push`: the character is appended.
pub assume_specification[ String::push ](s: &mut String, ch: char)
    ensures
        final(s)@ == old(s)@.push(ch),
;

/// The text of `a` followed by that of `b`.
pub fn join(a: &str, b: &str) -> (joined: String)
    ensures
        joined@ == a@ + b@,
{
    String::from_str(a).concat(b)
}

/// The number of characters before the first `mark`, if there is one.
pub open spec fn position_of(s: Seq<char>, mark: char) -> Option<nat>
    decreases s.len(),
{
    if s.len() == 0 {
        None
    } else if s[0] == mark {
        Some(0)
    } else {
        match position_of(s.drop_first(), mark) {
            Some(n) => Some(n + 1),
            None => None,
        }
    }
}

/// The text before the first `mark`, if there is one.
pub open spec fn before(s: Seq<char>, mark: char) -> Option<Seq<char>> {
    match position_of(s, mark) {
        Some(n) => Some(s.take(n as int)),
        None => None,
    }
}

/// Where the first `mark` stands at index `n`, `n` is its position.
pub proof fn lemma_position_first(s: Seq<char>, mark: char, n: nat)
    requires
        n < s.len(),
        s[n as int] == mark,
        forall|k: int| 0 <= k < n ==> s[k] != mark,
    ensures
        position_of(s, mark) == Some(n),
    decreases n,
{
    if n > 0 {
        let rest = s.drop_first();
        assert forall|k: int| 0 <= k < n - 1 implies rest[k] != mark by {
            assert(rest[k] == s[k + 1]);
        }
        lemma_position_first(rest, mark, (n - 1) as nat);
    }
}

/// A text without `mark` has no position for it.
pub proof fn lemma_position_none(s: Seq<char>, mark: char)
    requires
        forall|k: int| 0 <= k < s.len() ==> s[k] != mark,
    ensures
        position_of(s, mark) is None,
    decreases s.len(),
{
    if s.len() > 0 {
        let rest = s.drop_first();
        assert forall|k: int| 0 <= k < rest.len() implies rest[k] != mark by {
            assert(rest[k] == s[k + 1]);
        }
        lemma_position_none(rest, mark);
    }
}

/// The text before the first `mark`, if there is one.
pub fn prefix_before(s: &str, mark: char) -> (prefix: Option<String>)
    ensures
        match prefix {
            Some(p) => before(s@, mark) == Some(p@),
            None => before(s@, mark) is None,
        },
{
    broadcast use vstd::string::axiom_spec_iter;

    let mut out = String::new();
    for c in it: s.chars()
        invariant
            it.seq() == s@,
            out@ == s@.take(it.index()),
            forall|k: int| 0 <= k < it.index() ==> s@[k] != mark,
    {
        if c == mark {
            proof {
                lemma_position_first(s@, mark, it.index() as nat);
            }
            return Some(out);
        }
        out.push(c);
        proof {
            assert(s@.take(it.index() + 1) =~= s@.take(it.index()).push(c));
        }
    }
    proof {
        lemma_position_none(s@, mark);
    }
    None
}

/// The pieces of a text between its marks, in order: one more piece than
/// there are marks, and empty where two marks meet or the text begins or ends
/// with one.
pub open spec fn pieces(s: Seq<char>, mark: char) -> Seq<Seq<char>>
    decreases s.len(),
{
    if s.len() == 0 {
        seq![Seq::empty()]
    } else {
        let before = pieces(s.drop_last(), mark);
        if s.last() == mark {
            before.push(Seq::empty())
        } else {
            before.update(before.len() - 1, before.last().push(s.last()))
        }
    }
}

/// Whether the character is one of the ten decimal digits.
pub open spec fn is_digit(c: char) -> bool {
    '0' <= c <= '9'
}

/// The decimal digit that stands for `d`.
pub open spec fn digit(d: nat) -> char
    recommends
        d < 10,
{
    (('0' as nat) + d) as char
}

/// The decimal numeral of `n`, without sign or leading zeros.
pub open spec fn numeral(n: nat) -> Seq<char>
    decreases n,
{
    if n < 10 {
        seq![digit(n)]
    } else {
        numeral(n / 10).push(digit(n % 10))
    }
}

/// The number that a run of decimal digits stands for.
pub open spec fn number(s: Seq<char>) -> nat
    decreases s.len(),
{
    if s.len() == 0 {
        0
    } else {
        number(s.drop_last()) * 10 + ((s.last() as nat) - ('0' as nat)) as nat
    }
}

/// Whether every character is a decimal digit.
pub open spec fn all_digits(s: Seq<char>) -> bool {
    forall|i: int| 0 <= i < s.len() ==> is_digit(#[trigger] s[i])
}

/// The text without one leading plus sign.
pub open spec fn unsigned_part(s: Seq<char>) -> Seq<char> {
    if s.len() > 0 && s[0] == '+' {
        s.drop_first()
    } else {
        s
    }
}

/// The 32-bit number that a text denotes: an optional plus sign, then one or
/// more decimal digits whose value fits. Anything else denotes nothing.
pub open spec fn denoted(s: Seq<char>) -> Option<u32> {
    let digits = unsigned_part(s);
    if digits.len() > 0 && all_digits(digits) && number(digits) <= u32::MAX {
        Some(number(digits) as u32)
    } else {
        None
    }
}

/// A numeral is made of digits and stands for its number.
pub proof fn lemma_numeral(n: nat)
    ensures
        numeral(n).len() > 0,
        all_digits(numeral(n)),
        number(numeral(n)) == n,
        numeral(n)[0] != '+',
    decreases n,
{
    if n < 10 {
        let s = numeral(n);
        assert(s.drop_last() =~= Seq::<char>::empty());
        assert(number(s.drop_last()) == 0);
    } else {
        lemma_numeral(n / 10);
        let s = numeral(n);
        assert(s.drop_last() =~= numeral(n / 10));
        assert(s.last() == digit(n % 10));
        assert(s[0] == numeral(n / 10)[0]);
    }
}

/// Writing a 32-bit number down and reading it again gives the number back.
pub proof fn lemma_numeral_denotes(n: u32)
    ensures
        denoted(numeral(n as nat)) == Some(n),
{
    lemma_numeral(n as nat);
}

/// A digit run is worth at least as much as any of its beginnings.
pub proof fn lemma_number_grows(s: Seq<char>, k: int)
    requires
        all_digits(s),
        0 <= k <= s.len(),
    ensures
        number(s.take(k)) <= number(s),
    decreases s.len() - k,
{
    if k < s.len() {
        lemma_number_grows(s, k + 1);
        let longer = s.take(k + 1);
        assert(longer.drop_last() =~= s.take(k));
        assert(is_digit(s[k]));
        assert(longer.last() == s[k]);
    } else {
        assert(s.take(k) =~= s);
    }
}

/// Appends the decimal numeral of `n`.
pub fn push_decimal(out: &mut String, n: u32)
    ensures
        final(out)@ == old(out)@ + numeral(n as nat),
    decreases n,
{
    if n >= 10 {
        push_decimal(out, n / 10);
    }
    let d = (n % 10) as u8;
    let c = (48u8 + d) as char;
    out.push(c);
    proof {
        assert(c == digit((n % 10) as nat));
        if n >= 10 {
            assert(old(out)@ + numeral(n as nat) =~= (old(out)@ + numeral((n / 10) as nat)).push(c));
        } else {
            assert(old(out)@ + numeral(n as nat) =~= old(out)@.push(c));
        }
    }
}

/// The decimal numeral of `n`.
pub fn decimal(n: u32) -> (text: String)
    ensures
        text@ == numeral(n as nat),
{
    let mut out = String::new();
    push_decimal(&mut out, n);
    proof {
        assert(Seq::<char>::empty() + numeral(n as nat) =~= numeral(n as nat));
    }
    out
}

/// Reads a 32-bit number: an optional plus sign, then decimal digits.
pub fn parse_u32(s: &str) -> (value: Option<u32>)
    ensures
        value == denoted(s@),
{
    broadcast use vstd::string::axiom_spec_iter;

    let ghost digits = unsigned_part(s@);
    let ghost shift: int = s@.len() - digits.len();
    let mut total: u64 = 0;
    let mut seen: bool = false;
    let mut first: bool = true;
    for c in it: s.chars()
        invariant
            it.seq() == s@,
            digits == unsigned_part(s@),
            shift == s@.len() - digits.len(),
            first == (it.index() == 0),
            !first ==> it.index() >= shift,
            !first ==> seen == (it.index() > shift),
            first ==> !seen && total == 0,
            !first ==> all_digits(digits.take(it.index() - shift)),
            !first ==> total == number(digits.take(it.index() - shift)),
            total <= u32::MAX,
    {
        if first && c == '+' {
            first = false;
            proof {
                assert(digits.take(0) =~= Seq::<char>::empty());
            }
        } else {
            first = false;
            let ghost at: int = it.index() - shift;
            proof {
                assert(digits[at] == c);
                assert(digits.take(at + 1).drop_last() =~= digits.take(at));
                assert(digits.take(at + 1).last() == c);
                if at == 0 {
                    assert(digits.take(0) =~= Seq::<char>::empty());
                }
            }
            if !(c >= '0' && c <= '9') {
                return None;
            }
            let d = (c as u32 - '0' as u32) as u64;
            let next = total * 10 + d;
            if next > u32::MAX as u64 {
                proof {
                    if all_digits(digits) {
                        lemma_number_grows(digits, at + 1);
                    }
                }
                return None;
            }
            total = next;
            seen = true;
        }
    }
    proof {
        if !first {
            assert(digits.take(s@.len() - shift) =~= digits);
        }
    }
    if seen {
        Some(total as u32)
    } else {
        None
    }
}

} // verus!
