//! Exit statuses, and their decimal text in a result archive.
use vstd::prelude::*;

verus! {

/// The ASCII digit for a value below ten.
pub open spec fn digit_byte(d: nat) -> u8 {
    (48 + d) as u8
}

/// The decimal text of a number, without sign or leading zeros.
pub open spec fn decimal_text(n: nat) -> Seq<u8>
    decreases n,
{
    if n < 10 {
        seq![digit_byte(n)]
    } else {
        decimal_text(n / 10).push(digit_byte(n % 10))
    }
}

/// The byte is an ASCII decimal digit.
pub open spec fn is_digit(b: u8) -> bool {
    48 <= b <= 57
}

/// The value of a sequence of decimal digits, most significant first.
pub open spec fn digits_value(d: Seq<u8>) -> nat
    decreases d.len(),
{
    if d.len() == 0 {
        0
    } else {
        digits_value(d.drop_last()) * 10 + (d.last() - 48) as nat
    }
}

/// The digits of a decimal text, past an optional leading plus sign.
pub open spec fn unsigned_digits(s: Seq<u8>) -> Seq<u8> {
    if s.len() > 0 && s[0] == 43 {
        s.drop_first()
    } else {
        s
    }
}

/// The exit status that a decimal text states: an optional plus sign, then
/// one or more digits whose value is at most 255.
pub open spec fn parse_status_spec(s: Seq<u8>) -> Option<u8> {
    let d = unsigned_digits(s);
    if d.len() > 0 && (forall|i: int| 0 <= i < d.len() ==> is_digit(#[trigger] d[i])) && digits_value(d) <= 255 {
        Some(digits_value(d) as u8)
    } else {
        None
    }
}

/// The exit status recorded for a process: its code, clamped to 0..=255, or
/// 0 where it has none (it was ended by a signal).
pub open spec fn exit_status_spec(code: Option<i32>) -> u8 {
    match code {
        None => 0,
        Some(c) => if c < 0 {
            0
        } else if c > 255 {
            255
        } else {
            c as u8
        },
    }
}

/// The exit status recorded for a process with the given code.
pub fn exit_status(code: Option<i32>) -> (r: u8)
    ensures
        r == exit_status_spec(code),
{
    match code {
        None => 0,
        Some(c) => if c < 0 {
            0
        } else if c > 255 {
            255
        } else {
            c as u8
        },
    }
}

/// The decimal text of an exit status.
pub fn status_text(n: u8) -> (r: Vec<u8>)
    ensures
        r@ == decimal_text(n as nat),
{
    let mut r: Vec<u8> = Vec::new();
    if n >= 100 {
        r.push(48 + n / 100);
    }
    if n >= 10 {
        r.push(48 + (n / 10) % 10);
    }
    r.push(48 + n % 10);
    proof {
        let m = n as nat;
        if m >= 100 {
            assert(decimal_text(m / 100) == seq![digit_byte(m / 100)]);
            assert(decimal_text(m / 10) == decimal_text(m / 100).push(digit_byte((m / 10) % 10)));
        } else if m >= 10 {
            assert(decimal_text(m / 10) == seq![digit_byte(m / 10)]);
        }
        assert(r@ =~= decimal_text(m));
    }
    r
}

/// The exit status that a decimal text states, if it states one.
pub fn parse_status(text: &[u8]) -> (r: Option<u8>)
    ensures
        r == parse_status_spec(text@),
{
    let ghost d = unsigned_digits(text@);
    let start: usize = if text.len() > 0 && text[0] == 43 { 1 } else { 0 };
    assert(d =~= text@.subrange(start as int, text@.len() as int));
    if start >= text.len() {
        return None;
    }
    let mut acc: u16 = 0;
    let mut i: usize = start;
    while i < text.len()
        invariant
            start <= i <= text@.len(),
            d == unsigned_digits(text@),
            d == text@.subrange(start as int, text@.len() as int),
            forall|j: int| 0 <= j < i - start ==> is_digit(#[trigger] d[j]),
            digits_value(d.take(i - start)) <= 255 ==> acc as nat == digits_value(d.take(i - start)),
            digits_value(d.take(i - start)) > 255 ==> acc == 256,
        decreases text@.len() - i,
    {
        let b = text[i];
        if b < 48 || b > 57 {
            proof {
                assert(d[i - start] == b);
                assert(!is_digit(d[i - start]));
            }
            return None;
        }
        let ghost prev = d.take(i - start);
        proof {
            assert(d.take(i - start + 1).drop_last() =~= prev);
            assert(d.take(i - start + 1).last() == b);
        }
        if acc < 256 {
            let next: u16 = acc * 10 + (b - 48) as u16;
            acc = if next > 255 { 256 } else { next };
        }
        i = i + 1;
    }
    proof {
        assert(d.take(i - start) =~= d);
    }
    if acc > 255 {
        None
    } else {
        Some(acc as u8)
    }
}

proof fn lemma_decimal_text(n: nat)
    ensures
        decimal_text(n).len() > 0,
        forall|i: int| 0 <= i < decimal_text(n).len() ==> is_digit(#[trigger] decimal_text(n)[i]),
        digits_value(decimal_text(n)) == n,
    decreases n,
{
    let t = decimal_text(n);
    if n < 10 {
        assert(t.drop_last() =~= seq![]);
        assert(t.last() == digit_byte(n));
        assert(digit_byte(n) - 48 == n);
        assert(digits_value(t) == digits_value(t.drop_last()) * 10 + (t.last() - 48) as nat);
    } else {
        lemma_decimal_text(n / 10);
        assert(t.drop_last() =~= decimal_text(n / 10));
        assert(t.last() == digit_byte(n % 10));
        assert(digit_byte(n % 10) - 48 == n % 10);
        assert((n / 10) * 10 + n % 10 == n);
        assert(digits_value(t) == digits_value(t.drop_last()) * 10 + (t.last() - 48) as nat);
        assert forall|i: int| 0 <= i < t.len() implies is_digit(#[trigger] t[i]) by {
            if i < t.len() - 1 {
                assert(t[i] == decimal_text(n / 10)[i]);
            }
        }
    }
}

/// Reading back the decimal text of an exit status gives that status.
pub proof fn lemma_status_round_trip(n: u8)
    ensures
        parse_status_spec(decimal_text(n as nat)) == Some(n),
{
    let t = decimal_text(n as nat);
    lemma_decimal_text(n as nat);
    assert(t[0] != 43);
    assert(unsigned_digits(t) == t);
}

} // verus!
