//! Character-level helpers: string equality and decimal rendering of
//! integers, both fully specified over `Seq<char>`.

use vstd::prelude::*;

verus! {

use vstd::string::StrSliceExecFns;
use vstd::string::StringExecFns;

/// Equality of two string slices, decided character by character.
pub fn str_eq(a: &str, b: &str) -> (r: bool)
    ensures
        r == (a@ == b@),
{
    let a_len = a.unicode_len();
    let b_len = b.unicode_len();
    if a_len != b_len {
        return false;
    }
    let mut i: usize = 0;
    while i < a_len
        invariant
            a_len == a@.len(),
            b_len == b@.len(),
            a_len == b_len,
            i <= a_len,
            forall|j: int| 0 <= j < i ==> a@[j] == b@[j],
        decreases a_len - i,
    {
        if a.get_char(i) != b.get_char(i) {
            return false;
        }
        i += 1;
    }
    proof {
        assert(a@ =~= b@);
    }
    true
}

/// The digit character for one decimal digit.
pub open spec fn digit_char(d: int) -> char {
    if d == 0 {
        '0'
    } else if d == 1 {
        '1'
    } else if d == 2 {
        '2'
    } else if d == 3 {
        '3'
    } else if d == 4 {
        '4'
    } else if d == 5 {
        '5'
    } else if d == 6 {
        '6'
    } else if d == 7 {
        '7'
    } else if d == 8 {
        '8'
    } else {
        '9'
    }
}

/// The decimal digits of a nonnegative number, most significant first.
pub open spec fn dec_digits(n: int) -> Seq<char>
    decreases n,
{
    if n < 10 {
        seq![digit_char(n)]
    } else {
        dec_digits(n / 10).push(digit_char(n % 10))
    }
}

/// The canonical decimal rendering of an integer: its digits, with a
/// leading `-` when negative.
pub open spec fn render_i64(value: i64) -> Seq<char> {
    if value >= 0 {
        dec_digits(value as int)
    } else {
        seq!['-'] + dec_digits(-(value as int))
    }
}

/// The pieces of a list joined with `", "` between them.
pub open spec fn joined(parts: Seq<Seq<char>>) -> Seq<char>
    decreases parts.len(),
{
    if parts.len() == 0 {
        Seq::empty()
    } else if parts.len() == 1 {
        parts[0]
    } else {
        joined(parts.drop_last()) + ", "@ + parts.last()
    }
}

/// Renders an integer in decimal, with a leading `-` when negative.
pub fn i64_to_string(value: i64) -> (r: String)
    ensures
        r@ == render_i64(value),
{
    let mut n: u64 = if value >= 0 {
        value as u64
    } else if value == i64::MIN {
        9223372036854775808u64
    } else {
        (-value) as u64
    };
    let ghost magnitude = n as int;
    let mut out = String::new();
    if n == 0 {
        let digits = "0123456789";
        proof {
            reveal_strlit("0123456789");
        }
        out = digits.substring_char(0, 1).to_owned();
        proof {
            assert(out@ =~= dec_digits(0));
        }
    }
    proof {
        if n > 0 {
            assert(dec_digits(magnitude) =~= dec_digits(n as int) + out@);
        }
    }
    while n > 0
        invariant
            magnitude >= 0,
            n > 0 ==> dec_digits(magnitude) == dec_digits(n as int) + out@,
            n == 0 ==> out@ == dec_digits(magnitude),
        decreases n,
    {
        let ghost out_before = out@;
        let digits = "0123456789";
        proof {
            reveal_strlit("0123456789");
        }
        let d = (n % 10) as usize;
        let piece = digits.substring_char(d, d + 1).to_owned();
        proof {
            assert(piece@ =~= seq![digit_char(d as int)]);
        }
        out = piece.concat(out.as_str());
        proof {
            if n >= 10 {
                assert(dec_digits(n as int) =~= dec_digits(n as int / 10) + seq![
                    digit_char(n as int % 10)
                ]);
                assert((dec_digits(n as int / 10) + seq![digit_char(n as int % 10)]) + out_before
                    =~= dec_digits(n as int / 10) + (seq![digit_char(n as int % 10)]
                    + out_before));
            } else {
                assert(dec_digits(n as int) =~= seq![digit_char(n as int)]);
            }
        }
        n = n / 10;
    }
    if value < 0 {
        let mut signed = String::from_str("-");
        signed.append(out.as_str());
        proof {
            reveal_strlit("-");
            assert("-"@ =~= seq!['-']);
        }
        signed
    } else {
        out
    }
}

/// Renders a list of already-rendered pieces separated by `", "`.
pub fn join_comma(parts: &Vec<String>) -> (r: String)
    ensures
        r@ == joined(parts.deep_view()),
{
    let mut out = String::new();
    let mut i: usize = 0;
    proof {
        assert(parts.deep_view().take(0) =~= Seq::<Seq<char>>::empty());
    }
    while i < parts.len()
        invariant
            i <= parts@.len(),
            parts.deep_view().len() == parts@.len(),
            out@ == joined(parts.deep_view().take(i as int)),
        decreases parts@.len() - i,
    {
        if i > 0 {
            out.append(", ");
        }
        out.append((&parts[i]).as_str());
        proof {
            assert(parts.deep_view()[i as int] == parts@[i as int]@);
            assert(parts.deep_view().take(i as int + 1).drop_last() =~= parts.deep_view().take(
                i as int,
            ));
            assert(parts.deep_view().take(i as int + 1).last() == parts.deep_view()[i as int]);
        }
        i += 1;
    }
    proof {
        assert(parts.deep_view().take(parts@.len() as int) =~= parts.deep_view());
    }
    out
}

} // verus!
