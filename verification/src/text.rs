use vstd::prelude::*;

verus! {

/// ASCII lower-casing of a single character: upper-case ASCII letters are
/// mapped to their lower-case equivalent, everything else is unchanged.
pub open spec fn lower_char(c: char) -> char {
    if 'A' <= c && c <= 'Z' {
        (((c as u32) + 32) as char)
    } else {
        c
    }
}

/// ASCII lower-casing of a whole character sequence.
pub open spec fn ascii_lower(s: Seq<char>) -> Seq<char> {
    Seq::new(s.len(), |i: int| lower_char(s[i]))
}

/// Lower-casing is idempotent: normalizing twice is the same as once.
pub proof fn lemma_ascii_lower_idempotent(s: Seq<char>)
    ensures
        ascii_lower(ascii_lower(s)) == ascii_lower(s),
{
    assert forall|i: int| 0 <= i < s.len() implies lower_char(lower_char(s[i])) == lower_char(
        s[i],
    ) by {
        let c = s[i];
        if 'A' <= c && c <= 'Z' {
            assert(lower_char(c) == (((c as u32) + 32) as char));
        }
    }
    assert(ascii_lower(ascii_lower(s)) =~= ascii_lower(s));
}

/// Relies on `str::to_ascii_lowercase`: ASCII upper-case letters are mapped
/// to lower case, all other characters are returned unchanged.
#[verifier::external_body]
pub fn to_lowercase(s: &str) -> (r: String)
    ensures
        r@ == ascii_lower(s@),
{
    s.to_ascii_lowercase()
}

/// The decimal digit character for a value below ten.
pub open spec fn digit_char(v: int) -> char {
    if v == 0 {
        '0'
    } else if v == 1 {
        '1'
    } else if v == 2 {
        '2'
    } else if v == 3 {
        '3'
    } else if v == 4 {
        '4'
    } else if v == 5 {
        '5'
    } else if v == 6 {
        '6'
    } else if v == 7 {
        '7'
    } else if v == 8 {
        '8'
    } else {
        '9'
    }
}

/// The decimal representation of a natural number, without leading zeros
/// (a lone zero is written as "0").
pub open spec fn dec_str_nat(n: nat) -> Seq<char>
    decreases n,
{
    if n < 10 {
        seq![digit_char(n as int)]
    } else {
        dec_str_nat(n / 10) + seq![digit_char((n % 10) as int)]
    }
}

/// The decimal representation of an integer: a minus sign before the digits
/// of the magnitude when negative.
pub open spec fn dec_str_int(n: int) -> Seq<char> {
    if n < 0 {
        seq!['-'] + dec_str_nat((-n) as nat)
    } else {
        dec_str_nat(n as nat)
    }
}

/// An integer written with a minimum width of two digits: a single decimal
/// digit is zero-padded, everything else keeps its plain representation.
pub open spec fn two_digit_chars(v: int) -> Seq<char> {
    if 0 <= v < 10 {
        seq!['0', digit_char(v)]
    } else {
        dec_str_int(v)
    }
}

fn digit_str(v: u8) -> (r: &'static str)
    requires
        v < 10,
    ensures
        r@ == seq![digit_char(v as int)],
{
    proof {
        reveal_strlit("0");
        reveal_strlit("1");
        reveal_strlit("2");
        reveal_strlit("3");
        reveal_strlit("4");
        reveal_strlit("5");
        reveal_strlit("6");
        reveal_strlit("7");
        reveal_strlit("8");
        reveal_strlit("9");
    }
    match v {
        0 => "0",
        1 => "1",
        2 => "2",
        3 => "3",
        4 => "4",
        5 => "5",
        6 => "6",
        7 => "7",
        8 => "8",
        _ => "9",
    }
}

/// The digit characters of a digit sequence read back to front.
spec fn rev_digit_chars(ds: Seq<u8>) -> Seq<char>
    decreases ds.len(),
{
    if ds.len() == 0 {
        Seq::empty()
    } else {
        seq![digit_char(ds.last() as int)] + rev_digit_chars(ds.drop_last())
    }
}

/// The decimal representation of an unsigned number, as a string.
pub fn u64_to_dec_string(n: u64) -> (s: String)
    ensures
        s@ == dec_str_nat(n as nat),
{
    let mut digits: Vec<u8> = Vec::new();
    let mut m: u64 = n;
    while m >= 10
        invariant
            forall|j: int| 0 <= j < digits@.len() ==> digits@[j] < 10,
            dec_str_nat(n as nat) == dec_str_nat(m as nat) + rev_digit_chars(digits@),
        decreases m,
    {
        let d: u8 = (m % 10) as u8;
        let ghost old_digits = digits@;
        digits.push(d);
        proof {
            assert(digits@.last() == d);
            assert(digits@.drop_last() =~= old_digits);
            assert(rev_digit_chars(digits@) == seq![digit_char(d as int)] + rev_digit_chars(
                old_digits,
            ));
            assert(dec_str_nat(m as nat) == dec_str_nat((m / 10) as nat) + seq![
                digit_char((m % 10) as int),
            ]);
            assert(dec_str_nat(n as nat) =~= dec_str_nat((m / 10) as nat) + rev_digit_chars(
                digits@,
            ));
        }
        m = m / 10;
    }
    let mut s = String::new();
    s.append(digit_str(m as u8));
    proof {
        assert(s@ =~= dec_str_nat(m as nat));
        assert(digits@.take(digits@.len() as int) =~= digits@);
    }
    let mut i: usize = digits.len();
    while i > 0
        invariant
            i <= digits@.len(),
            forall|j: int| 0 <= j < digits@.len() ==> digits@[j] < 10,
            s@ + rev_digit_chars(digits@.take(i as int)) == dec_str_nat(n as nat),
        decreases i,
    {
        let d = digits[i - 1];
        let ghost prefix = digits@.take(i as int);
        s.append(digit_str(d));
        proof {
            assert(prefix.last() == d);
            assert(prefix.drop_last() =~= digits@.take(i as int - 1));
            assert(rev_digit_chars(prefix) == seq![digit_char(d as int)] + rev_digit_chars(
                digits@.take(i as int - 1),
            ));
            assert(s@ + rev_digit_chars(digits@.take(i as int - 1)) =~= dec_str_nat(n as nat));
        }
        i = i - 1;
    }
    proof {
        assert(digits@.take(0) =~= Seq::<u8>::empty());
        assert(s@ =~= dec_str_nat(n as nat));
    }
    s
}

/// The decimal representation of a signed number, as a string.
pub fn i64_to_dec_string(n: i64) -> (s: String)
    ensures
        s@ == dec_str_int(n as int),
{
    if n >= 0 {
        let s = u64_to_dec_string(n as u64);
        s
    } else {
        proof {
            reveal_strlit("-");
        }
        let mut s = String::new();
        s.append("-");
        let mag: u64 = ((-(n + 1)) as u64) + 1;
        assert(mag as int == -(n as int));
        let digits = u64_to_dec_string(mag);
        s.append(digits.as_str());
        proof {
            assert(s@ =~= dec_str_int(n as int));
        }
        s
    }
}

/// An integer written with a minimum width of two digits, zero-padded.
pub fn two_digit_string(n: i64) -> (s: String)
    ensures
        s@ == two_digit_chars(n as int),
{
    if 0 <= n && n < 10 {
        proof {
            reveal_strlit("0");
        }
        let mut s = String::new();
        s.append("0");
        s.append(digit_str(n as u8));
        proof {
            assert(s@ =~= two_digit_chars(n as int));
        }
        s
    } else {
        let s = i64_to_dec_string(n);
        s
    }
}

} // verus!
