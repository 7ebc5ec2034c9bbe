//! Text helpers: decimal rendering of numbers and blank-output detection.
use vstd::prelude::*;
use vstd::string::*;

verus! {

/// The ASCII decimal digit character for `d` (0 to 9).
pub open spec fn digit_char(d: nat) -> char {
    (48 + d) as char
}

/// The decimal rendering of `n`: its digits, most significant first, with no leading zeros.
pub open spec fn decimal_text(n: nat) -> Seq<char>
    decreases n,
{
    if n < 10 {
        seq![digit_char(n)]
    } else {
        decimal_text(n / 10).push(digit_char(n % 10))
    }
}

/// The number that a string of decimal digits denotes.
pub open spec fn decimal_value(digits: Seq<char>) -> int
    decreases digits.len(),
{
    if digits.len() == 0 {
        0
    } else {
        decimal_value(digits.drop_last()) * 10 + (digits.last() as int - 48)
    }
}

/// The decimal rendering of `n` is made of ASCII digits only, starts with a non-zero digit
/// unless `n` is zero, and denotes `n`.
pub proof fn lemma_decimal_text_denotes(n: nat)
    ensures
        decimal_text(n).len() >= 1,
        forall|i: int|
            0 <= i < decimal_text(n).len() ==> '0' <= #[trigger] decimal_text(n)[i] <= '9',
        n > 0 ==> decimal_text(n)[0] != '0',
        decimal_value(decimal_text(n)) == n,
    decreases n,
{
    if n < 10 {
        assert(digit_char(n) as int == 48 + n);
        assert(decimal_text(n).drop_last() =~= Seq::<char>::empty());
        assert(decimal_value(Seq::<char>::empty()) == 0);
        assert(decimal_value(decimal_text(n)) == n);
    } else {
        lemma_decimal_text_denotes(n / 10);
        let t = decimal_text(n);
        let p = decimal_text(n / 10);
        assert(t.drop_last() =~= p);
        assert(t[0] == p[0]);
        assert(n == (n / 10) * 10 + n % 10);
        assert(t.last() == digit_char(n % 10));
        assert(digit_char(n % 10) as int == 48 + n % 10);
        assert(decimal_value(t) == decimal_value(p) * 10 + (t.last() as int - 48));
        assert(decimal_value(p) == n / 10);
        assert(decimal_value(t) == n);
        assert forall|i: int| 0 <= i < t.len() implies '0' <= #[trigger] t[i] <= '9' by {
            if i < p.len() {
                assert(t[i] == p[i]);
            }
        }
    }
}

/// Whether `c` has the Unicode White_Space property (what `str::trim` removes).
pub open spec fn is_white_space_spec(c: char) -> bool {
    let v = c as u32;
    (0x09 <= v && v <= 0x0D) || v == 0x20 || v == 0x85 || v == 0xA0 || v == 0x1680 || (0x2000
        <= v && v <= 0x200A) || v == 0x2028 || v == 0x2029 || v == 0x202F || v == 0x205F || v
        == 0x3000
}

/// Whether `text` consists of white space only (it is empty once trimmed).
pub open spec fn is_blank_spec(text: Seq<char>) -> bool {
    forall|i: int| 0 <= i < text.len() ==> is_white_space_spec(#[trigger] text[i])
}

fn digit_str(d: u32) -> (s: &'static str)
    requires
        d < 10,
    ensures
        s@ == seq![digit_char(d as nat)],
{
    if d == 0 {
        proof { reveal_strlit("0"); }
        "0"
    } else if d == 1 {
        proof { reveal_strlit("1"); }
        "1"
    } else if d == 2 {
        proof { reveal_strlit("2"); }
        "2"
    } else if d == 3 {
        proof { reveal_strlit("3"); }
        "3"
    } else if d == 4 {
        proof { reveal_strlit("4"); }
        "4"
    } else if d == 5 {
        proof { reveal_strlit("5"); }
        "5"
    } else if d == 6 {
        proof { reveal_strlit("6"); }
        "6"
    } else if d == 7 {
        proof { reveal_strlit("7"); }
        "7"
    } else if d == 8 {
        proof { reveal_strlit("8"); }
        "8"
    } else {
        proof { reveal_strlit("9"); }
        "9"
    }
}

/// Renders `n` in decimal, as `u32::to_string` does.
pub fn decimal_string(n: u32) -> (s: String)
    ensures
        s@ == decimal_text(n as nat),
    decreases n,
{
    if n < 10 {
        String::from_str(digit_str(n))
    } else {
        let mut s = decimal_string(n / 10);
        s.append(digit_str(n % 10));
        s
    }
}

/// Whether `c` is Unicode white space, as `char::is_whitespace` decides.
pub fn is_white_space(c: char) -> (r: bool)
    ensures
        r == is_white_space_spec(c),
{
    let v: u32 = c as u32;
    (0x09 <= v && v <= 0x0D) || v == 0x20 || v == 0x85 || v == 0xA0 || v == 0x1680 || (0x2000 <= v
        && v <= 0x200A) || v == 0x2028 || v == 0x2029 || v == 0x202F || v == 0x205F || v == 0x3000
}

/// Whether `text` is empty after trimming white space from both ends.
pub fn is_blank(text: &str) -> (r: bool)
    ensures
        r == is_blank_spec(text@),
{
    let n: usize = text.unicode_len();
    let mut i: usize = 0;
    while i < n
        invariant
            n == text@.len(),
            i <= n,
            forall|j: int| 0 <= j < i ==> is_white_space_spec(#[trigger] text@[j]),
        decreases n - i,
    {
        let c = text.get_char(i);
        if !is_white_space(c) {
            return false;
        }
        i = i + 1;
    }
    true
}

} // verus!
