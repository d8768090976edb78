use vstd::prelude::*;

verus! {

/// Whether a character counts as whitespace for the purpose of detecting
/// blank fields. Determined by the standard library; see `char_is_space`.
pub uninterp spec fn is_space(c: char) -> bool;

/// Relies on char::is_whitespace: whether `c` has the Unicode White_Space
/// property, a function of the character alone.
#[verifier::external_body]
fn char_is_space(c: char) -> (r: bool)
    ensures
        r == is_space(c),
{
    c.is_whitespace()
}

/// A string is blank when every character is whitespace; the empty string
/// is blank.
pub open spec fn blank(s: Seq<char>) -> bool {
    forall|i: int| 0 <= i < s.len() ==> is_space(s[i])
}

/// Whether `s` trims to the empty string, i.e. holds no non-whitespace
/// character.
pub fn is_blank(s: &str) -> (r: bool)
    ensures
        r == blank(s@),
{
    let n = s.unicode_len();
    let mut k: usize = 0;
    while k < n
        invariant
            n == s@.len(),
            k <= n,
            forall|i: int| 0 <= i < k ==> is_space(s@[i]),
        decreases n - k,
    {
        let c = s.get_char(k);
        if !char_is_space(c) {
            return false;
        }
        k += 1;
    }
    true
}

/// The decimal digit character for `d` (0 through 9).
pub open spec fn digit_char(d: int) -> char {
    ((48 + d) as u8) as char
}

/// The decimal digit characters of a non-negative number, most significant
/// first.
pub open spec fn dec_digits(n: int) -> Seq<char>
    decreases n,
{
    if n < 10 {
        seq![digit_char(n)]
    } else {
        dec_digits(n / 10).push(digit_char(n % 10))
    }
}

/// The decimal rendering of an integer: a minus sign for negatives, then
/// the digits of the magnitude.
pub open spec fn int_str(n: int) -> Seq<char> {
    if n < 0 {
        seq!['-'] + dec_digits(-n)
    } else {
        dec_digits(n)
    }
}

fn digit_str(d: u64) -> (r: &'static str)
    requires
        d < 10,
    ensures
        r@ == seq![digit_char(d as int)],
{
    let r: &'static str = match d {
        0 => "0",
        1 => "1",
        2 => "2",
        3 => "3",
        4 => "4",
        5 => "5",
        6 => "6",
        7 => "7",
        8 => "8",
        _ => "9",
    };
    proof {
        reveal_strlit("0");
        reveal_strlit("1");
        reveal_strlit("2");
        reveal_strlit("3");
        reveal_strlit("4");
        reveal_strlit("5");
        reveal_strlit("6");
        reveal_strlit("7");
        reveal_strlit("8");
        reveal_strlit("9");
        assert(r@ =~= seq![digit_char(d as int)]);
    }
    r
}

fn push_decimal(s: &mut String, n: u64)
    ensures
        final(s)@ == old(s)@ + dec_digits(n as int),
    decreases n,
{
    if n < 10 {
        s.append(digit_str(n));
        proof {
            assert(final(s)@ =~= old(s)@ + dec_digits(n as int));
        }
    } else {
        push_decimal(s, n / 10);
        s.append(digit_str(n % 10));
        proof {
            assert(final(s)@ =~= old(s)@ + dec_digits(n as int));
        }
    }
}

/// Renders `n` in decimal, as the standard formatter would.
pub fn int_to_string(n: i32) -> (r: String)
    ensures
        r@ == int_str(n as int),
{
    let mut s = String::new();
    if n < 0 {
        s.append("-");
        let m: u64 = (-(n as i64)) as u64;
        push_decimal(&mut s, m);
        proof {
            reveal_strlit("-");
            assert("-"@ =~= seq!['-']);
            assert(s@ =~= int_str(n as int));
        }
    } else {
        push_decimal(&mut s, n as u64);
        proof {
            assert(s@ =~= int_str(n as int));
        }
    }
    s
}

/// A diagnostic message of the shape `prefix`, then `id` in decimal, then
/// `suffix`.
pub open spec fn id_message(prefix: Seq<char>, id: int, suffix: Seq<char>) -> Seq<char> {
    prefix + int_str(id) + suffix
}

/// Builds `prefix`, then `id` in decimal, then `suffix`, as one string.
pub fn make_id_message(prefix: &str, id: i32, suffix: &str) -> (r: String)
    ensures
        r@ == id_message(prefix@, id as int, suffix@),
{
    let mut s = String::from_str(prefix);
    let num = int_to_string(id);
    s.append(num.as_str());
    s.append(suffix);
    proof {
        assert(s@ =~= id_message(prefix@, id as int, suffix@));
    }
    s
}

} // verus!
