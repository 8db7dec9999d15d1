//! Output file naming: `<base>/<zero-padded file-index>-<zero-padded
//! subtask-id>`, five digits for the file index and three for the
//! subtask.  Distinct file indices give distinct names, which is what
//! keeps live writers from ever sharing a file handle.

use vstd::prelude::*;
use vstd::string::StringExecFns;

verus! {

/// The decimal digit character for `d`.
pub open spec fn spec_digit_char(d: int) -> char {
    if d == 0 {
        '0'
    } else if d == 1 {
        '1'
    } else if d == 2 {
        '2'
    } else if d == 3 {
        '3'
    } else if d == 4 {
        '4'
    } else if d == 5 {
        '5'
    } else if d == 6 {
        '6'
    } else if d == 7 {
        '7'
    } else if d == 8 {
        '8'
    } else {
        '9'
    }
}

/// The value of a decimal digit character.
pub open spec fn spec_digit_val(c: char) -> int {
    if c == '0' {
        0
    } else if c == '1' {
        1
    } else if c == '2' {
        2
    } else if c == '3' {
        3
    } else if c == '4' {
        4
    } else if c == '5' {
        5
    } else if c == '6' {
        6
    } else if c == '7' {
        7
    } else if c == '8' {
        8
    } else {
        9
    }
}

/// The decimal digits of `n`, most significant first, no leading zero
/// (except for zero itself).
pub open spec fn spec_dec_digits(n: int) -> Seq<char>
    decreases n,
{
    if n < 10 {
        seq![spec_digit_char(n)]
    } else {
        spec_dec_digits(n / 10).push(spec_digit_char(n % 10))
    }
}

/// The numeric value of a digit string, zero for the empty string.
pub open spec fn spec_digits_val(s: Seq<char>) -> int
    decreases s.len(),
{
    if s.len() == 0 {
        0
    } else {
        spec_digits_val(s.drop_last()) * 10 + spec_digit_val(s.last())
    }
}

/// `s` left-padded with `'0'` to width `w` (unchanged when already as
/// wide).
pub open spec fn spec_zero_pad(s: Seq<char>, w: int) -> Seq<char> {
    if s.len() >= w {
        s
    } else {
        Seq::new((w - s.len()) as nat, |i: int| '0') + s
    }
}

/// The file name for `idx` and `subtask` under `path`, before the
/// encoder's suffix.
pub open spec fn spec_file_name(path: Seq<char>, idx: int, subtask: int) -> Seq<char> {
    path + "/"@ + spec_zero_pad(spec_dec_digits(idx), 5) + "-"@ + spec_zero_pad(
        spec_dec_digits(subtask),
        3,
    )
}

/// Reading the digits of `n` back gives `n`.
pub proof fn lemma_dec_digits_val(n: int)
    requires
        n >= 0,
    ensures
        spec_digits_val(spec_dec_digits(n)) == n,
        spec_dec_digits(n).len() >= 1,
    decreases n,
{
    if n < 10 {
        assert(seq![spec_digit_char(n)].drop_last() =~= Seq::<char>::empty());
        assert(spec_digits_val(Seq::<char>::empty()) == 0);
        assert(spec_digits_val(seq![spec_digit_char(n)]) == spec_digit_val(spec_digit_char(n)));
    } else {
        lemma_dec_digits_val(n / 10);
        let s = spec_dec_digits(n / 10);
        assert(s.push(spec_digit_char(n % 10)).drop_last() =~= s);
        assert(s.push(spec_digit_char(n % 10)).last() == spec_digit_char(n % 10));
        assert(spec_digit_val(spec_digit_char(n % 10)) == n % 10);
        assert(n / 10 * 10 + n % 10 == n) by {
            vstd::arithmetic::div_mod::lemma_fundamental_div_mod(n, 10);
        }
    }
}

/// Leading zeros do not change the value of a digit string.
pub proof fn lemma_digits_val_zero_prefix(z: Seq<char>, s: Seq<char>)
    requires
        forall|i: int| 0 <= i < z.len() ==> z[i] == '0',
    ensures
        spec_digits_val(z + s) == spec_digits_val(s),
    decreases s.len(),
{
    if s.len() == 0 {
        assert(z + s =~= z);
        lemma_digits_val_all_zero(z);
    } else {
        assert((z + s).drop_last() =~= z + s.drop_last());
        assert((z + s).last() == s.last());
        lemma_digits_val_zero_prefix(z, s.drop_last());
    }
}

/// A string of zeros has value zero.
pub proof fn lemma_digits_val_all_zero(z: Seq<char>)
    requires
        forall|i: int| 0 <= i < z.len() ==> z[i] == '0',
    ensures
        spec_digits_val(z) == 0,
    decreases z.len(),
{
    if z.len() > 0 {
        lemma_digits_val_all_zero(z.drop_last());
    }
}

/// Padding does not change the value of a digit string.
pub proof fn lemma_zero_pad_val(s: Seq<char>, w: int)
    ensures
        spec_digits_val(spec_zero_pad(s, w)) == spec_digits_val(s),
{
    if s.len() < w {
        lemma_digits_val_zero_prefix(Seq::new((w - s.len()) as nat, |i: int| '0'), s);
    }
}

/// Names built from distinct file indices are distinct, whatever the
/// subtask: the padded index can be read back out of the name.
pub proof fn lemma_file_name_injective(path: Seq<char>, idx1: int, idx2: int, subtask: int)
    requires
        idx1 >= 0,
        idx2 >= 0,
        idx1 != idx2,
    ensures
        spec_file_name(path, idx1, subtask) != spec_file_name(path, idx2, subtask),
{
    let n1 = spec_file_name(path, idx1, subtask);
    let n2 = spec_file_name(path, idx2, subtask);
    let p1 = spec_zero_pad(spec_dec_digits(idx1), 5);
    let p2 = spec_zero_pad(spec_dec_digits(idx2), 5);
    let tail = "-"@ + spec_zero_pad(spec_dec_digits(subtask), 3);
    if n1 == n2 {
        assert(n1.len() == n2.len());
        assert(p1.len() + tail.len() + path.len() + "/"@.len() == n1.len());
        assert(p2.len() + tail.len() + path.len() + "/"@.len() == n2.len());
        assert(p1.len() == p2.len());
        let pre = path + "/"@;
        assert forall|i: int| 0 <= i < p1.len() implies p1[i] == p2[i] by {
            assert(n1[pre.len() + i] == p1[i]);
            assert(n2[pre.len() + i] == p2[i]);
        }
        assert(p1 =~= p2);
        lemma_zero_pad_val(spec_dec_digits(idx1), 5);
        lemma_zero_pad_val(spec_dec_digits(idx2), 5);
        lemma_dec_digits_val(idx1);
        lemma_dec_digits_val(idx2);
        assert(idx1 == idx2);
        assert(false);
    }
}

/// The digit characters, as one-character string slices.
fn digit_str(d: usize) -> (r: &'static str)
    requires
        d < 10,
    ensures
        r@ =~= seq![spec_digit_char(d as int)],
{
    proof {
        reveal_strlit("0");
        reveal_strlit("1");
        reveal_strlit("2");
        reveal_strlit("3");
        reveal_strlit("4");
        reveal_strlit("5");
        reveal_strlit("6");
        reveal_strlit("7");
        reveal_strlit("8");
        reveal_strlit("9");
    }
    if d == 0 {
        "0"
    } else if d == 1 {
        "1"
    } else if d == 2 {
        "2"
    } else if d == 3 {
        "3"
    } else if d == 4 {
        "4"
    } else if d == 5 {
        "5"
    } else if d == 6 {
        "6"
    } else if d == 7 {
        "7"
    } else if d == 8 {
        "8"
    } else {
        "9"
    }
}

/// Formats `n` in decimal.
pub fn format_usize(n: usize) -> (r: String)
    ensures
        r@ == spec_dec_digits(n as int),
    decreases n,
{
    if n < 10 {
        let r = digit_str(n).to_owned();
        proof {
            assert(r@ =~= spec_dec_digits(n as int));
        }
        r
    } else {
        let mut r = format_usize(n / 10);
        r.append(digit_str(n % 10));
        proof {
            assert(r@ =~= spec_dec_digits(n as int));
        }
        r
    }
}

/// Left-pads the decimal form of `n` with zeros to `width` characters.
pub fn format_padded(n: usize, width: usize) -> (r: String)
    ensures
        r@ == spec_zero_pad(spec_dec_digits(n as int), width as int),
{
    let digits = format_usize(n);
    let digits_len = digits.as_str().unicode_len();
    if digits_len >= width {
        proof {
            assert(digits@ =~= spec_zero_pad(spec_dec_digits(n as int), width as int));
        }
        digits
    } else {
        let mut pad = String::new();
        let mut i: usize = 0;
        proof {
            reveal_strlit("0");
        }
        #[verifier::loop_isolation(false)]
        while i < width - digits_len
            invariant
                0 <= i <= width - digits_len,
                pad@.len() == i,
                forall|j: int| 0 <= j < i ==> pad@[j] == '0',
            decreases width - digits_len - i,
        {
            pad.append("0");
            i = i + 1;
        }
        let r = pad.concat(digits.as_str());
        proof {
            assert(r@ =~= spec_zero_pad(spec_dec_digits(n as int), width as int));
        }
        r
    }
}

/// Builds the file name for `idx` and `subtask` under `path`.
pub fn format_file_name(path: &String, idx: usize, subtask: usize) -> (r: String)
    ensures
        r@ == spec_file_name(path@, idx as int, subtask as int),
{
    let r = path
        .clone()
        .concat("/")
        .concat(format_padded(idx, 5).as_str())
        .concat("-")
        .concat(format_padded(subtask, 3).as_str());
    proof {
        assert(r@ =~= spec_file_name(path@, idx as int, subtask as int));
    }
    r
}

} // verus!
