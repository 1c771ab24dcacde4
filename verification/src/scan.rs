//! Character-level helpers shared by the tokenizer and the registry's
//! action parser: whitespace and digit classification, decimal digit runs,
//! and decimal rendering.

use vstd::prelude::*;
use vstd::string::StringExecFns;

verus! {

/// The Unicode `White_Space` characters, the set `char::is_whitespace`
/// recognizes.
pub open spec fn is_space_char(c: char) -> bool {
    ||| c == ' '
    ||| (0x09 <= c as u32 && c as u32 <= 0x0D)
    ||| c as u32 == 0x85
    ||| c as u32 == 0xA0
    ||| c as u32 == 0x1680
    ||| (0x2000 <= c as u32 && c as u32 <= 0x200A)
    ||| c as u32 == 0x2028
    ||| c as u32 == 0x2029
    ||| c as u32 == 0x202F
    ||| c as u32 == 0x205F
    ||| c as u32 == 0x3000
}

pub open spec fn is_digit_char(c: char) -> bool {
    '0' <= c && c <= '9'
}

/// The numeric value of one decimal digit character.
pub open spec fn digit_val(c: char) -> nat {
    (c as u32 - '0' as u32) as nat
}

/// The longest prefix of `s` made of decimal digits.
pub open spec fn digit_run(s: Seq<char>) -> Seq<char>
    decreases s.len(),
{
    if s.len() == 0 || !is_digit_char(s[0]) {
        Seq::empty()
    } else {
        seq![s[0]] + digit_run(s.skip(1))
    }
}

/// The number a run of decimal digits denotes (most significant first).
pub open spec fn digits_value(s: Seq<char>) -> nat
    decreases s.len(),
{
    if s.len() == 0 {
        0
    } else {
        digits_value(s.drop_last()) * 10 + digit_val(s.last())
    }
}

/// Subtraction of one, saturating at zero.
pub open spec fn sat_sub_one(n: nat) -> nat {
    if n == 0 {
        0
    } else {
        (n - 1) as nat
    }
}

/// The character of one decimal digit.
pub open spec fn digit_char(n: nat) -> char {
    if n == 0 {
        '0'
    } else if n == 1 {
        '1'
    } else if n == 2 {
        '2'
    } else if n == 3 {
        '3'
    } else if n == 4 {
        '4'
    } else if n == 5 {
        '5'
    } else if n == 6 {
        '6'
    } else if n == 7 {
        '7'
    } else if n == 8 {
        '8'
    } else {
        '9'
    }
}

/// The decimal rendering of a number, most significant digit first, with no
/// leading zeroes (a lone zero renders as `0`).
pub open spec fn dec_spec(n: nat) -> Seq<char>
    decreases n,
{
    if n < 10 {
        seq![digit_char(n)]
    } else {
        dec_spec(n / 10) + seq![digit_char(n % 10)]
    }
}

pub fn is_space(c: char) -> (b: bool)
    ensures
        b == is_space_char(c),
{
    let u = c as u32;
    u == 0x20 || (0x09 <= u && u <= 0x0D) || u == 0x85 || u == 0xA0 || u == 0x1680 || (0x2000 <= u
        && u <= 0x200A) || u == 0x2028 || u == 0x2029 || u == 0x202F || u == 0x205F || u == 0x3000
}

pub fn is_digit(c: char) -> (b: bool)
    ensures
        b == is_digit_char(c),
{
    '0' <= c && c <= '9'
}

/// The characters of `s`, in order, as a vector.
pub fn collect_chars(s: &str) -> (v: Vec<char>)
    ensures
        v@ == s@,
{
    let n = s.unicode_len();
    let mut v: Vec<char> = Vec::new();
    let mut i: usize = 0;
    while i < n
        invariant
            n == s@.len(),
            i <= n,
            v@ == s@.take(i as int),
        decreases n - i,
    {
        v.push(s.get_char(i));
        i += 1;
        proof {
            assert(v@ =~= s@.take(i as int));
        }
    }
    proof {
        assert(v@ =~= s@);
    }
    v
}

/// The one-character string of one decimal digit.
fn digit_str(d: u128) -> (s: &'static str)
    requires
        d < 10,
    ensures
        s@ == seq![digit_char(d as nat)],
{
    proof {
        reveal_strlit("0");
        reveal_strlit("1");
        reveal_strlit("2");
        reveal_strlit("3");
        reveal_strlit("4");
        reveal_strlit("5");
        reveal_strlit("6");
        reveal_strlit("7");
        reveal_strlit("8");
        reveal_strlit("9");
        assert("0"@ =~= seq!['0']);
        assert("1"@ =~= seq!['1']);
        assert("2"@ =~= seq!['2']);
        assert("3"@ =~= seq!['3']);
        assert("4"@ =~= seq!['4']);
        assert("5"@ =~= seq!['5']);
        assert("6"@ =~= seq!['6']);
        assert("7"@ =~= seq!['7']);
        assert("8"@ =~= seq!['8']);
        assert("9"@ =~= seq!['9']);
    }
    if d == 0 {
        "0"
    } else if d == 1 {
        "1"
    } else if d == 2 {
        "2"
    } else if d == 3 {
        "3"
    } else if d == 4 {
        "4"
    } else if d == 5 {
        "5"
    } else if d == 6 {
        "6"
    } else if d == 7 {
        "7"
    } else if d == 8 {
        "8"
    } else {
        "9"
    }
}

/// Renders a number in decimal, most significant digit first.
pub fn render_number(n: u128) -> (s: String)
    ensures
        s@ == dec_spec(n as nat),
    decreases n,
{
    if n < 10 {
        digit_str(n).to_owned()
    } else {
        proof {
            assert(n / 10 < n) by (nonlinear_arith)
                requires
                    n >= 10,
            ;
        }
        let mut s = render_number(n / 10);
        s.append(digit_str(n % 10));
        s
    }
}

proof fn lemma_digit_run_exact(s: Seq<char>, m: int)
    requires
        0 <= m <= s.len(),
        forall|k: int| 0 <= k < m ==> is_digit_char(#[trigger] s[k]),
        m == s.len() || !is_digit_char(s[m]),
    ensures
        digit_run(s) == s.subrange(0, m),
    decreases m,
{
    if m == 0 {
        assert(digit_run(s) =~= s.subrange(0, 0));
    } else {
        lemma_digit_run_exact(s.skip(1), m - 1);
        assert(digit_run(s) =~= s.subrange(0, m));
    }
}

proof fn lemma_digits_value_push(s: Seq<char>, c: char)
    ensures
        digits_value(s.push(c)) == digits_value(s) * 10 + digit_val(c),
{
    assert(s.push(c).drop_last() =~= s);
    assert(s.push(c).last() == c);
}

/// Scans the decimal digit run of `v` that starts at `start`.
///
/// Returns the position just past the run, and the run's numeric value:
/// `None` when the run is empty or its value does not fit in `usize`,
/// mirroring how `str::parse::<usize>` fails on such input.
pub fn parse_digit_run(v: &Vec<char>, start: usize) -> (r: (usize, Option<usize>))
    requires
        start <= v@.len(),
    ensures
        start <= r.0 <= v@.len(),
        digit_run(v@.skip(start as int)) == v@.subrange(start as int, r.0 as int),
        r.1 == ({
            let run = digit_run(v@.skip(start as int));
            if run.len() == 0 || digits_value(run) > usize::MAX {
                None::<usize>
            } else {
                Some(digits_value(run) as usize)
            }
        }),
{
    let ghost s = v@.skip(start as int);
    let mut i: usize = start;
    let mut acc: Option<usize> = Some(0);
    while i < v.len() && is_digit(v[i])
        invariant
            start <= i <= v@.len(),
            s == v@.skip(start as int),
            forall|k: int| start <= k < i ==> is_digit_char(#[trigger] v@[k]),
            match acc {
                Some(a) => a == digits_value(v@.subrange(start as int, i as int)),
                None => digits_value(v@.subrange(start as int, i as int)) > usize::MAX,
            },
        decreases v@.len() - i,
    {
        let d = (v[i] as u32 - '0' as u32) as usize;
        proof {
            assert(v@.subrange(start as int, i + 1 as int) =~= v@.subrange(
                start as int,
                i as int,
            ).push(v@[i as int]));
            lemma_digits_value_push(v@.subrange(start as int, i as int), v@[i as int]);
        }
        acc = match acc {
            Some(a) => {
                match a.checked_mul(10) {
                    Some(m) => m.checked_add(d),
                    None => None,
                }
            },
            None => None,
        };
        i += 1;
    }
    proof {
        lemma_digit_run_exact(s, i - start);
        assert(s.subrange(0, i - start) =~= v@.subrange(start as int, i as int));
    }
    if i == start {
        return (i, None);
    }
    (i, acc)
}

} // verus!
