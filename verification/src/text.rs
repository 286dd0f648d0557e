//! Verified text helpers: decimal rendering of counts and substring search.

use vstd::prelude::*;

verus! {

/// The character for one decimal digit.
pub open spec fn dec_digit(d: int) -> char {
    if d == 0 {
        '0'
    } else if d == 1 {
        '1'
    } else if d == 2 {
        '2'
    } else if d == 3 {
        '3'
    } else if d == 4 {
        '4'
    } else if d == 5 {
        '5'
    } else if d == 6 {
        '6'
    } else if d == 7 {
        '7'
    } else if d == 8 {
        '8'
    } else {
        '9'
    }
}

/// The decimal rendering of a natural number, most significant digit first.
pub open spec fn dec_rep(n: nat) -> Seq<char>
    decreases n,
{
    if n < 10 {
        seq![dec_digit(n as int)]
    } else {
        dec_rep(n / 10).push(dec_digit((n % 10) as int))
    }
}

fn digit_str(d: usize) -> (s: &'static str)
    requires
        d < 10,
    ensures
        s@ == seq![dec_digit(d as int)],
{
    if d == 0 {
        proof {
            reveal_strlit("0");
            assert("0"@ =~= seq![dec_digit(0)]);
        }
        "0"
    } else if d == 1 {
        proof {
            reveal_strlit("1");
            assert("1"@ =~= seq![dec_digit(1)]);
        }
        "1"
    } else if d == 2 {
        proof {
            reveal_strlit("2");
            assert("2"@ =~= seq![dec_digit(2)]);
        }
        "2"
    } else if d == 3 {
        proof {
            reveal_strlit("3");
            assert("3"@ =~= seq![dec_digit(3)]);
        }
        "3"
    } else if d == 4 {
        proof {
            reveal_strlit("4");
            assert("4"@ =~= seq![dec_digit(4)]);
        }
        "4"
    } else if d == 5 {
        proof {
            reveal_strlit("5");
            assert("5"@ =~= seq![dec_digit(5)]);
        }
        "5"
    } else if d == 6 {
        proof {
            reveal_strlit("6");
            assert("6"@ =~= seq![dec_digit(6)]);
        }
        "6"
    } else if d == 7 {
        proof {
            reveal_strlit("7");
            assert("7"@ =~= seq![dec_digit(7)]);
        }
        "7"
    } else if d == 8 {
        proof {
            reveal_strlit("8");
            assert("8"@ =~= seq![dec_digit(8)]);
        }
        "8"
    } else {
        proof {
            reveal_strlit("9");
            assert("9"@ =~= seq![dec_digit(9)]);
        }
        "9"
    }
}

/// Renders `n` in decimal.
pub fn usize_to_string(n: usize) -> (s: String)
    ensures
        s@ == dec_rep(n as nat),
    decreases n,
{
    let digit = digit_str(n % 10);
    if n < 10 {
        let s = String::from_str(digit);
        proof {
            assert(s@ =~= dec_rep(n as nat));
        }
        s
    } else {
        let prefix = usize_to_string(n / 10);
        let s = prefix.concat(digit);
        proof {
            assert(s@ =~= dec_rep(n as nat));
        }
        s
    }
}

/// `needle` occurs contiguously inside `hay`.
pub open spec fn is_substr(hay: Seq<char>, needle: Seq<char>) -> bool {
    exists|i: int|
        0 <= i && i + needle.len() <= hay.len() && #[trigger] hay.subrange(i, i + needle.len())
            == needle
}

/// Decides [`is_substr`], scanning every start position.
pub fn str_contains(hay: &str, needle: &str) -> (r: bool)
    ensures
        r == is_substr(hay@, needle@),
{
    let hl = hay.unicode_len();
    let nl = needle.unicode_len();
    if nl > hl {
        return false;
    }
    if nl == 0 {
        proof {
            assert(hay@.subrange(0, 0 + needle@.len() as int) =~= needle@);
        }
        return true;
    }
    let mut i: usize = 0;
    while i <= hl - nl
        invariant
            nl <= hl,
            hl == hay@.len(),
            nl == needle@.len(),
            1 <= nl,
            0 <= i <= hl - nl + 1,
            forall|k: int|
                0 <= k < i ==> #[trigger] hay@.subrange(k, k + needle@.len()) != needle@,
        decreases hl - nl + 1 - i,
    {
        let mut j: usize = 0;
        let mut hit = true;
        while j < nl
            invariant
                nl <= hl,
                hl == hay@.len(),
                nl == needle@.len(),
                0 <= i <= hl - nl,
                0 <= j <= nl,
                hit ==> forall|m: int| 0 <= m < j ==> hay@[i + m] == needle@[m],
                !hit ==> hay@.subrange(i as int, i + needle@.len()) != needle@,
            decreases nl - j,
        {
            if hay.get_char(i + j) != needle.get_char(j) {
                proof {
                    assert(hay@.subrange(i as int, i + needle@.len())[j as int] != needle@[
                    j as int]);
                }
                hit = false;
                j = nl;
            } else {
                j += 1;
            }
        }
        if hit {
            proof {
                assert(hay@.subrange(i as int, i + needle@.len()) =~= needle@);
            }
            return true;
        }
        i += 1;
    }
    proof {
        assert forall|k: int| 0 <= k && k + needle@.len() <= hay@.len() implies #[trigger] hay@
            .subrange(k, k + needle@.len()) != needle@ by {
            assert(k < i);
        }
    }
    false
}

} // verus!
