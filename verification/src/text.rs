//! Verified text helpers: character-wise string comparison, decimal
//! rendering of counters, and membership tests over lists of names.

use vstd::prelude::*;

verus! {

/// Character-for-character equality of two string slices.
pub fn str_eq(a: &str, b: &str) -> (r: bool)
    ensures
        r == (a@ == b@),
{
    let a_len = a.unicode_len();
    let b_len = b.unicode_len();
    if a_len != b_len {
        assert(a@ != b@) by {
            assert(a@.len() != b@.len());
        }
        return false;
    }
    let mut i: usize = 0;
    while i < a_len
        invariant
            a_len == a@.len(),
            b_len == b@.len(),
            a_len == b_len,
            0 <= i <= a_len,
            forall|j: int| 0 <= j < i ==> a@[j] == b@[j],
        decreases a_len - i,
    {
        if a.get_char(i) != b.get_char(i) {
            assert(a@ != b@) by {
                assert(a@[i as int] != b@[i as int]);
            }
            return false;
        }
        i += 1;
    }
    proof {
        assert(a@ =~= b@);
    }
    true
}

pub open spec fn digit_to_char(d: nat) -> char {
    if d == 0 {
        '0'
    } else if d == 1 {
        '1'
    } else if d == 2 {
        '2'
    } else if d == 3 {
        '3'
    } else if d == 4 {
        '4'
    } else if d == 5 {
        '5'
    } else if d == 6 {
        '6'
    } else if d == 7 {
        '7'
    } else if d == 8 {
        '8'
    } else {
        '9'
    }
}

/// The decimal digits of `n`, most significant first.
pub open spec fn dec_str(n: nat) -> Seq<char>
    decreases n,
{
    if n < 10 {
        seq![digit_to_char(n)]
    } else {
        dec_str(n / 10) + seq![digit_to_char(n % 10)]
    }
}

/// Append one decimal digit to a string.
fn push_digit(s: &mut String, d: u8)
    requires
        d < 10,
    ensures
        final(s)@ == old(s)@ + seq![digit_to_char(d as nat)],
{
    let lit: &str = match d {
        0 => "0",
        1 => "1",
        2 => "2",
        3 => "3",
        4 => "4",
        5 => "5",
        6 => "6",
        7 => "7",
        8 => "8",
        _ => "9",
    };
    proof {
        reveal_strlit("0");
        reveal_strlit("1");
        reveal_strlit("2");
        reveal_strlit("3");
        reveal_strlit("4");
        reveal_strlit("5");
        reveal_strlit("6");
        reveal_strlit("7");
        reveal_strlit("8");
        reveal_strlit("9");
        assert(lit@ =~= seq![digit_to_char(d as nat)]);
    }
    s.append(lit);
}

/// Render a counter in decimal.
pub fn u64_to_string(n: u64) -> (r: String)
    ensures
        r@ == dec_str(n as nat),
    decreases n,
{
    if n < 10 {
        let mut s = String::new();
        push_digit(&mut s, n as u8);
        proof {
            assert(s@ =~= dec_str(n as nat));
        }
        s
    } else {
        let mut s = u64_to_string(n / 10);
        push_digit(&mut s, (n % 10) as u8);
        s
    }
}

/// Whether some string in `vs` reads as `u`.
pub open spec fn seq_contains_str(vs: Seq<String>, u: Seq<char>) -> bool {
    exists|i: int| 0 <= i < vs.len() && vs[i]@ == u
}

/// Membership of `s` in a list of names, compared by characters.
pub fn vec_contains_string(vs: &Vec<String>, s: &String) -> (r: bool)
    ensures
        r == seq_contains_str(vs@, s@),
{
    let mut i: usize = 0;
    while i < vs.len()
        invariant
            0 <= i <= vs@.len(),
            forall|j: int| 0 <= j < i ==> vs@[j]@ != s@,
        decreases vs@.len() - i,
    {
        if str_eq(vs[i].as_str(), s.as_str()) {
            assert(vs@[i as int]@ == s@);
            return true;
        }
        i += 1;
    }
    false
}

/// Copy a list of names; the copy reads exactly as the original.
pub fn clone_string_vec(vs: &Vec<String>) -> (r: Vec<String>)
    ensures
        r@ == vs@,
{
    let r = vs.clone();
    proof {
        assert forall|i: int| 0 <= i < vs@.len() implies r@[i] == vs@[i] by {
            assert(cloned::<String>(vs@[i], r@[i]));
        }
        assert(r@ =~= vs@);
    }
    r
}

} // verus!
