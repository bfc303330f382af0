//! Verified text helpers: comparing string slices and printing integers
//! in decimal.

use vstd::prelude::*;

verus! {

/// The decimal digit character for a value below ten.
pub open spec fn digit_char(d: int) -> char {
    if d == 0 {
        '0'
    } else if d == 1 {
        '1'
    } else if d == 2 {
        '2'
    } else if d == 3 {
        '3'
    } else if d == 4 {
        '4'
    } else if d == 5 {
        '5'
    } else if d == 6 {
        '6'
    } else if d == 7 {
        '7'
    } else if d == 8 {
        '8'
    } else {
        '9'
    }
}

/// The decimal text of a natural number, without sign and without leading
/// zeros (the number zero is the single digit `0`).
pub open spec fn nat_text(n: nat) -> Seq<char>
    decreases n,
{
    if n < 10 {
        seq![digit_char(n as int)]
    } else {
        nat_text(n / 10).push(digit_char((n % 10) as int))
    }
}

/// The decimal text of an integer: a leading `-` for negative values,
/// then the digits of the magnitude.
pub open spec fn int_text(i: int) -> Seq<char> {
    if i < 0 {
        seq!['-'] + nat_text((-i) as nat)
    } else {
        nat_text(i as nat)
    }
}

/// Whether the two string slices hold the same characters.
pub fn str_eq(a: &str, b: &str) -> (r: bool)
    ensures
        r == (a@ == b@),
{
    let n = a.unicode_len();
    if n != b.unicode_len() {
        return false;
    }
    let mut i: usize = 0;
    while i < n
        invariant
            n == a@.len(),
            n == b@.len(),
            i <= n,
            forall|k: int| 0 <= k < i ==> a@[k] == b@[k],
        decreases n - i,
    {
        if a.get_char(i) != b.get_char(i) {
            return false;
        }
        i += 1;
    }
    proof {
        assert(a@ =~= b@);
    }
    true
}

/// The one-character string slice for a decimal digit.
fn digit_str(d: u8) -> (r: &'static str)
    requires
        d < 10,
    ensures
        r@ == seq![digit_char(d as int)],
{
    proof {
        reveal_strlit("0");
        reveal_strlit("1");
        reveal_strlit("2");
        reveal_strlit("3");
        reveal_strlit("4");
        reveal_strlit("5");
        reveal_strlit("6");
        reveal_strlit("7");
        reveal_strlit("8");
        reveal_strlit("9");
    }
    let r = match d {
        0u8 => "0",
        1u8 => "1",
        2u8 => "2",
        3u8 => "3",
        4u8 => "4",
        5u8 => "5",
        6u8 => "6",
        7u8 => "7",
        8u8 => "8",
        _ => "9",
    };
    proof {
        assert(r@ =~= seq![digit_char(d as int)]);
    }
    r
}

/// The decimal text of a 64-bit signed integer.
pub fn i64_to_string(i: i64) -> (s: String)
    ensures
        s@ == int_text(i as int),
{
    let neg = i < 0;
    let mut mag: u64 = if i >= 0 {
        i as u64
    } else {
        ((-(i + 1)) as u64) + 1
    };
    let ghost m0: nat = mag as nat;
    proof {
        assert(m0 == if i < 0 {
            (-(i as int)) as nat
        } else {
            i as nat
        });
    }
    let mut rev: Vec<u8> = Vec::new();
    if mag == 0 {
        rev.push(0);
        proof {
            assert(nat_text(m0) =~= Seq::new(rev@.len(), |k: int| digit_char(rev@[rev@.len() - 1 - k] as int)));
        }
    } else {
        while mag > 0
            invariant
                mag > 0 ==> nat_text(m0) =~= nat_text(mag as nat) + Seq::new(
                    rev@.len(),
                    |k: int| digit_char(rev@[rev@.len() - 1 - k] as int),
                ),
                mag == 0 ==> rev@.len() > 0 && nat_text(m0) =~= Seq::new(
                    rev@.len(),
                    |k: int| digit_char(rev@[rev@.len() - 1 - k] as int),
                ),
                forall|k: int| 0 <= k < rev@.len() ==> rev@[k] < 10,
            decreases mag,
        {
            let ghost old_rev = rev@;
            let ghost old_mag = mag as nat;
            let d = (mag % 10) as u8;
            rev.push(d);
            mag = mag / 10;
            proof {
                let f = |k: int| digit_char(rev@[rev@.len() - 1 - k] as int);
                let fo = |k: int| digit_char(old_rev[old_rev.len() - 1 - k] as int);
                assert(rev@ == old_rev.push(d));
                if mag > 0 {
                    assert(nat_text(old_mag) =~= nat_text(mag as nat).push(digit_char((old_mag % 10) as int)));
                    assert(nat_text(mag as nat) + Seq::new(rev@.len(), f) =~= (nat_text(
                        mag as nat,
                    ).push(digit_char((old_mag % 10) as int))) + Seq::new(old_rev.len(), fo));
                } else {
                    assert(nat_text(old_mag) =~= seq![digit_char(old_mag as int)]);
                    assert(Seq::new(rev@.len(), f) =~= seq![digit_char((old_mag % 10) as int)]
                        + Seq::new(old_rev.len(), fo));
                }
            }
        }
    }
    let mut s = String::new();
    if neg {
        proof {
            reveal_strlit("-");
        }
        s.append("-");
    }
    let ghost sign_part: Seq<char> = if neg {
        seq!['-']
    } else {
        Seq::empty()
    };
    proof {
        assert(s@ =~= sign_part);
    }
    let mut j: usize = rev.len();
    while j > 0
        invariant
            j <= rev@.len(),
            forall|k: int| 0 <= k < rev@.len() ==> rev@[k] < 10,
            s@ =~= sign_part + Seq::new(
                (rev@.len() - j) as nat,
                |k: int| digit_char(rev@[rev@.len() - 1 - k] as int),
            ),
        decreases j,
    {
        j -= 1;
        let ghost old_s = s@;
        s.append(digit_str(rev[j]));
        proof {
            assert(s@ =~= sign_part + Seq::new(
                (rev@.len() - j) as nat,
                |k: int| digit_char(rev@[rev@.len() - 1 - k] as int),
            ));
        }
    }
    proof {
        assert(Seq::new(rev@.len(), |k: int| digit_char(rev@[rev@.len() - 1 - k] as int))
            =~= nat_text(m0));
        assert(s@ =~= int_text(i as int));
    }
    s
}

} // verus!
