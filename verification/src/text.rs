use vstd::prelude::*;
use vstd::string::StringExecFns;

verus! {

/// Index of the first occurrence of `c` in `s`, if any.
pub open spec fn find_first(s: Seq<char>, c: char) -> Option<int>
    decreases s.len(),
{
    if s.len() == 0 {
        Option::<int>::None
    } else if s[0] == c {
        Option::Some(0)
    } else {
        match find_first(s.drop_first(), c) {
            Option::Some(i) => Option::Some(i + 1),
            Option::None => Option::None,
        }
    }
}

/// The first occurrence is an occurrence and nothing earlier is one.
pub proof fn lemma_find_first_char(s: Seq<char>, c: char)
    ensures
        match find_first(s, c) {
            Option::Some(i) => 0 <= i < s.len() && s[i] == c && (forall|j: int|
                0 <= j < i ==> s[j] != c),
            Option::None => forall|j: int| 0 <= j < s.len() ==> s[j] != c,
        },
    decreases s.len(),
{
    if s.len() > 0 && s[0] != c {
        lemma_find_first_char(s.drop_first(), c);
        match find_first(s.drop_first(), c) {
            Option::Some(i) => {
                assert(s[i + 1] == s.drop_first()[i]);
                assert forall|j: int| 1 <= j < i + 1 implies s[j] != c by {
                    assert(s.drop_first()[j - 1] == s[j]);
                    assert(s.drop_first()[j - 1] != c);
                }
            },
            Option::None => {
                assert forall|j: int| 1 <= j < s.len() implies s[j] != c by {
                    assert(s.drop_first()[j - 1] == s[j]);
                    assert(s.drop_first()[j - 1] != c);
                }
            },
        }
    }
}

/// Relies on String::push: appends exactly one character.
#[verifier::external_body]
pub fn push_char(s: &mut String, c: char)
    ensures
        final(s)@ == old(s)@.push(c),
{
    s.push(c);
}

/// Finds the first occurrence of `c` among the characters of `s`.
pub fn find_char(s: &str, c: char) -> (r: Option<usize>)
    ensures
        match r {
            Option::Some(i) => find_first(s@, c) == Option::Some(i as int),
            Option::None => find_first(s@, c) is None,
        },
{
    let n = s.unicode_len();
    let mut i: usize = 0;
    while i < n
        invariant
            i <= n,
            n == s@.len(),
            forall|j: int| 0 <= j < i ==> s@[j] != c,
        decreases n - i,
    {
        let g = s.get_char(i);
        if g == c {
            proof {
                lemma_find_first_char(s@, c);
                match find_first(s@, c) {
                    Option::Some(w) => {
                        assert(w == i);
                    },
                    Option::None => {
                        assert(false);
                    },
                }
            }
            return Option::Some(i);
        }
        i += 1;
    }
    proof {
        lemma_find_first_char(s@, c);
        match find_first(s@, c) {
            Option::Some(w) => {
                assert(false);
            },
            Option::None => {},
        }
    }
    Option::None
}

pub open spec fn dec_digit(d: nat) -> char {
    if d == 0 {
        '0'
    } else if d == 1 {
        '1'
    } else if d == 2 {
        '2'
    } else if d == 3 {
        '3'
    } else if d == 4 {
        '4'
    } else if d == 5 {
        '5'
    } else if d == 6 {
        '6'
    } else if d == 7 {
        '7'
    } else if d == 8 {
        '8'
    } else {
        '9'
    }
}

/// The decimal text of a natural number, without leading zeros.
pub open spec fn dec_rep(n: nat) -> Seq<char>
    decreases n,
{
    if n < 10 {
        seq![dec_digit(n)]
    } else {
        dec_rep(n / 10).push(dec_digit(n % 10))
    }
}

/// The decimal text of an integer: a minus sign before the magnitude when
/// negative.
pub open spec fn int_rep(i: int) -> Seq<char> {
    if i < 0 {
        seq!['-'] + dec_rep((-i) as nat)
    } else {
        dec_rep(i as nat)
    }
}

fn digit_char(d: u64) -> (c: char)
    requires
        d < 10,
    ensures
        c == dec_digit(d as nat),
{
    if d == 0 {
        '0'
    } else if d == 1 {
        '1'
    } else if d == 2 {
        '2'
    } else if d == 3 {
        '3'
    } else if d == 4 {
        '4'
    } else if d == 5 {
        '5'
    } else if d == 6 {
        '6'
    } else if d == 7 {
        '7'
    } else if d == 8 {
        '8'
    } else {
        '9'
    }
}

/// Writes a natural number as decimal text.
pub fn u64_to_dec(n: u64) -> (r: String)
    ensures
        r@ == dec_rep(n as nat),
    decreases n,
{
    let c = digit_char(n % 10);
    if n < 10 {
        let mut s = String::new();
        push_char(&mut s, c);
        proof {
            assert(s@ =~= dec_rep(n as nat));
        }
        s
    } else {
        let mut s = u64_to_dec(n / 10);
        push_char(&mut s, c);
        proof {
            assert(s@ =~= dec_rep(n as nat));
        }
        s
    }
}

/// The view of a textual result: both payloads as character sequences.
pub open spec fn res_view(r: Result<String, String>) -> Result<Seq<char>, Seq<char>> {
    match r {
        Result::Ok(s) => Result::Ok(s@),
        Result::Err(e) => Result::Err(e@),
    }
}

/// Writes an integer as decimal text.
pub fn i64_to_dec(n: i64) -> (r: String)
    requires
        n != i64::MIN,
    ensures
        r@ == int_rep(n as int),
{
    if n >= 0 {
        u64_to_dec(n as u64)
    } else {
        let mut s = String::new();
        push_char(&mut s, '-');
        let d = u64_to_dec((-n) as u64);
        s.append(d.as_str());
        proof {
            assert(s@ =~= int_rep(n as int));
        }
        s
    }
}

} // verus!
