//! Small verified string helpers: equality by character, copying, and
//! semicolon-joined phrase lists.

use vstd::prelude::*;

use vstd::string::{StrSliceExecFns, StringExecFns};

verus! {

/// Character-by-character string equality.
pub fn str_eq(a: &str, b: &str) -> (r: bool)
    ensures
        r == (a@ == b@),
{
    let la = a.unicode_len();
    let lb = b.unicode_len();
    if la != lb {
        proof {
            assert(a@ != b@);
        }
        return false;
    }
    let mut i: usize = 0;
    while i < la
        invariant
            0 <= i <= la,
            la == a@.len(),
            la == b@.len(),
            forall|k: int| 0 <= k < i ==> a@[k] == b@[k],
        decreases la - i,
    {
        if a.get_char(i) != b.get_char(i) {
            return false;
        }
        i = i + 1;
    }
    proof {
        assert(a@ =~= b@);
    }
    true
}

/// A fresh copy of a string.
pub fn copy_string(s: &String) -> (r: String)
    ensures
        r@ == s@,
{
    String::from_str(s.as_str())
}

/// The folded tail of a semicolon join: `acc` followed by `"; " + parts[i]`
/// for each remaining part.
pub open spec fn join_acc(parts: Seq<Seq<char>>, i: int, acc: Seq<char>) -> Seq<char>
    decreases parts.len() - i,
{
    if i < 0 || i >= parts.len() {
        acc
    } else {
        join_acc(parts, i + 1, acc + "; "@ + parts[i])
    }
}

/// Phrases joined by `"; "`, or the fallback for an empty list.
pub open spec fn join_or(parts: Seq<Seq<char>>, fallback: Seq<char>) -> Seq<char> {
    if parts.len() == 0 {
        fallback
    } else {
        join_acc(parts, 1, parts[0])
    }
}

/// One decimal digit as text.
pub open spec fn digit_seq(d: int) -> Seq<char> {
    if d == 0 {
        "0"@
    } else if d == 1 {
        "1"@
    } else if d == 2 {
        "2"@
    } else if d == 3 {
        "3"@
    } else if d == 4 {
        "4"@
    } else if d == 5 {
        "5"@
    } else if d == 6 {
        "6"@
    } else if d == 7 {
        "7"@
    } else if d == 8 {
        "8"@
    } else {
        "9"@
    }
}

/// The decimal representation of a non-negative integer.
pub open spec fn dec_str(n: int) -> Seq<char>
    decreases n,
{
    if n < 10 {
        digit_seq(n)
    } else {
        dec_str(n / 10) + digit_seq(n % 10)
    }
}

fn digit_str(d: u64) -> (r: &'static str)
    requires
        d < 10,
    ensures
        r@ == digit_seq(d as int),
{
    if d == 0 {
        "0"
    } else if d == 1 {
        "1"
    } else if d == 2 {
        "2"
    } else if d == 3 {
        "3"
    } else if d == 4 {
        "4"
    } else if d == 5 {
        "5"
    } else if d == 6 {
        "6"
    } else if d == 7 {
        "7"
    } else if d == 8 {
        "8"
    } else {
        "9"
    }
}

/// A non-negative integer as decimal text.
pub fn u64_to_string(n: u64) -> (r: String)
    ensures
        r@ == dec_str(n as int),
    decreases n,
{
    if n < 10 {
        String::from_str(digit_str(n))
    } else {
        let mut s = u64_to_string(n / 10);
        s.append(digit_str(n % 10));
        s
    }
}

/// Join the phrases with `"; "`, or return the fallback when none
/// triggered.
pub fn join_parts(parts: &Vec<String>, fallback: &str) -> (r: String)
    ensures
        r@ == join_or(parts@.map_values(|p: String| p@), fallback@),
{
    let ghost views = parts@.map_values(|p: String| p@);
    if parts.len() == 0 {
        return String::from_str(fallback);
    }
    let mut s = copy_string(&parts[0]);
    let mut i: usize = 1;
    while i < parts.len()
        invariant
            1 <= i <= parts@.len(),
            views == parts@.map_values(|p: String| p@),
            join_acc(views, i as int, s@) == join_acc(views, 1, views[0]),
        decreases parts@.len() - i,
    {
        s.append("; ");
        s.append(parts[i].as_str());
        i = i + 1;
    }
    s
}

} // verus!
