//! Small verified helpers over strings and byte vectors.

use vstd::prelude::*;

verus! {

/// True when `c` occurs in `s`.
pub open spec fn contains_char(s: Seq<char>, c: char) -> bool {
    exists|i: int| 0 <= i < s.len() && s[i] == c
}

/// Splits `s` at the first occurrence of `sep`, which is dropped.
pub fn split_once_char<'a>(s: &'a str, sep: char) -> (r: Option<(&'a str, &'a str)>)
    ensures
        r matches Some(parts) ==> {
            &&& s@ =~= parts.0@ + seq![sep] + parts.1@
            &&& !contains_char(parts.0@, sep)
        },
        r is None ==> !contains_char(s@, sep),
{
    let len = s.unicode_len();
    let mut i: usize = 0;
    while i < len
        invariant
            0 <= i <= len == s@.len(),
            forall|j: int| 0 <= j < i ==> s@[j] != sep,
        decreases len - i,
    {
        if s.get_char(i) == sep {
            let left = s.substring_char(0, i);
            let right = s.substring_char(i + 1, len);
            proof {
                assert(s@ =~= left@ + seq![sep] + right@);
            }
            return Some((left, right));
        }
        i = i + 1;
    }
    None
}

/// Splitting at the first occurrence of a separator is unambiguous: any two
/// decompositions whose left part avoids the separator coincide.
pub proof fn lemma_split_at_char_unique(
    l1: Seq<char>,
    r1: Seq<char>,
    l2: Seq<char>,
    r2: Seq<char>,
    c: char,
)
    requires
        l1 + seq![c] + r1 == l2 + seq![c] + r2,
        !contains_char(l1, c),
        !contains_char(l2, c),
    ensures
        l1 == l2,
        r1 == r2,
{
    let s = l1 + seq![c] + r1;
    if l1.len() < l2.len() {
        assert(s[l1.len() as int] == c);
        assert((l2 + seq![c] + r2)[l1.len() as int] == l2[l1.len() as int]);
        assert(contains_char(l2, c));
    } else if l2.len() < l1.len() {
        assert(s[l2.len() as int] == c);
        assert((l1 + seq![c] + r1)[l2.len() as int] == l1[l2.len() as int]);
        assert(contains_char(l1, c));
    } else {
        assert(s.len() == l1.len() + 1 + r1.len());
        assert((l2 + seq![c] + r2).len() == l2.len() + 1 + r2.len());
        assert(r1.len() == r2.len());
        assert forall|i: int| 0 <= i < l1.len() implies l1[i] == l2[i] by {
            assert(s[i] == l1[i]);
            assert((l2 + seq![c] + r2)[i] == l2[i]);
        }
        assert(l1 =~= l2);
        assert forall|i: int| 0 <= i < r1.len() implies r1[i] == r2[i] by {
            assert(s[l1.len() + 1 + i] == r1[i]);
            assert(s[l1.len() + 1 + i] == (l2 + seq![c] + r2)[l2.len() + 1 + i]);
            assert((l2 + seq![c] + r2)[l2.len() + 1 + i] == r2[i]);
        }
        assert(r1 =~= r2);
    }
}

/// String-slice equality, stated over the views.
pub fn str_eq(a: &str, b: &str) -> (r: bool)
    ensures
        r == (a@ == b@),
{
    let n = a.unicode_len();
    if n != b.unicode_len() {
        return false;
    }
    let mut i: usize = 0;
    while i < n
        invariant
            0 <= i <= n == a@.len() == b@.len(),
            forall|j: int| 0 <= j < i ==> a@[j] == b@[j],
        decreases n - i,
    {
        if a.get_char(i) != b.get_char(i) {
            return false;
        }
        i = i + 1;
    }
    proof {
        assert(a@ =~= b@);
    }
    true
}

/// An element-wise copy of a byte vector.
pub fn clone_bytes(v: &Vec<u8>) -> (r: Vec<u8>)
    ensures
        r@ == v@,
{
    let n = v.len();
    let mut r: Vec<u8> = Vec::new();
    let mut i: usize = 0;
    while i < n
        invariant
            0 <= i <= n == v@.len(),
            r@ =~= v@.take(i as int),
        decreases n - i,
    {
        r.push(v[i]);
        proof {
            assert(r@ =~= v@.take(i as int + 1));
        }
        i = i + 1;
    }
    proof {
        assert(v@.take(n as int) =~= v@);
    }
    r
}

/// Byte-vector equality, stated over the views.
pub fn bytes_eq(a: &Vec<u8>, b: &Vec<u8>) -> (r: bool)
    ensures
        r == (a@ == b@),
{
    if a.len() != b.len() {
        return false;
    }
    let n = a.len();
    let mut i: usize = 0;
    while i < n
        invariant
            0 <= i <= n,
            n == a@.len() == b@.len(),
            forall|j: int| 0 <= j < i ==> a@[j] == b@[j],
        decreases n - i,
    {
        if a[i] != b[i] {
            return false;
        }
        i = i + 1;
    }
    proof {
        assert(a@ =~= b@);
    }
    true
}

} // verus!
