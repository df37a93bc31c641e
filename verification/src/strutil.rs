//! Verified helpers for strings viewed as sequences of characters.

use vstd::prelude::*;

verus! {

/// True when `s` does not contain the character `c`.
pub open spec fn no_char(s: Seq<char>, c: char) -> bool {
    !s.contains(c)
}

/// Splitting a sequence at a position recovers the sequence.
pub proof fn lemma_split_at(s: Seq<char>, i: int)
    requires
        0 <= i < s.len(),
    ensures
        s == s.take(i) + seq![s[i]] + s.skip(i + 1),
{
    assert(s =~= s.take(i) + seq![s[i]] + s.skip(i + 1));
}

/// In a concatenation `u + [c] + v` where `u` is free of `c`, the first
/// occurrence of `c` is exactly at index `u.len()`.
pub proof fn lemma_index_of_first_concat(u: Seq<char>, v: Seq<char>, c: char)
    requires
        no_char(u, c),
    ensures
        (u + seq![c] + v).index_of_first(c) == Some(u.len() as int),
{
    let w = u + seq![c] + v;
    assert(w[u.len() as int] == c);
    w.index_of_first_ensures(c);
    match w.index_of_first(c) {
        Some(index) => {
            if index < u.len() {
                assert(w[index] == u[index]);
                assert(u.contains(c));
            }
            if index > u.len() {
                assert(w[u.len() as int] != c);
            }
        },
        None => {
            assert(w.contains(c));
        },
    }
}

/// Finds the first occurrence of a character in a string.
pub fn find_char(s: &str, c: char) -> (r: Option<usize>)
    ensures
        match r {
            Some(i) => {
                &&& 0 <= i < s@.len()
                &&& s@[i as int] == c
                &&& forall|j: int| 0 <= j < i ==> s@[j] != c
                &&& s@.index_of_first(c) == Some(i as int)
            },
            None => {
                &&& !s@.contains(c)
                &&& s@.index_of_first(c) is None
            },
        },
{
    let n = s.unicode_len();
    let mut i: usize = 0;
    while i < n
        invariant
            n == s@.len(),
            0 <= i <= n,
            forall|j: int| 0 <= j < i ==> s@[j] != c,
        decreases n - i,
    {
        if s.get_char(i) == c {
            proof {
                s@.index_of_first_ensures(c);
                match s@.index_of_first(c) {
                    Some(index) => {
                        if index < i as int {
                            assert(s@[index] != c);
                        }
                        if index > i as int {
                            assert(s@[i as int] != c);
                        }
                    },
                    None => {
                        assert(s@.contains(c));
                    },
                }
            }
            return Some(i);
        }
        i += 1;
    }
    proof {
        s@.index_of_first_ensures(c);
        if s@.contains(c) {
            let w = choose|j: int| 0 <= j < s@.len() && s@[j] == c;
            assert(s@[w] != c);
        }
    }
    None
}

/// Finds the last occurrence of a character in a string.
pub fn find_last_char(s: &str, c: char) -> (r: Option<usize>)
    ensures
        match r {
            Some(i) => {
                &&& 0 <= i < s@.len()
                &&& s@[i as int] == c
                &&& forall|j: int| i < j < s@.len() ==> s@[j] != c
            },
            None => !s@.contains(c),
        },
{
    let n = s.unicode_len();
    let mut i: usize = n;
    while i > 0
        invariant
            n == s@.len(),
            0 <= i <= n,
            forall|j: int| i <= j < n ==> s@[j] != c,
        decreases i,
    {
        i -= 1;
        if s.get_char(i) == c {
            return Some(i);
        }
    }
    proof {
        if s@.contains(c) {
            let w = choose|j: int| 0 <= j < s@.len() && s@[j] == c;
            assert(s@[w] != c);
        }
    }
    None
}

/// Compares two string slices for equality of their character sequences.
pub fn str_eq(a: &str, b: &str) -> (r: bool)
    ensures
        r == (a@ == b@),
{
    let na = a.unicode_len();
    let nb = b.unicode_len();
    if na != nb {
        return false;
    }
    let mut i: usize = 0;
    while i < na
        invariant
            na == a@.len(),
            na == b@.len(),
            0 <= i <= na,
            forall|j: int| 0 <= j < i ==> a@[j] == b@[j],
        decreases na - i,
    {
        if a.get_char(i) != b.get_char(i) {
            return false;
        }
        i += 1;
    }
    proof {
        assert(a@ =~= b@);
    }
    true
}

/// Compares a string with a string slice.
pub fn string_eq_str(a: &String, b: &str) -> (r: bool)
    ensures
        r == (a@ == b@),
{
    str_eq(a.as_str(), b)
}

/// True when `s` ends with the character sequence `suffix`.
pub open spec fn has_suffix(s: Seq<char>, suffix: Seq<char>) -> bool {
    suffix.is_suffix_of(s)
}

/// Tests whether a string ends with the given suffix.
pub fn ends_with(s: &str, suffix: &str) -> (r: bool)
    ensures
        r == has_suffix(s@, suffix@),
{
    let n = s.unicode_len();
    let m = suffix.unicode_len();
    if m > n {
        proof {
            assert(!suffix@.is_suffix_of(s@));
        }
        return false;
    }
    let tail = s.substring_char(n - m, n);
    let r = str_eq(tail, suffix);
    proof {
        assert(s@.subrange(n - m, n as int) =~= s@.skip(n - m));
        if r {
            assert(suffix@.is_suffix_of(s@));
        } else {
            assert(!suffix@.is_suffix_of(s@));
        }
    }
    r
}

/// The character sequences of a sequence of strings.
pub open spec fn seq_views(v: Seq<String>) -> Seq<Seq<char>> {
    v.map_values(|s: String| s@)
}

/// Tests whether some string of the vector has the given characters.
pub fn vec_contains_str(v: &Vec<String>, s: &str) -> (r: bool)
    ensures
        r == seq_views(v@).contains(s@),
{
    let n = v.len();
    let mut i: usize = 0;
    while i < n
        invariant
            n == v@.len(),
            0 <= i <= n,
            forall|j: int| 0 <= j < i ==> v@[j]@ != s@,
        decreases n - i,
    {
        if string_eq_str(&v[i], s) {
            proof {
                assert(seq_views(v@)[i as int] == s@);
            }
            return true;
        }
        i += 1;
    }
    proof {
        if seq_views(v@).contains(s@) {
            let j = choose|j: int| 0 <= j < seq_views(v@).len() && seq_views(v@)[j] == s@;
            assert(v@[j]@ != s@);
        }
    }
    false
}

/// True when `s` starts with the character sequence `prefix`.
pub open spec fn has_prefix(s: Seq<char>, prefix: Seq<char>) -> bool {
    prefix.is_prefix_of(s)
}

/// Tests whether a string starts with the given prefix.
pub fn starts_with(s: &str, prefix: &str) -> (r: bool)
    ensures
        r == has_prefix(s@, prefix@),
{
    let n = s.unicode_len();
    let m = prefix.unicode_len();
    if m > n {
        proof {
            assert(!prefix@.is_prefix_of(s@));
        }
        return false;
    }
    let head = s.substring_char(0, m);
    let r = str_eq(head, prefix);
    proof {
        assert(s@.subrange(0, m as int) =~= s@.take(m as int));
        if r {
            assert(prefix@.is_prefix_of(s@));
        } else {
            assert(!prefix@.is_prefix_of(s@));
        }
    }
    r
}

} // verus!
