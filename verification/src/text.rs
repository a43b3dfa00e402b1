//! Character-level string operations: counting and locating a character,
//! `rsplit_once`, removing a character, and concatenation.
use vstd::prelude::*;

verus! {

/// Number of occurrences of `c` in `s`.
pub open spec fn count_of(s: Seq<char>, c: char) -> nat
    decreases s.len(),
{
    if s.len() == 0 {
        0
    } else {
        count_of(s.drop_last(), c) + if s.last() == c {
            1nat
        } else {
            0nat
        }
    }
}

/// Index of the first occurrence of `c` in `s`, or -1.
pub open spec fn first_index_of(s: Seq<char>, c: char) -> int
    decreases s.len(),
{
    if s.len() == 0 {
        -1
    } else if first_index_of(s.drop_last(), c) >= 0 {
        first_index_of(s.drop_last(), c)
    } else if s.last() == c {
        s.len() - 1
    } else {
        -1
    }
}

/// Index of the last occurrence of `c` in `s`, or -1.
pub open spec fn last_index_of(s: Seq<char>, c: char) -> int
    decreases s.len(),
{
    if s.len() == 0 {
        -1
    } else if s.last() == c {
        s.len() - 1
    } else {
        last_index_of(s.drop_last(), c)
    }
}

/// `s.split(c).next()`: what comes before the first `c`, or all of `s`.
pub open spec fn first_token(s: Seq<char>, c: char) -> Seq<char> {
    if first_index_of(s, c) < 0 {
        s
    } else {
        s.take(first_index_of(s, c))
    }
}

/// `s.rsplit_once(c)`: the parts before and after the last `c`.
pub open spec fn rsplit_once(s: Seq<char>, c: char) -> Option<(Seq<char>, Seq<char>)> {
    let p = last_index_of(s, c);
    if p < 0 {
        None
    } else {
        Some((s.take(p), s.skip(p + 1)))
    }
}

/// `s` with every `c` removed.
pub open spec fn without_char(s: Seq<char>, c: char) -> Seq<char>
    decreases s.len(),
{
    if s.len() == 0 {
        s
    } else if s.last() == c {
        without_char(s.drop_last(), c)
    } else {
        without_char(s.drop_last(), c).push(s.last())
    }
}

proof fn lemma_take_succ(s: Seq<char>, i: int)
    requires
        0 <= i < s.len(),
    ensures
        s.take(i + 1).drop_last() == s.take(i),
        s.take(i + 1).last() == s[i],
        s.take(i + 1).len() == i + 1,
{
    assert(s.take(i + 1).drop_last() =~= s.take(i));
}

pub proof fn lemma_last_index_bound(s: Seq<char>, c: char)
    ensures
        -1 <= last_index_of(s, c) < s.len(),
        last_index_of(s, c) >= 0 ==> s[last_index_of(s, c)] == c,
        forall|j: int| last_index_of(s, c) < j < s.len() ==> s[j] != c,
    decreases s.len(),
{
    if s.len() > 0 && s.last() != c {
        let t = s.drop_last();
        lemma_last_index_bound(t, c);
        assert forall|j: int| last_index_of(s, c) < j < s.len() implies s[j] != c by {
            if j < s.len() - 1 {
                assert(s[j] == t[j]);
            }
        }
    }
}

pub proof fn lemma_first_index_bound(s: Seq<char>, c: char)
    ensures
        -1 <= first_index_of(s, c) < s.len(),
        first_index_of(s, c) >= 0 ==> s[first_index_of(s, c)] == c,
        forall|j: int|
            0 <= j < s.len() && (first_index_of(s, c) < 0 || j < first_index_of(s, c)) ==> s[j]
                != c,
    decreases s.len(),
{
    if s.len() > 0 {
        let t = s.drop_last();
        lemma_first_index_bound(t, c);
        assert forall|j: int|
            0 <= j < s.len() && (first_index_of(s, c) < 0 || j < first_index_of(s, c)) implies s[j]
            != c by {
            if j < s.len() - 1 {
                assert(s[j] == t[j]);
            }
        }
    }
}

/// A character that has no first occurrence does not occur at all.
pub proof fn lemma_absent_not_counted(s: Seq<char>, c: char)
    requires
        first_index_of(s, c) < 0,
    ensures
        count_of(s, c) == 0,
    decreases s.len(),
{
    if s.len() > 0 {
        lemma_absent_not_counted(s.drop_last(), c);
    }
}

/// Removing a character from a concatenation removes it from each part.
pub proof fn lemma_without_concat(a: Seq<char>, b: Seq<char>, c: char)
    ensures
        without_char(a + b, c) == without_char(a, c) + without_char(b, c),
    decreases b.len(),
{
    if b.len() == 0 {
        assert(a + b =~= a);
        assert(without_char(a, c) + without_char(b, c) =~= without_char(a, c));
    } else {
        assert((a + b).drop_last() =~= a + b.drop_last());
        lemma_without_concat(a, b.drop_last(), c);
        assert(without_char(a, c) + without_char(b.drop_last(), c).push(b.last()) =~= (
        without_char(a, c) + without_char(b.drop_last(), c)).push(b.last()));
    }
}

/// Removing a character that does not occur changes nothing.
pub proof fn lemma_without_absent(s: Seq<char>, c: char)
    requires
        forall|i: int| 0 <= i < s.len() ==> s[i] != c,
    ensures
        without_char(s, c) == s,
    decreases s.len(),
{
    if s.len() > 0 {
        lemma_without_absent(s.drop_last(), c);
        assert(s.drop_last().push(s.last()) =~= s);
    }
}

/// Number of occurrences of `c` in `s`.
pub fn count_char(s: &str, c: char) -> (res: usize)
    ensures
        res == count_of(s@, c),
{
    let n = s.unicode_len();
    let mut i: usize = 0;
    let mut k: usize = 0;
    while i < n
        invariant
            n == s@.len(),
            0 <= i <= n,
            k == count_of(s@.take(i as int), c),
            k <= i,
        decreases n - i,
    {
        proof {
            lemma_take_succ(s@, i as int);
        }
        if s.get_char(i) == c {
            k = k + 1;
        }
        i = i + 1;
    }
    proof {
        assert(s@.take(n as int) =~= s@);
    }
    k
}

/// Index of the first occurrence of `c` in `s`.
pub fn first_index(s: &str, c: char) -> (res: Option<usize>)
    ensures
        match res {
            Some(i) => first_index_of(s@, c) == i as int,
            None => first_index_of(s@, c) == -1,
        },
{
    let n = s.unicode_len();
    let mut i: usize = 0;
    while i < n
        invariant
            n == s@.len(),
            0 <= i <= n,
            first_index_of(s@.take(i as int), c) == -1,
        decreases n - i,
    {
        proof {
            lemma_take_succ(s@, i as int);
        }
        if s.get_char(i) == c {
            proof {
                lemma_prefix_first_index(s@, c, i as int);
            }
            return Some(i);
        }
        i = i + 1;
    }
    proof {
        assert(s@.take(n as int) =~= s@);
    }
    None
}

proof fn lemma_prefix_first_index(s: Seq<char>, c: char, i: int)
    requires
        0 <= i < s.len(),
        first_index_of(s.take(i), c) == -1,
        s[i] == c,
    ensures
        first_index_of(s, c) == i,
    decreases s.len(),
{
    if i + 1 == s.len() {
        assert(s.take(i) =~= s.drop_last());
    } else {
        assert(s.drop_last().take(i) =~= s.take(i));
        lemma_prefix_first_index(s.drop_last(), c, i);
    }
}

/// Index of the last occurrence of `c` in `s`.
pub fn last_index(s: &str, c: char) -> (res: Option<usize>)
    ensures
        match res {
            Some(i) => last_index_of(s@, c) == i as int,
            None => last_index_of(s@, c) == -1,
        },
{
    let n = s.unicode_len();
    let mut i: usize = n;
    proof {
        assert(s@.take(n as int) =~= s@);
    }
    while i > 0
        invariant
            n == s@.len(),
            0 <= i <= n,
            last_index_of(s@, c) == last_index_of(s@.take(i as int), c),
        decreases i,
    {
        proof {
            lemma_take_succ(s@, i - 1);
        }
        if s.get_char(i - 1) == c {
            return Some(i - 1);
        }
        i = i - 1;
    }
    None
}

/// `s.rsplit_once(c)`
pub fn rsplit_char<'a>(s: &'a str, c: char) -> (res: Option<(&'a str, &'a str)>)
    ensures
        match res {
            Some((before, after)) => rsplit_once(s@, c) == Some((before@, after@)),
            None => rsplit_once(s@, c) is None,
        },
{
    match last_index(s, c) {
        Some(p) => {
            proof {
                lemma_last_index_bound(s@, c);
            }
            let n = s.unicode_len();
            let before = s.substring_char(0, p);
            let after = s.substring_char(p + 1, n);
            proof {
                assert(before@ =~= s@.take(p as int));
                assert(after@ =~= s@.skip(p + 1));
            }
            Some((before, after))
        },
        None => None,
    }
}

/// `a` followed by `b`.
pub fn concat(a: &str, b: &str) -> (res: String)
    ensures
        res@ == a@ + b@,
{
    let mut r = a.to_owned();
    r.append(b);
    r
}

/// Whether two strings hold the same characters.
pub fn same_text(a: &str, b: &str) -> (res: bool)
    ensures
        res == (a@ == b@),
{
    a.to_owned() == b.to_owned()
}

/// `s.split(c).next()`: what comes before the first `c`, or all of `s`.
pub fn first_token_of<'a>(s: &'a str, c: char) -> (res: &'a str)
    ensures
        res@ == first_token(s@, c),
{
    match first_index(s, c) {
        Some(p) => {
            proof {
                lemma_first_index_bound(s@, c);
            }
            let before = s.substring_char(0, p);
            proof {
                assert(before@ =~= s@.take(p as int));
            }
            before
        },
        None => s,
    }
}

} // verus!
