//! Contracts for the few `String` operations of std that the library builds its output with.

use vstd::prelude::*;

verus! {

/// `String::push` appends one character at the end of the string: that is all that this
/// specification claims of it.
pub assume_specification[ String::push ](s: &mut String, ch: char)
    ensures
        final(s)@ == old(s)@.push(ch),
;

/// `String::push_str` appends the characters of `string` at the end of the string, in order:
/// that is all that this specification claims of it.
pub assume_specification[ String::push_str ](s: &mut String, string: &str)
    ensures
        final(s)@ == old(s)@ + string@,
;

/// The characters of `s`, in order.
pub fn chars_of(s: &str) -> (v: Vec<char>)
    ensures
        v@ == s@,
{
    let mut v: Vec<char> = Vec::new();
    for c in iter: s.chars()
        invariant
            v@ == iter.seq().take(iter.index() as int),
    {
        v.push(c);
    }
    assert(v@ =~= s@);
    v
}

/// `p` is a prefix of `t`.
pub open spec fn has_prefix(t: Seq<char>, p: Seq<char>) -> bool {
    p.len() <= t.len() && t.subrange(0, p.len() as int) == p
}

/// Whether `t` holds exactly the characters of `lit`.
pub fn equals_str(t: &Vec<char>, lit: &str) -> (eq: bool)
    ensures
        eq == (t@ == lit@),
{
    let l = chars_of(lit);
    if l.len() != t.len() {
        return false;
    }
    let mut i: usize = 0;
    while i < t.len()
        invariant
            i <= t@.len(),
            l@.len() == t@.len(),
            l@ == lit@,
            forall|j: int| 0 <= j < i ==> t@[j] == l@[j],
        decreases t@.len() - i,
    {
        if t[i] != l[i] {
            return false;
        }
        i = i + 1;
    }
    assert(t@ =~= l@);
    true
}

/// Whether `t` starts with the characters of `lit`.
pub fn starts_with_str(t: &Vec<char>, lit: &str) -> (yes: bool)
    ensures
        yes == has_prefix(t@, lit@),
{
    let l = chars_of(lit);
    if l.len() > t.len() {
        return false;
    }
    let mut i: usize = 0;
    while i < l.len()
        invariant
            i <= l@.len(),
            l@.len() <= t@.len(),
            l@ == lit@,
            forall|j: int| 0 <= j < i ==> t@[j] == l@[j],
        decreases l@.len() - i,
    {
        if t[i] != l[i] {
            assert(t@.subrange(0, l@.len() as int)[i as int] != l@[i as int]);
            return false;
        }
        i = i + 1;
    }
    assert(t@.subrange(0, l@.len() as int) =~= l@);
    true
}

/// The characters of `t` from `a` to `b`.
pub fn copy_range(t: &Vec<char>, a: usize, b: usize) -> (v: Vec<char>)
    requires
        a <= b <= t@.len(),
    ensures
        v@ == t@.subrange(a as int, b as int),
{
    let mut v: Vec<char> = Vec::new();
    let mut i: usize = a;
    while i < b
        invariant
            a <= i <= b <= t@.len(),
            v@ == t@.subrange(a as int, i as int),
        decreases b - i,
    {
        v.push(t[i]);
        i = i + 1;
        assert(v@ =~= t@.subrange(a as int, i as int));
    }
    v
}

/// Appends the characters of `t` from `a` to `b` to `out`.
pub fn push_range(out: &mut String, t: &Vec<char>, a: usize, b: usize)
    requires
        a <= b <= t@.len(),
    ensures
        final(out)@ == old(out)@ + t@.subrange(a as int, b as int),
{
    let ghost start = out@;
    let mut i: usize = a;
    while i < b
        invariant
            a <= i <= b <= t@.len(),
            out@ == start + t@.subrange(a as int, i as int),
        decreases b - i,
    {
        out.push(t[i]);
        i = i + 1;
        assert(out@ =~= start + t@.subrange(a as int, i as int));
    }
}

/// The first index from `from` (included) to `to` (excluded) where `t` holds `c`, or `to` when
/// there is none.
pub open spec fn index_of(t: Seq<char>, c: char, from: int, to: int) -> int
    decreases to - from,
{
    if from >= to {
        to
    } else if t[from] == c {
        from
    } else {
        index_of(t, c, from + 1, to)
    }
}

/// The first index from `from` to `to` where `t` holds `c`, or `to`.
pub fn find_char(t: &Vec<char>, c: char, from: usize, to: usize) -> (i: usize)
    requires
        from <= to <= t@.len(),
    ensures
        i == index_of(t@, c, from as int, to as int),
        from <= i <= to,
{
    let mut i = from;
    while i < to
        invariant
            from <= i <= to <= t@.len(),
            index_of(t@, c, from as int, to as int) == index_of(t@, c, i as int, to as int),
        decreases to - i,
    {
        if t[i] == c {
            return i;
        }
        i = i + 1;
    }
    i
}

} // verus!
