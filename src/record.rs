use vstd::prelude::*;

use crate::error::LoadError;

verus! {

/// How many times `c` occurs in `s`.
pub open spec fn delim_count(s: Seq<char>, c: char) -> nat
    decreases s.len(),
{
    if s.len() == 0 {
        0
    } else {
        delim_count(s.drop_last(), c) + if s.last() == c {
            1nat
        } else {
            0nat
        }
    }
}

/// A line is a record when the delimiter occurs in it exactly once.
pub open spec fn is_record(s: Seq<char>, c: char) -> bool {
    delim_count(s, c) == 1
}

/// The position of the first `c` in `s` (the length of `s` when there is none).
pub open spec fn first_pos(s: Seq<char>, c: char) -> int
    decreases s.len(),
{
    if s.len() == 0 {
        0
    } else if s[0] == c {
        0
    } else {
        1 + first_pos(s.drop_first(), c)
    }
}

/// The text before the delimiter.
pub open spec fn record_key(s: Seq<char>, c: char) -> Seq<char> {
    s.take(first_pos(s, c))
}

/// The text after the delimiter.
pub open spec fn record_value(s: Seq<char>, c: char) -> Seq<char> {
    s.skip(first_pos(s, c) + 1)
}

proof fn lemma_count_concat(a: Seq<char>, b: Seq<char>, c: char)
    ensures
        delim_count(a + b, c) == delim_count(a, c) + delim_count(b, c),
    decreases b.len(),
{
    if b.len() == 0 {
        assert(a + b =~= a);
    } else {
        assert((a + b).drop_last() =~= a + b.drop_last());
        lemma_count_concat(a, b.drop_last(), c);
    }
}

proof fn lemma_count_zero(s: Seq<char>, c: char)
    ensures
        delim_count(s, c) == 0 <==> !s.contains(c),
    decreases s.len(),
{
    if s.len() > 0 {
        lemma_count_zero(s.drop_last(), c);
        if s.drop_last().contains(c) {
            let j = choose|j: int| 0 <= j < s.drop_last().len() && s.drop_last()[j] == c;
            assert(s[j] == c);
        }
        if s.contains(c) && s.last() != c {
            let j = choose|j: int| 0 <= j < s.len() && s[j] == c;
            assert(s.drop_last()[j] == c);
        }
        if s.last() == c {
            assert(s[s.len() - 1] == c);
        }
    }
}

proof fn lemma_first_pos(s: Seq<char>, c: char, p: int)
    requires
        0 <= p <= s.len(),
        p < s.len() ==> s[p] == c,
        forall|j: int| 0 <= j < p ==> s[j] != c,
    ensures
        first_pos(s, c) == p,
    decreases s.len(),
{
    if s.len() > 0 && s[0] != c {
        lemma_first_pos(s.drop_first(), c, p - 1);
    }
}

proof fn lemma_first_pos_found(s: Seq<char>, c: char)
    requires
        s.contains(c),
    ensures
        0 <= first_pos(s, c) < s.len(),
        s[first_pos(s, c)] == c,
        forall|j: int| 0 <= j < first_pos(s, c) ==> s[j] != c,
    decreases s.len(),
{
    if s[0] != c {
        let j = choose|j: int| 0 <= j < s.len() && s[j] == c;
        assert(s.drop_first()[j - 1] == c);
        lemma_first_pos_found(s.drop_first(), c);
        assert forall|j: int| 0 <= j < first_pos(s, c) implies s[j] != c by {
            if j > 0 {
                assert(s[j] == s.drop_first()[j - 1]);
            }
        }
    }
}

/// A line with exactly one delimiter is the key, the delimiter and the value, in
/// that order, and neither the key nor the value holds the delimiter.
pub proof fn lemma_record_split(s: Seq<char>, c: char)
    requires
        is_record(s, c),
    ensures
        s =~= record_key(s, c) + seq![c] + record_value(s, c),
        !record_key(s, c).contains(c),
        !record_value(s, c).contains(c),
        record_key(s, c).len() + 1 + record_value(s, c).len() == s.len(),
{
    let p = first_pos(s, c);
    let k = record_key(s, c);
    let v = record_value(s, c);
    lemma_count_zero(s, c);
    lemma_first_pos_found(s, c);
    assert(s =~= k + seq![c] + v);
    assert(seq![c].drop_last() =~= Seq::<char>::empty());
    assert(delim_count(seq![c].drop_last(), c) == 0);
    assert(delim_count(seq![c], c) == 1);
    lemma_count_concat(k + seq![c], v, c);
    lemma_count_concat(k, seq![c], c);
    lemma_count_zero(k, c);
    lemma_count_zero(v, c);
}

/// Splits `value` at its one occurrence of `pat`: the line parser that every
/// loader uses.
pub fn tuple2_from_split(value: &str, pat: char) -> (r: Result<(String, String), LoadError>)
    ensures
        match r {
            Ok((k, v)) => is_record(value@, pat) && k@ == record_key(value@, pat) && v@
                == record_value(value@, pat),
            Err(e) => !is_record(value@, pat) && e is MalformedRecord,
        },
{
    let n = value.unicode_len();
    let mut i: usize = 0;
    let mut count: usize = 0;
    let mut pos: usize = 0;
    while i < n
        invariant
            n == value@.len(),
            i <= n,
            count <= i,
            count == delim_count(value@.take(i as int), pat),
            count == 0 ==> forall|j: int| 0 <= j < i ==> value@[j] != pat,
            count > 0 ==> pos < i && value@[pos as int] == pat && forall|j: int|
                0 <= j < pos ==> value@[j] != pat,
        decreases n - i,
    {
        let ch = value.get_char(i);
        assert(value@.take(i + 1).drop_last() =~= value@.take(i as int));
        if ch == pat {
            if count == 0 {
                pos = i;
            }
            count = count + 1;
        }
        i = i + 1;
    }
    assert(value@.take(n as int) =~= value@);
    if count != 1 {
        return Err(LoadError::MalformedRecord);
    }
    proof {
        lemma_first_pos(value@, pat, pos as int);
    }
    let k = value.substring_char(0, pos);
    let v = value.substring_char(pos + 1, n);
    Ok((String::from_str(k), String::from_str(v)))
}

} // verus!
