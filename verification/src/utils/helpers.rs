use vstd::prelude::*;
use vstd::string::*;

verus! {

/// Position of the first `:` in `s`, or `s.len()` when there is none.
pub open spec fn colon_index(s: Seq<char>) -> int
    decreases s.len(),
{
    if s.len() == 0 || s[0] == ':' {
        0
    } else {
        1 + colon_index(s.drop_first())
    }
}

/// Number of `[` characters that `s` starts with.
pub open spec fn bracket_run(s: Seq<char>) -> int
    decreases s.len(),
{
    if s.len() == 0 || s[0] != '[' {
        0
    } else {
        1 + bracket_run(s.drop_first())
    }
}

/// The day key of a timestamp: what stands before the first `:`, without the
/// `[` characters it starts with.
pub open spec fn day_part(s: Seq<char>) -> Seq<char> {
    let head = s.take(colon_index(s));
    head.skip(bracket_run(head))
}

/// `colon_index` is the least position that holds a `:`, bounded by the length.
pub proof fn lemma_colon_index(s: Seq<char>)
    ensures
        0 <= colon_index(s) <= s.len(),
        colon_index(s) < s.len() ==> s[colon_index(s)] == ':',
        forall|i: int| 0 <= i < colon_index(s) ==> s[i] != ':',
    decreases s.len(),
{
    if s.len() == 0 || s[0] == ':' {
    } else {
        let t = s.drop_first();
        lemma_colon_index(t);
        assert forall|i: int| 0 <= i < colon_index(s) implies s[i] != ':' by {
            if i > 0 {
                assert(s[i] == t[i - 1]);
            }
        }
    }
}

/// `bracket_run` counts exactly the `[` characters in front of the first other one.
pub proof fn lemma_bracket_run(s: Seq<char>)
    ensures
        0 <= bracket_run(s) <= s.len(),
        bracket_run(s) < s.len() ==> s[bracket_run(s)] != '[',
        forall|i: int| 0 <= i < bracket_run(s) ==> s[i] == '[',
    decreases s.len(),
{
    if s.len() == 0 || s[0] != '[' {
    } else {
        let t = s.drop_first();
        lemma_bracket_run(t);
        assert forall|i: int| 0 <= i < bracket_run(s) implies s[i] == '[' by {
            if i > 0 {
                assert(s[i] == t[i - 1]);
            }
        }
    }
}

/// A position that holds a `:` with none before it is the colon index; so is
/// the length when no position holds one.
pub proof fn lemma_colon_index_is(s: Seq<char>, n: int)
    requires
        0 <= n <= s.len(),
        n < s.len() ==> s[n] == ':',
        forall|i: int| 0 <= i < n ==> s[i] != ':',
    ensures
        colon_index(s) == n,
{
    lemma_colon_index(s);
    let m = colon_index(s);
    if m < n {
        assert(s[m] != ':');
    } else if n < m {
        assert(s[n] != ':');
    }
}

/// A position that holds no `[`, with only `[` before it, is the bracket run;
/// so is the length when every position holds one.
pub proof fn lemma_bracket_run_is(s: Seq<char>, k: int)
    requires
        0 <= k <= s.len(),
        k < s.len() ==> s[k] != '[',
        forall|i: int| 0 <= i < k ==> s[i] == '[',
    ensures
        bracket_run(s) == k,
{
    lemma_bracket_run(s);
    let m = bracket_run(s);
    if m < k {
        assert(s[m] == '[');
    } else if k < m {
        assert(s[k] == '[');
    }
}

/// A text without `:` that does not start with `[` is its own day key.
pub proof fn lemma_day_part_of_plain(s: Seq<char>)
    requires
        forall|i: int| 0 <= i < s.len() ==> s[i] != ':',
        s.len() == 0 || s[0] != '[',
    ensures
        day_part(s) == s,
{
    lemma_colon_index_is(s, s.len() as int);
    assert(s.take(s.len() as int) =~= s);
    lemma_bracket_run_is(s, 0);
    assert(s.skip(0) =~= s);
}

/// A day key holds no `:` and does not start with `[`; taking the day key of
/// a day key changes nothing.
pub proof fn lemma_day_part_stable(s: Seq<char>)
    ensures
        forall|i: int| 0 <= i < day_part(s).len() ==> day_part(s)[i] != ':',
        day_part(s).len() == 0 || day_part(s)[0] != '[',
        day_part(day_part(s)) == day_part(s),
{
    lemma_colon_index(s);
    let head = s.take(colon_index(s));
    lemma_bracket_run(head);
    lemma_day_part_of_plain(day_part(s));
}

/// Extracts the day key from a log timestamp such as `24/Jun/2025:08:14:32 +0000`.
pub fn extract_day_part(date: &str) -> (day: String)
    ensures
        day@ == day_part(date@),
{
    let len = date.unicode_len();
    let mut end: usize = 0;
    let mut start: usize = 0;
    let mut leading = true;
    for c in it: date.chars()
        invariant_except_break
            len == date@.len(),
            it.seq() == date@,
            end == it.index(),
            0 <= start <= end <= len,
            forall|i: int| 0 <= i < end ==> date@[i] != ':',
            forall|i: int| 0 <= i < start ==> date@[i] == '[',
            leading ==> start == end,
            !leading ==> start < end && date@[start as int] != '[',
        ensures
            0 <= start <= end <= len,
            end < len ==> date@[end as int] == ':',
            forall|i: int| 0 <= i < end ==> date@[i] != ':',
            forall|i: int| 0 <= i < start ==> date@[i] == '[',
            start < end ==> date@[start as int] != '[',
    {
        if c == ':' {
            break;
        }
        if leading && c == '[' {
            start = start + 1;
        } else {
            leading = false;
        }
        end = end + 1;
    }
    proof {
        lemma_colon_index_is(date@, end as int);
        let head = date@.take(end as int);
        lemma_bracket_run_is(head, start as int);
        assert(head.skip(start as int) =~= date@.subrange(start as int, end as int));
    }
    date.substring_char(start, end).to_owned()
}

} // verus!
