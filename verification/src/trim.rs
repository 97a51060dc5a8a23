//! Trimming: a text without the whitespace at its two ends.

use vstd::prelude::*;
use vstd::std_specs::iter::IteratorSpec;

verus! {

/// Whether `c` has Unicode's `White_Space` property, as `char::is_whitespace`
/// reports it.
pub uninterp spec fn has_white_space_property(c: char) -> bool;

/// Whether trimming removes `c` from the end of a text: space, tab, line
/// feed and carriage return, and every other character with the
/// `White_Space` property.
pub open spec fn is_whitespace(c: char) -> bool {
    c == ' ' || c == '\t' || c == '\n' || c == '\r' || has_white_space_property(c)
}

/// `char::is_whitespace` of std. Its result is a function of the character
/// alone and is given a name, not a definition; the one thing claimed beyond
/// that is that space, tab, line feed and carriage return are whitespace.
pub assume_specification[ char::is_whitespace ](c: char) -> (b: bool)
    ensures
        b == has_white_space_property(c),
        b == is_whitespace(c),
;

/// `s` without its leading whitespace.
pub open spec fn trim_start(s: Seq<char>) -> Seq<char>
    decreases s.len(),
{
    if s.len() > 0 && is_whitespace(s.first()) {
        trim_start(s.drop_first())
    } else {
        s
    }
}

/// `s` without its trailing whitespace.
pub open spec fn trim_end(s: Seq<char>) -> Seq<char>
    decreases s.len(),
{
    if s.len() > 0 && is_whitespace(s.last()) {
        trim_end(s.drop_last())
    } else {
        s
    }
}

/// `s` without the whitespace at either end.
pub open spec fn trimmed(s: Seq<char>) -> Seq<char> {
    trim_end(trim_start(s))
}

/// How many characters of whitespace `s` begins with.
pub open spec fn leading(s: Seq<char>) -> int {
    s.len() - trim_start(s).len()
}

/// Whether every character of `s` is whitespace.
pub open spec fn all_whitespace(s: Seq<char>) -> bool {
    forall|i: int| 0 <= i < s.len() ==> is_whitespace(#[trigger] s[i])
}

/// Whether `s` neither begins nor ends with whitespace.
pub open spec fn is_trimmed(s: Seq<char>) -> bool {
    s.len() > 0 ==> !is_whitespace(s.first()) && !is_whitespace(s.last())
}

/// Whether `s[start..end]` is `s` with whitespace alone cut off at both
/// ends, and as much of it as there is.
pub open spec fn is_trim_of(s: Seq<char>, start: int, end: int) -> bool {
    &&& 0 <= start <= end <= s.len()
    &&& all_whitespace(s.subrange(0, start))
    &&& all_whitespace(s.subrange(end, s.len() as int))
    &&& is_trimmed(s.subrange(start, end))
}

/// If `s` is whitespace up to `start` and not at `start`, trimming its
/// start leaves `s[start..]`.
proof fn lemma_trim_start_at(s: Seq<char>, start: int)
    requires
        0 <= start <= s.len(),
        all_whitespace(s.subrange(0, start)),
        start < s.len() ==> !is_whitespace(s[start]),
    ensures
        trim_start(s) == s.subrange(start, s.len() as int),
    decreases start,
{
    if start == 0 {
        assert(s.subrange(0, s.len() as int) =~= s);
    } else {
        assert(s.subrange(0, start)[0] == s[0]);
        let t = s.drop_first();
        assert forall|i: int| 0 <= i < start - 1 implies is_whitespace(
            #[trigger] t.subrange(0, start - 1)[i],
        ) by {
            assert(t.subrange(0, start - 1)[i] == s.subrange(0, start)[i + 1]);
        }
        lemma_trim_start_at(t, start - 1);
        assert(t.subrange(start - 1, t.len() as int) =~= s.subrange(start, s.len() as int));
    }
}

/// If `s` is whitespace from `end` on and not just before `end`, trimming
/// its end leaves `s[..end]`.
proof fn lemma_trim_end_at(s: Seq<char>, end: int)
    requires
        0 <= end <= s.len(),
        all_whitespace(s.subrange(end, s.len() as int)),
        0 < end ==> !is_whitespace(s[end - 1]),
    ensures
        trim_end(s) == s.subrange(0, end),
    decreases s.len() - end,
{
    if end == s.len() {
        assert(s.subrange(0, s.len() as int) =~= s);
    } else {
        let n = s.len() as int;
        assert(s.subrange(end, n)[n - end - 1] == s.last());
        let t = s.drop_last();
        assert forall|i: int| 0 <= i < n - 1 - end implies is_whitespace(
            #[trigger] t.subrange(end, n - 1)[i],
        ) by {
            assert(t.subrange(end, n - 1)[i] == s.subrange(end, n)[i]);
        }
        lemma_trim_end_at(t, end);
        assert(t.subrange(0, end) =~= s.subrange(0, end));
    }
}

/// What trimming leaves is fixed by what it may cut: if `s[start..end]` is
/// `s` without whitespace at both ends, and does not itself begin or end
/// with whitespace, then it is `trimmed(s)`.
pub proof fn lemma_trimmed_unique(s: Seq<char>, start: int, end: int)
    requires
        is_trim_of(s, start, end),
    ensures
        trimmed(s) == s.subrange(start, end),
{
    let n = s.len() as int;
    if start == end {
        assert forall|i: int| 0 <= i < n implies is_whitespace(#[trigger] s.subrange(0, n)[i]) by {
            if i < start {
                assert(s.subrange(0, start)[i] == s[i]);
            } else {
                assert(s.subrange(end, n)[i - end] == s[i]);
            }
        }
        lemma_trim_start_at(s, n);
        assert(s.subrange(n, n) =~= s.subrange(start, end));
    } else {
        let mid = s.subrange(start, end);
        assert(mid.first() == s[start]);
        assert(mid.last() == s[end - 1]);
        lemma_trim_start_at(s, start);
        let t = s.subrange(start, n);
        assert forall|i: int| 0 <= i < n - end implies is_whitespace(
            #[trigger] t.subrange(end - start, n - start)[i],
        ) by {
            assert(t.subrange(end - start, n - start)[i] == s.subrange(end, n)[i]);
        }
        assert(t[end - start - 1] == s[end - 1]);
        lemma_trim_end_at(t, end - start);
        assert(t.subrange(0, end - start) =~= mid);
    }
}

/// Trimming the start of `s` cuts off its leading whitespace, all of it.
proof fn lemma_trim_start_cut(s: Seq<char>)
    ensures
        0 <= leading(s) <= s.len(),
        trim_start(s) == s.subrange(leading(s), s.len() as int),
        all_whitespace(s.subrange(0, leading(s))),
        leading(s) < s.len() ==> !is_whitespace(s[leading(s)]),
    decreases s.len(),
{
    let n = s.len() as int;
    if s.len() > 0 && is_whitespace(s.first()) {
        let t = s.drop_first();
        lemma_trim_start_cut(t);
        let k = leading(t);
        assert(t.subrange(k, n - 1) =~= s.subrange(k + 1, n));
        assert forall|i: int| 0 <= i < k + 1 implies is_whitespace(
            #[trigger] s.subrange(0, k + 1)[i],
        ) by {
            if i > 0 {
                assert(s.subrange(0, k + 1)[i] == t.subrange(0, k)[i - 1]);
            }
        }
    } else {
        assert(s.subrange(0, n) =~= s);
    }
}

/// Trimming the end of `s` cuts off its trailing whitespace, all of it.
proof fn lemma_trim_end_cut(s: Seq<char>)
    ensures
        trim_end(s).len() <= s.len(),
        trim_end(s) == s.subrange(0, trim_end(s).len() as int),
        all_whitespace(s.subrange(trim_end(s).len() as int, s.len() as int)),
        trim_end(s).len() > 0 ==> !is_whitespace(s[trim_end(s).len() - 1]),
    decreases s.len(),
{
    let n = s.len() as int;
    if s.len() > 0 && is_whitespace(s.last()) {
        let t = s.drop_last();
        lemma_trim_end_cut(t);
        let e = trim_end(t).len() as int;
        assert(t.subrange(0, e) =~= s.subrange(0, e));
        assert forall|i: int| 0 <= i < n - e implies is_whitespace(
            #[trigger] s.subrange(e, n)[i],
        ) by {
            if i < n - 1 - e {
                assert(s.subrange(e, n)[i] == t.subrange(e, n - 1)[i]);
            }
        }
    } else {
        assert(s.subrange(0, n) =~= s);
    }
}

/// Trimming cuts whitespace off the two ends and nothing else: what is left
/// is one stretch of `s`, everything before and after it is whitespace, and
/// it neither begins nor ends with whitespace. Whitespace inside it stays.
pub proof fn lemma_trimmed_cut(s: Seq<char>)
    ensures
        is_trim_of(s, leading(s), leading(s) + trimmed(s).len()),
        trimmed(s) == s.subrange(leading(s), leading(s) + trimmed(s).len()),
        is_trimmed(trimmed(s)),
{
    let n = s.len() as int;
    let start = leading(s);
    lemma_trim_start_cut(s);
    let t = trim_start(s);
    lemma_trim_end_cut(t);
    let e = trim_end(t).len() as int;
    assert(t.subrange(0, e) =~= s.subrange(start, start + e));
    assert forall|i: int| 0 <= i < n - start - e implies is_whitespace(
        #[trigger] s.subrange(start + e, n)[i],
    ) by {
        assert(s.subrange(start + e, n)[i] == t.subrange(e, n - start)[i]);
    }
}

/// A text that neither begins nor ends with whitespace is its own trimming.
pub proof fn lemma_trimmed_fixed(s: Seq<char>)
    requires
        is_trimmed(s),
    ensures
        trimmed(s) == s,
{
    let n = s.len() as int;
    assert(s.subrange(0, n) =~= s);
    lemma_trimmed_unique(s, 0, n);
}

/// Trimming twice is trimming once.
pub proof fn lemma_trimmed_idempotent(s: Seq<char>)
    ensures
        trimmed(trimmed(s)) == trimmed(s),
{
    lemma_trimmed_cut(s);
    lemma_trimmed_fixed(trimmed(s));
}

/// A text of whitespace alone, the empty text among them, trims to the
/// empty text.
pub proof fn lemma_trimmed_blank(s: Seq<char>)
    requires
        all_whitespace(s),
    ensures
        trimmed(s) == Seq::<char>::empty(),
{
    let n = s.len() as int;
    assert(s.subrange(0, n) =~= s);
    lemma_trimmed_unique(s, n, n);
    assert(s.subrange(n, n) =~= Seq::<char>::empty());
}

/// The line terminator does not count: a text followed by a line feed, or by
/// a carriage return and a line feed, trims to what the text alone trims to.
pub proof fn lemma_trimmed_line_end(s: Seq<char>)
    ensures
        trimmed(s.push('\n')) == trimmed(s),
        trimmed(s.push('\r').push('\n')) == trimmed(s),
{
    lemma_trimmed_more_whitespace(s, seq!['\n']);
    assert(s + seq!['\n'] =~= s.push('\n'));
    lemma_trimmed_more_whitespace(s, seq!['\r', '\n']);
    assert(s + seq!['\r', '\n'] =~= s.push('\r').push('\n'));
}

/// Whitespace added after a text does not change what it trims to.
pub proof fn lemma_trimmed_more_whitespace(s: Seq<char>, tail: Seq<char>)
    requires
        all_whitespace(tail),
    ensures
        trimmed(s + tail) == trimmed(s),
{
    let n = s.len() as int;
    let start = leading(s);
    let end = start + trimmed(s).len();
    let whole = s + tail;
    lemma_trimmed_cut(s);
    assert(whole.subrange(0, start) =~= s.subrange(0, start));
    assert(whole.subrange(start, end) =~= s.subrange(start, end));
    assert forall|i: int| 0 <= i < whole.len() - end implies is_whitespace(
        #[trigger] whole.subrange(end, whole.len() as int)[i],
    ) by {
        if i < n - end {
            assert(whole.subrange(end, whole.len() as int)[i] == s.subrange(end, n)[i]);
        } else {
            assert(whole.subrange(end, whole.len() as int)[i] == tail[i - (n - end)]);
        }
    }
    lemma_trimmed_unique(whole, start, end);
}

/// `s` without the whitespace at either end, as a text of its own.
pub fn trim(s: &str) -> (r: String)
    ensures
        r@ == trimmed(s@),
{
    let n = s.unicode_len();
    // `s[start..end]` is what trimming leaves of the characters seen so far;
    // while only whitespace was seen, both stand at the next character.
    let mut start: usize = 0;
    let mut end: usize = 0;
    let mut i: usize = 0;
    let mut chars = s.chars();
    while i < n
        invariant
            n == s@.len(),
            i <= n,
            chars.remaining() == s@.subrange(i as int, n as int),
            chars.obeys_prophetic_iter_laws(),
            start <= end <= i,
            start == end ==> end == i,
            forall|k: int| 0 <= k < start ==> is_whitespace(#[trigger] s@[k]),
            forall|k: int| end <= k < i ==> is_whitespace(#[trigger] s@[k]),
            start < end ==> !is_whitespace(s@[start as int]) && !is_whitespace(s@[end - 1]),
        decreases n - i,
    {
        let next = chars.next();
        let c = next.unwrap();
        assert(c == s@.subrange(i as int, n as int)[0]);
        if c.is_whitespace() {
            if start == end {
                start = i + 1;
                end = i + 1;
            }
        } else {
            if start == end {
                start = i;
            }
            end = i + 1;
        }
        i = i + 1;
    }
    proof {
        let whole = s@;
        assert forall|k: int| 0 <= k < start implies is_whitespace(
            #[trigger] whole.subrange(0, start as int)[k],
        ) by {
            assert(whole.subrange(0, start as int)[k] == whole[k]);
        }
        assert forall|k: int| 0 <= k < n - end implies is_whitespace(
            #[trigger] whole.subrange(end as int, n as int)[k],
        ) by {
            assert(whole.subrange(end as int, n as int)[k] == whole[k + end]);
        }
        lemma_trimmed_unique(whole, start as int, end as int);
    }
    let kept = s.substring_char(start, end);
    String::from_str(kept)
}

} // verus!
