//! Text-level grammar of a coordinate string: segments separated by commas,
//! each read without the white space around it.

use vstd::prelude::*;

verus! {

/// White space, as Unicode defines it: the code points that carry the
/// property `White_Space`.
pub open spec fn is_space(c: char) -> bool {
    ||| '\u{9}' <= c <= '\u{D}'
    ||| c == ' '
    ||| c == '\u{85}'
    ||| c == '\u{A0}'
    ||| c == '\u{1680}'
    ||| '\u{2000}' <= c <= '\u{200A}'
    ||| c == '\u{2028}'
    ||| c == '\u{2029}'
    ||| c == '\u{202F}'
    ||| c == '\u{205F}'
    ||| c == '\u{3000}'
}

/// Every character of `s` is white space.
pub open spec fn all_space(s: Seq<char>) -> bool {
    forall|i: int| 0 <= i < s.len() ==> is_space(#[trigger] s[i])
}

/// `s` without its leading white space.
pub open spec fn trim_start(s: Seq<char>) -> Seq<char>
    decreases s.len(),
{
    if s.len() > 0 && is_space(s.first()) {
        trim_start(s.drop_first())
    } else {
        s
    }
}

/// `s` without its trailing white space.
pub open spec fn trim_end(s: Seq<char>) -> Seq<char>
    decreases s.len(),
{
    if s.len() > 0 && is_space(s.last()) {
        trim_end(s.drop_last())
    } else {
        s
    }
}

/// `s` without the white space at either end.
pub open spec fn trimmed(s: Seq<char>) -> Seq<char> {
    trim_end(trim_start(s))
}

/// The `n`-th of the segments into which the commas of `s` cut it, counted
/// from zero. A sequence without a comma is one segment, and `k` commas make
/// `k + 1` segments, some of them possibly empty.
pub open spec fn segment(s: Seq<char>, n: nat) -> Option<Seq<char>>
    decreases n,
{
    match s.index_of_first(',') {
        Some(i) => if n == 0 {
            Some(s.take(i))
        } else {
            segment(s.skip(i + 1), (n - 1) as nat)
        },
        None => if n == 0 {
            Some(s)
        } else {
            None
        },
    }
}

/// The `n`-th field of `text`: its `n`-th segment, trimmed. An empty text has
/// no field at all.
pub open spec fn nth_field(text: Seq<char>, n: nat) -> Option<Seq<char>> {
    if text.len() == 0 {
        None
    } else {
        match segment(text, n) {
            Some(s) => Some(trimmed(s)),
            None => None,
        }
    }
}

/// No character of `s` is a comma.
pub open spec fn no_comma(s: Seq<char>) -> bool {
    forall|i: int| 0 <= i < s.len() ==> #[trigger] s[i] != ','
}

/// The first comma of `s` is the one at index `i`.
pub proof fn lemma_first_comma_at(s: Seq<char>, i: int)
    requires
        0 <= i < s.len(),
        s[i] == ',',
        no_comma(s.take(i)),
    ensures
        s.index_of_first(',') == Some(i),
{
    s.index_of_first_ensures(',');
    assert(s.contains(','));
    assert forall|j: int| 0 <= j < i implies s[j] != ',' by {
        assert(s.take(i)[j] == s[j]);
    }
}

/// A sequence without a comma has no first comma.
pub proof fn lemma_no_first_comma(s: Seq<char>)
    requires
        no_comma(s),
    ensures
        s.index_of_first(',') is None,
{
    s.index_of_first_ensures(',');
}

/// Leading white space ends where the first other character stands.
pub proof fn lemma_trim_start_at(s: Seq<char>, k: int)
    requires
        0 <= k <= s.len(),
        forall|j: int| 0 <= j < k ==> is_space(s[j]),
        k < s.len() ==> !is_space(s[k]),
    ensures
        trim_start(s) == s.skip(k),
    decreases k,
{
    if k == 0 {
        assert(s.skip(0) =~= s);
    } else {
        lemma_trim_start_at(s.drop_first(), k - 1);
        assert(s.drop_first().skip(k - 1) =~= s.skip(k));
    }
}

/// Trailing white space begins behind the last other character.
pub proof fn lemma_trim_end_at(s: Seq<char>, k: int)
    requires
        0 <= k <= s.len(),
        forall|j: int| k <= j < s.len() ==> is_space(s[j]),
        0 < k ==> !is_space(s[k - 1]),
    ensures
        trim_end(s) == s.take(k),
    decreases s.len() - k,
{
    if k == s.len() {
        assert(s.take(k) =~= s);
    } else {
        lemma_trim_end_at(s.drop_last(), k);
        assert(s.drop_last().take(k) =~= s.take(k));
    }
}

/// White space in front of a sequence does not change what `trim_start`
/// leaves of it.
pub proof fn lemma_trim_start_ignores_lead(lead: Seq<char>, s: Seq<char>)
    requires
        all_space(lead),
    ensures
        trim_start(lead + s) == trim_start(s),
    decreases lead.len(),
{
    if lead.len() == 0 {
        assert(lead + s =~= s);
    } else {
        assert((lead + s).first() == lead[0]);
        assert((lead + s).drop_first() =~= lead.drop_first() + s);
        lemma_trim_start_ignores_lead(lead.drop_first(), s);
    }
}

/// White space behind a sequence does not change what `trim_end` leaves
/// of it.
pub proof fn lemma_trim_end_ignores_trail(s: Seq<char>, trail: Seq<char>)
    requires
        all_space(trail),
    ensures
        trim_end(s + trail) == trim_end(s),
    decreases trail.len(),
{
    if trail.len() == 0 {
        assert(s + trail =~= s);
    } else {
        assert((s + trail).last() == trail.last());
        assert((s + trail).drop_last() =~= s + trail.drop_last());
        lemma_trim_end_ignores_trail(s, trail.drop_last());
    }
}

/// White space around a sequence is not part of what is read from it:
/// trimming the padded sequence gives what trimming the bare one gives.
pub proof fn lemma_trimmed_ignores_padding(lead: Seq<char>, s: Seq<char>, trail: Seq<char>)
    requires
        all_space(lead),
        all_space(trail),
    ensures
        trimmed(lead + s + trail) == trimmed(s),
    decreases s.len(),
{
    assert(lead + s + trail =~= lead + (s + trail));
    lemma_trim_start_ignores_lead(lead, s + trail);
    if s.len() == 0 {
        assert(s + trail =~= trail);
        lemma_trim_start_at(trail, trail.len() as int);
        assert(trail.skip(trail.len() as int) =~= s);
    } else if is_space(s.first()) {
        assert((s + trail).first() == s.first());
        assert((s + trail).drop_first() =~= s.drop_first() + trail);
        assert(Seq::<char>::empty() + s.drop_first() + trail =~= s.drop_first() + trail);
        lemma_trimmed_ignores_padding(Seq::empty(), s.drop_first(), trail);
    } else {
        assert((s + trail).first() == s.first());
        lemma_trim_end_ignores_trail(s, trail);
    }
}

/// A text of one segment has that segment, trimmed, for its first field,
/// and no second field.
pub proof fn lemma_fields_of_one(first: Seq<char>)
    requires
        first.len() > 0,
        no_comma(first),
    ensures
        nth_field(first, 0) == Some(trimmed(first)),
        nth_field(first, 1) is None,
{
    lemma_no_first_comma(first);
}

/// The first two fields of a text are its first two segments, trimmed, and
/// whatever follows the second behind a further comma has no part in them.
pub proof fn lemma_fields_of_two(first: Seq<char>, second: Seq<char>, rest: Seq<char>)
    requires
        no_comma(first),
        no_comma(second),
        rest.len() > 0 ==> rest[0] == ',',
    ensures
        nth_field(first + seq![','] + second + rest, 0) == Some(trimmed(first)),
        nth_field(first + seq![','] + second + rest, 1) == Some(trimmed(second)),
{
    reveal_with_fuel(segment, 2);
    let text = first + seq![','] + second + rest;
    let n = first.len() as int;
    assert(text.take(n) =~= first);
    lemma_first_comma_at(text, n);
    let tail = text.skip(n + 1);
    assert(tail =~= second + rest);
    if rest.len() == 0 {
        assert(tail =~= second);
        lemma_no_first_comma(tail);
    } else {
        let m = second.len() as int;
        assert(tail.take(m) =~= second);
        lemma_first_comma_at(tail, m);
    }
}

/// White space around the first two segments of a text, and whatever
/// follows them behind a further comma, changes neither of its first two
/// fields.
pub proof fn lemma_fields_ignore_padding(
    first: Seq<char>,
    second: Seq<char>,
    pads: (Seq<char>, Seq<char>, Seq<char>, Seq<char>),
    rest: Seq<char>,
)
    requires
        no_comma(first),
        no_comma(second),
        all_space(pads.0),
        all_space(pads.1),
        all_space(pads.2),
        all_space(pads.3),
        rest.len() > 0 ==> rest[0] == ',',
    ensures
        nth_field(pads.0 + first + pads.1 + seq![','] + pads.2 + second + pads.3 + rest, 0)
            == nth_field(first + seq![','] + second, 0),
        nth_field(pads.0 + first + pads.1 + seq![','] + pads.2 + second + pads.3 + rest, 1)
            == nth_field(first + seq![','] + second, 1),
{
    let wide_first = pads.0 + first + pads.1;
    let wide_second = pads.2 + second + pads.3;
    assert(wide_first + seq![','] + wide_second + rest =~= pads.0 + first + pads.1 + seq![',']
        + pads.2 + second + pads.3 + rest);
    lemma_fields_of_two(wide_first, wide_second, rest);
    lemma_trimmed_ignores_padding(pads.0, first, pads.1);
    lemma_trimmed_ignores_padding(pads.2, second, pads.3);
    assert(first + seq![','] + second + Seq::<char>::empty() =~= first + seq![','] + second);
    lemma_fields_of_two(first, second, Seq::empty());
}

/// Tells whether a character is white space.
pub fn is_whitespace(c: char) -> (r: bool)
    ensures
        r == is_space(c),
{
    ('\u{9}' <= c && c <= '\u{D}') || c == ' ' || c == '\u{85}' || c == '\u{A0}' || c == '\u{1680}'
        || ('\u{2000}' <= c && c <= '\u{200A}') || c == '\u{2028}' || c == '\u{2029}' || c
        == '\u{202F}' || c == '\u{205F}' || c == '\u{3000}'
}

/// The characters of `text`, one element each.
fn characters(text: &str) -> (chars: Vec<char>)
    ensures
        chars@ == text@,
{
    let mut chars: Vec<char> = Vec::new();
    for c in it: text.chars()
        invariant
            chars@ == it.seq().take(it.index()),
            it.seq() == text@,
    {
        chars.push(c);
    }
    chars
}

/// Index of the first comma at or behind `from`, or the length where there
/// is none.
fn find_comma(chars: &Vec<char>, from: usize) -> (end: usize)
    requires
        from <= chars.len(),
    ensures
        from <= end <= chars.len(),
        no_comma(chars@.subrange(from as int, end as int)),
        end < chars.len() ==> chars[end as int] == ',',
{
    let mut end: usize = from;
    while end < chars.len() && chars[end] != ','
        invariant
            from <= end <= chars.len(),
            forall|j: int| from <= j < end ==> chars[j] != ',',
        decreases chars.len() - end,
    {
        end += 1;
    }
    end
}

/// Bounds of `chars[start..end]` without the white space at either end.
fn trim_bounds(chars: &Vec<char>, start: usize, end: usize) -> (r: (usize, usize))
    requires
        start <= end <= chars.len(),
    ensures
        start <= r.0 <= r.1 <= end,
        chars@.subrange(r.0 as int, r.1 as int) == trimmed(chars@.subrange(start as int, end as int)),
{
    let mut lo: usize = start;
    while lo < end && is_whitespace(chars[lo])
        invariant
            start <= lo <= end <= chars.len(),
            forall|j: int| start <= j < lo ==> is_space(chars[j]),
        decreases end - lo,
    {
        lo += 1;
    }
    let mut hi: usize = end;
    while lo < hi && is_whitespace(chars[hi - 1])
        invariant
            lo <= hi <= end <= chars.len(),
            forall|j: int| hi <= j < end ==> is_space(chars[j]),
        decreases hi - lo,
    {
        hi -= 1;
    }
    proof {
        let whole = chars@.subrange(start as int, end as int);
        let tail = whole.skip(lo - start);
        lemma_trim_start_at(whole, lo - start);
        if lo == hi {
            assert(all_space(tail));
            lemma_trim_end_at(tail, 0);
        } else {
            lemma_trim_end_at(tail, hi - lo);
        }
        assert(tail.take(hi - lo) =~= chars@.subrange(lo as int, hi as int));
    }
    (lo, hi)
}

/// The `n`-th comma-separated field of `text`, trimmed, where there is one.
pub fn field<'a>(text: &'a str, n: usize) -> (r: Option<&'a str>)
    ensures
        match r {
            Some(f) => nth_field(text@, n as nat) == Some(f@),
            None => nth_field(text@, n as nat) is None,
        },
{
    let chars = characters(text);
    let len = chars.len();
    if len == 0 {
        return None;
    }
    let mut start: usize = 0;
    let mut end: usize = find_comma(&chars, 0);
    let mut k: usize = 0;
    proof {
        assert(text@.skip(0) =~= text@);
    }
    while k < n
        invariant
            chars@ == text@,
            len == chars.len(),
            k <= n,
            start <= end <= len,
            no_comma(chars@.subrange(start as int, end as int)),
            end < len ==> chars[end as int] == ',',
            segment(text@, n as nat) == segment(text@.skip(start as int), (n - k) as nat),
        decreases n - k,
    {
        let ghost rest = text@.skip(start as int);
        if end == len {
            proof {
                assert(rest =~= text@.subrange(start as int, end as int));
                lemma_no_first_comma(rest);
            }
            return None;
        }
        proof {
            assert(rest.take(end - start) =~= text@.subrange(start as int, end as int));
            lemma_first_comma_at(rest, end - start);
            assert(rest.skip(end - start + 1) =~= text@.skip(end + 1));
        }
        start = end + 1;
        end = find_comma(&chars, start);
        k += 1;
    }
    let (lo, hi) = trim_bounds(&chars, start, end);
    proof {
        let rest = text@.skip(start as int);
        if end == len {
            assert(rest =~= text@.subrange(start as int, end as int));
            lemma_no_first_comma(rest);
        } else {
            assert(rest.take(end - start) =~= text@.subrange(start as int, end as int));
            lemma_first_comma_at(rest, end - start);
        }
    }
    Some(text.substring_char(lo, hi))
}

} // verus!
