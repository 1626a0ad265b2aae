//! Text as sequences of characters: runs, lines and words.

use vstd::prelude::*;

verus! {

/// `String::push` appends one character.
pub assume_specification[ String::push ](s: &mut String, c: char)
    ensures
        final(s)@ == old(s)@.push(c),
;

/// The characters of a string.
pub fn chars_of(s: &str) -> (chars: Vec<char>)
    ensures
        chars@ == s@,
{
    let mut chars: Vec<char> = Vec::new();
    for c in it: s.chars()
        invariant
            it.seq() == s@,
            chars@ == s@.take(it.index() as int),
    {
        proof {
            assert(s@.take(it.index() as int).push(c) =~= s@.take(it.index() as int + 1));
        }
        chars.push(c);
    }
    proof {
        assert(s@.take(s@.len() as int) =~= s@);
    }
    chars
}

/// The string of the characters `from..to` of `chars`.
pub fn string_of(chars: &Vec<char>, from: usize, to: usize) -> (s: String)
    requires
        from <= to <= chars.len(),
    ensures
        s@ == chars@.subrange(from as int, to as int),
{
    let mut s = String::new();
    let mut i: usize = from;
    while i < to
        invariant
            from <= i <= to <= chars.len(),
            s@ == chars@.subrange(from as int, i as int),
        decreases to - i,
    {
        s.push(chars[i]);
        i += 1;
        proof {
            assert(chars@.subrange(from as int, i as int) =~= chars@.subrange(
                from as int,
                i - 1,
            ).push(chars@[i - 1]));
        }
    }
    s
}

/// Two strings hold the same characters.
pub fn str_eq(a: &str, b: &str) -> (equal: bool)
    ensures
        equal == (a@ == b@),
{
    a.to_owned() == b.to_owned()
}

/// A character with the Unicode property `White_Space`.
pub open spec fn is_space(c: char) -> bool {
    ||| '\u{9}' <= c <= '\u{d}'
    ||| c == '\u{20}'
    ||| c == '\u{85}'
    ||| c == '\u{a0}'
    ||| c == '\u{1680}'
    ||| '\u{2000}' <= c <= '\u{200a}'
    ||| c == '\u{2028}'
    ||| c == '\u{2029}'
    ||| c == '\u{202f}'
    ||| c == '\u{205f}'
    ||| c == '\u{3000}'
}

/// Tests for a white space character.
pub fn char_is_space(c: char) -> (result: bool)
    ensures
        result == is_space(c),
{
    ('\u{9}' <= c && c <= '\u{d}') || c == '\u{20}' || c == '\u{85}' || c == '\u{a0}' || c == '\u{1680}' || (
    '\u{2000}' <= c && c <= '\u{200a}') || c == '\u{2028}' || c == '\u{2029}' || c == '\u{202f}' || c
        == '\u{205f}' || c == '\u{3000}'
}

/// The length of the longest prefix of `s` whose characters all satisfy `p`.
pub open spec fn run_length(s: Seq<char>, p: spec_fn(char) -> bool) -> nat
    decreases s.len(),
{
    if s.len() > 0 && p(s[0]) {
        1 + run_length(s.drop_first(), p)
    } else {
        0
    }
}

/// A run is at most the whole sequence, holds only characters that satisfy `p`, and ends before
/// one that does not.
pub proof fn run_length_properties(s: Seq<char>, p: spec_fn(char) -> bool)
    ensures
        run_length(s, p) <= s.len(),
        forall|i: int| 0 <= i < run_length(s, p) ==> p(#[trigger] s[i]),
        run_length(s, p) < s.len() ==> !p(s[run_length(s, p) as int]),
    decreases s.len(),
{
    if s.len() > 0 && p(s[0]) {
        let rest = s.drop_first();
        run_length_properties(rest, p);
        assert forall|i: int| 0 <= i < run_length(s, p) implies p(#[trigger] s[i]) by {
            if i > 0 {
                assert(s[i] == rest[i - 1]);
            }
        }
        if run_length(s, p) < s.len() {
            assert(s[run_length(s, p) as int] == rest[run_length(rest, p) as int]);
        }
    }
}

/// Those three facts determine the length of the run.
pub proof fn run_length_is(s: Seq<char>, p: spec_fn(char) -> bool, n: nat)
    requires
        n <= s.len(),
        forall|i: int| 0 <= i < n ==> p(#[trigger] s[i]),
        n < s.len() ==> !p(s[n as int]),
    ensures
        run_length(s, p) == n,
{
    run_length_properties(s, p);
    let r = run_length(s, p);
    if r < n {
        assert(p(s[r as int]));
    }
    if n < r {
        assert(p(s[n as int]));
    }
}

/// White space, as a predicate.
pub open spec fn space() -> spec_fn(char) -> bool {
    |c: char| is_space(c)
}

/// Anything but white space, as a predicate.
pub open spec fn visible() -> spec_fn(char) -> bool {
    |c: char| !is_space(c)
}

/// Anything but `stop`, as a predicate.
pub open spec fn other_than(stop: char) -> spec_fn(char) -> bool {
    |c: char| c != stop
}

/// What follows the white space at the start of `s`.
pub open spec fn trim_start(s: Seq<char>) -> Seq<char> {
    s.skip(run_length(s, space()) as int)
}

/// The first word of `s`: empty where `s` has none.
pub open spec fn first_word(s: Seq<char>) -> Seq<char> {
    let t = trim_start(s);
    t.take(run_length(t, visible()) as int)
}

/// What follows the first word of `s`.
pub open spec fn after_first_word(s: Seq<char>) -> Seq<char> {
    let t = trim_start(s);
    t.skip(run_length(t, visible()) as int)
}

/// The parts of `s` between occurrences of `separator`: one more than there are occurrences.
pub open spec fn split(s: Seq<char>, separator: char) -> Seq<Seq<char>>
    decreases s.len(),
{
    let n = run_length(s, other_than(separator));
    if n < s.len() {
        seq![s.take(n as int)] + split(s.skip(n as int + 1), separator)
    } else {
        seq![s]
    }
}

/// The end of the run of white space that starts at `from`.
pub fn skip_space(chars: &Vec<char>, from: usize, to: usize) -> (end: usize)
    requires
        from <= to <= chars.len(),
    ensures
        from <= end <= to,
        end - from == run_length(chars@.subrange(from as int, to as int), space()),
{
    let mut end: usize = from;
    while end < to && char_is_space(chars[end])
        invariant
            from <= end <= to <= chars.len(),
            forall|i: int| from <= i < end ==> is_space(#[trigger] chars[i]),
        decreases to - end,
    {
        end += 1;
    }
    proof {
        run_length_is(chars@.subrange(from as int, to as int), space(), (end - from) as nat);
    }
    end
}

/// The end of the run of visible characters that starts at `from`.
pub fn skip_word(chars: &Vec<char>, from: usize, to: usize) -> (end: usize)
    requires
        from <= to <= chars.len(),
    ensures
        from <= end <= to,
        end - from == run_length(chars@.subrange(from as int, to as int), visible()),
{
    let mut end: usize = from;
    while end < to && !char_is_space(chars[end])
        invariant
            from <= end <= to <= chars.len(),
            forall|i: int| from <= i < end ==> !is_space(#[trigger] chars[i]),
        decreases to - end,
    {
        end += 1;
    }
    proof {
        run_length_is(chars@.subrange(from as int, to as int), visible(), (end - from) as nat);
    }
    end
}

/// The position of the next `stop` at or after `from`, or the end of the text.
pub fn find_char(chars: &Vec<char>, from: usize, stop: char) -> (end: usize)
    requires
        from <= chars.len(),
    ensures
        from <= end <= chars.len(),
        end - from == run_length(chars@.skip(from as int), other_than(stop)),
        forall|i: int| from <= i < end ==> chars[i] != stop,
        end < chars.len() ==> chars[end as int] == stop,
{
    let mut end: usize = from;
    while end < chars.len() && chars[end] != stop
        invariant
            from <= end <= chars.len(),
            forall|i: int| from <= i < end ==> chars[i] != stop,
        decreases chars.len() - end,
    {
        end += 1;
    }
    proof {
        run_length_is(chars@.skip(from as int), other_than(stop), (end - from) as nat);
    }
    end
}

/// The bounds of the first word in `from..to`; empty at `to` where there is none.
pub fn find_word(chars: &Vec<char>, from: usize, to: usize) -> (bounds: (usize, usize))
    requires
        from <= to <= chars.len(),
    ensures
        from <= bounds.0 <= bounds.1 <= to,
        chars@.subrange(bounds.0 as int, bounds.1 as int) == first_word(
            chars@.subrange(from as int, to as int),
        ),
        chars@.subrange(bounds.1 as int, to as int) == after_first_word(
            chars@.subrange(from as int, to as int),
        ),
{
    let start: usize = skip_space(chars, from, to);
    let end: usize = skip_word(chars, start, to);
    proof {
        let s = chars@.subrange(from as int, to as int);
        assert(trim_start(s) =~= chars@.subrange(start as int, to as int));
        assert(first_word(s) =~= chars@.subrange(start as int, end as int));
        assert(after_first_word(s) =~= chars@.subrange(end as int, to as int));
    }
    (start, end)
}

/// Pieces with a separator between them.
pub open spec fn put_together(pieces: Seq<Seq<char>>, separator: char) -> Seq<char>
    decreases pieces.len(),
{
    if pieces.len() == 0 {
        seq![]
    } else if pieces.len() == 1 {
        pieces[0]
    } else {
        pieces[0] + seq![separator] + put_together(pieces.drop_first(), separator)
    }
}

/// The parts of a text hold no separator, and put together they are the text.
pub proof fn split_is_undone(s: Seq<char>, separator: char)
    ensures
        put_together(split(s, separator), separator) == s,
        split(s, separator).len() > 0,
        forall|i: int|
            0 <= i < split(s, separator).len() ==> !(#[trigger] split(s, separator)[i]).contains(
                separator,
            ),
    decreases s.len(),
{
    let p = other_than(separator);
    let n = run_length(s, p) as int;
    run_length_properties(s, p);
    let pieces = split(s, separator);
    if n < s.len() {
        let rest = s.skip(n + 1);
        split_is_undone(rest, separator);
        let more = split(rest, separator);
        assert(pieces.drop_first() =~= more);
        assert(s =~= s.take(n) + seq![separator] + rest);
        assert forall|i: int| 0 <= i < pieces.len() implies !(#[trigger] pieces[i]).contains(
            separator,
        ) by {
            if i == 0 {
                assert forall|k: int| 0 <= k < n implies s.take(n)[k] != separator by {
                    assert(p(s[k]));
                }
            } else {
                assert(pieces[i] == more[i - 1]);
            }
        }
    } else {
        assert forall|k: int| 0 <= k < s.len() implies s[k] != separator by {
            assert(p(s[k]));
        }
    }
}

/// `start` and `end` are the bounds of the first word of a text: only white space stands before
/// it, none is in it, and it goes on to white space or to the end.
pub open spec fn bounds_first_word(s: Seq<char>, start: int, end: int) -> bool {
    &&& 0 <= start <= end <= s.len()
    &&& forall|i: int| 0 <= i < start ==> is_space(#[trigger] s[i])
    &&& forall|i: int| start <= i < end ==> !is_space(#[trigger] s[i])
    &&& end < s.len() ==> is_space(s[end])
    &&& start == end ==> start == s.len()
}

/// The first word of a text is what stands between its bounds, and what follows it starts there.
pub proof fn first_word_between_spaces(s: Seq<char>)
    ensures
        exists|start: int, end: int| #[trigger]
            bounds_first_word(s, start, end) && first_word(s) == s.subrange(start, end)
                && after_first_word(s) == s.skip(end),
{
    let start = run_length(s, space()) as int;
    run_length_properties(s, space());
    let t = trim_start(s);
    let n = run_length(t, visible()) as int;
    run_length_properties(t, visible());
    let end = start + n;
    assert forall|i: int| 0 <= i < start implies is_space(#[trigger] s[i]) by {
        assert(space()(s[i]));
    }
    assert forall|i: int| start <= i < end implies !is_space(#[trigger] s[i]) by {
        assert(visible()(t[i - start]));
    }
    if start < s.len() {
        assert(!space()(s[start]));
        if n == 0 {
            assert(t[0] == s[start]);
            assert(!visible()(t[0]));
        }
    }
    if end < s.len() {
        assert(t[n] == s[end]);
        assert(!visible()(t[n]));
    }
    assert(bounds_first_word(s, start, end));
    assert(first_word(s) =~= s.subrange(start, end));
    assert(after_first_word(s) =~= s.skip(end));
}

} // verus!
