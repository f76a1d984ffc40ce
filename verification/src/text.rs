//! The character-level model of message text: whitespace, two-character
//! delimiters, lines and tokens.

use vstd::prelude::*;
use vstd::utf8::{encode_utf8, encode_utf8_decode_utf8};

verus! {

/// The characters that carry the Unicode `White_Space` property.
pub open spec fn is_whitespace(c: char) -> bool {
    ||| ('\u{9}' <= c && c <= '\u{D}')
    ||| c == ' '
    ||| c == '\u{85}'
    ||| c == '\u{A0}'
    ||| c == '\u{1680}'
    ||| ('\u{2000}' <= c && c <= '\u{200A}')
    ||| c == '\u{2028}'
    ||| c == '\u{2029}'
    ||| c == '\u{202F}'
    ||| c == '\u{205F}'
    ||| c == '\u{3000}'
}

/// The line break of the wire format: carriage return, then line feed.
pub open spec fn line_break() -> Seq<char> {
    seq!['\r', '\n']
}

/// What parts a header's name from its value: a colon, then a space.
pub open spec fn separator() -> Seq<char> {
    seq![':', ' ']
}

/// The protocol version that every first line names.
pub open spec fn version() -> Seq<char> {
    seq!['H', 'T', 'T', 'P', '/', '1', '.', '1']
}

/// A text is blank when it holds nothing but whitespace; the empty text is blank.
pub open spec fn is_blank(s: Seq<char>) -> bool {
    forall|i: int| 0 <= i < s.len() ==> is_whitespace(#[trigger] s[i])
}

/// A token is a text that is not empty and holds no whitespace.
pub open spec fn is_token(s: Seq<char>) -> bool {
    s.len() > 0 && forall|i: int| 0 <= i < s.len() ==> !is_whitespace(#[trigger] s[i])
}

/// The characters `a`, `b` stand in `s` at positions `i` and `i + 1`.
pub open spec fn pair_at(s: Seq<char>, i: int, a: char, b: char) -> bool {
    0 <= i && i + 1 < s.len() && s[i] == a && s[i + 1] == b
}

/// `i` is the leftmost position at which `a`, `b` stand in `s`.
pub open spec fn is_first_pair(s: Seq<char>, i: int, a: char, b: char) -> bool {
    pair_at(s, i, a, b) && forall|j: int| 0 <= j < i ==> !pair_at(s, j, a, b)
}

/// The leftmost position at which `a`, `b` stand in `s`, if there is one.
pub open spec fn first_pair(s: Seq<char>, a: char, b: char) -> Option<int> {
    if exists|i: int| is_first_pair(s, i, a, b) {
        Some(choose|i: int| is_first_pair(s, i, a, b))
    } else {
        None
    }
}

/// The pair `a`, `b` stands somewhere in `s`.
pub open spec fn has_pair(s: Seq<char>, a: char, b: char) -> bool {
    exists|i: int| pair_at(s, i, a, b)
}

/// The number of leading items of `s` that satisfy `p`.
pub open spec fn prefix_len<T>(s: Seq<T>, p: spec_fn(T) -> bool) -> nat
    decreases s.len(),
{
    if s.len() > 0 && p(s[0]) {
        1 + prefix_len(s.drop_first(), p)
    } else {
        0
    }
}

/// The first line of `s`: what stands in front of the first line break, or
/// all of `s` where it holds no line break.
pub open spec fn first_line(s: Seq<char>) -> Seq<char> {
    match first_pair(s, '\r', '\n') {
        Some(e) => s.take(e),
        None => s,
    }
}

/// What follows the first line of `s` and its line break.
pub open spec fn after_first_line(s: Seq<char>) -> Seq<char> {
    match first_pair(s, '\r', '\n') {
        Some(e) => s.skip(e + 2),
        None => Seq::empty(),
    }
}

/// The lines of `s`: the pieces between line breaks, without the breaks. A
/// break at the very end of `s` closes the last line and opens no further,
/// empty one; the empty text has no line.
pub open spec fn lines(s: Seq<char>) -> Seq<Seq<char>>
    decreases s.len(),
{
    if s.len() == 0 {
        Seq::empty()
    } else {
        seq![first_line(s)] + lines(after_first_line(s))
    }
}

/// The text in which every one of `ls` is a line: each, closed by a line
/// break, one after the other.
pub open spec fn join_lines(ls: Seq<Seq<char>>) -> Seq<char> {
    ls.map_values(|l: Seq<char>| l + line_break()).flatten()
}

/// The whitespace-separated tokens of `s`: its maximal runs of characters
/// that are not whitespace, from left to right.
pub open spec fn tokens(s: Seq<char>) -> Seq<Seq<char>>
    decreases s.len(),
{
    if s.len() == 0 {
        Seq::empty()
    } else if is_whitespace(s[0]) {
        tokens(s.drop_first())
    } else {
        let n = prefix_len(s, |c: char| !is_whitespace(c)) as int;
        proof {
            lemma_prefix_len_bounds(s, |c: char| !is_whitespace(c));
        }
        seq![s.take(n)] + tokens(s.skip(n))
    }
}

/// `prefix_len` counts a prefix of `s`, every item of which satisfies `p`,
/// and the item behind that prefix, if there is one, does not.
pub proof fn lemma_prefix_len_bounds<T>(s: Seq<T>, p: spec_fn(T) -> bool)
    ensures
        prefix_len(s, p) <= s.len(),
        forall|j: int| 0 <= j < prefix_len(s, p) ==> p(#[trigger] s[j]),
        prefix_len(s, p) < s.len() ==> !p(s[prefix_len(s, p) as int]),
    decreases s.len(),
{
    if s.len() > 0 && p(s[0]) {
        let t = s.drop_first();
        lemma_prefix_len_bounds(t, p);
        assert forall|j: int| 0 <= j < prefix_len(s, p) implies p(#[trigger] s[j]) by {
            if j > 0 {
                assert(s[j] == t[j - 1]);
            }
        }
    }
}

/// A prefix of length `k` whose items all satisfy `p`, and which ends where
/// `s` ends or where an item does not satisfy `p`, is what `prefix_len` counts.
pub proof fn lemma_prefix_len_is<T>(s: Seq<T>, p: spec_fn(T) -> bool, k: int)
    requires
        0 <= k <= s.len(),
        forall|j: int| 0 <= j < k ==> p(#[trigger] s[j]),
        k < s.len() ==> !p(s[k]),
    ensures
        prefix_len(s, p) == k,
    decreases s.len(),
{
    if k > 0 {
        let t = s.drop_first();
        assert forall|j: int| 0 <= j < k - 1 implies p(#[trigger] t[j]) by {}
        lemma_prefix_len_is(t, p, k - 1);
    }
}

/// In front of the first token of `s` stands only whitespace; the token runs
/// to the next whitespace character or to the end of `s`.
pub proof fn lemma_tokens_first(s: Seq<char>, a: int, b: int)
    requires
        0 <= a < b <= s.len(),
        forall|j: int| 0 <= j < a ==> is_whitespace(#[trigger] s[j]),
        forall|j: int| a <= j < b ==> !is_whitespace(#[trigger] s[j]),
        b < s.len() ==> is_whitespace(s[b]),
    ensures
        tokens(s) == seq![s.subrange(a, b)] + tokens(s.skip(b)),
    decreases a,
{
    if a > 0 {
        let t = s.drop_first();
        assert forall|j: int| 0 <= j < a - 1 implies is_whitespace(#[trigger] t[j]) by {}
        assert forall|j: int| a - 1 <= j < b - 1 implies !is_whitespace(#[trigger] t[j]) by {}
        lemma_tokens_first(t, a - 1, b - 1);
        assert(t.subrange(a - 1, b - 1) =~= s.subrange(a, b));
        assert(t.skip(b - 1) =~= s.skip(b));
    } else {
        lemma_prefix_len_is(s, |c: char| !is_whitespace(c), b);
    }
}

/// A blank text has no token.
pub proof fn lemma_tokens_blank(s: Seq<char>)
    requires
        is_blank(s),
    ensures
        tokens(s) == Seq::<Seq<char>>::empty(),
    decreases s.len(),
{
    if s.len() > 0 {
        let t = s.drop_first();
        assert forall|j: int| 0 <= j < t.len() implies is_whitespace(#[trigger] t[j]) by {}
        lemma_tokens_blank(t);
    }
}

/// The leftmost pair is the one that `first_pair` names.
pub proof fn lemma_first_pair_is(s: Seq<char>, i: int, a: char, b: char)
    requires
        is_first_pair(s, i, a, b),
    ensures
        first_pair(s, a, b) == Some(i),
{
    let k = choose|k: int| is_first_pair(s, k, a, b);
    assert(!(k < i) && !(i < k));
}

/// Where no pair stands, `first_pair` names none.
pub proof fn lemma_first_pair_none(s: Seq<char>, a: char, b: char)
    requires
        !has_pair(s, a, b),
    ensures
        first_pair(s, a, b) is None,
{
}

/// Where a pair stands, a leftmost one stands.
pub proof fn lemma_pair_has_first(s: Seq<char>, i: int, a: char, b: char)
    requires
        pair_at(s, i, a, b),
    ensures
        first_pair(s, a, b) is Some,
        is_first_pair(s, first_pair(s, a, b).unwrap(), a, b),
        first_pair(s, a, b).unwrap() <= i,
    decreases i,
{
    if exists|j: int| 0 <= j < i && pair_at(s, j, a, b) {
        let j = choose|j: int| 0 <= j < i && pair_at(s, j, a, b);
        lemma_pair_has_first(s, j, a, b);
    } else {
        lemma_first_pair_is(s, i, a, b);
    }
}

/// A line that holds no line break, followed by a line break, is the first
/// line of whatever it stands in front of.
pub proof fn lemma_first_line_of_join(line: Seq<char>, rest: Seq<char>)
    requires
        !has_pair(line, '\r', '\n'),
    ensures
        first_line(line + line_break() + rest) == line,
        after_first_line(line + line_break() + rest) == rest,
        lines(line + line_break() + rest) == seq![line] + lines(rest),
{
    let s = line + line_break() + rest;
    let n = line.len() as int;
    assert forall|j: int| 0 <= j < n implies !pair_at(s, j, '\r', '\n') by {
        if j + 1 < n {
            assert(!pair_at(line, j, '\r', '\n'));
        }
    }
    lemma_first_pair_is(s, n, '\r', '\n');
}

/// A line break parts the lines in front of it from the lines behind it.
pub proof fn lemma_lines_split(front: Seq<char>, rest: Seq<char>)
    ensures
        lines(front + line_break() + rest) == lines(front + line_break()) + lines(rest),
    decreases front.len(),
{
    let closed = front + line_break();
    let s = closed + rest;
    if has_pair(front, '\r', '\n') {
        let j = choose|j: int| pair_at(front, j, '\r', '\n');
        lemma_pair_has_first(front, j, '\r', '\n');
        let e = first_pair(front, '\r', '\n').unwrap();
        let tail = front.skip(e + 2);
        assert forall|i: int| 0 <= i < e implies !pair_at(s, i, '\r', '\n') && !pair_at(
            closed,
            i,
            '\r',
            '\n',
        ) by {
            assert(!pair_at(front, i, '\r', '\n'));
        }
        lemma_first_pair_is(s, e, '\r', '\n');
        lemma_first_pair_is(closed, e, '\r', '\n');
        assert(s.take(e) =~= closed.take(e));
        assert(s.skip(e + 2) =~= tail + line_break() + rest);
        assert(closed.skip(e + 2) =~= tail + line_break());
        lemma_lines_split(tail, rest);
    } else {
        lemma_first_line_of_join(front, rest);
        lemma_first_line_of_join(front, Seq::empty());
    }
}

/// Joining one more line appends the line and a line break.
pub proof fn lemma_join_lines_push(ls: Seq<Seq<char>>, l: Seq<char>)
    ensures
        join_lines(ls.push(l)) == join_lines(ls) + l + line_break(),
{
    let f = |l: Seq<char>| l + line_break();
    assert(ls.push(l).map_values(f) =~= ls.map_values(f).push(l + line_break()));
    ls.map_values(f).lemma_flatten_push(l + line_break());
}

/// The lines of joined lines are those lines, where none of them holds a
/// line break.
pub proof fn lemma_lines_of_join(ls: Seq<Seq<char>>)
    requires
        forall|i: int| 0 <= i < ls.len() ==> !has_pair(#[trigger] ls[i], '\r', '\n'),
    ensures
        lines(join_lines(ls)) == ls,
    decreases ls.len(),
{
    let f = |l: Seq<char>| l + line_break();
    if ls.len() > 0 {
        let tail = ls.drop_first();
        assert forall|i: int| 0 <= i < tail.len() implies !has_pair(
            #[trigger] tail[i],
            '\r',
            '\n',
        ) by {}
        lemma_lines_of_join(tail);
        assert(ls.map_values(f).drop_first() =~= tail.map_values(f));
        lemma_first_line_of_join(ls[0], join_lines(tail));
    }
}

/// The lines of a text, joined, give the text back; where the text is not
/// empty and does not end in a line break, the line break that closes its
/// last line is added.
pub proof fn lemma_lines_join(s: Seq<char>)
    ensures
        join_lines(lines(s)) == if s.len() == 0 || pair_at(s, s.len() - 2, '\r', '\n') {
            s
        } else {
            s + line_break()
        },
    decreases s.len(),
{
    let f = |l: Seq<char>| l + line_break();
    if s.len() > 0 {
        let rest = after_first_line(s);
        lemma_lines_join(rest);
        assert(lines(s).map_values(f).drop_first() =~= lines(rest).map_values(f));
        if pair_at(s, s.len() - 2, '\r', '\n') {
            lemma_pair_has_first(s, s.len() - 2, '\r', '\n');
        }
    }
}

/// No line of a text holds a line break.
pub proof fn lemma_lines_hold_no_break(s: Seq<char>)
    ensures
        forall|k: int| 0 <= k < lines(s).len() ==> !has_pair(#[trigger] lines(s)[k], '\r', '\n'),
    decreases s.len(),
{
    if s.len() > 0 {
        let first = first_line(s);
        assert(!has_pair(first, '\r', '\n')) by {
            if has_pair(first, '\r', '\n') {
                let j = choose|j: int| pair_at(first, j, '\r', '\n');
                lemma_pair_has_first(s, j, '\r', '\n');
            }
        }
        lemma_lines_hold_no_break(after_first_line(s));
        assert forall|k: int| 0 <= k < lines(s).len() implies !has_pair(
            #[trigger] lines(s)[k],
            '\r',
            '\n',
        ) by {
            if k > 0 {
                assert(lines(s)[k] == lines(after_first_line(s))[k - 1]);
            }
        }
    }
}

/// Every item of `tokens` is a token.
pub proof fn lemma_tokens_are_tokens(s: Seq<char>)
    ensures
        forall|k: int| 0 <= k < tokens(s).len() ==> is_token(#[trigger] tokens(s)[k]),
    decreases s.len(),
{
    if s.len() == 0 {
    } else if is_whitespace(s[0]) {
        lemma_tokens_are_tokens(s.drop_first());
        assert(tokens(s) == tokens(s.drop_first()));
    } else {
        let p = |c: char| !is_whitespace(c);
        let n = prefix_len(s, p) as int;
        lemma_prefix_len_bounds(s, p);
        lemma_tokens_are_tokens(s.skip(n));
        assert(is_token(s.take(n))) by {
            assert forall|i: int| 0 <= i < n implies !is_whitespace(#[trigger] s.take(n)[i]) by {}
        }
        assert forall|k: int| 0 <= k < tokens(s).len() implies is_token(
            #[trigger] tokens(s)[k],
        ) by {
            if k > 0 {
                assert(tokens(s)[k] == tokens(s.skip(n))[k - 1]);
            }
        }
    }
}

/// Whether a character is whitespace.
pub fn char_is_whitespace(c: char) -> (r: bool)
    ensures
        r == is_whitespace(c),
{
    ('\u{9}' <= c && c <= '\u{D}') || c == ' ' || c == '\u{85}' || c == '\u{A0}' || c == '\u{1680}'
        || ('\u{2000}' <= c && c <= '\u{200A}') || c == '\u{2028}' || c == '\u{2029}' || c
        == '\u{202F}' || c == '\u{205F}' || c == '\u{3000}'
}

/// The characters of `s`, one by one.
pub fn chars_of(s: &str) -> (chars: Vec<char>)
    ensures
        chars@ == s@,
{
    let mut chars: Vec<char> = Vec::new();
    for c in it: s.chars()
        invariant
            chars@ == it.seq().take(it.index()),
    {
        chars.push(c);
    }
    chars
}

/// Whether two texts are the same, character by character.
pub fn same_text(a: &str, b: &str) -> (same: bool)
    ensures
        same == (a@ == b@),
{
    let x = a.as_bytes();
    let y = b.as_bytes();
    proof {
        encode_utf8_decode_utf8(a@);
        encode_utf8_decode_utf8(b@);
    }
    if x.len() != y.len() {
        return false;
    }
    for i in 0..x.len()
        invariant
            x@.len() == y@.len(),
            x@ == encode_utf8(a@),
            y@ == encode_utf8(b@),
            forall|j: int| 0 <= j < i ==> x@[j] == y@[j],
    {
        if x[i] != y[i] {
            return false;
        }
    }
    assert(x@ =~= y@);
    true
}

/// Looks for the characters `a`, `b` side by side in `chars[from..to]`, from
/// the left.
pub fn find_pair(chars: &[char], from: usize, to: usize, a: char, b: char) -> (r: Option<usize>)
    requires
        from <= to <= chars@.len(),
    ensures
        match r {
            Some(i) => from <= i && i + 1 < to && first_pair(
                chars@.subrange(from as int, to as int),
                a,
                b,
            ) == Some(i - from),
            None => first_pair(chars@.subrange(from as int, to as int), a, b) is None,
        },
{
    let ghost window = chars@.subrange(from as int, to as int);
    let mut i: usize = from;
    while to - i >= 2
        invariant
            from <= i <= to <= chars@.len(),
            window == chars@.subrange(from as int, to as int),
            forall|j: int| 0 <= j < i - from ==> !pair_at(window, j, a, b),
        decreases to - i,
    {
        if chars[i] == a && chars[i + 1] == b {
            proof {
                lemma_first_pair_is(window, i - from, a, b);
            }
            return Some(i);
        }
        i = i + 1;
    }
    proof {
        assert forall|j: int| !pair_at(window, j, a, b) by {}
        lemma_first_pair_none(window, a, b);
    }
    None
}

/// Splits the first line off `chars[from..]`: the line is
/// `chars[from..end]`, and what follows it and its line break is
/// `chars[next..]`.
pub fn split_line(chars: &[char], from: usize) -> (r: (usize, usize))
    requires
        from <= chars@.len(),
    ensures
        from <= r.0 <= r.1 <= chars@.len(),
        from < chars@.len() ==> from < r.1,
        first_line(chars@.skip(from as int)) == chars@.subrange(from as int, r.0 as int),
        after_first_line(chars@.skip(from as int)) == chars@.skip(r.1 as int),
{
    let n = chars.len();
    match find_pair(chars, from, n, '\r', '\n') {
        Some(e) => (e, e + 2),
        None => (n, n),
    }
}

/// The end of the run of characters that starts at `from` and consists of
/// whitespace (`whitespace` set) or of anything else (`whitespace` clear),
/// inside `chars[from..to]`.
pub fn run_end(chars: &[char], from: usize, to: usize, whitespace: bool) -> (r: usize)
    requires
        from <= to <= chars@.len(),
    ensures
        from <= r <= to,
        forall|j: int| from <= j < r ==> is_whitespace(#[trigger] chars@[j]) == whitespace,
        r < to ==> is_whitespace(chars@[r as int]) != whitespace,
{
    let mut i: usize = from;
    while i < to && char_is_whitespace(chars[i]) == whitespace
        invariant
            from <= i <= to <= chars@.len(),
            forall|j: int| from <= j < i ==> is_whitespace(#[trigger] chars@[j]) == whitespace,
        decreases to - i,
    {
        i = i + 1;
    }
    i
}

} // verus!
