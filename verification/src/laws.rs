//! What holds of the reading and the writing of requests.

use crate::header::{header_lines, header_text, is_plain_header, HeaderView};
use crate::request::{
    header_block, is_canonical, parse_header, parse_request, request_line, serialize_request,
    without_payload, ParseError, RequestView,
};
use crate::text::{
    first_pair, has_pair, is_blank, is_first_pair, is_token, is_whitespace,
    lemma_first_line_of_join, lemma_first_pair_is, lemma_lines_hold_no_break, lemma_lines_of_join,
    lemma_lines_split,
    lemma_prefix_len_bounds, lemma_prefix_len_is, lemma_tokens_are_tokens, lemma_tokens_first,
    line_break, lines, pair_at, prefix_len, tokens,
};
use vstd::prelude::*;

verus! {

/// Reading the line of a plain header gives the header back. The line holds
/// no line break and is not blank, so it stays one line of a header block.
pub proof fn lemma_plain_header_text(h: HeaderView)
    requires
        is_plain_header(h),
    ensures
        !has_pair(header_text(h), '\r', '\n'),
        !is_blank(header_text(h)),
        parse_header(header_text(h)) == Some(h),
{
    let l = header_text(h);
    let n = h.name.len() as int;
    assert forall|j: int| !pair_at(l, j, '\r', '\n') by {
        if 0 <= j && j + 1 < l.len() {
            if j + 1 < n {
                assert(!pair_at(h.name, j, '\r', '\n'));
            } else if j >= n + 2 {
                assert(!pair_at(h.value, j - n - 2, '\r', '\n'));
            }
        }
    }
    assert(l[n] == ':');
    assert(!is_whitespace(l[n]));
    assert(pair_at(l, n, ':', ' '));
    assert forall|j: int| 0 <= j < n implies !pair_at(l, j, ':', ' ') by {
        if j + 1 < n {
            assert(!pair_at(h.name, j, ':', ' '));
        }
    }
    lemma_first_pair_is(l, n, ':', ' ');
    assert(l.take(n) =~= h.name);
    assert(l.skip(n + 2) =~= h.value);
}

/// The first line of a request starts with the method and the path as its
/// first two tokens, and holds no line break.
proof fn lemma_request_line(method: Seq<char>, path: Seq<char>)
    requires
        is_token(method),
        is_token(path),
    ensures
        tokens(request_line(method, path)).len() >= 2,
        tokens(request_line(method, path))[0] == method,
        tokens(request_line(method, path))[1] == path,
        !has_pair(request_line(method, path), '\r', '\n'),
{
    let l = request_line(method, path);
    let m = method.len() as int;
    let p = path.len() as int;
    assert forall|j: int| 0 <= j < l.len() implies l[j] != '\r' by {
        if j < m {
            assert(!is_whitespace(method[j]));
        } else if m + 1 <= j < m + 1 + p {
            assert(!is_whitespace(path[j - m - 1]));
        }
    }
    assert forall|j: int| 0 <= j < m implies !is_whitespace(#[trigger] l[j]) by {
        assert(l[j] == method[j]);
    }
    assert(l[m] == ' ');
    lemma_tokens_first(l, 0, m);
    assert(l.subrange(0, m) =~= method);
    let tail = l.skip(m);
    assert(tail[0] == ' ');
    assert forall|j: int| 1 <= j < 1 + p implies !is_whitespace(#[trigger] tail[j]) by {
        assert(tail[j] == path[j - 1]);
    }
    assert(tail[1 + p] == ' ');
    lemma_tokens_first(tail, 1, 1 + p);
    assert(tail.subrange(1, 1 + p) =~= path);
}

/// Reading the text of a canonical request gives the request back, without
/// its query and its body.
pub proof fn lemma_round_trip(r: RequestView)
    requires
        is_canonical(r),
    ensures
        parse_request(serialize_request(r)) == Ok::<RequestView, ParseError>(without_payload(r)),
{
    let first = request_line(r.method, r.path);
    let text = serialize_request(r);
    let g = |h: HeaderView| header_text(h);
    let below = r.headers.map_values(g);
    let nonblank = |l: Seq<char>| !is_blank(l);
    lemma_request_line(r.method, r.path);
    assert forall|i: int| 0 <= i < below.len() implies !has_pair(
        #[trigger] below[i],
        '\r',
        '\n',
    ) by {
        lemma_plain_header_text(r.headers[i]);
    }
    lemma_lines_of_join(below);
    lemma_first_line_of_join(first, header_lines(r.headers));
    assert(lines(text) == seq![first] + below);
    assert(lines(text).skip(1) =~= below);
    assert forall|i: int| 0 <= i < below.len() implies nonblank(#[trigger] below[i])
        && parse_header(below[i]) == Some(r.headers[i]) by {
        lemma_plain_header_text(r.headers[i]);
    }
    lemma_prefix_len_is(below, nonblank, below.len() as int);
    assert(header_block(below) =~= below);
    assert(below.map_values(|l: Seq<char>| parse_header(l).unwrap()) =~= r.headers);
}

/// Whatever text a request is read from, the request is canonical, and its
/// query and its body are empty. In particular its method and its path are
/// not empty.
pub proof fn lemma_parsed_is_canonical(text: Seq<char>)
    ensures
        parse_request(text) matches Ok(r) ==> is_canonical(r) && r == without_payload(r),
{
    if let Ok(r) = parse_request(text) {
        let ls = lines(text);
        let nonblank = |l: Seq<char>| !is_blank(l);
        let below = ls.skip(1);
        let block = header_block(below);
        lemma_tokens_are_tokens(ls[0]);
        lemma_lines_hold_no_break(text);
        lemma_prefix_len_bounds(below, nonblank);
        assert forall|i: int| 0 <= i < r.headers.len() implies is_plain_header(
            #[trigger] r.headers[i],
        ) by {
            let l = block[i];
            assert(l == ls[i + 1]);
            assert(parse_header(l) is Some);
            let k = first_pair(l, ':', ' ').unwrap();
            assert(is_first_pair(l, k, ':', ' '));
            let h = r.headers[i];
            assert(h.name == l.take(k));
            assert(h.value == l.skip(k + 2));
            if has_pair(h.name, ':', ' ') {
                let j = choose|j: int| pair_at(h.name, j, ':', ' ');
                assert(pair_at(l, j, ':', ' '));
            }
            if has_pair(h.name, '\r', '\n') {
                let j = choose|j: int| pair_at(h.name, j, '\r', '\n');
                assert(pair_at(l, j, '\r', '\n'));
            }
            if has_pair(h.value, '\r', '\n') {
                let j = choose|j: int| pair_at(h.value, j, '\r', '\n');
                assert(pair_at(l, j + k + 2, '\r', '\n'));
            }
        }
        assert(r.query =~= Seq::<char>::empty());
        assert(r.body =~= Seq::<char>::empty());
    }
}

/// What follows the first blank line of a text is not read: a text that
/// holds two line breaks in a row somewhere holds the same request, or none
/// for the same reason, whatever stands behind them.
pub proof fn lemma_nothing_read_past_blank_line(head: Seq<char>, rest: Seq<char>)
    ensures
        parse_request(head + line_break() + line_break() + rest) == parse_request(
            head + line_break() + line_break(),
        ),
{
    let nonblank = |l: Seq<char>| !is_blank(l);
    let blank = Seq::<char>::empty();
    let cut = head + line_break() + line_break();
    let full = cut + rest;
    let front = lines(head + line_break());
    lemma_lines_split(head, line_break() + rest);
    lemma_lines_split(head, line_break());
    lemma_first_line_of_join(blank, rest);
    lemma_first_line_of_join(blank, blank);
    assert(head + line_break() + (line_break() + rest) =~= full);
    assert(blank + line_break() + rest =~= line_break() + rest);
    assert(blank + line_break() + blank =~= line_break());
    assert(lines(full) =~= front + seq![blank] + lines(rest));
    assert(lines(cut) =~= front + seq![blank]);
    assert(front.len() > 0);

    let below = lines(full).skip(1);
    let below_cut = lines(cut).skip(1);
    let k = prefix_len(below_cut, nonblank) as int;
    lemma_prefix_len_bounds(below_cut, nonblank);
    assert(below_cut[front.len() - 1] == blank);
    if k >= front.len() {
        assert(nonblank(below_cut[front.len() - 1]));
    }
    assert forall|j: int| 0 <= j <= k implies below[j] == below_cut[j] by {}
    lemma_prefix_len_is(below, nonblank, k);
    assert(header_block(below) =~= header_block(below_cut));
}

/// The canonical requests are the ones that their own text gives back.
pub proof fn lemma_round_trip_iff_canonical(r: RequestView)
    ensures
        is_canonical(r) <==> parse_request(serialize_request(r)) == Ok::<RequestView, ParseError>(
            without_payload(r),
        ),
{
    if is_canonical(r) {
        lemma_round_trip(r);
    }
    if parse_request(serialize_request(r)) == Ok::<RequestView, ParseError>(without_payload(r)) {
        lemma_parsed_is_canonical(serialize_request(r));
    }
}

} // verus!
