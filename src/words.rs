//! Wrapping of the words of a text fragment in `span` elements.
use vstd::prelude::*;

verus! {

/// The pieces of `s` between single spaces, as `str::split(" ")` gives them:
/// every space ends a piece, so leading, trailing and repeated spaces give
/// empty pieces, and there is always at least one piece.
pub open spec fn space_pieces(s: Seq<char>) -> Seq<Seq<char>>
    decreases s.len(),
{
    if s.len() == 0 {
        seq![Seq::<char>::empty()]
    } else {
        let init = space_pieces(s.drop_last());
        if s.last() == ' ' {
            init.push(Seq::<char>::empty())
        } else {
            init.update(init.len() - 1, init.last().push(s.last()))
        }
    }
}

/// The opening tag that each word receives.
pub open spec fn span_open() -> Seq<char> {
    seq!['<', 's', 'p', 'a', 'n', '>']
}

/// The closing tag that each word receives.
pub open spec fn span_close() -> Seq<char> {
    seq!['<', '/', 's', 'p', 'a', 'n', '>']
}

/// One piece enclosed in a `span` element.
pub open spec fn in_span(piece: Seq<char>) -> Seq<char> {
    span_open() + piece + span_close()
}

/// The pieces, each enclosed in a `span`, one after another.
pub open spec fn spans_of(pieces: Seq<Seq<char>>) -> Seq<char>
    decreases pieces.len(),
{
    if pieces.len() == 0 {
        Seq::<char>::empty()
    } else {
        spans_of(pieces.drop_last()) + in_span(pieces.last())
    }
}

/// The markup that replaces a heading's text: each piece between spaces in a `span`.
pub open spec fn wrapped_words(s: Seq<char>) -> Seq<char> {
    spans_of(space_pieces(s))
}

pub proof fn lemma_space_pieces_nonempty(s: Seq<char>)
    ensures
        space_pieces(s).len() >= 1,
    decreases s.len(),
{
    if s.len() > 0 {
        lemma_space_pieces_nonempty(s.drop_last());
    }
}

/// Splitting at a space: the pieces of `a`, a space and `b` are the pieces
/// of `a` followed by those of `b`.
pub proof fn lemma_space_pieces_split(a: Seq<char>, b: Seq<char>)
    ensures
        space_pieces(a + seq![' '] + b) == space_pieces(a) + space_pieces(b),
    decreases b.len(),
{
    let s = a + seq![' '] + b;
    if b.len() == 0 {
        assert(s.drop_last() =~= a);
        assert(space_pieces(b) =~= seq![Seq::<char>::empty()]);
        assert(space_pieces(a).push(Seq::<char>::empty()) =~= space_pieces(a) + space_pieces(b));
    } else {
        lemma_space_pieces_split(a, b.drop_last());
        lemma_space_pieces_nonempty(b.drop_last());
        assert(s.drop_last() =~= a + seq![' '] + b.drop_last());
        let pa = space_pieces(a);
        let pb = space_pieces(b.drop_last());
        if b.last() == ' ' {
            assert((pa + pb).push(Seq::<char>::empty()) =~= pa + pb.push(Seq::<char>::empty()));
        } else {
            assert((pa + pb).update((pa + pb).len() - 1, (pa + pb).last().push(b.last()))
                =~= pa + pb.update(pb.len() - 1, pb.last().push(b.last())));
        }
    }
}

/// The spans of two runs of pieces are the spans of each, one after the other.
pub proof fn lemma_spans_of_concat(x: Seq<Seq<char>>, y: Seq<Seq<char>>)
    ensures
        spans_of(x + y) == spans_of(x) + spans_of(y),
    decreases y.len(),
{
    if y.len() == 0 {
        assert(x + y =~= x);
        assert(spans_of(x) + spans_of(y) =~= spans_of(x));
    } else {
        lemma_spans_of_concat(x, y.drop_last());
        assert((x + y).drop_last() =~= x + y.drop_last());
        assert((spans_of(x) + spans_of(y.drop_last())) + in_span(y.last())
            =~= spans_of(x) + (spans_of(y.drop_last()) + in_span(y.last())));
    }
}

/// Wrapping parts at every space: the text made of `first`, one space and
/// `second` is wrapped as `first` is, followed by `second` wrapped.
pub proof fn wrapping_splits_at_spaces(first: Seq<char>, second: Seq<char>)
    ensures
        wrapped_words(first + seq![' '] + second)
            == wrapped_words(first) + wrapped_words(second),
{
    lemma_space_pieces_split(first, second);
    lemma_spans_of_concat(space_pieces(first), space_pieces(second));
}

/// Encloses each piece of `text` between single spaces in `<span>` and
/// `</span>`, in order; the spaces themselves are dropped.
pub fn wrap_words(text: &str) -> (r: String)
    ensures
        r@ == wrapped_words(text@),
{
    let n = text.unicode_len();
    let mut out = String::new();
    let mut start: usize = 0;
    let mut i: usize = 0;
    proof {
        reveal_strlit("<span>");
        reveal_strlit("</span>");
        assert(text@.take(0) =~= Seq::<char>::empty());
    }
    while i < n
        invariant
            n == text@.len(),
            start <= i <= n,
            space_pieces(text@.take(i as int)).len() >= 1,
            space_pieces(text@.take(i as int)).last() == text@.subrange(start as int, i as int),
            spans_of(space_pieces(text@.take(i as int)).drop_last()) == out@,
            "<span>"@ == span_open(),
            "</span>"@ == span_close(),
        decreases n - i,
    {
        let c = text.get_char(i);
        let ghost before = space_pieces(text@.take(i as int));
        assert(text@.take(i + 1).drop_last() =~= text@.take(i as int));
        if c == ' ' {
            let piece = text.substring_char(start, i);
            out.append("<span>");
            out.append(piece);
            out.append("</span>");
            start = i + 1;
            proof {
                let after = space_pieces(text@.take(i + 1));
                assert(after == before.push(Seq::<char>::empty()));
                assert(after.drop_last() =~= before);
                assert(before =~= before.drop_last().push(before.last()));
                assert(out@ =~= spans_of(before.drop_last()) + in_span(before.last()));
                assert(text@.subrange(start as int, i + 1) =~= Seq::<char>::empty());
            }
        } else {
            proof {
                let after = space_pieces(text@.take(i + 1));
                assert(after == before.update(before.len() - 1, before.last().push(c)));
                assert(after.drop_last() =~= before.drop_last());
                assert(text@.subrange(start as int, i + 1) =~= text@.subrange(start as int, i as int).push(c));
            }
        }
        i = i + 1;
    }
    let piece = text.substring_char(start, n);
    out.append("<span>");
    out.append(piece);
    out.append("</span>");
    proof {
        let all = space_pieces(text@.take(n as int));
        assert(text@.take(n as int) =~= text@);
        assert(all =~= all.drop_last().push(all.last()));
        assert(out@ =~= spans_of(all.drop_last()) + in_span(all.last()));
    }
    out
}

/// What becomes of one fragment of a heading's text: a fragment that is not
/// the last of its text node is replaced by its wrapped words; the last one,
/// which the engine may hand over empty, is left as it is.
pub fn heading_fragment_replacement(fragment: &str, last_in_text_node: bool) -> (r: Option<String>)
    ensures
        last_in_text_node ==> r is None,
        !last_in_text_node ==> (r matches Some(s) && s@ == wrapped_words(fragment@)),
{
    if last_in_text_node {
        None
    } else {
        Some(wrap_words(fragment))
    }
}

} // verus!
