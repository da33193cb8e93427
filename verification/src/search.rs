//! Full-text search requests: a user's query is turned into a match
//! expression in which every word is a quoted phrase, so that no operator of
//! the query language can be smuggled in.

use vstd::prelude::*;
use crate::text::{chars_of, chars_views, is_whitespace, push_char, split_from, split_words, words, pending};

verus! {

/// `w` with every double quote doubled.
pub open spec fn escape_quotes(w: Seq<char>) -> Seq<char>
    decreases w.len(),
{
    if w.len() == 0 {
        seq![]
    } else if w.last() == '"' {
        escape_quotes(w.drop_last()) + seq!['"', '"']
    } else {
        escape_quotes(w.drop_last()).push(w.last())
    }
}

/// `w` as a quoted phrase: escaped, between two double quotes.
pub open spec fn quoted(w: Seq<char>) -> Seq<char> {
    seq!['"'] + escape_quotes(w) + seq!['"']
}

/// The quoted phrases of `ws`, joined by single spaces.
pub open spec fn join_quoted(ws: Seq<Seq<char>>) -> Seq<char>
    decreases ws.len(),
{
    if ws.len() == 0 {
        seq![]
    } else if ws.len() == 1 {
        quoted(ws[0])
    } else {
        join_quoted(ws.drop_last()) + seq![' '] + quoted(ws.last())
    }
}

/// The match expression for the user query `q`.
pub open spec fn sanitized(q: Seq<char>) -> Seq<char> {
    join_quoted(words(q))
}

/// Turns a user query into a match expression: each whitespace-separated
/// word becomes a quoted phrase, with embedded double quotes doubled, and
/// the phrases are joined by single spaces.
pub fn sanitize_fts_query(query: &str) -> (r: String)
    ensures
        r@ == sanitized(query@),
{
    let chars = chars_of(query);
    let ws = split_words(&chars);
    let mut out = String::new();
    let mut k: usize = 0;
    assert(chars_views(ws@).take(0) =~= Seq::<Seq<char>>::empty());
    while k < ws.len()
        invariant
            k <= ws@.len(),
            out@ == join_quoted(chars_views(ws@).take(k as int)),
        decreases ws@.len() - k,
    {
        let ghost before = out@;
        if k > 0 {
            push_char(&mut out, ' ');
        }
        push_char(&mut out, '"');
        let w = &ws[k];
        let ghost base = out@;
        let mut j: usize = 0;
        assert(w@.take(0) =~= Seq::<char>::empty());
        while j < w.len()
            invariant
                j <= w@.len(),
                out@ == base + escape_quotes(w@.take(j as int)),
            decreases w@.len() - j,
        {
            let c = w[j];
            let ghost prev = out@;
            if c == '"' {
                push_char(&mut out, '"');
                push_char(&mut out, '"');
            } else {
                push_char(&mut out, c);
            }
            j += 1;
            proof {
                let t = w@.take(j as int);
                assert(t.drop_last() =~= w@.take(j - 1));
                assert(t.last() == c);
                assert(out@ =~= base + escape_quotes(t));
            }
        }
        push_char(&mut out, '"');
        k += 1;
        proof {
            let t = chars_views(ws@).take(k as int);
            assert(w@.take(w@.len() as int) =~= w@);
            assert(t.drop_last() =~= chars_views(ws@).take(k - 1));
            assert(t.last() == w@);
            if k == 1 {
                assert(before =~= Seq::<char>::empty());
                assert(t[0] == w@);
                assert(out@ =~= quoted(w@));
            } else {
                assert(out@ =~= before + seq![' '] + quoted(w@));
            }
        }
    }
    assert(chars_views(ws@).take(ws@.len() as int) =~= chars_views(ws@));
    out
}

/// No character of `w` is whitespace.
pub open spec fn has_no_whitespace(w: Seq<char>) -> bool {
    forall|i: int| 0 <= i < w.len() ==> !is_whitespace(#[trigger] w[i])
}

/// Every character of `s` is whitespace.
pub open spec fn is_blank(s: Seq<char>) -> bool {
    forall|i: int| 0 <= i < s.len() ==> is_whitespace(#[trigger] s[i])
}

/// No character of `w` is a double quote.
pub open spec fn has_no_quote(w: Seq<char>) -> bool {
    forall|i: int| 0 <= i < w.len() ==> #[trigger] w[i] != '"'
}

/// The text `gaps[0] w[0] gaps[1] w[1] .. w[n-1] gaps[n]`.
pub open spec fn laid_out(gaps: Seq<Seq<char>>, ws: Seq<Seq<char>>) -> Seq<char>
    recommends
        gaps.len() == ws.len() + 1,
    decreases ws.len(),
{
    if ws.len() == 0 || gaps.len() == 0 {
        if gaps.len() == 0 {
            seq![]
        } else {
            gaps[0]
        }
    } else {
        gaps[0] + ws[0] + laid_out(gaps.drop_first(), ws.drop_first())
    }
}

/// `ws` are words and `gaps` the whitespace around them: one gap before
/// each word and one after the last, blank, and not empty between two words.
pub open spec fn is_layout(gaps: Seq<Seq<char>>, ws: Seq<Seq<char>>) -> bool {
    &&& gaps.len() == ws.len() + 1
    &&& forall|i: int| 0 <= i < gaps.len() ==> is_blank(#[trigger] gaps[i])
    &&& forall|i: int| 0 < i < ws.len() ==> (#[trigger] gaps[i]).len() > 0
    &&& forall|i: int| 0 <= i < ws.len() ==> (#[trigger] ws[i]).len() > 0 && has_no_whitespace(ws[i])
}

/// Each word of `ws` between two double quotes, joined by single spaces.
pub open spec fn join_wrapped(ws: Seq<Seq<char>>) -> Seq<char>
    decreases ws.len(),
{
    if ws.len() == 0 {
        seq![]
    } else if ws.len() == 1 {
        seq!['"'] + ws[0] + seq!['"']
    } else {
        join_wrapped(ws.drop_last()) + seq![' '] + (seq!['"'] + ws.last() + seq!['"'])
    }
}

/// Reading on through a run of characters that are not whitespace extends
/// the pending word by that run.
pub proof fn lemma_split_word(cur: Seq<char>, w: Seq<char>, rest: Seq<char>)
    requires
        has_no_whitespace(w),
    ensures
        split_from(cur, w + rest) == split_from(cur + w, rest),
    decreases w.len(),
{
    if w.len() == 0 {
        assert(w + rest =~= rest);
        assert(cur + w =~= cur);
    } else {
        let s = w + rest;
        assert(s[0] == w[0]);
        assert(s.drop_first() =~= w.drop_first() + rest);
        assert(has_no_whitespace(w.drop_first())) by {
            assert forall|i: int| 0 <= i < w.drop_first().len() implies !is_whitespace(
                #[trigger] w.drop_first()[i],
            ) by {
                assert(w.drop_first()[i] == w[i + 1]);
            }
        }
        lemma_split_word(cur.push(w[0]), w.drop_first(), rest);
        assert(cur.push(w[0]) + w.drop_first() =~= cur + w);
    }
}

/// Reading on through a run of whitespace that is not empty closes the
/// pending word and starts afresh behind the run.
pub proof fn lemma_split_gap(cur: Seq<char>, gap: Seq<char>, rest: Seq<char>)
    requires
        is_blank(gap),
        gap.len() > 0,
    ensures
        split_from(cur, gap + rest) == pending(cur) + split_from(seq![], rest),
    decreases gap.len(),
{
    let s = gap + rest;
    assert(s[0] == gap[0]);
    assert(s.drop_first() =~= gap.drop_first() + rest);
    if gap.len() == 1 {
        assert(gap.drop_first() + rest =~= rest);
    } else {
        assert(is_blank(gap.drop_first())) by {
            assert forall|i: int| 0 <= i < gap.drop_first().len() implies is_whitespace(
                #[trigger] gap.drop_first()[i],
            ) by {
                assert(gap.drop_first()[i] == gap[i + 1]);
            }
        }
        lemma_split_gap(seq![], gap.drop_first(), rest);
        assert(pending(Seq::<char>::empty()) + split_from(seq![], rest) =~= split_from(
            seq![],
            rest,
        ));
    }
}

/// The words of a laid-out text, read with `cur` pending in front of it.
proof fn lemma_words_of_layout(cur: Seq<char>, gaps: Seq<Seq<char>>, ws: Seq<Seq<char>>)
    requires
        is_layout(gaps, ws),
        cur.len() > 0 ==> gaps[0].len() > 0,
    ensures
        split_from(cur, laid_out(gaps, ws)) == pending(cur) + ws,
    decreases ws.len(),
{
    let g = gaps[0];
    assert(is_blank(g));
    if ws.len() == 0 {
        if g.len() == 0 {
            assert(pending(cur) + ws =~= pending(cur));
        } else {
            assert(g + Seq::<char>::empty() =~= g);
            lemma_split_gap(cur, g, seq![]);
            assert(pending(cur) + Seq::<Seq<char>>::empty() =~= pending(cur) + ws);
        }
    } else {
        let w = ws[0];
        let gaps1 = gaps.drop_first();
        let ws1 = ws.drop_first();
        let tail = laid_out(gaps1, ws1);
        assert(is_layout(gaps1, ws1)) by {
            assert forall|i: int| 0 <= i < gaps1.len() implies is_blank(#[trigger] gaps1[i]) by {
                assert(gaps1[i] == gaps[i + 1]);
            }
            assert forall|i: int| 0 < i < ws1.len() implies (#[trigger] gaps1[i]).len() > 0 by {
                assert(gaps1[i] == gaps[i + 1]);
            }
            assert forall|i: int| 0 <= i < ws1.len() implies (#[trigger] ws1[i]).len() > 0
                && has_no_whitespace(ws1[i]) by {
                assert(ws1[i] == ws[i + 1]);
            }
        }
        assert(w.len() > 0 && has_no_whitespace(w));
        assert(gaps1[0] == gaps[1]);
        assert(ws1.len() > 0 ==> gaps1[0].len() > 0);
        assert(laid_out(gaps, ws) =~= g + (w + tail));
        // the gap in front of the first word
        if g.len() == 0 {
            assert(g + (w + tail) =~= w + tail);
            assert(cur =~= Seq::<char>::empty());
            lemma_split_word(cur, w, tail);
            assert(cur + w =~= w);
        } else {
            lemma_split_gap(cur, g, w + tail);
            lemma_split_word(seq![], w, tail);
            assert(Seq::<char>::empty() + w =~= w);
        }
        // what is left starts with the first word pending
        assert(split_from(cur, laid_out(gaps, ws)) == pending(cur) + split_from(w, tail)) by {
            if g.len() == 0 {
                assert(pending(cur) + split_from(w, tail) =~= split_from(w, tail));
            }
        }
        if ws1.len() == 0 {
            // the text ends with a gap that may be empty
            let last = gaps1[0];
            assert(tail == last);
            if last.len() == 0 {
                assert(split_from(w, tail) == pending(w));
            } else {
                assert(last + Seq::<char>::empty() =~= last);
                lemma_split_gap(w, last, seq![]);
                assert(split_from(w, tail) =~= pending(w));
            }
            assert(pending(cur) + pending(w) =~= pending(cur) + ws);
        } else {
            lemma_words_of_layout(w, gaps1, ws1);
            assert(pending(cur) + (pending(w) + ws1) =~= pending(cur) + ws);
        }
    }
}

/// A word without double quotes is its own escaped form.
pub proof fn lemma_escape_plain(w: Seq<char>)
    requires
        has_no_quote(w),
    ensures
        escape_quotes(w) == w,
    decreases w.len(),
{
    if w.len() > 0 {
        assert(has_no_quote(w.drop_last())) by {
            assert forall|i: int| 0 <= i < w.drop_last().len() implies #[trigger] w.drop_last()[i]
                != '"' by {
                assert(w.drop_last()[i] == w[i]);
            }
        }
        lemma_escape_plain(w.drop_last());
        assert(w.last() == w[w.len() - 1]);
        assert(w.drop_last().push(w.last()) =~= w);
    }
}

proof fn lemma_join_plain(ws: Seq<Seq<char>>)
    requires
        forall|i: int| 0 <= i < ws.len() ==> has_no_quote(#[trigger] ws[i]),
    ensures
        join_quoted(ws) == join_wrapped(ws),
    decreases ws.len(),
{
    if ws.len() > 0 {
        lemma_escape_plain(ws.last());
        if ws.len() == 1 {
            assert(ws.last() == ws[0]);
        } else {
            assert forall|i: int| 0 <= i < ws.drop_last().len() implies has_no_quote(
                #[trigger] ws.drop_last()[i],
            ) by {
                assert(ws.drop_last()[i] == ws[i]);
            }
            lemma_join_plain(ws.drop_last());
        }
    }
}

/// A query made of words without double quotes, with any whitespace before,
/// between and after them, is sanitized to those words, each between double
/// quotes, joined by single spaces.
pub proof fn lemma_sanitize_plain_words(gaps: Seq<Seq<char>>, ws: Seq<Seq<char>>)
    requires
        is_layout(gaps, ws),
        forall|i: int| 0 <= i < ws.len() ==> has_no_quote(#[trigger] ws[i]),
    ensures
        words(laid_out(gaps, ws)) == ws,
        sanitized(laid_out(gaps, ws)) == join_wrapped(ws),
{
    lemma_words_of_layout(seq![], gaps, ws);
    assert(pending(Seq::<char>::empty()) + ws =~= ws);
    lemma_join_plain(ws);
}

/// An empty or blank query has no words and sanitizes to the empty string.
pub proof fn lemma_sanitize_blank(q: Seq<char>)
    requires
        is_blank(q),
    ensures
        words(q).len() == 0,
        sanitized(q).len() == 0,
{
    let gaps = seq![q];
    let ws = Seq::<Seq<char>>::empty();
    assert(is_layout(gaps, ws));
    lemma_words_of_layout(seq![], gaps, ws);
    assert(pending(Seq::<char>::empty()) + ws =~= ws);
    assert(laid_out(gaps, ws) == q);
}

/// A query with at least one word never sanitizes to the empty string.
pub proof fn lemma_sanitized_nonempty(ws: Seq<Seq<char>>)
    requires
        ws.len() > 0,
    ensures
        join_quoted(ws).len() > 0,
{
    assert(quoted(ws.last()).len() > 0);
    if ws.len() == 1 {
        assert(ws.last() == ws[0]);
    }
}

} // verus!
