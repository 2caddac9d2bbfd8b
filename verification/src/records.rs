use vstd::prelude::*;
use vstd::string::*;

use crate::text::chars_of;

verus! {

/// The pieces of `s` that newline characters separate, in order: one more
/// piece than `s` has newlines.
pub open spec fn pieces(s: Seq<char>) -> Seq<Seq<char>>
    decreases s.len(),
{
    if s.len() == 0 {
        seq![Seq::empty()]
    } else {
        let p = pieces(s.drop_last());
        if s.last() == '\n' {
            p.push(Seq::empty())
        } else {
            p.update(p.len() - 1, p.last().push(s.last()))
        }
    }
}

/// A piece without the one carriage return that may end it.
pub open spec fn without_cr(piece: Seq<char>) -> Seq<char> {
    if piece.len() > 0 && piece.last() == '\r' {
        piece.drop_last()
    } else {
        piece
    }
}

/// The lines that reading `s` line by line yields: each piece that a newline
/// ends, without a carriage return just before that newline, then the last
/// piece if it is not empty (a final newline opens no line).
pub open spec fn lines_of(s: Seq<char>) -> Seq<Seq<char>> {
    let p = pieces(s);
    let ended = p.drop_last().map_values(|x: Seq<char>| without_cr(x));
    if p.last().len() == 0 {
        ended
    } else {
        ended.push(p.last())
    }
}

/// The text in which each record is followed by a newline.
pub open spec fn framed(records: Seq<Seq<char>>) -> Seq<char>
    decreases records.len(),
{
    if records.len() == 0 {
        Seq::empty()
    } else {
        framed(records.drop_last()) + records.last() + seq!['\n']
    }
}

/// A record that can stand on a line of its own: no newline in it, and no
/// carriage return at its end.
pub open spec fn fits_on_a_line(r: Seq<char>) -> bool {
    &&& !r.contains('\n')
    &&& !(r.len() > 0 && r.last() == '\r')
}

/// The characters of the strings in `v`.
pub open spec fn texts(v: Seq<String>) -> Seq<Seq<char>> {
    v.map_values(|s: String| s@)
}

proof fn lemma_pieces_nonempty(s: Seq<char>)
    ensures
        pieces(s).len() >= 1,
    decreases s.len(),
{
    if s.len() > 0 {
        lemma_pieces_nonempty(s.drop_last());
    }
}

/// Appending text without newlines extends the last piece.
proof fn lemma_pieces_append(s: Seq<char>, t: Seq<char>)
    requires
        !t.contains('\n'),
    ensures
        pieces(s + t) == pieces(s).update(pieces(s).len() - 1, pieces(s).last() + t),
    decreases t.len(),
{
    lemma_pieces_nonempty(s);
    if t.len() == 0 {
        assert(s + t =~= s);
        assert(pieces(s).last() + t =~= pieces(s).last());
        assert(pieces(s).update(pieces(s).len() - 1, pieces(s).last()) =~= pieces(s));
    } else {
        let t1 = t.drop_last();
        assert(!t1.contains('\n')) by {
            if t1.contains('\n') {
                let k: int = choose|k: int| 0 <= k < t1.len() && t1[k] == '\n';
                assert(t[k] == '\n');
            }
        }
        lemma_pieces_append(s, t1);
        assert((s + t).drop_last() =~= s + t1);
        assert(t[t.len() - 1] != '\n');
        assert((s + t).last() == t.last());
        let p1 = pieces(s + t1);
        lemma_pieces_nonempty(s + t1);
        assert(p1.last() =~= pieces(s).last() + t1);
        assert(p1.last().push(t.last()) =~= pieces(s).last() + t);
        assert(pieces(s + t) =~= pieces(s).update(pieces(s).len() - 1, pieces(s).last() + t));
    }
}

proof fn lemma_pieces_framed(records: Seq<Seq<char>>)
    requires
        forall|i: int| 0 <= i < records.len() ==> !(#[trigger] records[i]).contains('\n'),
    ensures
        pieces(framed(records)) == records.push(Seq::empty()),
    decreases records.len(),
{
    if records.len() == 0 {
        assert(pieces(framed(records)) =~= records.push(Seq::empty()));
    } else {
        let rest = records.drop_last();
        let r = records.last();
        assert(!r.contains('\n')) by {
            assert(records[records.len() - 1] == r);
        }
        lemma_pieces_framed(rest);
        let f = framed(rest) + r;
        lemma_pieces_append(framed(rest), r);
        let g = f + seq!['\n'];
        assert(framed(records) == g);
        assert(g.drop_last() =~= f);
        assert(g.last() == '\n');
        assert(Seq::<char>::empty() + r =~= r);
        assert(pieces(f) =~= rest.push(r));
        assert(rest.push(r) =~= records);
    }
}

/// Reading back what was framed gives the records that were framed, as long
/// as each fits on a line: the store's text round-trips its records.
pub proof fn lemma_lines_of_framed(records: Seq<Seq<char>>)
    requires
        forall|i: int| 0 <= i < records.len() ==> fits_on_a_line(#[trigger] records[i]),
    ensures
        lines_of(framed(records)) == records,
{
    assert forall|i: int| 0 <= i < records.len() implies !(#[trigger] records[i]).contains('\n') by {
        assert(fits_on_a_line(records[i]));
    }
    lemma_pieces_framed(records);
    let p = pieces(framed(records));
    assert(p.drop_last() =~= records);
    assert(p.last().len() == 0);
    assert forall|i: int| 0 <= i < records.len() implies without_cr(records[i]) == records[i] by {
        assert(fits_on_a_line(records[i]));
    }
    assert(records.map_values(|x: Seq<char>| without_cr(x)) =~= records);
}

/// Splits a text into its lines, as reading it line by line does
/// (`BufRead::lines`): a newline or a carriage return and newline ends a line,
/// and a final line needs no newline.
pub fn split_records(text: &str) -> (r: Vec<String>)
    ensures
        texts(r@) == lines_of(text@),
{
    let chars = chars_of(text);
    let n: usize = chars.len();
    let mut out: Vec<String> = Vec::new();
    let mut start: usize = 0;
    let ghost mut raw: Seq<Seq<char>> = Seq::empty();
    let mut i: usize = 0;
    assert(chars@.take(0) =~= Seq::<char>::empty());
    assert(chars@.subrange(0, 0) =~= Seq::<char>::empty());
    while i < n
        invariant
            n == chars@.len(),
            chars@ == text@,
            start <= i <= n,
            pieces(chars@.take(i as int)) == raw.push(chars@.subrange(start as int, i as int)),
            texts(out@) == raw.map_values(|x: Seq<char>| without_cr(x)),
        decreases n - i,
    {
        let c = chars[i];
        let ghost old_start = start;
        assert(chars@.take(i + 1).drop_last() =~= chars@.take(i as int));
        assert(chars@.take(i + 1).last() == c);
        if c == '\n' {
            let end: usize = if i > start && chars[i - 1] == '\r' { i - 1 } else { i };
            let piece = text.substring_char(start, end).to_owned();
            proof {
                let whole = chars@.subrange(start as int, i as int);
                if i > start && chars@[i - 1] == '\r' {
                    assert(whole.drop_last() =~= chars@.subrange(start as int, end as int));
                } else {
                    assert(whole =~= chars@.subrange(start as int, end as int));
                }
                assert(without_cr(whole) == piece@);
            }
            let ghost old_out = out@;
            let ghost old_raw = raw;
            out.push(piece);
            start = i + 1;
            proof {
                let whole = chars@.subrange(old_start as int, i as int);
                raw = raw.push(whole);
                assert(texts(out@) =~= texts(old_out).push(piece@));
                assert(raw.map_values(|x: Seq<char>| without_cr(x)) =~= old_raw.map_values(|x: Seq<char>| without_cr(x)).push(without_cr(whole)));
                assert(chars@.subrange(start as int, i + 1) =~= Seq::<char>::empty());
            }
        } else {
            proof {
                let p = pieces(chars@.take(i as int));
                assert(p.last() == chars@.subrange(start as int, i as int));
                assert(chars@.subrange(start as int, i as int).push(c) =~= chars@.subrange(start as int, i + 1));
                assert(p.update(p.len() - 1, p.last().push(c)) =~= raw.push(chars@.subrange(start as int, i + 1)));
            }
        }
        i = i + 1;
    }
    assert(chars@.take(n as int) =~= chars@);
    let ghost p = pieces(text@);
    assert(p.drop_last() =~= raw);
    if start < n {
        let piece = text.substring_char(start, n).to_owned();
        out.push(piece);
        proof {
            assert(texts(out@) =~= raw.map_values(|x: Seq<char>| without_cr(x)).push(p.last()));
        }
    } else {
        assert(p.last().len() == 0);
    }
    out
}

/// The text in which each record is followed by a newline: what the store
/// writes for its records.
pub fn frame_records(records: &Vec<String>) -> (r: String)
    ensures
        r@ == framed(texts(records@)),
{
    let mut out = String::new();
    let mut i: usize = 0;
    proof {
        reveal_strlit("\n");
        assert(texts(records@).take(0) =~= Seq::<Seq<char>>::empty());
    }
    while i < records.len()
        invariant
            i <= records@.len(),
            out@ == framed(texts(records@).take(i as int)),
            "\n"@ == seq!['\n'],
        decreases records@.len() - i,
    {
        out.append(records[i].as_str());
        out.append("\n");
        proof {
            let t = texts(records@);
            assert(t.take(i + 1).drop_last() =~= t.take(i as int));
            assert(t.take(i + 1).last() == records@[i as int]@);
        }
        i = i + 1;
    }
    assert(texts(records@).take(records@.len() as int) =~= texts(records@));
    out
}

} // verus!
