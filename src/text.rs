//! Character-level model of text: whitespace, line splitting and trimming,
//! and the conversions between `&str`, `Vec<char>` and `String`.
use vstd::prelude::*;

verus! {

/// Relies on `String::push`: appends one character at the end.
pub assume_specification[ String::push ](s: &mut String, ch: char)
    ensures
        final(s)@ == old(s)@.push(ch),
;

/// The characters that carry the Unicode `White_Space` property.
pub open spec fn is_ws(c: char) -> bool {
    let u = c as u32;
    (0x9 <= u <= 0xd) || u == 0x20 || u == 0x85 || u == 0xa0 || u == 0x1680 || (0x2000 <= u
        <= 0x200a) || u == 0x2028 || u == 0x2029 || u == 0x202f || u == 0x205f || u == 0x3000
}

/// Tells whether `c` is a Unicode whitespace character.
pub fn is_whitespace_char(c: char) -> (r: bool)
    ensures
        r == is_ws(c),
{
    let u = c as u32;
    (0x9 <= u && u <= 0xd) || u == 0x20 || u == 0x85 || u == 0xa0 || u == 0x1680 || (0x2000 <= u
        && u <= 0x200a) || u == 0x2028 || u == 0x2029 || u == 0x202f || u == 0x205f || u == 0x3000
}

/// The characters of `s`, in order.
pub fn chars_of(s: &str) -> (r: Vec<char>)
    ensures
        r@ == s@,
{
    let mut r: Vec<char> = Vec::new();
    for c in it: s.chars()
        invariant
            it.seq() == s@,
            r@ == it.seq().take(it.index() as int),
    {
        r.push(c);
        assert(r@ == it.seq().take(it.index() as int + 1));
    }
    r
}

/// Appends the characters `v[from..to]` to `out`.
pub fn push_chars(out: &mut String, v: &Vec<char>, from: usize, to: usize)
    requires
        from <= to <= v@.len(),
    ensures
        final(out)@ == old(out)@ + v@.subrange(from as int, to as int),
{
    let mut i: usize = from;
    while i < to
        invariant
            from <= i <= to <= v@.len(),
            out@ == old(out)@ + v@.subrange(from as int, i as int),
        decreases to - i,
    {
        out.push(v[i]);
        assert(out@ =~= old(out)@ + v@.subrange(from as int, i + 1));
        i = i + 1;
    }
}

/// The string made of the characters `v[from..to]`.
pub fn string_of(v: &Vec<char>, from: usize, to: usize) -> (r: String)
    requires
        from <= to <= v@.len(),
    ensures
        r@ == v@.subrange(from as int, to as int),
{
    let mut r = String::new();
    push_chars(&mut r, v, from, to);
    assert(r@ =~= v@.subrange(from as int, to as int));
    r
}

/// The position where `v[from..to]` starts once its leading whitespace is gone.
pub fn skip_leading_ws(v: &Vec<char>, from: usize, to: usize) -> (k: usize)
    requires
        from <= to <= v@.len(),
    ensures
        from <= k <= to,
        v@.subrange(k as int, to as int) == trim_start(v@.subrange(from as int, to as int)),
{
    let mut k: usize = from;
    while k < to && is_whitespace_char(v[k])
        invariant
            from <= k <= to <= v@.len(),
            trim_start(v@.subrange(k as int, to as int)) == trim_start(
                v@.subrange(from as int, to as int),
            ),
        decreases to - k,
    {
        assert(v@.subrange(k as int, to as int).drop_first() =~= v@.subrange(k + 1, to as int));
        k = k + 1;
    }
    k
}

/// The position where `v[from..to]` ends once its trailing whitespace is gone.
pub fn drop_trailing_ws(v: &Vec<char>, from: usize, to: usize) -> (k: usize)
    requires
        from <= to <= v@.len(),
    ensures
        from <= k <= to,
        v@.subrange(from as int, k as int) == trim_end(v@.subrange(from as int, to as int)),
{
    let mut k: usize = to;
    while k > from && is_whitespace_char(v[k - 1])
        invariant
            from <= k <= to <= v@.len(),
            trim_end(v@.subrange(from as int, k as int)) == trim_end(
                v@.subrange(from as int, to as int),
            ),
        decreases k - from,
    {
        assert(v@.subrange(from as int, k as int).drop_last() =~= v@.subrange(from as int, k - 1));
        k = k - 1;
    }
    k
}

/// The pieces of `s` between its newline characters, in order: one more piece
/// than there are newlines.
pub open spec fn newline_pieces(s: Seq<char>) -> Seq<Seq<char>>
    decreases s.len(),
{
    if s.len() == 0 {
        seq![Seq::empty()]
    } else {
        let p = newline_pieces(s.drop_last());
        if s.last() == '\n' {
            p.push(Seq::empty())
        } else {
            p.update(p.len() - 1, p.last().push(s.last()))
        }
    }
}

/// A line that ended in `\r\n` loses its `\r`.
pub open spec fn strip_cr(l: Seq<char>) -> Seq<char> {
    if l.len() > 0 && l.last() == '\r' {
        l.drop_last()
    } else {
        l
    }
}

/// The lines of `s`: split at each `\n`, a `\r` just before a `\n` dropped,
/// and no empty line after a final `\n`. The empty text has no lines.
pub open spec fn lines_of(s: Seq<char>) -> Seq<Seq<char>> {
    let p = newline_pieces(s);
    let done = p.drop_last().map_values(|l: Seq<char>| strip_cr(l));
    if p.last().len() == 0 {
        done
    } else {
        done.push(p.last())
    }
}

/// `s` without its leading whitespace.
pub open spec fn trim_start(s: Seq<char>) -> Seq<char>
    decreases s.len(),
{
    if s.len() > 0 && is_ws(s[0]) {
        trim_start(s.drop_first())
    } else {
        s
    }
}

/// `s` without its trailing whitespace.
pub open spec fn trim_end(s: Seq<char>) -> Seq<char>
    decreases s.len(),
{
    if s.len() > 0 && is_ws(s.last()) {
        trim_end(s.drop_last())
    } else {
        s
    }
}

/// `s` without whitespace at either end.
pub open spec fn trim(s: Seq<char>) -> Seq<char> {
    trim_end(trim_start(s))
}

/// The lines joined with a single `\n` between two neighbours.
pub open spec fn join_lines(ls: Seq<Seq<char>>) -> Seq<char>
    decreases ls.len(),
{
    if ls.len() == 0 {
        Seq::empty()
    } else if ls.len() == 1 {
        ls[0]
    } else {
        join_lines(ls.drop_last()) + seq!['\n'] + ls.last()
    }
}

proof fn lemma_pieces_nonempty(s: Seq<char>)
    ensures
        newline_pieces(s).len() >= 1,
    decreases s.len(),
{
    if s.len() > 0 {
        lemma_pieces_nonempty(s.drop_last());
    }
}

/// The bounds `(start, end)` in `v` of each line of `v`, in order.
pub fn line_bounds(v: &Vec<char>) -> (r: Vec<(usize, usize)>)
    ensures
        r@.len() == lines_of(v@).len(),
        forall|k: int| 0 <= k < r@.len() ==> #[trigger] r@[k].0 <= r@[k].1 <= v@.len(),
        forall|k: int|
            0 <= k < r@.len() ==> v@.subrange(r@[k].0 as int, r@[k].1 as int)
                == #[trigger] lines_of(v@)[k],
{
    let mut r: Vec<(usize, usize)> = Vec::new();
    let mut start: usize = 0;
    let mut i: usize = 0;
    proof {
        assert(v@.take(0) =~= Seq::<char>::empty());
    }
    while i < v.len()
        invariant
            start <= i <= v@.len(),
            newline_pieces(v@.take(i as int)).len() == r@.len() + 1,
            newline_pieces(v@.take(i as int)).last() == v@.subrange(start as int, i as int),
            forall|k: int| 0 <= k < r@.len() ==> #[trigger] r@[k].0 <= r@[k].1 <= v@.len(),
            forall|k: int|
                0 <= k < r@.len() ==> v@.subrange(r@[k].0 as int, r@[k].1 as int) == strip_cr(
                    #[trigger] newline_pieces(v@.take(i as int))[k],
                ),
        decreases v@.len() - i,
    {
        let c = v[i];
        let ghost p = newline_pieces(v@.take(i as int));
        proof {
            assert(v@.take(i + 1).drop_last() =~= v@.take(i as int));
            assert(v@.take(i + 1).last() == c);
            assert(v@.subrange(start as int, i + 1) =~= v@.subrange(start as int, i as int).push(
                c,
            ));
        }
        let ghost p2 = newline_pieces(v@.take(i + 1));
        let ghost old_r = r@;
        proof {
            lemma_pieces_nonempty(v@.take(i as int));
            if c == '\n' {
                assert(p2 == p.push(Seq::empty()));
            } else {
                assert(p2 == p.update(p.len() - 1, p.last().push(c)));
            }
            assert forall|k: int| 0 <= k < r@.len() implies #[trigger] p2[k] == p[k] by {}
        }
        if c == '\n' {
            let end = if i > start && v[i - 1] == '\r' {
                i - 1
            } else {
                i
            };
            proof {
                let piece = v@.subrange(start as int, i as int);
                if i > start && v@[i - 1] == '\r' {
                    assert(piece.drop_last() =~= v@.subrange(start as int, end as int));
                }
                assert(strip_cr(piece) == v@.subrange(start as int, end as int));
            }
            r.push((start, end));
            start = i + 1;
            proof {
                assert(v@.subrange(start as int, i + 1) =~= Seq::<char>::empty());
            }
        }
        proof {
            assert forall|k: int| 0 <= k < r@.len() implies r@[k].0 <= r@[k].1 <= v@.len()
                && v@.subrange(r@[k].0 as int, r@[k].1 as int) == strip_cr(#[trigger] p2[k]) by {
                if k < old_r.len() {
                    assert(r@[k] == old_r[k]);
                    assert(p2[k] == p[k]);
                    assert(v@.subrange(old_r[k].0 as int, old_r[k].1 as int) == strip_cr(p[k]));
                } else {
                    assert(p2[k] == p.last());
                }
            }
        }
        i = i + 1;
        assert(newline_pieces(v@.take(i as int)) == p2);
    }
    proof {
        assert(v@.take(v@.len() as int) =~= v@);
    }
    let ghost p = newline_pieces(v@);
    let ghost done = p.drop_last().map_values(|l: Seq<char>| strip_cr(l));
    assert(newline_pieces(v@.take(i as int)) == p);
    let ghost old_r = r@;
    assert forall|k: int| 0 <= k < r@.len() implies #[trigger] done[k] == strip_cr(p[k]) by {}
    if start < v.len() {
        r.push((start, v.len()));
        assert(lines_of(v@) == done.push(p.last()));
    }
    assert forall|k: int| 0 <= k < r@.len() implies r@[k].0 <= r@[k].1 <= v@.len() && v@.subrange(
        r@[k].0 as int,
        r@[k].1 as int,
    ) == #[trigger] lines_of(v@)[k] by {
        if k < old_r.len() {
            assert(r@[k] == old_r[k]);
            assert(done[k] == strip_cr(p[k]));
        }
    }
    assert forall|k: int| 0 <= k < r@.len() implies #[trigger] r@[k].0 <= r@[k].1 <= v@.len() by {
        if k < old_r.len() {
            assert(r@[k] == old_r[k]);
        }
    }
    r
}

} // verus!
