use vstd::prelude::*;

verus! {

/// What char::is_whitespace returns: a fixed function of the character.
pub uninterp spec fn is_unicode_space(c: char) -> bool;

/// Relies on char::is_whitespace: whether `c` is Unicode whitespace, which
/// depends on the character alone.
#[verifier::external_body]
fn is_space_char(c: char) -> (r: bool)
    ensures
        r == is_unicode_space(c),
{
    c.is_whitespace()
}

/// Relies on String::push: appends exactly one character.
#[verifier::external_body]
fn push_char(s: &mut String, c: char)
    ensures
        final(s)@ == old(s)@.push(c),
{
    s.push(c);
}

/// The words of `s` scanned left to right with `cur` the word in progress:
/// maximal runs of non-whitespace characters, in order.
pub open spec fn split_words(cur: Seq<char>, s: Seq<char>) -> Seq<Seq<char>>
    decreases s.len(),
{
    if s.len() == 0 {
        if cur.len() == 0 {
            Seq::empty()
        } else {
            seq![cur]
        }
    } else if is_unicode_space(s[0]) {
        if cur.len() == 0 {
            split_words(Seq::empty(), s.drop_first())
        } else {
            seq![cur] + split_words(Seq::empty(), s.drop_first())
        }
    } else {
        split_words(cur.push(s[0]), s.drop_first())
    }
}

/// The full-width pieces a word longer than `width` is hard-split into.
pub open spec fn chunks_of(w: Seq<char>, width: nat) -> Seq<Seq<char>>
    decreases w.len(),
{
    if width == 0 || w.len() <= width {
        Seq::empty()
    } else {
        seq![w.take(width as int)] + chunks_of(w.skip(width as int), width)
    }
}

/// What remains of a word after hard-splitting: at most `width` characters.
pub open spec fn chunk_rest(w: Seq<char>, width: nat) -> Seq<char>
    decreases w.len(),
{
    if width == 0 || w.len() <= width {
        w
    } else {
        chunk_rest(w.skip(width as int), width)
    }
}

/// Greedy word-wrapping with `cur` the line in progress: each word joins the
/// current line separated by one space if the line stays within `width`;
/// otherwise the line is emitted and the word starts a new one, hard-split
/// into full-width pieces if it alone exceeds `width`.
pub open spec fn wrap_words(cur: Seq<char>, words: Seq<Seq<char>>, width: nat) -> Seq<Seq<char>>
    decreases words.len(),
{
    if words.len() == 0 {
        if cur.len() == 0 {
            Seq::empty()
        } else {
            seq![cur]
        }
    } else {
        let w = words[0];
        let rest = words.drop_first();
        if cur.len() == 0 {
            chunks_of(w, width) + wrap_words(chunk_rest(w, width), rest, width)
        } else if cur.len() + 1 + w.len() <= width {
            wrap_words(cur + seq![' '] + w, rest, width)
        } else {
            seq![cur] + chunks_of(w, width) + wrap_words(chunk_rest(w, width), rest, width)
        }
    }
}

/// What `wrap_text` returns: the greedy wrapping of the words of `text`, or
/// a single placeholder line when there is nothing to show.
pub open spec fn wrap_spec(text: Seq<char>, width: nat) -> Seq<Seq<char>> {
    if text.len() == 0 {
        seq!["-"@]
    } else {
        let lines = wrap_words(Seq::empty(), split_words(Seq::empty(), text), width);
        if lines.len() == 0 {
            seq!["-"@]
        } else {
            lines
        }
    }
}

/// The characters `w[from..to]` as a `String`.
fn string_of_chars(w: &Vec<char>, from: usize, to: usize) -> (r: String)
    requires
        from <= to <= w.len(),
    ensures
        r@ == w@.subrange(from as int, to as int),
{
    let mut s = String::new();
    let mut k = from;
    while k < to
        invariant
            from <= k <= to <= w.len(),
            s@ == w@.subrange(from as int, k as int),
        decreases to - k,
    {
        push_char(&mut s, w[k]);
        proof {
            assert(w@.subrange(from as int, k as int + 1) =~= w@.subrange(
                from as int,
                k as int,
            ).push(w@[k as int]));
        }
        k += 1;
    }
    s
}

/// Wraps `text` to lines of at most `max_width` characters, as `wrap_spec`
/// states: words are split on Unicode whitespace and packed greedily, one
/// space between neighbours; a word longer than a full line is hard-split;
/// empty input, or input with no words, yields one `"-"` placeholder line.
pub fn wrap_text(text: &str, max_width: usize) -> (r: Vec<String>)
    requires
        max_width >= 1,
    ensures
        r.deep_view() == wrap_spec(text@, max_width as nat),
{
    let n = text.unicode_len();
    if n == 0 {
        let mut out: Vec<String> = Vec::new();
        out.push(String::from_str("-"));
        proof {
            assert(out.deep_view() =~= seq!["-"@]);
        }
        return out;
    }
    let ghost t = text@;
    let ghost all_words = split_words(Seq::empty(), t);

    let mut words: Vec<Vec<char>> = Vec::new();
    let mut cur: Vec<char> = Vec::new();
    let mut i: usize = 0;
    proof {
        assert(t.skip(0) =~= t);
        assert(words.deep_view() =~= Seq::<Seq<char>>::empty());
        assert(cur.deep_view() =~= Seq::<char>::empty());
        assert(Seq::<Seq<char>>::empty() + split_words(cur.deep_view(), t) =~= split_words(
            cur.deep_view(),
            t,
        ));
    }
    while i < n
        invariant
            0 <= i <= n,
            n == t.len(),
            t == text@,
            max_width >= 1,
            all_words == words.deep_view() + split_words(cur.deep_view(), t.skip(i as int)),
        decreases n - i,
    {
        let ghost words_pre = words.deep_view();
        let ghost cur_pre = cur.deep_view();
        let c = text.get_char(i);
        proof {
            assert(t.skip(i as int)[0] == t[i as int]);
            assert(t.skip(i as int).drop_first() =~= t.skip(i as int + 1));
        }
        if is_space_char(c) {
            if cur.len() > 0 {
                words.push(cur);
                cur = Vec::new();
                proof {
                    assert(words.deep_view() =~= words_pre.push(cur_pre));
                    assert(cur.deep_view() =~= Seq::<char>::empty());
                    assert(words_pre + (seq![cur_pre] + split_words(
                        Seq::empty(),
                        t.skip(i as int + 1),
                    )) =~= words_pre.push(cur_pre) + split_words(
                        Seq::empty(),
                        t.skip(i as int + 1),
                    ));
                }
            } else {
                proof {
                    assert(cur.deep_view() =~= Seq::<char>::empty());
                }
            }
        } else {
            cur.push(c);
            proof {
                assert(cur.deep_view() =~= cur_pre.push(t[i as int]));
            }
        }
        i += 1;
    }
    if cur.len() > 0 {
        let ghost words_pre = words.deep_view();
        let ghost cur_pre = cur.deep_view();
        words.push(cur);
        proof {
            assert(t.skip(n as int).len() == 0);
            assert(words.deep_view() =~= words_pre.push(cur_pre));
            assert(words_pre + seq![cur_pre] =~= words_pre.push(cur_pre));
        }
    } else {
        proof {
            assert(t.skip(n as int).len() == 0);
            assert(cur.deep_view() =~= Seq::<char>::empty());
            assert(words.deep_view() + Seq::<Seq<char>>::empty() =~= words.deep_view());
        }
    }
    proof {
        assert(all_words == words.deep_view());
    }

    let ghost wds = words.deep_view();
    let ghost width = max_width as nat;
    let ghost target = wrap_words(Seq::empty(), wds, width);
    let mut lines: Vec<String> = Vec::new();
    let mut line: Vec<char> = Vec::new();
    let mut j: usize = 0;
    proof {
        assert(wds.skip(0) =~= wds);
        assert(lines.deep_view() =~= Seq::<Seq<char>>::empty());
        assert(line.deep_view() =~= Seq::<char>::empty());
        assert(Seq::<Seq<char>>::empty() + wrap_words(line.deep_view(), wds, width) =~= wrap_words(
            line.deep_view(),
            wds,
            width,
        ));
    }
    while j < words.len()
        invariant
            0 <= j <= words.len(),
            wds == words.deep_view(),
            max_width >= 1,
            width == max_width as nat,
            line.deep_view().len() <= max_width,
            target == lines.deep_view() + wrap_words(
                line.deep_view(),
                wds.skip(j as int),
                width,
            ),
        decreases words.len() - j,
    {
        let w = &words[j];
        let ghost wv = wds[j as int];
        let ghost rest = wds.skip(j as int + 1);
        let ghost line_pre = line.deep_view();
        let ghost lines_pre = lines.deep_view();
        proof {
            assert(wds.skip(j as int)[0] == wds[j as int]);
            assert(wds.skip(j as int).drop_first() =~= rest);
            assert(wv =~= w@);
        }
        if line.len() != 0 && w.len() < max_width && line.len() <= max_width - 1 - w.len() {
            // The word fits on the current line after a separating space.
            line.push(' ');
            let mut k: usize = 0;
            while k < w.len()
                invariant
                    0 <= k <= w.len(),
                    line.deep_view() == line_pre + seq![' '] + w@.take(k as int),
                decreases w.len() - k,
            {
                let ghost lp = line.deep_view();
                line.push(w[k]);
                proof {
                    assert(line.deep_view() =~= lp.push(w@[k as int]));
                    assert(lp.push(w@[k as int]) =~= line_pre + seq![' '] + w@.take(k as int + 1));
                }
                k += 1;
            }
            proof {
                assert(w@.take(w.len() as int) =~= w@);
                assert(line.deep_view() == line_pre + seq![' '] + wv);
                assert(wrap_words(line_pre, wds.skip(j as int), width) == wrap_words(
                    line_pre + seq![' '] + wv,
                    rest,
                    width,
                ));
            }
        } else {
            proof {
                // The spec takes the emit-and-split path exactly here.
                assert(!(line_pre.len() != 0 && line_pre.len() + 1 + wv.len() <= width));
            }
            if line.len() != 0 {
                let emitted = string_of_chars(&line, 0, line.len());
                lines.push(emitted);
                line = Vec::new();
                proof {
                    assert(emitted@ =~= line_pre);
                    assert(lines.deep_view() =~= lines_pre.push(line_pre));
                    assert(lines_pre + (seq![line_pre] + chunks_of(wv, width) + wrap_words(
                        chunk_rest(wv, width),
                        rest,
                        width,
                    )) =~= lines_pre.push(line_pre) + chunks_of(wv, width) + wrap_words(
                        chunk_rest(wv, width),
                        rest,
                        width,
                    ));
                }
            }
            let ghost lines_mid = lines.deep_view();
            proof {
                assert(target == lines_mid + chunks_of(wv, width) + wrap_words(
                    chunk_rest(wv, width),
                    rest,
                    width,
                ));
                assert(w@.skip(0) =~= w@);
            }
            // Hard-split the word: emit full-width pieces, keep the tail.
            let mut start: usize = 0;
            while w.len() - start > max_width
                invariant
                    0 <= start <= w.len(),
                    wv == w@,
                    max_width >= 1,
                    width == max_width as nat,
                    wds == words.deep_view(),
                    (w.len() - start > max_width) ==> start + max_width < w.len(),
                    target == lines.deep_view() + chunks_of(w@.skip(start as int), width)
                        + wrap_words(chunk_rest(w@.skip(start as int), width), rest, width),
                decreases w.len() - start,
            {
                let ghost lines_loop = lines.deep_view();
                let ghost u = w@.skip(start as int);
                let piece = string_of_chars(w, start, start + max_width);
                lines.push(piece);
                proof {
                    assert(u.take(max_width as int) =~= w@.subrange(
                        start as int,
                        start as int + max_width,
                    ));
                    assert(u.skip(max_width as int) =~= w@.skip(start as int + max_width));
                    assert(lines.deep_view() =~= lines_loop.push(piece@));
                    assert(lines_loop + (seq![u.take(max_width as int)] + chunks_of(
                        u.skip(max_width as int),
                        width,
                    )) + wrap_words(
                        chunk_rest(u.skip(max_width as int), width),
                        rest,
                        width,
                    ) =~= lines_loop.push(piece@) + chunks_of(u.skip(max_width as int), width)
                        + wrap_words(chunk_rest(u.skip(max_width as int), width), rest, width));
                }
                start += max_width;
            }
            // The tail, at most one line wide, starts the next line.
            let mut tail: Vec<char> = Vec::new();
            let mut k = start;
            proof {
                assert(tail@ =~= w@.subrange(start as int, start as int));
            }
            while k < w.len()
                invariant
                    start <= k <= w.len(),
                    wv == w@,
                    tail@ == w@.subrange(start as int, k as int),
                decreases w.len() - k,
            {
                let ghost tp = tail@;
                tail.push(w[k]);
                proof {
                    assert(tail@ =~= w@.subrange(start as int, k as int + 1));
                }
                k += 1;
            }
            line = tail;
            proof {
                let u = w@.skip(start as int);
                assert(line.deep_view() =~= u);
                assert(u.len() <= width);
                assert(chunks_of(u, width) =~= Seq::<Seq<char>>::empty());
                assert(chunk_rest(u, width) == u);
                assert(lines.deep_view() + Seq::<Seq<char>>::empty() + wrap_words(
                    u,
                    rest,
                    width,
                ) =~= lines.deep_view() + wrap_words(u, rest, width));
            }
        }
        j += 1;
    }
    proof {
        assert(wds.skip(words.len() as int).len() == 0);
    }
    if line.len() != 0 {
        let ghost lines_pre = lines.deep_view();
        let ghost line_pre = line.deep_view();
        let last = string_of_chars(&line, 0, line.len());
        lines.push(last);
        proof {
            assert(last@ =~= line_pre);
            assert(lines.deep_view() =~= lines_pre.push(line_pre));
            assert(lines_pre + seq![line_pre] =~= lines_pre.push(line_pre));
        }
    } else {
        proof {
            assert(line.deep_view() =~= Seq::<char>::empty());
            assert(lines.deep_view() + Seq::<Seq<char>>::empty() =~= lines.deep_view());
        }
    }
    proof {
        assert(lines.deep_view() == target);
    }
    if lines.len() == 0 {
        lines.push(String::from_str("-"));
        proof {
            assert(target =~= Seq::<Seq<char>>::empty());
            assert(lines.deep_view() =~= seq!["-"@]);
        }
    }
    lines
}

} // verus!
