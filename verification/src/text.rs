//! Text primitives over Unicode scalar values: whitespace, splitting into
//! words and joining them back with single spaces.
use vstd::prelude::*;

verus! {

/// The Unicode `White_Space` property, the set that `char::is_whitespace`
/// (and so `str::split_whitespace` and `str::trim`) treats as blank.
pub open spec fn is_white_space(c: char) -> bool {
    let u = c as u32;
    ||| 0x9 <= u <= 0xd
    ||| u == 0x20
    ||| u == 0x85
    ||| u == 0xa0
    ||| u == 0x1680
    ||| 0x2000 <= u <= 0x200a
    ||| u == 0x2028
    ||| u == 0x2029
    ||| u == 0x202f
    ||| u == 0x205f
    ||| u == 0x3000
}

/// No character of `w` is white space.
pub open spec fn is_blank_free(w: Seq<char>) -> bool {
    forall|i: int| 0 <= i < w.len() ==> !is_white_space(#[trigger] w[i])
}

/// A word: a non-empty run of characters without white space.
pub open spec fn is_word(w: Seq<char>) -> bool {
    w.len() > 0 && is_blank_free(w)
}

/// Every character of `s` is white space (so `s.trim()` is empty).
pub open spec fn is_all_blank(s: Seq<char>) -> bool {
    forall|i: int| 0 <= i < s.len() ==> is_white_space(#[trigger] s[i])
}

/// Reading `s` from left to right: the words already closed by a blank, and
/// the word under way (empty between words).
pub open spec fn scan(s: Seq<char>) -> (Seq<Seq<char>>, Seq<char>)
    decreases s.len(),
{
    if s.len() == 0 {
        (Seq::empty(), Seq::empty())
    } else {
        let (done, cur) = scan(s.drop_last());
        if is_white_space(s.last()) {
            if cur.len() > 0 {
                (done.push(cur), Seq::empty())
            } else {
                (done, cur)
            }
        } else {
            (done, cur.push(s.last()))
        }
    }
}

/// The words of `s`, in order: what `str::split_whitespace` yields.
pub open spec fn words(s: Seq<char>) -> Seq<Seq<char>> {
    let (done, cur) = scan(s);
    if cur.len() > 0 {
        done.push(cur)
    } else {
        done
    }
}

/// The words joined with one space between each two.
pub open spec fn join_words(ws: Seq<Seq<char>>) -> Seq<char>
    decreases ws.len(),
{
    if ws.len() == 0 {
        Seq::empty()
    } else if ws.len() == 1 {
        ws[0]
    } else {
        join_words(ws.drop_last()) + seq![' '] + ws.last()
    }
}

/// `s` with its blanks collapsed: its words joined by single spaces.
pub open spec fn normalize(s: Seq<char>) -> Seq<char> {
    join_words(words(s))
}

/// Every element of `ws` is a word.
pub open spec fn all_words(ws: Seq<Seq<char>>) -> bool {
    forall|i: int| 0 <= i < ws.len() ==> is_word(#[trigger] ws[i])
}

pub proof fn lemma_scan_shape(s: Seq<char>)
    ensures
        all_words(scan(s).0),
        is_blank_free(scan(s).1),
        scan(s).0.len() <= s.len(),
        scan(s).0.len() + scan(s).1.len() <= s.len(),
    decreases s.len(),
{
    if s.len() > 0 {
        lemma_scan_shape(s.drop_last());
        let (done, cur) = scan(s.drop_last());
        if is_white_space(s.last()) {
            if cur.len() > 0 {
                assert(all_words(done.push(cur))) by {
                    assert forall|i: int| 0 <= i < done.push(cur).len() implies is_word(
                        #[trigger] done.push(cur)[i],
                    ) by {
                        if i < done.len() {
                            assert(done.push(cur)[i] == done[i]);
                        }
                    }
                }
            }
        } else {
            assert(is_blank_free(cur.push(s.last()))) by {
                assert forall|i: int| 0 <= i < cur.push(s.last()).len() implies !is_white_space(
                    #[trigger] cur.push(s.last())[i],
                ) by {
                    if i < cur.len() {
                        assert(cur.push(s.last())[i] == cur[i]);
                    }
                }
            }
        }
    }
}

/// Each word that `words` yields is a non-empty run without white space,
/// and there are no more words than characters.
pub proof fn lemma_words_are_words(s: Seq<char>)
    ensures
        all_words(words(s)),
        words(s).len() <= s.len(),
{
    lemma_scan_shape(s);
    let (done, cur) = scan(s);
    if cur.len() > 0 {
        assert forall|i: int| 0 <= i < done.push(cur).len() implies is_word(
            #[trigger] done.push(cur)[i],
        ) by {
            if i < done.len() {
                assert(done.push(cur)[i] == done[i]);
            }
        }
    }
}

proof fn lemma_scan_append_blank_free(a: Seq<char>, w: Seq<char>)
    requires
        is_blank_free(w),
    ensures
        scan(a + w) == (scan(a).0, scan(a).1 + w),
    decreases w.len(),
{
    if w.len() == 0 {
        assert(a + w == a);
        assert(scan(a).1 + w == scan(a).1);
    } else {
        let w0 = w.drop_last();
        assert(is_blank_free(w0)) by {
            assert forall|i: int| 0 <= i < w0.len() implies !is_white_space(#[trigger] w0[i]) by {
                assert(w0[i] == w[i]);
            }
        }
        lemma_scan_append_blank_free(a, w0);
        assert((a + w).drop_last() == a + w0);
        assert((a + w).last() == w.last());
        assert(!is_white_space(w[w.len() - 1]));
        assert((scan(a).1 + w0).push(w.last()) == scan(a).1 + w);
    }
}

proof fn lemma_scan_join(ws: Seq<Seq<char>>)
    requires
        ws.len() > 0,
        all_words(ws),
    ensures
        scan(join_words(ws)) == (ws.drop_last(), ws.last()),
    decreases ws.len(),
{
    if ws.len() == 1 {
        assert(is_word(ws[0]));
        lemma_scan_append_blank_free(Seq::empty(), ws[0]);
        assert(Seq::<char>::empty() + ws[0] == ws[0]);
        assert(Seq::<char>::empty() + ws[0] == ws[0]);
        assert(ws.drop_last() == Seq::<Seq<char>>::empty());
    } else {
        let prev = ws.drop_last();
        assert(all_words(prev)) by {
            assert forall|i: int| 0 <= i < prev.len() implies is_word(#[trigger] prev[i]) by {
                assert(prev[i] == ws[i]);
            }
        }
        lemma_scan_join(prev);
        let jp = join_words(prev);
        let with_space = jp + seq![' '];
        assert(with_space.drop_last() == jp);
        assert(with_space.last() == ' ');
        assert(is_white_space(' '));
        assert(is_word(prev.last()));
        assert(prev.drop_last().push(prev.last()) == prev);
        assert(scan(with_space) == (prev, Seq::<char>::empty()));
        assert(is_word(ws[ws.len() - 1]));
        lemma_scan_append_blank_free(with_space, ws.last());
        assert(Seq::<char>::empty() + ws.last() == ws.last());
        assert(join_words(ws) == with_space + ws.last());
    }
}

/// Splitting joined words gives the words back.
pub proof fn lemma_words_of_join(ws: Seq<Seq<char>>)
    requires
        all_words(ws),
    ensures
        words(join_words(ws)) == ws,
{
    if ws.len() == 0 {
        assert(join_words(ws) == Seq::<char>::empty());
    } else {
        lemma_scan_join(ws);
        assert(is_word(ws[ws.len() - 1]));
        assert(ws.drop_last().push(ws.last()) == ws);
    }
}

/// Collapsing blanks keeps the words: `s` and `normalize(s)` split into
/// the same words, and collapsing twice is collapsing once.
pub proof fn lemma_normalize_keeps_words(s: Seq<char>)
    ensures
        words(normalize(s)) == words(s),
        normalize(normalize(s)) == normalize(s),
{
    lemma_words_are_words(s);
    lemma_words_of_join(words(s));
}

proof fn lemma_scan_after_space(a: Seq<char>, b: Seq<char>)
    ensures
        scan(a + seq![' '] + b) == (words(a) + scan(b).0, scan(b).1),
    decreases b.len(),
{
    let sp = a + seq![' '];
    assert(sp.drop_last() == a);
    assert(sp.last() == ' ');
    assert(is_white_space(' '));
    if b.len() == 0 {
        assert(sp + b == sp);
        assert(words(a) + Seq::<Seq<char>>::empty() == words(a));
    } else {
        let b0 = b.drop_last();
        lemma_scan_after_space(a, b0);
        assert((sp + b).drop_last() == sp + b0);
        assert((sp + b).last() == b.last());
        let (d, c) = scan(b0);
        assert((words(a) + d).push(c) == words(a) + d.push(c));
    }
}

/// Two texts joined by a space split into the words of the first followed
/// by the words of the second.
pub proof fn lemma_words_of_spaced_concat(a: Seq<char>, b: Seq<char>)
    ensures
        words(a + seq![' '] + b) == words(a) + words(b),
{
    lemma_scan_after_space(a, b);
    let (d, c) = scan(b);
    assert((words(a) + d).push(c) == words(a) + d.push(c));
}

/// `join_words` of words never starts or ends with a blank, and the only
/// blank in it is the single space between two words.
pub proof fn lemma_join_shape(ws: Seq<Seq<char>>)
    requires
        all_words(ws),
    ensures
        ws.len() == 0 <==> join_words(ws).len() == 0,
        join_words(ws).len() > 0 ==> !is_white_space(join_words(ws)[0]) && !is_white_space(
            join_words(ws).last(),
        ),
        forall|i: int|
            0 <= i < join_words(ws).len() && is_white_space(#[trigger] join_words(ws)[i]) ==> {
                &&& join_words(ws)[i] == ' '
                &&& 0 < i < join_words(ws).len() - 1
                &&& !is_white_space(join_words(ws)[i - 1])
                &&& !is_white_space(join_words(ws)[i + 1])
            },
    decreases ws.len(),
{
    if ws.len() == 1 {
        assert(is_word(ws[0]));
    } else if ws.len() > 1 {
        let prev = ws.drop_last();
        assert(all_words(prev)) by {
            assert forall|i: int| 0 <= i < prev.len() implies is_word(#[trigger] prev[i]) by {
                assert(prev[i] == ws[i]);
            }
        }
        lemma_join_shape(prev);
        let jp = join_words(prev);
        let w = ws.last();
        assert(is_word(ws[ws.len() - 1]));
        let j = jp + seq![' '] + w;
        assert(join_words(ws) == j);
        assert(j[0] == jp[0]);
        assert(j.last() == w.last());
        assert forall|i: int| 0 <= i < j.len() && is_white_space(#[trigger] j[i]) implies {
            &&& j[i] == ' '
            &&& 0 < i < j.len() - 1
            &&& !is_white_space(j[i - 1])
            &&& !is_white_space(j[i + 1])
        } by {
            if i < jp.len() {
                assert(j[i] == jp[i]);
                if i + 1 < jp.len() {
                    assert(j[i + 1] == jp[i + 1]);
                }
                assert(j[i - 1] == jp[i - 1]);
            } else if i == jp.len() {
                assert(j[i - 1] == jp.last());
                assert(j[i + 1] == w[0]);
            } else {
                assert(j[i] == w[i - jp.len() - 1]);
            }
        }
    }
}

/// Whether `c` has the Unicode `White_Space` property.
pub fn white_space(c: char) -> (b: bool)
    ensures
        b == is_white_space(c),
{
    let u = c as u32;
    (0x9 <= u && u <= 0xd) || u == 0x20 || u == 0x85 || u == 0xa0 || u == 0x1680 || (0x2000 <= u
        && u <= 0x200a) || u == 0x2028 || u == 0x2029 || u == 0x202f || u == 0x205f || u == 0x3000
}

/// Appends one character to a string (`String::push`).
#[verifier::external_body]
pub(crate) fn push_char(s: &mut String, c: char)
    ensures
        final(s)@ == old(s)@.push(c),
{
    s.push(c);
}

/// The characters of `s`, in order.
pub fn chars_of(s: &str) -> (v: Vec<char>)
    ensures
        v@ == s@,
{
    let mut v: Vec<char> = Vec::new();
    for c in it: s.chars()
        invariant
            v@ == it.seq().take(it.index() as int),
            it.seq() == s@,
    {
        v.push(c);
        assert(it.seq().take(it.index() as int + 1) == v@);
    }
    v
}

/// Appends the characters of `w` to `out`.
pub fn append_chars(out: &mut String, w: &Vec<char>)
    ensures
        final(out)@ == old(out)@ + w@,
{
    let mut i: usize = 0;
    while i < w.len()
        invariant
            i <= w.len(),
            out@ == old(out)@ + w@.take(i as int),
        decreases w.len() - i,
    {
        push_char(out, w[i]);
        assert(w@.take(i as int + 1) == w@.take(i as int).push(w@[i as int]));
        i = i + 1;
    }
    assert(w@.take(w.len() as int) == w@);
}

/// `s` with its blanks collapsed (words joined by single spaces), and how
/// many words it has.
pub fn normalize_chars(s: &Vec<char>) -> (res: (String, usize))
    ensures
        res.0@ == normalize(s@),
        res.1 == words(s@).len(),
{
    let mut out = String::new();
    let mut cur: Vec<char> = Vec::new();
    let mut n: usize = 0;
    let mut i: usize = 0;
    while i < s.len()
        invariant
            i <= s.len(),
            out@ == join_words(scan(s@.take(i as int)).0),
            cur@ == scan(s@.take(i as int)).1,
            n == scan(s@.take(i as int)).0.len(),
            n <= i,
        decreases s.len() - i,
    {
        let ghost prefix = s@.take(i as int);
        let ghost next = s@.take(i as int + 1);
        assert(next.drop_last() == prefix);
        assert(next.last() == s@[i as int]);
        proof {
            lemma_scan_shape(prefix);
        }
        let c = s[i];
        if white_space(c) {
            if cur.len() > 0 {
                if n > 0 {
                    push_char(&mut out, ' ');
                }
                append_chars(&mut out, &cur);
                let ghost done = scan(prefix).0;
                assert(done.push(cur@).drop_last() == done);
                assert(done.push(cur@).last() == cur@);
                if n == 0 {
                    assert(Seq::<char>::empty() + cur@ == cur@);
                }
                cur = Vec::new();
                n = n + 1;
            }
        } else {
            cur.push(c);
        }
        i = i + 1;
    }
    assert(s@.take(s.len() as int) == s@);
    proof {
        lemma_scan_shape(s@);
    }
    if cur.len() > 0 {
        if n > 0 {
            push_char(&mut out, ' ');
        }
        append_chars(&mut out, &cur);
        let ghost done = scan(s@).0;
        assert(done.push(cur@).drop_last() == done);
        assert(done.push(cur@).last() == cur@);
        if n == 0 {
            assert(Seq::<char>::empty() + cur@ == cur@);
        }
        n = n + 1;
    }
    (out, n)
}

/// Whether `s` is empty once white space is trimmed from both ends.
pub fn is_blank(s: &str) -> (b: bool)
    ensures
        b == is_all_blank(s@),
{
    let v = chars_of(s);
    let mut i: usize = 0;
    while i < v.len()
        invariant
            i <= v.len(),
            v@ == s@,
            forall|k: int| 0 <= k < i ==> is_white_space(#[trigger] v@[k]),
        decreases v.len() - i,
    {
        if !white_space(v[i]) {
            return false;
        }
        i = i + 1;
    }
    true
}

} // verus!
