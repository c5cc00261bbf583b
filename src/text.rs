use vstd::prelude::*;

verus! {

/// `p` with the character `c` put in front of its first piece.
pub open spec fn prepend(c: char, p: Seq<Seq<char>>) -> Seq<Seq<char>>
    recommends
        p.len() > 0,
{
    p.update(0, seq![c] + p[0])
}

/// `p` with the text `x` put in front of its first piece.
pub open spec fn prepend_all(x: Seq<char>, p: Seq<Seq<char>>) -> Seq<Seq<char>>
    recommends
        p.len() > 0,
{
    p.update(0, x + p[0])
}

/// Whether the two-character separator `a b` starts at index `i` of `s`.
pub open spec fn pair_at(s: Seq<char>, i: int, a: char, b: char) -> bool {
    0 <= i && i + 1 < s.len() && s[i] == a && s[i + 1] == b
}

/// The pieces of `s` between the occurrences of the separator `a b`, found from the left
/// without overlap: what `str::split` gives for a two-character pattern.
pub open spec fn split_pair(s: Seq<char>, a: char, b: char) -> Seq<Seq<char>>
    decreases s.len(),
{
    if s.len() == 0 {
        seq![Seq::<char>::empty()]
    } else if pair_at(s, 0, a, b) {
        seq![Seq::<char>::empty()] + split_pair(s.skip(2), a, b)
    } else {
        prepend(s[0], split_pair(s.skip(1), a, b))
    }
}

/// The text before the first occurrence of the separator `a b` and the text after it, or
/// `None` where it does not occur: what `str::split_once` gives.
pub open spec fn split_once_pair(s: Seq<char>, a: char, b: char) -> Option<(Seq<char>, Seq<char>)>
    decreases s.len(),
{
    if s.len() < 2 {
        None
    } else if pair_at(s, 0, a, b) {
        Some((Seq::<char>::empty(), s.skip(2)))
    } else {
        match split_once_pair(s.skip(1), a, b) {
            Some(p) => Some((seq![s[0]] + p.0, p.1)),
            None => None,
        }
    }
}

/// The pieces of `s` between occurrences of `c`, at most `n` of them, the last holding the
/// rest of the text: what `str::splitn` gives for a character pattern.
pub open spec fn splitn_char(s: Seq<char>, n: nat, c: char) -> Seq<Seq<char>>
    decreases s.len(),
{
    if n <= 1 || s.len() == 0 {
        seq![s]
    } else if s[0] == c {
        seq![Seq::<char>::empty()] + splitn_char(s.skip(1), (n - 1) as nat, c)
    } else {
        prepend(s[0], splitn_char(s.skip(1), n, c))
    }
}

/// Unicode's White_Space property, which `char::is_whitespace` tests.
pub open spec fn is_space(c: char) -> bool {
    ('\u{9}' <= c && c <= '\u{d}') || c == ' ' || c == '\u{85}' || c == '\u{a0}' || c
        == '\u{1680}' || ('\u{2000}' <= c && c <= '\u{200a}') || c == '\u{2028}' || c
        == '\u{2029}' || c == '\u{202f}' || c == '\u{205f}' || c == '\u{3000}'
}

/// The maximal runs of non-space characters of `s`, in order: what `str::split_whitespace`
/// gives.
pub open spec fn words(s: Seq<char>) -> Seq<Seq<char>>
    decreases s.len(),
{
    if s.len() == 0 {
        Seq::empty()
    } else {
        let w = words(s.drop_last());
        let c = s.last();
        if is_space(c) {
            w
        } else if s.len() >= 2 && !is_space(s[s.len() - 2]) {
            w.update(w.len() - 1, w.last().push(c))
        } else {
            w.push(seq![c])
        }
    }
}

/// The pieces of `p` that are not empty, in order.
pub open spec fn non_empty(p: Seq<Seq<char>>) -> Seq<Seq<char>>
    decreases p.len(),
{
    if p.len() == 0 {
        p
    } else if p.last().len() == 0 {
        non_empty(p.drop_last())
    } else {
        non_empty(p.drop_last()).push(p.last())
    }
}

/// The views of a vector of strings.
pub open spec fn views(v: Seq<String>) -> Seq<Seq<char>> {
    v.map_values(|x: String| x@)
}

pub proof fn lemma_split_pair_nonempty(s: Seq<char>, a: char, b: char)
    ensures
        split_pair(s, a, b).len() >= 1,
    decreases s.len(),
{
    if s.len() > 0 {
        if pair_at(s, 0, a, b) {
            lemma_split_pair_nonempty(s.skip(2), a, b);
        } else {
            lemma_split_pair_nonempty(s.skip(1), a, b);
        }
    }
}

pub proof fn lemma_splitn_nonempty(s: Seq<char>, n: nat, c: char)
    ensures
        splitn_char(s, n, c).len() >= 1,
    decreases s.len(),
{
    if n > 1 && s.len() > 0 {
        if s[0] == c {
            lemma_splitn_nonempty(s.skip(1), (n - 1) as nat, c);
        } else {
            lemma_splitn_nonempty(s.skip(1), n, c);
        }
    }
}

/// The characters of `s` from `from` up to `to`, as a new string.
fn piece(s: &str, from: usize, to: usize) -> (r: String)
    requires
        from <= to <= s@.len(),
    ensures
        r@ == s@.subrange(from as int, to as int),
{
    s.substring_char(from, to).to_owned()
}

/// Splits `s` at each occurrence of the separator `a b`.
pub fn split_on_pair(s: &str, a: char, b: char) -> (r: Vec<String>)
    ensures
        views(r@) == split_pair(s@, a, b),
{
    let n = s.unicode_len();
    let mut pieces: Vec<String> = Vec::new();
    let mut start: usize = 0;
    let mut i: usize = 0;
    proof {
        assert(s@.skip(0) =~= s@);
        lemma_split_pair_nonempty(s@, a, b);
        assert(prepend_all(s@.subrange(0, 0), split_pair(s@, a, b)) =~= split_pair(s@, a, b));
    }
    while i < n
        invariant
            n == s@.len(),
            start <= i <= n,
            split_pair(s@, a, b) == views(pieces@) + prepend_all(
                s@.subrange(start as int, i as int),
                split_pair(s@.skip(i as int), a, b),
            ),
        decreases n - i,
    {
        let ghost rest = s@.skip(i as int);
        let ghost cur = s@.subrange(start as int, i as int);
        let c = s.get_char(i);
        if i + 1 < n && c == a && s.get_char(i + 1) == b {
            proof {
                assert(pair_at(rest, 0, a, b));
                assert(rest.skip(2) =~= s@.skip(i + 2));
                let r = split_pair(s@.skip(i + 2), a, b);
                lemma_split_pair_nonempty(s@.skip(i + 2), a, b);
                assert(prepend_all(cur, seq![Seq::<char>::empty()] + r) =~= seq![cur] + r);
                assert(prepend_all(s@.subrange(i + 2, i + 2), r) =~= r);
            }
            let p = piece(s, start, i);
            let ghost before = pieces@;
            pieces.push(p);
            proof {
                assert(views(pieces@) =~= views(before).push(cur));
                let r = split_pair(s@.skip(i + 2), a, b);
                assert(views(before) + (seq![cur] + r) =~= views(pieces@) + r);
            }
            i = i + 2;
            start = i;
        } else {
            proof {
                assert(!pair_at(rest, 0, a, b));
                assert(rest.skip(1) =~= s@.skip(i + 1));
                let r = split_pair(s@.skip(i + 1), a, b);
                lemma_split_pair_nonempty(s@.skip(i + 1), a, b);
                assert(s@.subrange(start as int, i + 1) =~= cur + seq![c]);
                assert(cur + (seq![c] + r[0]) =~= s@.subrange(start as int, i + 1) + r[0]);
                assert(prepend_all(cur, prepend(c, r)) =~= prepend_all(
                    s@.subrange(start as int, i + 1),
                    r,
                ));
            }
            i = i + 1;
        }
    }
    let p = piece(s, start, n);
    let ghost before = pieces@;
    pieces.push(p);
    proof {
        assert(s@.skip(n as int) =~= Seq::<char>::empty());
        let cur = s@.subrange(start as int, n as int);
        assert(prepend_all(cur, seq![Seq::<char>::empty()]) =~= seq![cur]);
        assert(views(pieces@) =~= views(before).push(cur));
        assert(views(before) + seq![cur] =~= views(pieces@));
    }
    pieces
}

/// `o` with the text `x` put in front of the part before the separator.
pub open spec fn with_prefix(x: Seq<char>, o: Option<(Seq<char>, Seq<char>)>) -> Option<
    (Seq<char>, Seq<char>),
> {
    match o {
        Some(p) => Some((x + p.0, p.1)),
        None => None,
    }
}

/// Splits `s` at the first occurrence of the separator `a b`.
pub fn split_once_on_pair(s: &str, a: char, b: char) -> (r: Option<(String, String)>)
    ensures
        match r {
            Some(p) => split_once_pair(s@, a, b) == Some((p.0@, p.1@)),
            None => split_once_pair(s@, a, b) is None,
        },
{
    let n = s.unicode_len();
    let mut i: usize = 0;
    proof {
        assert(s@.skip(0) =~= s@);
        assert(s@.take(0) + Seq::<char>::empty() =~= Seq::<char>::empty());
        match split_once_pair(s@, a, b) {
            Some(p) => assert(s@.take(0) + p.0 =~= p.0),
            None => {},
        }
    }
    while i < n
        invariant
            n == s@.len(),
            i <= n,
            split_once_pair(s@, a, b) == with_prefix(
                s@.take(i as int),
                split_once_pair(s@.skip(i as int), a, b),
            ),
        decreases n - i,
    {
        let ghost rest = s@.skip(i as int);
        let c = s.get_char(i);
        if i + 1 < n && c == a && s.get_char(i + 1) == b {
            proof {
                assert(pair_at(rest, 0, a, b));
                assert(rest.skip(2) =~= s@.skip(i + 2));
                assert(s@.take(i as int) + Seq::<char>::empty() =~= s@.subrange(0, i as int));
            }
            let before = piece(s, 0, i);
            let after = piece(s, i + 2, n);
            proof {
                assert(s@.skip(i + 2) =~= s@.subrange(i + 2, n as int));
            }
            return Some((before, after));
        }
        proof {
            assert(rest.skip(1) =~= s@.skip(i + 1));
            assert(s@.take(i + 1) =~= s@.take(i as int) + seq![c]);
            if i + 1 < n {
                assert(!pair_at(rest, 0, a, b));
                match split_once_pair(s@.skip(i + 1), a, b) {
                    Some(p) => {
                        assert(s@.take(i as int) + (seq![c] + p.0) =~= s@.take(i + 1) + p.0);
                    },
                    None => {},
                }
            } else {
                assert(s@.skip(i + 1).len() == 0);
            }
        }
        i = i + 1;
    }
    proof {
        assert(s@.skip(n as int).len() == 0);
    }
    None
}

/// Splits `s` at occurrences of `c` into at most `count` pieces.
pub fn splitn_on_char(s: &str, count: usize, c: char) -> (r: Vec<String>)
    ensures
        views(r@) == splitn_char(s@, count as nat, c),
{
    let n = s.unicode_len();
    let mut pieces: Vec<String> = Vec::new();
    let mut start: usize = 0;
    let mut i: usize = 0;
    let mut k: usize = count;
    proof {
        assert(s@.skip(0) =~= s@);
        lemma_splitn_nonempty(s@, count as nat, c);
        assert(prepend_all(s@.subrange(0, 0), splitn_char(s@, count as nat, c)) =~= splitn_char(
            s@,
            count as nat,
            c,
        ));
    }
    while i < n
        invariant
            n == s@.len(),
            start <= i <= n,
            splitn_char(s@, count as nat, c) == views(pieces@) + prepend_all(
                s@.subrange(start as int, i as int),
                splitn_char(s@.skip(i as int), k as nat, c),
            ),
        decreases n - i,
    {
        let ghost rest = s@.skip(i as int);
        let ghost cur = s@.subrange(start as int, i as int);
        let d = s.get_char(i);
        proof {
            assert(rest.skip(1) =~= s@.skip(i + 1));
        }
        if k > 1 && d == c {
            proof {
                let r = splitn_char(s@.skip(i + 1), (k - 1) as nat, c);
                lemma_splitn_nonempty(s@.skip(i + 1), (k - 1) as nat, c);
                assert(prepend_all(cur, seq![Seq::<char>::empty()] + r) =~= seq![cur] + r);
                assert(prepend_all(s@.subrange(i + 1, i + 1), r) =~= r);
            }
            let p = piece(s, start, i);
            let ghost before = pieces@;
            pieces.push(p);
            proof {
                assert(views(pieces@) =~= views(before).push(cur));
                let r = splitn_char(s@.skip(i + 1), (k - 1) as nat, c);
                assert(views(before) + (seq![cur] + r) =~= views(pieces@) + r);
            }
            k = k - 1;
            i = i + 1;
            start = i;
        } else {
            proof {
                let r = splitn_char(s@.skip(i + 1), k as nat, c);
                lemma_splitn_nonempty(s@.skip(i + 1), k as nat, c);
                if k <= 1 {
                    assert(seq![d] + s@.skip(i + 1) =~= rest);
                    assert(prepend(d, r) =~= seq![rest]);
                }
                assert(splitn_char(rest, k as nat, c) == prepend(d, r));
                assert(s@.subrange(start as int, i + 1) =~= cur + seq![d]);
                assert(cur + (seq![d] + r[0]) =~= s@.subrange(start as int, i + 1) + r[0]);
                assert(prepend_all(cur, prepend(d, r)) =~= prepend_all(
                    s@.subrange(start as int, i + 1),
                    r,
                ));
            }
            i = i + 1;
        }
    }
    let p = piece(s, start, n);
    let ghost before = pieces@;
    pieces.push(p);
    proof {
        assert(s@.skip(n as int) =~= Seq::<char>::empty());
        let cur = s@.subrange(start as int, n as int);
        assert(prepend_all(cur, seq![Seq::<char>::empty()]) =~= seq![cur]);
        assert(views(pieces@) =~= views(before).push(cur));
        assert(views(before) + seq![cur] =~= views(pieces@));
    }
    pieces
}

/// The strings of `p` that are not empty, in order.
pub fn drop_empty(p: &Vec<String>) -> (r: Vec<String>)
    ensures
        views(r@) == non_empty(views(p@)),
{
    let mut kept: Vec<String> = Vec::new();
    let mut j: usize = 0;
    proof {
        assert(views(p@).take(0) =~= Seq::<Seq<char>>::empty());
        assert(views(kept@) =~= Seq::<Seq<char>>::empty());
    }
    while j < p.len()
        invariant
            j <= p@.len(),
            views(kept@) == non_empty(views(p@).take(j as int)),
        decreases p@.len() - j,
    {
        proof {
            assert(views(p@).take(j + 1).drop_last() =~= views(p@).take(j as int));
        }
        if !p[j].as_str().is_empty() {
            let ghost before = kept@;
            kept.push(p[j].clone());
            proof {
                assert(views(kept@) =~= views(before).push(p@[j as int]@));
            }
        }
        j = j + 1;
    }
    proof {
        assert(views(p@).take(p@.len() as int) =~= views(p@));
    }
    kept
}

/// Whether `c` is a space character in Unicode's sense.
pub fn is_space_char(c: char) -> (r: bool)
    ensures
        r == is_space(c),
{
    ('\u{9}' <= c && c <= '\u{d}') || c == ' ' || c == '\u{85}' || c == '\u{a0}' || c
        == '\u{1680}' || ('\u{2000}' <= c && c <= '\u{200a}') || c == '\u{2028}' || c
        == '\u{2029}' || c == '\u{202f}' || c == '\u{205f}' || c == '\u{3000}'
}

/// Splits `s` into its maximal runs of non-space characters.
pub fn split_words(s: &str) -> (r: Vec<String>)
    ensures
        views(r@) == words(s@),
{
    let n = s.unicode_len();
    let mut done: Vec<String> = Vec::new();
    let mut start: usize = 0;
    let mut in_word = false;
    let mut i: usize = 0;
    proof {
        assert(s@.take(0) =~= Seq::<char>::empty());
        assert(views(done@) =~= Seq::<Seq<char>>::empty());
    }
    while i < n
        invariant
            n == s@.len(),
            start <= i <= n,
            in_word == (i > 0 && !is_space(s@[i - 1])),
            in_word ==> start < i,
            words(s@.take(i as int)) == views(done@) + (if in_word {
                seq![s@.subrange(start as int, i as int)]
            } else {
                Seq::<Seq<char>>::empty()
            }),
        decreases n - i,
    {
        let c = s.get_char(i);
        let ghost cur = s@.subrange(start as int, i as int);
        let ghost before = done@;
        proof {
            let t = s@.take(i + 1);
            assert(t.drop_last() =~= s@.take(i as int));
            assert(t.last() == c);
            if i > 0 {
                assert(t[t.len() - 2] == s@[i - 1]);
            }
        }
        if is_space_char(c) {
            if in_word {
                let p = piece(s, start, i);
                done.push(p);
                proof {
                    assert(views(done@) =~= views(before).push(cur));
                    assert(views(before) + seq![cur] =~= views(done@) + Seq::<Seq<char>>::empty());
                }
                in_word = false;
            }
        } else {
            if !in_word {
                start = i;
                in_word = true;
                proof {
                    assert(s@.subrange(i as int, i + 1) =~= seq![c]);
                    assert(views(done@) + Seq::<Seq<char>>::empty() =~= views(done@));
                    assert(views(done@).push(seq![c]) =~= views(done@) + seq![s@.subrange(
                        i as int,
                        i + 1,
                    )]);
                }
            } else {
                proof {
                    assert(cur.push(c) =~= s@.subrange(start as int, i + 1));
                    let w = views(done@) + seq![cur];
                    assert(w.update(w.len() - 1, w.last().push(c)) =~= views(done@) + seq![
                        s@.subrange(start as int, i + 1),
                    ]);
                }
            }
        }
        i = i + 1;
    }
    if in_word {
        let ghost before = done@;
        let p = piece(s, start, n);
        done.push(p);
        proof {
            assert(views(done@) =~= views(before).push(s@.subrange(start as int, n as int)));
        }
    }
    proof {
        assert(s@.take(n as int) =~= s@);
        assert(views(done@) + Seq::<Seq<char>>::empty() =~= views(done@));
    }
    done
}

/// The view of an optional string.
pub open spec fn opt_view(o: Option<String>) -> Option<Seq<char>> {
    match o {
        Some(s) => Some(s@),
        None => None,
    }
}

/// Whether the string is exactly the given text.
pub fn is_text(s: &String, text: &str) -> (r: bool)
    ensures
        r == (s@ == text@),
{
    let t = text.to_owned();
    s.eq(&t)
}

/// A run of non-space characters is one word.
pub proof fn lemma_words_single(s: Seq<char>)
    requires
        s.len() > 0,
        forall|i: int| 0 <= i < s.len() ==> !is_space(#[trigger] s[i]),
    ensures
        words(s) == seq![s],
    decreases s.len(),
{
    let d = s.drop_last();
    assert(!is_space(s[s.len() - 1]));
    if s.len() == 1 {
        assert(d =~= Seq::<char>::empty());
        assert(words(d) =~= Seq::<Seq<char>>::empty());
        assert(seq![s.last()] =~= s);
        assert(words(s) =~= Seq::<Seq<char>>::empty().push(seq![s.last()]));
    } else {
        lemma_words_single(d);
        assert(!is_space(s[s.len() - 2]));
        assert(d.push(s.last()) =~= s);
        assert(words(s) =~= seq![d].update(0, d.push(s.last())));
    }
}

/// Text that ends in a space, or is empty, splits into words apart from what follows it.
pub proof fn lemma_words_append(x: Seq<char>, y: Seq<char>)
    requires
        x.len() == 0 || is_space(x.last()),
    ensures
        words(x + y) == words(x) + words(y),
        y.len() > 0 && !is_space(y.last()) ==> words(y).len() > 0,
    decreases y.len(),
{
    if y.len() == 0 {
        assert(x + y =~= x);
        assert(words(x) + words(y) =~= words(x));
    } else {
        let s = x + y;
        let yd = y.drop_last();
        lemma_words_append(x, yd);
        assert(s.drop_last() =~= x + yd);
        assert(s.last() == y.last());
        if yd.len() > 0 {
            assert(s[s.len() - 2] == y[y.len() - 2]);
            lemma_words_append(Seq::empty(), yd);
            assert(Seq::<char>::empty() + yd =~= yd);
        } else if x.len() > 0 {
            assert(s[s.len() - 2] == x.last());
        }
        let c = y.last();
        let wx = words(x);
        let wy = words(yd);
        if !is_space(c) && y.len() >= 2 && !is_space(y[y.len() - 2]) {
            let w = wx + wy;
            assert(w.update(w.len() - 1, w.last().push(c)) =~= wx + wy.update(
                wy.len() - 1,
                wy.last().push(c),
            ));
        } else if !is_space(c) {
            assert((wx + wy).push(seq![c]) =~= wx + wy.push(seq![c]));
        }
    }
}

} // verus!
