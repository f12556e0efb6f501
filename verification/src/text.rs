//! Text helpers: character sequences, splitting, joining and replacing, with their specifications.

use vstd::prelude::*;

verus! {

broadcast use vstd::string::group_string_axioms;

/// Appends one character to a string (std's `String::push`).
#[verifier::external_body]
pub(crate) fn push_char(s: &mut String, c: char)
    ensures
        final(s)@ == old(s)@.push(c),
{
    s.push(c);
}

/// Appends a string slice to a string (std's `String::push_str`).
#[verifier::external_body]
pub(crate) fn push_str(s: &mut String, t: &str)
    ensures
        final(s)@ == old(s)@ + t@,
{
    s.push_str(t);
}

/// The characters of a string, in order.
pub fn chars_of(s: &str) -> (v: Vec<char>)
    ensures
        v@ == s@,
{
    let mut v: Vec<char> = Vec::new();
    for c in it: s.chars()
        invariant
            v@ == it.history(),
    {
        v.push(c);
    }
    v
}

} // verus!

verus! {

/// A string holding the given characters.
pub fn string_from_chars(v: &[char]) -> (s: String)
    ensures
        s@ == v@,
{
    let mut s = String::new();
    let mut i: usize = 0;
    while i < v.len()
        invariant
            i <= v.len(),
            s@ == v@.take(i as int),
        decreases v.len() - i,
    {
        push_char(&mut s, v[i]);
        assert(v@.take(i + 1) =~= v@.take(i as int).push(v@[i as int]));
        i = i + 1;
    }
    assert(v@.take(v.len() as int) =~= v@);
    s
}

/// Whether `pat` occurs in `s` starting at index `i`.
pub open spec fn matches_at(s: Seq<char>, pat: Seq<char>, i: int) -> bool {
    0 <= i && i + pat.len() <= s.len() && s.subrange(i, i + pat.len()) == pat
}

/// `s` split at every occurrence of the non-empty separator `sep`, scanning from the left and
/// not letting matches overlap (std's `str::split` with a string pattern).
pub open spec fn split_seq(s: Seq<char>, sep: Seq<char>) -> Seq<Seq<char>>
    decreases s.len(),
{
    if sep.len() == 0 || s.len() < sep.len() {
        seq![s]
    } else if s.take(sep.len() as int) == sep {
        seq![Seq::<char>::empty()] + split_seq(s.skip(sep.len() as int), sep)
    } else {
        let r = split_seq(s.drop_first(), sep);
        r.update(0, seq![s[0]] + r[0])
    }
}

/// Pieces joined with `sep` between consecutive pieces (std's `join`).
pub open spec fn join_seq(parts: Seq<Seq<char>>, sep: Seq<char>) -> Seq<char>
    decreases parts.len(),
{
    if parts.len() == 0 {
        Seq::empty()
    } else if parts.len() == 1 {
        parts[0]
    } else {
        join_seq(parts.drop_last(), sep) + sep + parts.last()
    }
}

/// The pieces of a split are never an empty list.
pub proof fn lemma_split_nonempty(s: Seq<char>, sep: Seq<char>)
    ensures
        split_seq(s, sep).len() >= 1,
    decreases s.len(),
{
    if sep.len() == 0 || s.len() < sep.len() {
    } else if s.take(sep.len() as int) == sep {
        lemma_split_nonempty(s.skip(sep.len() as int), sep);
    } else {
        lemma_split_nonempty(s.drop_first(), sep);
    }
}

/// Joining a first piece to the rest puts the separator between them.
pub proof fn lemma_join_cons(a: Seq<char>, rest: Seq<Seq<char>>, sep: Seq<char>)
    requires
        rest.len() >= 1,
    ensures
        join_seq(seq![a] + rest, sep) == a + sep + join_seq(rest, sep),
    decreases rest.len(),
{
    let parts = seq![a] + rest;
    assert(parts.last() == rest.last());
    assert(join_seq(parts, sep) == join_seq(parts.drop_last(), sep) + sep + parts.last());
    if rest.len() == 1 {
        assert(parts.drop_last() =~= seq![a]);
        assert(join_seq(seq![a], sep) == a);
        assert(join_seq(rest, sep) == rest[0]);
    } else {
        lemma_join_cons(a, rest.drop_last(), sep);
        assert(parts.drop_last() =~= seq![a] + rest.drop_last());
        assert(a + sep + join_seq(rest.drop_last(), sep) + sep + rest.last() =~= a + sep + (
        join_seq(rest.drop_last(), sep) + sep + rest.last()));
    }
}

/// Growing the first piece at its front grows the joined text at its front.
pub proof fn lemma_join_grow_first(x: Seq<char>, r: Seq<Seq<char>>, sep: Seq<char>)
    requires
        r.len() >= 1,
    ensures
        join_seq(r.update(0, x + r[0]), sep) == x + join_seq(r, sep),
    decreases r.len(),
{
    let u = r.update(0, x + r[0]);
    if r.len() == 1 {
    } else {
        lemma_join_grow_first(x, r.drop_last(), sep);
        assert(u.drop_last() =~= r.drop_last().update(0, x + r.drop_last()[0]));
        assert(x + join_seq(r.drop_last(), sep) + sep + r.last() =~= x + (join_seq(
            r.drop_last(),
            sep,
        ) + sep + r.last()));
    }
}

/// Joining the pieces of a split with its separator gives back the text.
pub proof fn lemma_split_join(s: Seq<char>, sep: Seq<char>)
    requires
        sep.len() > 0,
    ensures
        join_seq(split_seq(s, sep), sep) == s,
    decreases s.len(),
{
    if s.len() < sep.len() {
    } else if s.take(sep.len() as int) == sep {
        let rest = s.skip(sep.len() as int);
        lemma_split_join(rest, sep);
        lemma_split_nonempty(rest, sep);
        lemma_join_cons(Seq::<char>::empty(), split_seq(rest, sep), sep);
        assert(Seq::<char>::empty() + sep + rest =~= s);
    } else {
        let r = split_seq(s.drop_first(), sep);
        lemma_split_join(s.drop_first(), sep);
        lemma_split_nonempty(s.drop_first(), sep);
        lemma_join_grow_first(seq![s[0]], r, sep);
        assert(seq![s[0]] + s.drop_first() =~= s);
    }
}

/// The split of `pieces ++ [cur ++ first(rest)] ++ tail(rest)`.
pub open spec fn prefix_first(cur: Seq<char>, rest: Seq<Seq<char>>) -> Seq<Seq<char>> {
    rest.update(0, cur + rest[0])
}

/// Whether `v[i..i + pat.len()]` equals `pat`.
pub fn matches_at_exec(v: &[char], pat: &[char], i: usize) -> (b: bool)
    ensures
        b == matches_at(v@, pat@, i as int),
{
    if i > v.len() || pat.len() > v.len() - i {
        return false;
    }
    let mut k: usize = 0;
    while k < pat.len()
        invariant
            i + pat.len() <= v.len(),
            k <= pat.len(),
            forall|j: int| 0 <= j < k ==> v@[i + j] == pat@[j],
        decreases pat.len() - k,
    {
        if v[i + k] != pat[k] {
            assert(v@.subrange(i as int, i + pat.len())[k as int] != pat@[k as int]);
            return false;
        }
        k = k + 1;
    }
    assert(v@.subrange(i as int, i + pat.len()) =~= pat@);
    true
}

/// Splits `v` at every occurrence of the non-empty separator `sep`.
pub fn split_chars(v: &[char], sep: &[char]) -> (parts: Vec<Vec<char>>)
    requires
        sep@.len() > 0,
    ensures
        parts@.len() == split_seq(v@, sep@).len(),
        forall|i: int| 0 <= i < parts@.len() ==> #[trigger] parts@[i]@ == split_seq(v@, sep@)[i],
{
    let mut parts: Vec<Vec<char>> = Vec::new();
    let mut cur: Vec<char> = Vec::new();
    let mut i: usize = 0;
    let ghost whole = split_seq(v@, sep@);
    proof {
        lemma_split_nonempty(v@, sep@);
        assert(v@.skip(0) =~= v@);
        assert(prefix_first(cur@, split_seq(v@.skip(0), sep@)) =~= split_seq(v@, sep@));
    }
    while i < v.len()
        invariant
            sep@.len() > 0,
            i <= v.len(),
            whole == split_seq(v@, sep@),
            split_seq(v@.skip(i as int), sep@).len() >= 1,
            parts@.map_values(|p: Vec<char>| p@) + prefix_first(cur@, split_seq(v@.skip(i as int), sep@))
                == whole,
        decreases v.len() - i,
    {
        let ghost rest = v@.skip(i as int);
        if matches_at_exec(v, sep, i) {
            proof {
                assert(rest.take(sep@.len() as int) =~= v@.subrange(i as int, i + sep@.len()));
                assert(rest.skip(sep@.len() as int) =~= v@.skip(i + sep@.len()));
                lemma_split_nonempty(v@.skip(i + sep@.len()), sep@);
            }
            let ghost old_parts = parts@.map_values(|p: Vec<char>| p@);
            parts.push(cur);
            cur = Vec::new();
            i = i + sep.len();
            proof {
                let r = split_seq(v@.skip(i as int), sep@);
                assert(parts@.map_values(|p: Vec<char>| p@) =~= old_parts.push(parts@.last()@));
                assert(prefix_first(cur@, r) =~= r.update(0, r[0]));
                assert(parts@.map_values(|p: Vec<char>| p@) + prefix_first(cur@, r) =~= whole);
            }
        } else {
            let ghost old_cur = cur@;
            let ghost r = split_seq(v@.skip(i + 1), sep@);
            proof {
                assert(rest.drop_first() =~= v@.skip(i + 1));
                lemma_split_nonempty(v@.skip(i + 1), sep@);
                assert(rest[0] == v@[i as int]);
                if rest.len() >= sep@.len() {
                    assert(rest.take(sep@.len() as int) =~= v@.subrange(i as int, i + sep@.len()));
                    assert(split_seq(rest, sep@) == r.update(0, seq![rest[0]] + r[0]));
                    assert(old_cur + (seq![rest[0]] + r[0]) =~= old_cur.push(v@[i as int]) + r[0]);
                } else {
                    assert(v@.skip(i + 1).len() < sep@.len());
                    assert(split_seq(rest, sep@) == seq![rest]);
                    assert(r == seq![v@.skip(i + 1)]);
                    assert(old_cur + rest =~= old_cur.push(v@[i as int]) + v@.skip(i + 1));
                }
                assert(prefix_first(old_cur, split_seq(rest, sep@)) =~= prefix_first(
                    old_cur.push(v@[i as int]),
                    r,
                ));
            }
            cur.push(v[i]);
            i = i + 1;
        }
    }
    proof {
        assert(v@.skip(i as int) =~= Seq::<char>::empty());
    }
    let ghost before = parts@.map_values(|p: Vec<char>| p@);
    parts.push(cur);
    proof {
        assert(split_seq(Seq::<char>::empty(), sep@) == seq![Seq::<char>::empty()]);
        assert(prefix_first(parts@.last()@, seq![Seq::<char>::empty()]) =~= seq![parts@.last()@]);
        assert(parts@.map_values(|p: Vec<char>| p@) =~= before.push(parts@.last()@));
        assert(parts@.map_values(|p: Vec<char>| p@) =~= whole);
        assert forall|k: int| 0 <= k < parts@.len() implies #[trigger] parts@[k]@ == whole[k] by {
            assert(parts@.map_values(|p: Vec<char>| p@)[k] == parts@[k]@);
        }
    }
    parts
}

} // verus!

verus! {

/// The contents of a list of character vectors.
pub open spec fn views(parts: Seq<Vec<char>>) -> Seq<Seq<char>> {
    parts.map_values(|p: Vec<char>| p@)
}

/// `parts[start..]` joined with `sep`.
pub fn join_from(parts: &Vec<Vec<char>>, start: usize, sep: &[char]) -> (r: Vec<char>)
    requires
        start <= parts@.len(),
    ensures
        r@ == join_seq(views(parts@).skip(start as int), sep@),
{
    let mut r: Vec<char> = Vec::new();
    let mut i: usize = start;
    proof {
        assert(views(parts@).subrange(start as int, start as int) =~= Seq::<Seq<char>>::empty());
    }
    while i < parts.len()
        invariant
            start <= i <= parts@.len(),
            r@ == join_seq(views(parts@).subrange(start as int, i as int), sep@),
        decreases parts.len() - i,
    {
        let ghost prev = views(parts@).subrange(start as int, i as int);
        let ghost next = views(parts@).subrange(start as int, i + 1);
        proof {
            assert(next.drop_last() =~= prev);
            assert(next.last() == parts@[i as int]@);
        }
        if i > start {
            let mut k: usize = 0;
            let ghost r0 = r@;
            while k < sep.len()
                invariant
                    k <= sep@.len(),
                    r@ == r0 + sep@.take(k as int),
                decreases sep.len() - k,
            {
                r.push(sep[k]);
                assert(sep@.take(k + 1) =~= sep@.take(k as int).push(sep@[k as int]));
                k = k + 1;
            }
            assert(sep@.take(sep@.len() as int) =~= sep@);
        }
        let p = &parts[i];
        let mut k: usize = 0;
        let ghost r1 = r@;
        while k < p.len()
            invariant
                k <= p@.len(),
                r@ == r1 + p@.take(k as int),
            decreases p.len() - k,
        {
            r.push(p[k]);
            assert(p@.take(k + 1) =~= p@.take(k as int).push(p@[k as int]));
            k = k + 1;
        }
        proof {
            assert(p@.take(p@.len() as int) =~= p@);
            if i == start {
                assert(next.len() == 1);
                assert(r@ =~= join_seq(next, sep@));
            } else {
                assert(r@ =~= join_seq(prev, sep@) + sep@ + p@);
            }
        }
        i = i + 1;
    }
    assert(views(parts@).subrange(start as int, parts@.len() as int) =~= views(parts@).skip(
        start as int,
    ));
    r
}

} // verus!

verus! {

/// Unicode White_Space (std's `char::is_whitespace`).
pub open spec fn is_ws(c: char) -> bool {
    let v = c as u32;
    (0x9 <= v <= 0xD) || v == 0x20 || v == 0x85 || v == 0xA0 || v == 0x1680 || (0x2000 <= v
        <= 0x200A) || v == 0x2028 || v == 0x2029 || v == 0x202F || v == 0x205F || v == 0x3000
}

/// Whether a character is Unicode white space.
pub fn is_whitespace(c: char) -> (b: bool)
    ensures
        b == is_ws(c),
{
    let v = c as u32;
    (0x9 <= v && v <= 0xD) || v == 0x20 || v == 0x85 || v == 0xA0 || v == 0x1680 || (0x2000 <= v
        && v <= 0x200A) || v == 0x2028 || v == 0x2029 || v == 0x202F || v == 0x205F || v == 0x3000
}

/// `s` without leading white space.
pub open spec fn trim_start_ws(s: Seq<char>) -> Seq<char>
    decreases s.len(),
{
    if s.len() > 0 && is_ws(s[0]) {
        trim_start_ws(s.drop_first())
    } else {
        s
    }
}

/// `s` without trailing white space.
pub open spec fn trim_end_ws(s: Seq<char>) -> Seq<char>
    decreases s.len(),
{
    if s.len() > 0 && is_ws(s.last()) {
        trim_end_ws(s.drop_last())
    } else {
        s
    }
}

/// `s` without leading and trailing white space (std's `str::trim`).
pub open spec fn trim_ws(s: Seq<char>) -> Seq<char> {
    trim_end_ws(trim_start_ws(s))
}

/// The index of the first character of `s[from..]` that is not white space, or `s.len()`.
pub open spec fn skip_ws_from(s: Seq<char>, from: int) -> int
    decreases s.len() - from,
{
    if from < 0 || from >= s.len() {
        s.len() as int
    } else if is_ws(s[from]) {
        skip_ws_from(s, from + 1)
    } else {
        from
    }
}

proof fn lemma_trim_start_skip(s: Seq<char>, from: int)
    requires
        0 <= from <= s.len(),
    ensures
        trim_start_ws(s.skip(from)) == s.skip(skip_ws_from(s, from)),
        from <= skip_ws_from(s, from) <= s.len(),
    decreases s.len() - from,
{
    if from < s.len() && is_ws(s[from]) {
        assert(s.skip(from).drop_first() =~= s.skip(from + 1));
        lemma_trim_start_skip(s, from + 1);
    }
}

/// `v` without leading and trailing white space.
pub fn trim_chars(v: &[char]) -> (r: Vec<char>)
    ensures
        r@ == trim_ws(v@),
{
    let mut lo: usize = 0;
    while lo < v.len() && is_whitespace(v[lo])
        invariant
            lo <= v.len(),
            skip_ws_from(v@, lo as int) == skip_ws_from(v@, 0),
        decreases v.len() - lo,
    {
        lo = lo + 1;
    }
    proof {
        lemma_trim_start_skip(v@, 0);
        assert(v@.skip(0) =~= v@);
        assert(skip_ws_from(v@, lo as int) == lo);
    }
    let ghost t = v@.skip(lo as int);
    let mut hi: usize = v.len();
    assert(t.take(hi - lo) =~= t);
    while hi > lo && is_whitespace(v[hi - 1])
        invariant
            lo <= hi <= v.len(),
            t == v@.skip(lo as int),
            trim_end_ws(t) == trim_end_ws(t.take(hi - lo)),
        decreases hi,
    {
        assert(t.take(hi - lo).drop_last() =~= t.take(hi - 1 - lo));
        hi = hi - 1;
    }
    proof {
        assert(t.take(t.len() as int) =~= t);
        if hi > lo {
            assert(!is_ws(t.take(hi - lo).last()));
        }
    }
    let mut r: Vec<char> = Vec::new();
    let mut i = lo;
    while i < hi
        invariant
            lo <= i <= hi <= v.len(),
            r@ == v@.subrange(lo as int, i as int),
        decreases hi - i,
    {
        r.push(v[i]);
        assert(v@.subrange(lo as int, i + 1) =~= v@.subrange(lo as int, i as int).push(v@[i as int]));
        i = i + 1;
    }
    assert(r@ =~= t.take(hi - lo));
    r
}

} // verus!

verus! {

/// The white-space-separated words of `s` (std's `str::split_whitespace`).
pub open spec fn words(s: Seq<char>) -> Seq<Seq<char>>
    decreases s.len(),
{
    if s.len() == 0 {
        Seq::empty()
    } else if is_ws(s[0]) {
        words(s.drop_first())
    } else {
        let r = words(s.drop_first());
        if s.len() > 1 && !is_ws(s[1]) {
            r.update(0, seq![s[0]] + r[0])
        } else {
            seq![seq![s[0]]] + r
        }
    }
}

/// A text starting with a non-space character has at least one word.
pub proof fn lemma_words_nonempty(s: Seq<char>)
    requires
        s.len() > 0,
        !is_ws(s[0]),
    ensures
        words(s).len() >= 1,
    decreases s.len(),
{
    assert(words(s) == {
        let r = words(s.drop_first());
        if s.len() > 1 && !is_ws(s[1]) {
            r.update(0, seq![s[0]] + r[0])
        } else {
            seq![seq![s[0]]] + r
        }
    });
    if s.len() > 1 && !is_ws(s[1]) {
        lemma_words_nonempty(s.drop_first());
    }
}

/// The words of `rest`, with the word in progress `cur` glued in front.
pub open spec fn glue_word(cur: Seq<char>, rest: Seq<char>) -> Seq<Seq<char>> {
    if cur.len() == 0 {
        words(rest)
    } else if rest.len() > 0 && !is_ws(rest[0]) {
        let r = words(rest);
        r.update(0, cur + r[0])
    } else {
        seq![cur] + words(rest)
    }
}

/// The white-space-separated words of `v`.
pub fn split_words(v: &[char]) -> (ws: Vec<Vec<char>>)
    ensures
        views(ws@) == words(v@),
{
    let mut ws: Vec<Vec<char>> = Vec::new();
    let mut cur: Vec<char> = Vec::new();
    let mut i: usize = 0;
    proof {
        assert(v@.skip(0) =~= v@);
        assert(views(ws@) =~= Seq::<Seq<char>>::empty());
    }
    while i < v.len()
        invariant
            i <= v.len(),
            views(ws@) + glue_word(cur@, v@.skip(i as int)) == words(v@),
        decreases v.len() - i,
    {
        let ghost rest = v@.skip(i as int);
        let ghost nxt = v@.skip(i + 1);
        let ghost old_ws = views(ws@);
        let ghost old_cur = cur@;
        proof {
            assert(rest.drop_first() =~= nxt);
            assert(rest[0] == v@[i as int]);
            if nxt.len() > 0 {
                assert(nxt[0] == rest[1]);
            }
        }
        if is_whitespace(v[i]) {
            if cur.len() > 0 {
                ws.push(cur);
                cur = Vec::new();
                proof {
                    assert(views(ws@) =~= old_ws.push(old_cur));
                    assert(glue_word(old_cur, rest) == seq![old_cur] + words(nxt));
                    assert(views(ws@) + glue_word(cur@, nxt) =~= old_ws + glue_word(old_cur, rest));
                }
            }
        } else {
            cur.push(v[i]);
            proof {
                let x = words(nxt);
                if nxt.len() > 0 && !is_ws(nxt[0]) {
                    lemma_words_nonempty(nxt);
                    assert(words(rest) == x.update(0, seq![rest[0]] + x[0]));
                    if old_cur.len() > 0 {
                        assert(old_cur + (seq![rest[0]] + x[0]) =~= cur@ + x[0]);
                    } else {
                        assert(seq![rest[0]] + x[0] =~= cur@ + x[0]);
                    }
                } else {
                    assert(words(rest) == seq![seq![rest[0]]] + x);
                    if old_cur.len() > 0 {
                        assert(old_cur + seq![rest[0]] =~= cur@);
                        assert(glue_word(old_cur, rest) =~= seq![cur@] + x);
                    } else {
                        assert(seq![rest[0]] =~= cur@);
                    }
                }
                assert(glue_word(old_cur, rest) =~= glue_word(cur@, nxt));
            }
        }
        i = i + 1;
    }
    proof {
        assert(v@.skip(i as int) =~= Seq::<char>::empty());
    }
    if cur.len() > 0 {
        let ghost old_ws = views(ws@);
        let ghost c = cur@;
        ws.push(cur);
        assert(views(ws@) =~= old_ws.push(c));
        assert(views(ws@) =~= old_ws + glue_word(c, Seq::<char>::empty()));
    } else {
        assert(views(ws@) =~= views(ws@) + glue_word(cur@, Seq::<char>::empty()));
    }
    ws
}

/// The lower-case form of a text (std's `str::to_lowercase`, full Unicode case mapping).
pub uninterp spec fn lowercase(s: Seq<char>) -> Seq<char>;

/// Calls std's `str::to_lowercase`; the contract names its result `lowercase`.
#[verifier::external_body]
pub(crate) fn to_lowercase(s: &str) -> (r: String)
    ensures
        r@ == lowercase(s@),
{
    s.to_lowercase()
}

/// Whether a character is alphanumeric (std's `char::is_alphanumeric`: alphabetic or numeric
/// by Unicode).
pub uninterp spec fn char_is_alphanumeric(c: char) -> bool;

/// Calls std's `char::is_alphanumeric`; the contract names its result `char_is_alphanumeric`.
#[verifier::external_body]
pub(crate) fn is_alphanumeric(c: char) -> (b: bool)
    ensures
        b == char_is_alphanumeric(c),
{
    c.is_alphanumeric()
}

/// `s` without leading characters that are not alphanumeric.
pub open spec fn trim_start_non_alnum(s: Seq<char>) -> Seq<char>
    decreases s.len(),
{
    if s.len() > 0 && !char_is_alphanumeric(s[0]) {
        trim_start_non_alnum(s.drop_first())
    } else {
        s
    }
}

/// `s` without trailing characters that are not alphanumeric.
pub open spec fn trim_end_non_alnum(s: Seq<char>) -> Seq<char>
    decreases s.len(),
{
    if s.len() > 0 && !char_is_alphanumeric(s.last()) {
        trim_end_non_alnum(s.drop_last())
    } else {
        s
    }
}

/// `s` with non-alphanumeric characters stripped from both ends
/// (`str::trim_matches(|c| !c.is_alphanumeric())`).
pub open spec fn trim_non_alnum(s: Seq<char>) -> Seq<char> {
    trim_end_non_alnum(trim_start_non_alnum(s))
}

/// `v` with non-alphanumeric characters stripped from both ends.
pub fn trim_non_alnum_chars(v: &[char]) -> (r: Vec<char>)
    ensures
        r@ == trim_non_alnum(v@),
{
    let mut lo: usize = 0;
    let ghost mut t = v@;
    while lo < v.len() && !is_alphanumeric(v[lo])
        invariant
            lo <= v.len(),
            t == v@.skip(lo as int),
            trim_start_non_alnum(v@) == trim_start_non_alnum(t),
        decreases v.len() - lo,
    {
        proof {
            assert(t.drop_first() =~= v@.skip(lo + 1));
            t = v@.skip(lo + 1);
        }
        lo = lo + 1;
    }
    proof {
        assert(v@.skip(0) =~= v@);
    }
    let mut hi: usize = v.len();
    assert(t.take(hi - lo) =~= t);
    while hi > lo && !is_alphanumeric(v[hi - 1])
        invariant
            lo <= hi <= v.len(),
            t == v@.skip(lo as int),
            trim_end_non_alnum(t) == trim_end_non_alnum(t.take(hi - lo)),
        decreases hi,
    {
        assert(t.take(hi - lo).drop_last() =~= t.take(hi - 1 - lo));
        hi = hi - 1;
    }
    let mut r: Vec<char> = Vec::new();
    let mut i = lo;
    while i < hi
        invariant
            lo <= i <= hi <= v.len(),
            r@ == v@.subrange(lo as int, i as int),
        decreases hi - i,
    {
        r.push(v[i]);
        assert(v@.subrange(lo as int, i + 1) =~= v@.subrange(lo as int, i as int).push(v@[i as int]));
        i = i + 1;
    }
    assert(r@ =~= t.take(hi - lo));
    r
}

/// Whether two character vectors hold the same characters.
pub fn chars_eq(a: &[char], b: &[char]) -> (r: bool)
    ensures
        r == (a@ == b@),
{
    if a.len() != b.len() {
        return false;
    }
    let mut i: usize = 0;
    while i < a.len()
        invariant
            a@.len() == b@.len(),
            i <= a@.len(),
            forall|j: int| 0 <= j < i ==> a@[j] == b@[j],
        decreases a.len() - i,
    {
        if a[i] != b[i] {
            return false;
        }
        i = i + 1;
    }
    assert(a@ =~= b@);
    true
}

/// The number of distinct entries of `s`.
pub open spec fn count_distinct(s: Seq<Seq<char>>) -> nat
    decreases s.len(),
{
    if s.len() == 0 {
        0
    } else {
        count_distinct(s.drop_last()) + if s.drop_last().contains(s.last()) {
            0nat
        } else {
            1nat
        }
    }
}

/// The number of bytes the UTF-8 encoding of a character takes.
pub open spec fn utf8_width(c: char) -> nat {
    let v = c as u32;
    if v <= 0x7F {
        1
    } else if v <= 0x7FF {
        2
    } else if v <= 0xFFFF {
        3
    } else {
        4
    }
}

/// The number of bytes the UTF-8 encoding of `s` takes.
pub open spec fn byte_len(s: Seq<char>) -> nat
    decreases s.len(),
{
    if s.len() == 0 {
        0
    } else {
        utf8_width(s[0]) + byte_len(s.drop_first())
    }
}

/// `byte_len` is the length of the UTF-8 encoding.
pub proof fn lemma_byte_len(s: Seq<char>)
    ensures
        vstd::utf8::encode_utf8(s).len() == byte_len(s),
    decreases s.len(),
{
    if s.len() > 0 {
        vstd::utf8::char_is_scalar(s[0]);
        lemma_byte_len(s.drop_first());
    }
}

/// `byte_len` of a sequence extended by one character.
pub proof fn lemma_byte_len_push(s: Seq<char>, c: char)
    ensures
        byte_len(s.push(c)) == byte_len(s) + utf8_width(c),
    decreases s.len(),
{
    assert(s.push(c)[0] == if s.len() == 0 {
        c
    } else {
        s[0]
    });
    if s.len() == 0 {
        assert(s.push(c).drop_first() =~= Seq::<char>::empty());
        assert(byte_len(Seq::<char>::empty()) == 0);
    } else {
        assert(s.push(c).drop_first() =~= s.drop_first().push(c));
        lemma_byte_len_push(s.drop_first(), c);
    }
}

/// The number of bytes of the UTF-8 encoding of `v`.
pub fn utf8_len(v: &[char]) -> (n: u128)
    ensures
        n == byte_len(v@),
{
    let mut n: u128 = 0;
    let mut i: usize = 0;
    while i < v.len()
        invariant
            i <= v@.len(),
            n == byte_len(v@.take(i as int)),
            n <= 4 * i,
        decreases v.len() - i,
    {
        proof {
            lemma_byte_len_push(v@.take(i as int), v@[i as int]);
            assert(v@.take(i + 1) =~= v@.take(i as int).push(v@[i as int]));
        }
        let c = v[i] as u32;
        let w: u128 = if c <= 0x7F {
            1
        } else if c <= 0x7FF {
            2
        } else if c <= 0xFFFF {
            3
        } else {
            4
        };
        n = n + w;
        i = i + 1;
    }
    assert(v@.take(v@.len() as int) =~= v@);
    n
}

/// A prefix takes no more bytes than the whole.
pub proof fn lemma_byte_len_prefix(s: Seq<char>, k: int)
    requires
        0 <= k <= s.len(),
    ensures
        byte_len(s.take(k)) <= byte_len(s),
    decreases s.len() - k,
{
    if k < s.len() {
        lemma_byte_len_prefix(s, k + 1);
        lemma_byte_len_push(s.take(k), s[k]);
        assert(s.take(k + 1) =~= s.take(k).push(s[k]));
    } else {
        assert(s.take(k) =~= s);
    }
}

} // verus!

verus! {

/// A split has at most one more piece than the text has characters, and no piece is longer
/// than the text.
pub proof fn lemma_split_bounds(s: Seq<char>, sep: Seq<char>)
    requires
        sep.len() > 0,
    ensures
        split_seq(s, sep).len() <= s.len() + 1,
        forall|k: int| 0 <= k < split_seq(s, sep).len() ==> #[trigger] split_seq(s, sep)[k].len() <= s.len(),
    decreases s.len(),
{
    if s.len() < sep.len() {
    } else if s.take(sep.len() as int) == sep {
        let rest = s.skip(sep.len() as int);
        lemma_split_bounds(rest, sep);
        let r = split_seq(rest, sep);
        assert forall|k: int| 0 <= k < split_seq(s, sep).len() implies #[trigger] split_seq(s, sep)[k].len() <= s.len() by {
            if k > 0 {
                assert(split_seq(s, sep)[k] == r[k - 1]);
            }
        }
    } else {
        lemma_split_bounds(s.drop_first(), sep);
        lemma_split_nonempty(s.drop_first(), sep);
    }
}

/// Trimming white space never lengthens a text.
pub proof fn lemma_trim_ws_len(s: Seq<char>)
    ensures
        trim_start_ws(s).len() <= s.len(),
        trim_end_ws(s).len() <= s.len(),
        trim_ws(s).len() <= s.len(),
    decreases s.len(),
{
    if s.len() > 0 {
        lemma_trim_ws_len(s.drop_first());
        lemma_trim_ws_len(s.drop_last());
    }
    lemma_trim_ws_len_end(trim_start_ws(s));
}

proof fn lemma_trim_ws_len_end(s: Seq<char>)
    ensures
        trim_end_ws(s).len() <= s.len(),
    decreases s.len(),
{
    if s.len() > 0 {
        lemma_trim_ws_len_end(s.drop_last());
    }
}

/// A text has no more words than characters.
pub proof fn lemma_words_len(s: Seq<char>)
    ensures
        words(s).len() <= s.len(),
    decreases s.len(),
{
    if s.len() > 0 {
        lemma_words_len(s.drop_first());
        if s.len() > 1 && !is_ws(s[1]) {
            lemma_words_nonempty(s.drop_first());
        }
        if !is_ws(s[0]) {
            assert(words(s) == {
                let r = words(s.drop_first());
                if s.len() > 1 && !is_ws(s[1]) {
                    r.update(0, seq![s[0]] + r[0])
                } else {
                    seq![seq![s[0]]] + r
                }
            });
        }
    }
}

/// A list has no more distinct entries than entries.
pub proof fn lemma_count_distinct_len(s: Seq<Seq<char>>)
    ensures
        count_distinct(s) <= s.len(),
    decreases s.len(),
{
    if s.len() > 0 {
        lemma_count_distinct_len(s.drop_last());
    }
}

/// A text of `n` characters takes at most `4 n` bytes.
pub proof fn lemma_byte_len_bound(s: Seq<char>)
    ensures
        byte_len(s) <= 4 * s.len(),
    decreases s.len(),
{
    if s.len() > 0 {
        lemma_byte_len_bound(s.drop_first());
    }
}

} // verus!

verus! {

/// The decimal digits of `n`, most significant first, without leading zeros ("0" for zero).
pub open spec fn decimal(n: nat) -> Seq<char>
    decreases n,
{
    if n < 10 {
        seq![digit_char(n)]
    } else {
        decimal(n / 10).push(digit_char(n % 10))
    }
}

/// The character of a decimal digit.
pub open spec fn digit_char(d: nat) -> char {
    if d == 0 { '0' } else if d == 1 { '1' } else if d == 2 { '2' } else if d == 3 { '3' }
    else if d == 4 { '4' } else if d == 5 { '5' } else if d == 6 { '6' } else if d == 7 { '7' }
    else if d == 8 { '8' } else { '9' }
}

fn digit(d: usize) -> (c: char)
    requires
        d < 10,
    ensures
        c == digit_char(d as nat),
{
    if d == 0 { '0' } else if d == 1 { '1' } else if d == 2 { '2' } else if d == 3 { '3' }
    else if d == 4 { '4' } else if d == 5 { '5' } else if d == 6 { '6' } else if d == 7 { '7' }
    else if d == 8 { '8' } else { '9' }
}

/// Appends the decimal digits of `n` to `out`.
pub fn push_decimal(out: &mut Vec<char>, n: usize)
    ensures
        final(out)@ == old(out)@ + decimal(n as nat),
    decreases n,
{
    if n < 10 {
        out.push(digit(n));
        assert(decimal(n as nat) == seq![digit_char(n as nat)]);
    } else {
        push_decimal(out, n / 10);
        out.push(digit(n % 10));
    }
}

/// Decimal representations have at least one digit, and two or more from ten on.
pub proof fn lemma_decimal_len(n: nat)
    ensures
        decimal(n).len() >= 1,
        n >= 10 ==> decimal(n).len() >= 2,
    decreases n,
{
    if n >= 10 {
        lemma_decimal_len(n / 10);
    }
}

/// Different numbers have different decimal representations.
pub proof fn lemma_decimal_injective(a: nat, b: nat)
    requires
        decimal(a) == decimal(b),
    ensures
        a == b,
    decreases a,
{
    lemma_decimal_len(a);
    lemma_decimal_len(b);
    if a >= 10 && b >= 10 {
        assert(decimal(a).drop_last() =~= decimal(a / 10));
        assert(decimal(b).drop_last() =~= decimal(b / 10));
        assert(decimal(a).last() == digit_char(a % 10));
        assert(decimal(b).last() == digit_char(b % 10));
        lemma_decimal_injective(a / 10, b / 10);
    } else if a < 10 && b < 10 {
        assert(decimal(a)[0] == digit_char(a));
        assert(decimal(b)[0] == digit_char(b));
    }
}

/// Appends the decimal digits of `n` to `out`.
pub fn push_decimal_u64(out: &mut Vec<char>, n: u64)
    ensures
        final(out)@ == old(out)@ + decimal(n as nat),
    decreases n,
{
    if n < 10 {
        out.push(digit(n as usize));
        assert(decimal(n as nat) == seq![digit_char(n as nat)]);
    } else {
        push_decimal_u64(out, n / 10);
        out.push(digit((n % 10) as usize));
    }
}

/// The decimal representation of `n`.
pub fn decimal_string_u64(n: u64) -> (s: String)
    ensures
        s@ == decimal(n as nat),
{
    let mut v: Vec<char> = Vec::new();
    push_decimal_u64(&mut v, n);
    assert(v@ =~= decimal(n as nat));
    string_from_chars(v.as_slice())
}

/// The decimal representation of `n`.
pub fn decimal_string(n: usize) -> (s: String)
    ensures
        s@ == decimal(n as nat),
{
    let mut v: Vec<char> = Vec::new();
    push_decimal(&mut v, n);
    assert(v@ =~= decimal(n as nat));
    string_from_chars(v.as_slice())
}

} // verus!

verus! {

/// Whether some prefix of `s` takes exactly `limit` bytes (the limit falls on a character
/// boundary).
pub open spec fn has_byte_cut(s: Seq<char>, limit: nat) -> bool {
    exists|k: int| 0 <= k <= s.len() && byte_len(s.take(k)) == limit
}

/// The prefix of `s` that takes exactly `limit` bytes.
pub open spec fn byte_cut(s: Seq<char>, limit: nat) -> Seq<char> {
    s.take(choose|k: int| 0 <= k <= s.len() && byte_len(s.take(k)) == limit)
}

/// Longer prefixes take more bytes.
pub proof fn lemma_prefix_strict(s: Seq<char>, a: int, b: int)
    requires
        0 <= a < b <= s.len(),
    ensures
        byte_len(s.take(a)) < byte_len(s.take(b)),
    decreases b - a,
{
    lemma_byte_len_push(s.take(b - 1), s[b - 1]);
    assert(s.take(b) =~= s.take(b - 1).push(s[b - 1]));
    if a < b - 1 {
        lemma_prefix_strict(s, a, b - 1);
    }
}

/// The prefix of `v` that takes exactly `limit` bytes.
pub fn byte_cut_chars(v: &[char], limit: usize) -> (r: Vec<char>)
    requires
        has_byte_cut(v@, limit as nat),
    ensures
        r@ == byte_cut(v@, limit as nat),
{
    let ghost k0 = choose|k: int| 0 <= k <= v@.len() && byte_len(v@.take(k)) == limit;
    let mut k: usize = 0;
    let mut acc: usize = 0;
    let n = v.len();
    let mut out: Vec<char> = Vec::new();
    assert(v@.take(0) =~= Seq::<char>::empty());
    while acc < limit
        invariant
            n == v@.len(),
            0 <= k0 <= v@.len(),
            byte_len(v@.take(k0)) == limit,
            k <= k0,
            acc == byte_len(v@.take(k as int)),
            acc <= limit,
            out@ == v@.take(k as int),
        decreases k0 - k,
    {
        proof {
            if k == k0 {
                assert(false);
            }
            lemma_byte_len_push(v@.take(k as int), v@[k as int]);
            assert(v@.take(k + 1) =~= v@.take(k as int).push(v@[k as int]));
            if k + 1 < k0 {
                lemma_prefix_strict(v@, k + 1, k0);
            }
        }
        let c = v[k] as u32;
        let w: usize = if c <= 0x7F {
            1
        } else if c <= 0x7FF {
            2
        } else if c <= 0xFFFF {
            3
        } else {
            4
        };
        acc = acc + w;
        out.push(v[k]);
        k = k + 1;
    }
    proof {
        if k < k0 {
            lemma_prefix_strict(v@, k as int, k0);
        }
    }
    out
}

/// Appends the characters of `t` to `out`.
pub fn append_chars(out: &mut Vec<char>, t: &[char])
    ensures
        final(out)@ == old(out)@ + t@,
{
    let mut i: usize = 0;
    let ghost start = out@;
    while i < t.len()
        invariant
            i <= t@.len(),
            out@ == start + t@.take(i as int),
        decreases t.len() - i,
    {
        out.push(t[i]);
        assert(t@.take(i + 1) =~= t@.take(i as int).push(t@[i as int]));
        i = i + 1;
    }
    assert(t@.take(t@.len() as int) =~= t@);
}

} // verus!

verus! {

/// `base` joined with the relative path `name`: `name` alone when `base` is empty, otherwise
/// with one separator between them (std's `Path::join` for a relative `name`).
pub open spec fn join_path(base: Seq<char>, name: Seq<char>) -> Seq<char> {
    if base.len() == 0 {
        name
    } else if base.last() == '/' {
        base + name
    } else {
        base + seq!['/'] + name
    }
}

/// Joins the relative path `name` to `base`.
pub fn path_join(base: &str, name: &str) -> (r: String)
    ensures
        r@ == join_path(base@, name@),
{
    let mut out = chars_of(base);
    if out.len() > 0 && out[out.len() - 1] != '/' {
        out.push('/');
    }
    append_chars(&mut out, chars_of(name).as_slice());
    proof {
        if base@.len() > 0 && base@.last() != '/' {
            assert(out@ =~= base@ + seq!['/'] + name@);
        }
    }
    string_from_chars(out.as_slice())
}

/// Whether `s` begins with `p`.
pub open spec fn starts_with(s: Seq<char>, p: Seq<char>) -> bool {
    p.len() <= s.len() && s.take(p.len() as int) == p
}

/// Whether `s` ends with `p`.
pub open spec fn ends_with(s: Seq<char>, p: Seq<char>) -> bool {
    p.len() <= s.len() && s.skip(s.len() - p.len()) == p
}

/// Whether `v` begins with `p`.
pub fn chars_start_with(v: &Vec<char>, p: &str) -> (b: bool)
    ensures
        b == starts_with(v@, p@),
{
    let pv = chars_of(p);
    if pv.len() > v.len() {
        return false;
    }
    let r = matches_at_exec(v.as_slice(), pv.as_slice(), 0);
    assert(v@.subrange(0, pv@.len() as int) =~= v@.take(pv@.len() as int));
    r
}

/// Whether `v` ends with `p`.
pub fn chars_end_with(v: &Vec<char>, p: &str) -> (b: bool)
    ensures
        b == ends_with(v@, p@),
{
    let pv = chars_of(p);
    if pv.len() > v.len() {
        return false;
    }
    let r = matches_at_exec(v.as_slice(), pv.as_slice(), v.len() - pv.len());
    assert(v@.subrange(v@.len() - pv@.len(), v@.len() as int) =~= v@.skip(v@.len() - pv@.len()));
    r
}

/// Whether two texts are equal.
pub fn str_eq(a: &str, b: &str) -> (r: bool)
    ensures
        r == (a@ == b@),
{
    chars_eq(chars_of(a).as_slice(), chars_of(b).as_slice())
}

/// Whether `s` begins with `p`.
pub fn str_starts_with(s: &str, p: &str) -> (b: bool)
    ensures
        b == starts_with(s@, p@),
{
    let v = chars_of(s);
    let w = chars_of(p);
    if w.len() > v.len() {
        return false;
    }
    let r = matches_at_exec(v.as_slice(), w.as_slice(), 0);
    proof {
        assert(v@.subrange(0, w@.len() as int) =~= v@.take(w@.len() as int));
    }
    r
}

/// Whether `s` ends with `p`.
pub fn str_ends_with(s: &str, p: &str) -> (b: bool)
    ensures
        b == ends_with(s@, p@),
{
    let v = chars_of(s);
    let w = chars_of(p);
    if w.len() > v.len() {
        return false;
    }
    let r = matches_at_exec(v.as_slice(), w.as_slice(), v.len() - w.len());
    proof {
        assert(v@.subrange(v@.len() - w@.len(), v@.len() as int) =~= v@.skip(v@.len() - w@.len()));
    }
    r
}

} // verus!

verus! {

/// `s` with every occurrence of the non-empty `pat` replaced by `rep`, scanning from the left
/// without overlaps (std's `str::replace`).
pub open spec fn replace_all(s: Seq<char>, pat: Seq<char>, rep: Seq<char>) -> Seq<char> {
    join_seq(split_seq(s, pat), rep)
}

/// Replaces every occurrence of the non-empty `pat` in `s` by `rep`.
pub fn replace_str(s: &str, pat: &str, rep: &str) -> (r: String)
    requires
        pat@.len() > 0,
    ensures
        r@ == replace_all(s@, pat@, rep@),
{
    let parts = split_chars(chars_of(s).as_slice(), chars_of(pat).as_slice());
    assert(views(parts@) =~= split_seq(s@, pat@));
    let joined = join_from(&parts, 0, chars_of(rep).as_slice());
    assert(views(parts@).skip(0) =~= views(parts@));
    string_from_chars(joined.as_slice())
}

/// `a` followed by `b`.
pub fn concat_str(a: &str, b: &str) -> (r: String)
    ensures
        r@ == a@ + b@,
{
    let mut out = chars_of(a);
    append_chars(&mut out, chars_of(b).as_slice());
    string_from_chars(out.as_slice())
}

/// Owned copies of the given strings, in order.
pub fn owned_list(items: &[&str]) -> (v: Vec<String>)
    ensures
        v@.len() == items@.len(),
        forall|i: int| 0 <= i < items@.len() ==> #[trigger] v@[i]@ == items@[i]@,
{
    let mut v: Vec<String> = Vec::new();
    let mut i: usize = 0;
    while i < items.len()
        invariant
            i <= items@.len(),
            v@.len() == i,
            forall|k: int| 0 <= k < i ==> #[trigger] v@[k]@ == items@[k]@,
        decreases items.len() - i,
    {
        v.push(items[i].to_owned());
        i = i + 1;
    }
    v
}

} // verus!

verus! {

/// Whether `t` occurs in `s`.
pub open spec fn contains_seq(s: Seq<char>, t: Seq<char>) -> bool {
    exists|i: int| matches_at(s, t, i)
}

/// Whether `t` occurs in `v`.
pub fn contains_chars_at_any(v: &[char], t: &[char]) -> (b: bool)
    ensures
        b == contains_seq(v@, t@),
{
    if t.len() > v.len() {
        proof {
            assert forall|i: int| !matches_at(v@, t@, i) by {}
        }
        return false;
    }
    if t.len() == 0 {
        assert(v@.subrange(0, 0) =~= t@);
        assert(matches_at(v@, t@, 0));
        return true;
    }
    let mut i: usize = 0;
    while i <= v.len() - t.len()
        invariant
            0 < t@.len() <= v@.len(),
            i <= v@.len() - t@.len() + 1,
            forall|j: int| 0 <= j < i ==> !matches_at(v@, t@, j),
        decreases v@.len() - t@.len() + 1 - i,
    {
        if matches_at_exec(v, t, i) {
            return true;
        }
        i = i + 1;
    }
    proof {
        assert forall|j: int| !matches_at(v@, t@, j) by {
            if 0 <= j < i {
                assert(!matches_at(v@, t@, j));
            }
        }
    }
    false
}

/// Whether `t` occurs in `s`.
pub fn str_contains(s: &str, t: &str) -> (b: bool)
    ensures
        b == contains_seq(s@, t@),
{
    contains_chars_at_any(chars_of(s).as_slice(), chars_of(t).as_slice())
}

/// `s` without one trailing carriage return.
pub open spec fn strip_cr(s: Seq<char>) -> Seq<char> {
    if s.len() > 0 && s.last() == '\r' {
        s.drop_last()
    } else {
        s
    }
}

/// The lines of a text (std's `str::lines`): split at line feeds, a trailing carriage return
/// dropped from each line, and no final empty line after a trailing line feed.
pub open spec fn lines_of(s: Seq<char>) -> Seq<Seq<char>> {
    let pieces = split_seq(s, seq!['\n']);
    let kept = if pieces.last().len() == 0 {
        pieces.drop_last()
    } else {
        pieces
    };
    kept.map_values(|l: Seq<char>| strip_cr(l))
}

/// The lines of a text (see `lines_of`).
pub fn lines(s: &str) -> (ls: Vec<Vec<char>>)
    ensures
        views(ls@) == lines_of(s@),
{
    let nl = vec!['\n'];
    assert(nl@ =~= seq!['\n']);
    let pieces = split_chars(chars_of(s).as_slice(), nl.as_slice());
    proof {
        lemma_split_nonempty(s@, seq!['\n']);
    }
    let ghost pv = split_seq(s@, seq!['\n']);
    let n = if pieces[pieces.len() - 1].len() == 0 {
        pieces.len() - 1
    } else {
        pieces.len()
    };
    let ghost kept = if pv.last().len() == 0 {
        pv.drop_last()
    } else {
        pv
    };
    assert(kept.len() == n);
    let mut ls: Vec<Vec<char>> = Vec::new();
    let mut i: usize = 0;
    while i < n
        invariant
            i <= n <= pieces@.len(),
            pieces@.len() == pv.len(),
            forall|k: int| 0 <= k < pieces@.len() ==> #[trigger] pieces@[k]@ == pv[k],
            kept.len() == n,
            forall|k: int| 0 <= k < n ==> kept[k] == pv[k],
            ls@.len() == i,
            forall|k: int| 0 <= k < i ==> #[trigger] ls@[k]@ == strip_cr(kept[k]),
        decreases n - i,
    {
        let p = &pieces[i];
        let mut line: Vec<char> = Vec::new();
        let m = if p.len() > 0 && p[p.len() - 1] == '\r' {
            p.len() - 1
        } else {
            p.len()
        };
        let mut j: usize = 0;
        while j < m
            invariant
                j <= m <= p@.len(),
                line@ == p@.take(j as int),
            decreases m - j,
        {
            line.push(p[j]);
            assert(p@.take(j + 1) =~= p@.take(j as int).push(p@[j as int]));
            j = j + 1;
        }
        assert(line@ =~= strip_cr(p@));
        ls.push(line);
        i = i + 1;
    }
    assert(views(ls@) =~= lines_of(s@));
    ls
}


/// `a` comes before `b`, comparing character by character (for UTF-8 text, the order of
/// their bytes).
pub open spec fn text_less(a: Seq<char>, b: Seq<char>) -> bool
    decreases a.len(),
{
    if b.len() == 0 {
        false
    } else if a.len() == 0 {
        true
    } else if a[0] != b[0] {
        (a[0] as int) < (b[0] as int)
    } else {
        text_less(a.drop_first(), b.drop_first())
    }
}

/// Whether `a` comes before `b` (see `text_less`).
pub fn text_less_exec(a: &Vec<char>, b: &Vec<char>) -> (r: bool)
    ensures
        r == text_less(a@, b@),
{
    let mut i: usize = 0;
    assert(a@.skip(0) =~= a@);
    assert(b@.skip(0) =~= b@);
    while i < a.len() && i < b.len() && a[i] == b[i]
        invariant
            i <= a@.len(),
            i <= b@.len(),
            text_less(a@.skip(i as int), b@.skip(i as int)) == text_less(a@, b@),
        decreases a@.len() - i,
    {
        assert(a@.skip(i as int).drop_first() =~= a@.skip(i + 1));
        assert(b@.skip(i as int).drop_first() =~= b@.skip(i + 1));
        i = i + 1;
    }
    if i >= b.len() {
        false
    } else if i >= a.len() {
        true
    } else {
        a[i] < b[i]
    }
}

/// No text comes before itself.
pub proof fn lemma_text_less_irrefl(a: Seq<char>)
    ensures
        !text_less(a, a),
    decreases a.len(),
{
    if a.len() > 0 {
        lemma_text_less_irrefl(a.drop_first());
    }
}

/// Of two texts, at most one comes first.
pub proof fn lemma_text_less_asym(a: Seq<char>, b: Seq<char>)
    ensures
        text_less(a, b) ==> !text_less(b, a),
    decreases a.len(),
{
    if a.len() > 0 && b.len() > 0 && a[0] == b[0] {
        lemma_text_less_asym(a.drop_first(), b.drop_first());
    }
}

/// Coming first is transitive.
pub proof fn lemma_text_less_trans(a: Seq<char>, b: Seq<char>, c: Seq<char>)
    ensures
        text_less(a, b) && text_less(b, c) ==> text_less(a, c),
    decreases a.len(),
{
    if a.len() > 0 && b.len() > 0 && c.len() > 0 && a[0] == b[0] && b[0] == c[0] {
        lemma_text_less_trans(a.drop_first(), b.drop_first(), c.drop_first());
    }
}

/// Of two different texts one comes first.
pub proof fn lemma_text_less_total(a: Seq<char>, b: Seq<char>)
    ensures
        a != b ==> text_less(a, b) || text_less(b, a),
    decreases a.len(),
{
    if a.len() > 0 && b.len() > 0 && a[0] == b[0] {
        lemma_text_less_total(a.drop_first(), b.drop_first());
        if a.drop_first() == b.drop_first() {
            assert(a =~= seq![a[0]] + a.drop_first());
            assert(b =~= seq![b[0]] + b.drop_first());
        }
    } else if a.len() == 0 && b.len() == 0 {
        assert(a =~= b);
    } else if a.len() > 0 && b.len() > 0 {
        assert((a[0] as int) != (b[0] as int));
    }
}

} // verus!
