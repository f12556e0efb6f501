//! Seed selection: when a core compacts, the most information-dense recent paragraphs of its
//! last output, within a token budget, seed its peer.

use vstd::prelude::*;
use crate::text::{
    chars_eq, chars_of, count_distinct, byte_len, join_seq, split_chars, split_seq, split_words,
    string_from_chars, trim_chars, trim_non_alnum, trim_non_alnum_chars, trim_ws, utf8_len,
    views, words, lemma_byte_len_bound, lemma_count_distinct_len, lemma_split_bounds,
    lemma_trim_ws_len, lemma_words_len,
};
use crate::stack::para_sep;

verus! {

/// Blocks trimmed of white space, empty ones dropped.
pub open spec fn nonempty_trimmed(parts: Seq<Seq<char>>) -> Seq<Seq<char>>
    decreases parts.len(),
{
    if parts.len() == 0 {
        Seq::empty()
    } else {
        let r = nonempty_trimmed(parts.drop_last());
        let t = trim_ws(parts.last());
        if t.len() > 0 {
            r.push(t)
        } else {
            r
        }
    }
}

/// The non-empty entries of `s`, in order.
pub open spec fn nonempty_only(s: Seq<Seq<char>>) -> Seq<Seq<char>>
    decreases s.len(),
{
    if s.len() == 0 {
        Seq::empty()
    } else {
        let r = nonempty_only(s.drop_last());
        if s.last().len() > 0 {
            r.push(s.last())
        } else {
            r
        }
    }
}

/// The paragraphs a seed is chosen from: blank-line-separated blocks, trimmed, non-empty.
pub open spec fn seed_paragraphs(text: Seq<char>) -> Seq<Seq<char>> {
    nonempty_trimmed(split_seq(text, para_sep()))
}

/// The number of terms of a paragraph (its words; at least one).
pub open spec fn total_terms(p: Seq<char>) -> nat {
    if words(p).len() == 0 {
        1
    } else {
        words(p).len()
    }
}

/// The number of distinct terms of a paragraph: its words stripped of non-alphanumeric
/// characters at both ends, empty ones dropped.
pub open spec fn unique_terms(p: Seq<char>) -> nat {
    count_distinct(nonempty_only(words(p).map_values(|w: Seq<char>| trim_non_alnum(w))))
}

/// Ten times `n * total_terms` times the score of paragraph `i` of `n`, where the score is
/// 0.7 x density (distinct terms / terms) + 0.3 x recency ((i + 1) / n).
pub open spec fn score_num(paras: Seq<Seq<char>>, i: int) -> int {
    7 * unique_terms(paras[i]) * paras.len() + 3 * (i + 1) * total_terms(paras[i])
}

/// Paragraph `i` is visited before paragraph `j`: its score is higher, or the scores are equal
/// and it comes first.
pub open spec fn ranks_before(paras: Seq<Seq<char>>, i: int, j: int) -> bool {
    let a = score_num(paras, i) * total_terms(paras[j]);
    let b = score_num(paras, j) * total_terms(paras[i]);
    a > b || (a == b && i < j)
}

/// `order` visits every paragraph once, best score first (earlier paragraph first on a tie).
pub open spec fn is_rank_order(paras: Seq<Seq<char>>, order: Seq<int>) -> bool {
    &&& order.len() == paras.len()
    &&& forall|k: int| 0 <= k < order.len() ==> 0 <= #[trigger] order[k] < paras.len()
    &&& forall|a: int, b: int|
        0 <= a < b < order.len() ==> order[a] != order[b] && ranks_before(
            paras,
            #[trigger] order[a],
            #[trigger] order[b],
        )
}

/// The byte lengths of the paragraphs.
pub open spec fn para_lens(paras: Seq<Seq<char>>) -> Seq<nat> {
    paras.map_values(|p: Seq<char>| byte_len(p))
}

/// Greedy selection along `order`: a paragraph is taken when it still fits under `max` bytes.
/// Gives the taken flags (by paragraph index) and the bytes taken.
pub open spec fn greedy(order: Seq<int>, lens: Seq<nat>, max: nat) -> (Seq<bool>, nat)
    decreases order.len(),
{
    if order.len() == 0 {
        (Seq::new(lens.len(), |i: int| false), 0)
    } else {
        let (ch, tot) = greedy(order.drop_last(), lens, max);
        let k = order.last();
        if tot + lens[k] > max {
            (ch, tot)
        } else {
            (ch.update(k, true), tot + lens[k])
        }
    }
}

/// The taken paragraphs, in their original order.
pub open spec fn taken(paras: Seq<Seq<char>>, ch: Seq<bool>) -> Seq<Seq<char>>
    decreases paras.len(),
{
    if paras.len() == 0 {
        Seq::empty()
    } else {
        let r = taken(paras.drop_last(), ch);
        if ch[paras.len() - 1] {
            r.push(paras.last())
        } else {
            r
        }
    }
}

/// The seed chosen from `text` under a budget of `budget_tokens` tokens (four bytes each, with
/// ten percent slack), given the visiting order.
pub open spec fn seed_for_order(text: Seq<char>, budget_tokens: nat, order: Seq<int>) -> Seq<char> {
    let paras = seed_paragraphs(text);
    let budget_chars = budget_tokens * 4;
    let max_chars = budget_chars + budget_chars / 10;
    join_seq(taken(paras, greedy(order, para_lens(paras), max_chars).0), para_sep())
}

/// The seed selected from `text`: the text itself when it has no paragraph; otherwise the
/// greedily taken paragraphs along the rank order, joined by blank lines.
pub open spec fn is_selected_seed(text: Seq<char>, budget_tokens: nat, r: Seq<char>) -> bool {
    if seed_paragraphs(text).len() == 0 {
        r == text
    } else {
        exists|order: Seq<int>|
            is_rank_order(seed_paragraphs(text), order) && r == seed_for_order(
                text,
                budget_tokens,
                order,
            )
    }
}

} // verus!

verus! {

/// The paragraphs of `text`, with bounds on their number and lengths.
fn paragraphs(text: &str) -> (ps: Vec<Vec<char>>)
    ensures
        views(ps@) == seed_paragraphs(text@),
        ps@.len() <= text@.len() + 1,
        forall|k: int| 0 <= k < ps@.len() ==> 0 < #[trigger] ps@[k]@.len() <= text@.len(),
{
    let chars = chars_of(text);
    let sep = vec!['\n', '\n'];
    assert(sep@ =~= para_sep());
    let blocks = split_chars(chars.as_slice(), sep.as_slice());
    proof {
        lemma_split_bounds(text@, para_sep());
        assert(views(blocks@) =~= split_seq(text@, para_sep()));
    }
    let mut ps: Vec<Vec<char>> = Vec::new();
    let mut i: usize = 0;
    proof {
        assert(views(blocks@).take(0) =~= Seq::<Seq<char>>::empty());
        assert(views(ps@) =~= Seq::<Seq<char>>::empty());
    }
    while i < blocks.len()
        invariant
            i <= blocks@.len(),
            views(blocks@) == split_seq(text@, para_sep()),
            blocks@.len() <= text@.len() + 1,
            forall|k: int| 0 <= k < blocks@.len() ==> #[trigger] blocks@[k]@.len() <= text@.len(),
            views(ps@) == nonempty_trimmed(views(blocks@).take(i as int)),
            ps@.len() <= i,
            forall|k: int| 0 <= k < ps@.len() ==> 0 < #[trigger] ps@[k]@.len() <= text@.len(),
        decreases blocks.len() - i,
    {
        let t = trim_chars(blocks[i].as_slice());
        let ghost old_ps = ps@;
        proof {
            lemma_trim_ws_len(blocks@[i as int]@);
            let pre = views(blocks@).take(i + 1);
            assert(pre.drop_last() =~= views(blocks@).take(i as int));
            assert(pre.last() == blocks@[i as int]@);
        }
        if t.len() > 0 {
            ps.push(t);
            proof {
                assert(views(ps@) =~= views(old_ps).push(t@));
            }
        }
        i = i + 1;
    }
    proof {
        assert(views(blocks@).take(blocks@.len() as int) =~= views(blocks@));
    }
    ps
}

/// The number of distinct entries of `v`.
fn count_distinct_exec(v: &Vec<Vec<char>>) -> (n: usize)
    ensures
        n == count_distinct(views(v@)),
{
    let mut n: usize = 0;
    let mut i: usize = 0;
    proof {
        assert(views(v@).take(0) =~= Seq::<Seq<char>>::empty());
    }
    while i < v.len()
        invariant
            i <= v@.len(),
            n == count_distinct(views(v@).take(i as int)),
            n <= i,
        decreases v.len() - i,
    {
        let mut seen = false;
        let mut j: usize = 0;
        while j < i
            invariant
                j <= i,
                i < v@.len(),
                seen <==> exists|k: int| 0 <= k < j && #[trigger] v@[k]@ == v@[i as int]@,
            decreases i - j,
        {
            if chars_eq(v[j].as_slice(), v[i].as_slice()) {
                seen = true;
            }
            j = j + 1;
        }
        proof {
            let prev = views(v@).take(i as int);
            let pre = views(v@).take(i + 1);
            assert(pre.drop_last() =~= prev);
            assert(pre.last() == v@[i as int]@);
            if seen {
                let k = choose|k: int| 0 <= k < i && #[trigger] v@[k]@ == v@[i as int]@;
                assert(prev[k] == v@[i as int]@);
            } else {
                if prev.contains(v@[i as int]@) {
                    let k = choose|k: int| 0 <= k < prev.len() && prev[k] == v@[i as int]@;
                    assert(v@[k]@ == v@[i as int]@);
                }
            }
        }
        if !seen {
            n = n + 1;
        }
        i = i + 1;
    }
    proof {
        assert(views(v@).take(v@.len() as int) =~= views(v@));
    }
    n
}

/// The total and distinct term counts of a paragraph.
fn paragraph_terms(p: &Vec<char>) -> (r: (usize, usize))
    ensures
        r.0 == total_terms(p@),
        r.1 == unique_terms(p@),
        r.1 <= r.0,
        p@.len() > 0 ==> r.0 <= p@.len(),
{
    let ws = split_words(p.as_slice());
    proof {
        lemma_words_len(p@);
    }
    let total: usize = if ws.len() == 0 {
        1
    } else {
        ws.len()
    };
    let ghost tw = words(p@).map_values(|w: Seq<char>| trim_non_alnum(w));
    let mut ts: Vec<Vec<char>> = Vec::new();
    let mut k: usize = 0;
    proof {
        assert(tw.take(0) =~= Seq::<Seq<char>>::empty());
        assert(views(ts@) =~= Seq::<Seq<char>>::empty());
    }
    while k < ws.len()
        invariant
            k <= ws@.len(),
            views(ws@) == words(p@),
            tw == words(p@).map_values(|w: Seq<char>| trim_non_alnum(w)),
            views(ts@) == nonempty_only(tw.take(k as int)),
            ts@.len() <= k,
        decreases ws.len() - k,
    {
        let t = trim_non_alnum_chars(ws[k].as_slice());
        let ghost old_ts = ts@;
        proof {
            let pre = tw.take(k + 1);
            assert(pre.drop_last() =~= tw.take(k as int));
            assert(views(ws@)[k as int] == ws@[k as int]@);
            assert(pre.last() == t@);
        }
        if t.len() > 0 {
            ts.push(t);
            proof {
                assert(views(ts@) =~= views(old_ts).push(t@));
            }
        }
        k = k + 1;
    }
    let u = count_distinct_exec(&ts);
    proof {
        lemma_count_distinct_len(views(ts@));
        assert(tw.take(ws@.len() as int) =~= tw);
    }
    (total, u)
}

} // verus!

verus! {

/// Entry `i` goes before entry `j` when `s[i] / t[i]` is larger, or the ratios are equal and
/// `i` comes first (ratios compared by cross-multiplication).
pub open spec fn cross_before(s: Seq<u128>, t: Seq<u128>, i: int, j: int) -> bool {
    let a = s[i] * t[j];
    let b = s[j] * t[i];
    a > b || (a == b && i < j)
}

proof fn lemma_cross_mono(si: int, ti: int, sj: int, tj: int, sk: int, tk: int)
    requires
        ti > 0,
        tj > 0,
        tk > 0,
        si * tj >= sj * ti,
        sj * tk >= sk * tj,
    ensures
        si * tk >= sk * ti,
        (si * tj > sj * ti || sj * tk > sk * tj) ==> si * tk > sk * ti,
{
    assert(si * tj * tk >= sj * ti * tk) by (nonlinear_arith)
        requires
            si * tj >= sj * ti,
            tk > 0,
    ;
    assert(sj * tk * ti >= sk * tj * ti) by (nonlinear_arith)
        requires
            sj * tk >= sk * tj,
            ti > 0,
    ;
    assert(sj * ti * tk == sj * tk * ti) by (nonlinear_arith);
    assert(si * tk >= sk * ti) by (nonlinear_arith)
        requires
            si * tj * tk >= sk * tj * ti,
            tj > 0,
    ;
    if si * tj > sj * ti {
        assert(si * tj * tk > sj * ti * tk) by (nonlinear_arith)
            requires
                si * tj > sj * ti,
                tk > 0,
        ;
        assert(si * tk > sk * ti) by (nonlinear_arith)
            requires
                si * tj * tk > sk * tj * ti,
                tj > 0,
        ;
    }
    if sj * tk > sk * tj {
        assert(sj * tk * ti > sk * tj * ti) by (nonlinear_arith)
            requires
                sj * tk > sk * tj,
                ti > 0,
        ;
        assert(si * tk > sk * ti) by (nonlinear_arith)
            requires
                si * tj * tk > sk * tj * ti,
                tj > 0,
        ;
    }
}

/// `cross_before` is transitive.
proof fn lemma_cross_trans(s: Seq<u128>, t: Seq<u128>, i: int, j: int, k: int)
    requires
        0 <= i < s.len(),
        0 <= j < s.len(),
        0 <= k < s.len(),
        s.len() == t.len(),
        t[i] > 0,
        t[j] > 0,
        t[k] > 0,
        cross_before(s, t, i, j),
        cross_before(s, t, j, k),
    ensures
        cross_before(s, t, i, k),
{
    lemma_cross_mono(s[i] as int, t[i] as int, s[j] as int, t[j] as int, s[k] as int, t[k] as int);
}

/// Entry `i` goes before entry `j` of the lists.
fn goes_before(s: &Vec<u128>, t: &Vec<u128>, i: usize, j: usize) -> (b: bool)
    requires
        s@.len() == t@.len(),
        i < s@.len(),
        j < s@.len(),
        forall|k: int| 0 <= k < s@.len() ==> #[trigger] s@[k] < 0x40_0000_0000_0000_0000_0000,
        forall|k: int| 0 <= k < t@.len() ==> #[trigger] t@[k] < 0x200_0000_0000,
    ensures
        b == cross_before(s@, t@, i as int, j as int),
{
    let si = s[i];
    let sj = s[j];
    let ti = t[i];
    let tj = t[j];
    assert(si * tj < 0x8000_0000_0000_0000_0000_0000_0000_0000) by (nonlinear_arith)
        requires
            si < 0x40_0000_0000_0000_0000_0000,
            tj < 0x200_0000_0000,
    ;
    assert(sj * ti < 0x8000_0000_0000_0000_0000_0000_0000_0000) by (nonlinear_arith)
        requires
            sj < 0x40_0000_0000_0000_0000_0000,
            ti < 0x200_0000_0000,
    ;
    let a = si * tj;
    let b = sj * ti;
    a > b || (a == b && i < j)
}

/// The indices of the lists, best ratio first (earlier index first on a tie).
fn rank_order(s: &Vec<u128>, t: &Vec<u128>) -> (order: Vec<usize>)
    requires
        s@.len() == t@.len(),
        forall|k: int| 0 <= k < s@.len() ==> #[trigger] s@[k] < 0x40_0000_0000_0000_0000_0000,
        forall|k: int| 0 <= k < t@.len() ==> 0 < #[trigger] t@[k] < 0x200_0000_0000,
    ensures
        order@.len() == s@.len(),
        forall|k: int| 0 <= k < order@.len() ==> #[trigger] order@[k] < s@.len(),
        forall|a: int, b: int|
            0 <= a < b < order@.len() ==> order@[a] != order@[b] && cross_before(
                s@,
                t@,
                #[trigger] order@[a] as int,
                #[trigger] order@[b] as int,
            ),
{
    let n = s.len();
    let mut remaining: Vec<usize> = Vec::new();
    let mut i: usize = 0;
    while i < n
        invariant
            i <= n,
            n == s@.len(),
            remaining@.len() == i,
            forall|k: int| 0 <= k < i ==> #[trigger] remaining@[k] == k,
        decreases n - i,
    {
        remaining.push(i);
        i = i + 1;
    }
    let mut order: Vec<usize> = Vec::new();
    while remaining.len() > 0
        invariant
            n == s@.len(),
            s@.len() == t@.len(),
            forall|k: int| 0 <= k < s@.len() ==> #[trigger] s@[k] < 0x40_0000_0000_0000_0000_0000,
            forall|k: int| 0 <= k < t@.len() ==> 0 < #[trigger] t@[k] < 0x200_0000_0000,
            order@.len() + remaining@.len() == n,
            forall|k: int| 0 <= k < order@.len() ==> #[trigger] order@[k] < n,
            forall|k: int| 0 <= k < remaining@.len() ==> #[trigger] remaining@[k] < n,
            forall|a: int, r: int|
                0 <= a < order@.len() && 0 <= r < remaining@.len() ==> #[trigger] order@[a]
                    != #[trigger] remaining@[r] && cross_before(
                    s@,
                    t@,
                    order@[a] as int,
                    remaining@[r] as int,
                ),
            forall|r1: int, r2: int|
                0 <= r1 < r2 < remaining@.len() ==> #[trigger] remaining@[r1]
                    != #[trigger] remaining@[r2],
            forall|a: int, b: int|
                0 <= a < b < order@.len() ==> order@[a] != order@[b] && cross_before(
                    s@,
                    t@,
                    #[trigger] order@[a] as int,
                    #[trigger] order@[b] as int,
                ),
        decreases remaining@.len(),
    {
        let mut best: usize = 0;
        let mut r: usize = 1;
        while r < remaining.len()
            invariant
                n == s@.len(),
                s@.len() == t@.len(),
                forall|k: int| 0 <= k < s@.len() ==> #[trigger] s@[k] < 0x40_0000_0000_0000_0000_0000,
                forall|k: int| 0 <= k < t@.len() ==> 0 < #[trigger] t@[k] < 0x200_0000_0000,
                forall|k: int| 0 <= k < remaining@.len() ==> #[trigger] remaining@[k] < n,
                forall|r1: int, r2: int|
                    0 <= r1 < r2 < remaining@.len() ==> #[trigger] remaining@[r1]
                        != #[trigger] remaining@[r2],
                1 <= r <= remaining@.len(),
                best < r,
                forall|q: int|
                    0 <= q < r && q != best ==> cross_before(
                        s@,
                        t@,
                        remaining@[best as int] as int,
                        #[trigger] remaining@[q] as int,
                    ),
            decreases remaining@.len() - r,
        {
            if goes_before(s, t, remaining[r], remaining[best]) {
                proof {
                    assert forall|q: int| 0 <= q < r + 1 && q != r implies cross_before(
                        s@,
                        t@,
                        remaining@[r as int] as int,
                        #[trigger] remaining@[q] as int,
                    ) by {
                        if q != best {
                            lemma_cross_trans(
                                s@,
                                t@,
                                remaining@[r as int] as int,
                                remaining@[best as int] as int,
                                remaining@[q] as int,
                            );
                        }
                    }
                }
                best = r;
            } else {
                proof {
                    assert(remaining@[r as int] != remaining@[best as int]);
                }
            }
            r = r + 1;
        }
        let x = remaining.remove(best);
        let ghost old_order = order@;
        order.push(x);
        proof {
            assert forall|a: int, b: int| 0 <= a < b < order@.len() implies order@[a] != order@[b]
                && cross_before(s@, t@, #[trigger] order@[a] as int, #[trigger] order@[b] as int) by {
                if b == order@.len() - 1 {
                    assert(order@[b] == x);
                    assert(order@[a] == old_order[a]);
                }
            }
        }
    }
    order
}

} // verus!

verus! {

/// Appends the characters of `p` to `out`.
fn append_chars(out: &mut Vec<char>, p: &Vec<char>)
    ensures
        final(out)@ == old(out)@ + p@,
{
    let mut i: usize = 0;
    let ghost start = out@;
    while i < p.len()
        invariant
            i <= p@.len(),
            out@ == start + p@.take(i as int),
        decreases p.len() - i,
    {
        out.push(p[i]);
        assert(p@.take(i + 1) =~= p@.take(i as int).push(p@[i as int]));
        i = i + 1;
    }
    assert(p@.take(p@.len() as int) =~= p@);
}

/// Selects the seed for the peer core from a core's last output: the paragraphs are ranked by
/// information density (distinct terms over terms, weight 0.7) plus recency (weight 0.3), taken
/// greedily best first while they fit in the budget (four bytes a token, plus ten percent), and
/// joined back in their original order. A text with no paragraph is returned unchanged.
pub fn select_seed_from_response(text: &str, budget_tokens: usize) -> (r: String)
    requires
        text@.len() < 0x100_0000_0000,
        budget_tokens * 4 + budget_tokens * 4 / 10 <= usize::MAX,
    ensures
        is_selected_seed(text@, budget_tokens as nat, r@),
{
    let paras = paragraphs(text);
    if paras.len() == 0 {
        return text.to_owned();
    }
    let n = paras.len();
    let ghost ps = seed_paragraphs(text@);
    let mut sc: Vec<u128> = Vec::new();
    let mut tt: Vec<u128> = Vec::new();
    let mut lens: Vec<u128> = Vec::new();
    let mut i: usize = 0;
    while i < n
        invariant
            i <= n,
            n == paras@.len(),
            views(paras@) == ps,
            ps.len() == n,
            n <= text@.len() + 1,
            text@.len() < 0x100_0000_0000,
            forall|k: int| 0 <= k < paras@.len() ==> 0 < #[trigger] paras@[k]@.len() <= text@.len(),
            sc@.len() == i,
            tt@.len() == i,
            lens@.len() == i,
            forall|k: int| 0 <= k < i ==> #[trigger] sc@[k] == score_num(ps, k),
            forall|k: int| 0 <= k < i ==> #[trigger] tt@[k] == total_terms(ps[k]),
            forall|k: int| 0 <= k < i ==> #[trigger] lens@[k] == byte_len(ps[k]),
            forall|k: int| 0 <= k < i ==> #[trigger] sc@[k] < 0x40_0000_0000_0000_0000_0000,
            forall|k: int| 0 <= k < i ==> 0 < #[trigger] tt@[k] < 0x200_0000_0000,
            forall|k: int| 0 <= k < i ==> #[trigger] lens@[k] <= 0x400_0000_0000,
        decreases n - i,
    {
        let (t, u) = paragraph_terms(&paras[i]);
        proof {
            assert(ps[i as int] == paras@[i as int]@);
            lemma_byte_len_bound(paras@[i as int]@);
        }
        let len = utf8_len(paras[i].as_slice());
        let u128_u = u as u128;
        let u128_t = t as u128;
        let u128_n = n as u128;
        let u128_i = i as u128;
        assert(7 * u128_u * u128_n <= 0x8_0000_0000_0000_0000_0000) by (nonlinear_arith)
            requires
                u128_u <= 0x100_0000_0000,
                u128_n <= 0x100_0000_0001,
        ;
        assert(3 * (u128_i + 1) * u128_t <= 0x4_0000_0000_0000_0000_0000) by (nonlinear_arith)
            requires
                u128_t <= 0x100_0000_0000,
                u128_i + 1 <= 0x100_0000_0001,
        ;
        let score: u128 = 7 * u128_u * u128_n + 3 * (u128_i + 1) * u128_t;
        sc.push(score);
        tt.push(u128_t);
        lens.push(len);
        i = i + 1;
    }
    let order = rank_order(&sc, &tt);
    let ghost ordi = order@.map_values(|k: usize| k as int);
    proof {
        assert forall|a: int, b: int| 0 <= a < b < ordi.len() implies ordi[a] != ordi[b]
            && ranks_before(ps, #[trigger] ordi[a], #[trigger] ordi[b]) by {
            assert(cross_before(sc@, tt@, order@[a] as int, order@[b] as int));
            assert(sc@[order@[a] as int] == score_num(ps, order@[a] as int));
            assert(sc@[order@[b] as int] == score_num(ps, order@[b] as int));
        }
        assert forall|k: int| 0 <= k < ordi.len() implies 0 <= #[trigger] ordi[k] < ps.len() by {
            assert(order@[k] < n);
        }
        assert(is_rank_order(ps, ordi));
    }
    let budget_chars = budget_tokens * 4;
    let max_chars = budget_chars + budget_chars / 10;
    let ghost lens_spec = para_lens(ps);
    let mut chosen: Vec<bool> = Vec::new();
    let mut j: usize = 0;
    while j < n
        invariant
            j <= n,
            chosen@ == Seq::new(j as nat, |k: int| false),
        decreases n - j,
    {
        chosen.push(false);
        assert(chosen@ =~= Seq::new((j + 1) as nat, |k: int| false));
        j = j + 1;
    }
    proof {
        assert(ordi.take(0) =~= Seq::<int>::empty());
        assert(lens_spec.len() == n);
    }
    let mut total: u128 = 0;
    let mut k: usize = 0;
    while k < n
        invariant
            k <= n,
            n == paras@.len(),
            order@.len() == n,
            ordi == order@.map_values(|k: usize| k as int),
            forall|q: int| 0 <= q < order@.len() ==> #[trigger] order@[q] < n,
            lens@.len() == n,
            lens_spec == para_lens(ps),
            ps.len() == n,
            forall|q: int| 0 <= q < n ==> #[trigger] lens@[q] == byte_len(ps[q]),
            forall|q: int| 0 <= q < n ==> #[trigger] lens@[q] <= 0x400_0000_0000,
            chosen@.len() == n,
            chosen@ == greedy(ordi.take(k as int), lens_spec, max_chars as nat).0,
            total == greedy(ordi.take(k as int), lens_spec, max_chars as nat).1,
            total <= max_chars,
        decreases n - k,
    {
        let idx = order[k];
        proof {
            let pre = ordi.take(k + 1);
            assert(pre.drop_last() =~= ordi.take(k as int));
            assert(pre.last() == idx as int);
            assert(lens_spec[idx as int] == lens@[idx as int]);
        }
        if total + lens[idx] > max_chars as u128 {
        } else {
            chosen.set(idx, true);
            total = total + lens[idx];
        }
        k = k + 1;
    }
    proof {
        assert(ordi.take(n as int) =~= ordi);
        assert(ps.take(0) =~= Seq::<Seq<char>>::empty());
    }
    let mut out: Vec<char> = Vec::new();
    let mut cnt: usize = 0;
    let mut i: usize = 0;
    while i < n
        invariant
            i <= n,
            n == paras@.len(),
            views(paras@) == ps,
            chosen@.len() == n,
            out@ == join_seq(taken(ps.take(i as int), chosen@), para_sep()),
            cnt == taken(ps.take(i as int), chosen@).len(),
            cnt <= i,
        decreases n - i,
    {
        let ghost prev = taken(ps.take(i as int), chosen@);
        proof {
            let pre = ps.take(i + 1);
            assert(pre.drop_last() =~= ps.take(i as int));
            assert(pre.last() == paras@[i as int]@);
            assert(pre.len() - 1 == i);
        }
        if chosen[i] {
            if cnt > 0 {
                out.push('\n');
                out.push('\n');
            }
            append_chars(&mut out, &paras[i]);
            proof {
                let next = prev.push(paras@[i as int]@);
                assert(next.drop_last() =~= prev);
                if cnt == 0 {
                    assert(prev.len() == 0);
                    assert(out@ =~= join_seq(next, para_sep()));
                } else {
                    assert(out@ =~= join_seq(next, para_sep()));
                }
            }
            cnt = cnt + 1;
        }
        i = i + 1;
    }
    proof {
        assert(ps.take(n as int) =~= ps);
        assert(seed_paragraphs(text@).len() != 0);
        assert(out@ == seed_for_order(text@, budget_tokens as nat, ordi));
    }
    string_from_chars(out.as_slice())
}

} // verus!
