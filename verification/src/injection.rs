//! Injections: lower layers and cores leave short insights for the gateway, which takes them in
//! before its next model call when they correlate with what it is doing.

use vstd::prelude::*;
use crate::text::{
    append_chars, byte_len, chars_of, ends_with, join_path, join_seq, path_join, starts_with,
    str_ends_with, str_starts_with, string_from_chars, trim_chars, trim_non_alnum,
    trim_non_alnum_chars, trim_ws, utf8_len, utf8_width, views, words, split_words,
    lemma_byte_len_push, chars_eq,
};

verus! {

broadcast use vstd::string::group_string_axioms;

/// The directory where injection files live.
pub fn injection_dir(workspace: &str) -> (d: String)
    ensures
        d@ == join_path(workspace@, "injections"@),
{
    path_join(workspace, "injections")
}

/// The directory where injection files are moved while they are read.
pub fn in_progress_dir(workspace: &str) -> (d: String)
    ensures
        d@ == join_path(join_path(workspace@, "injections"@), ".in-progress"@),
{
    let dir = injection_dir(workspace);
    path_join(dir.as_str(), ".in-progress")
}

/// The number of leading characters of `s` that fit in `max` bytes.
pub open spec fn fitting_chars(s: Seq<char>, max: nat) -> nat
    decreases s.len(),
{
    if s.len() == 0 {
        0
    } else if utf8_width(s[0]) > max {
        0
    } else {
        1 + fitting_chars(s.drop_first(), (max - utf8_width(s[0])) as nat)
    }
}

/// The text of an injection: the content cut at the last character boundary within
/// `max_chars` bytes when it is longer, then trimmed.
pub open spec fn bounded_injection(content: Seq<char>, max_chars: nat) -> Seq<char> {
    if byte_len(content) > max_chars {
        trim_ws(content.take(fitting_chars(content, max_chars) as int))
    } else {
        trim_ws(content)
    }
}

proof fn lemma_fitting_step(s: Seq<char>, max: nat, k: int, used: nat)
    requires
        0 <= k < s.len(),
        used <= max,
        fitting_chars(s, max) == k + fitting_chars(s.skip(k), (max - used) as nat),
    ensures
        utf8_width(s[k]) <= max - used ==> fitting_chars(s, max) == k + 1 + fitting_chars(
            s.skip(k + 1),
            (max - used - utf8_width(s[k])) as nat,
        ),
        utf8_width(s[k]) > max - used ==> fitting_chars(s, max) == k,
{
    assert(s.skip(k).drop_first() =~= s.skip(k + 1));
    assert(s.skip(k)[0] == s[k]);
}

/// The text of an injection (see `bounded_injection`).
pub fn bound_injection(content: &str, max_chars: usize) -> (r: String)
    ensures
        r@ == bounded_injection(content@, max_chars as nat),
{
    let v = chars_of(content);
    let total = utf8_len(v.as_slice());
    if total <= max_chars as u128 {
        return string_from_chars(trim_chars(v.as_slice()).as_slice());
    }
    let mut k: usize = 0;
    let mut used: usize = 0;
    let mut stop = false;
    assert(v@.skip(0) =~= v@);
    while k < v.len() && !stop
        invariant
            k <= v@.len(),
            used <= max_chars,
            !stop ==> fitting_chars(v@, max_chars as nat) == k + fitting_chars(
                v@.skip(k as int),
                (max_chars - used) as nat,
            ),
            stop ==> fitting_chars(v@, max_chars as nat) == k,
        decreases v.len() - k + if stop { 0int } else { 1int },
    {
        let c = v[k] as u32;
        let w: usize = if c <= 0x7F {
            1
        } else if c <= 0x7FF {
            2
        } else if c <= 0xFFFF {
            3
        } else {
            4
        };
        proof {
            lemma_fitting_step(v@, max_chars as nat, k as int, used as nat);
        }
        if w > max_chars - used {
            stop = true;
        } else {
            used = used + w;
            k = k + 1;
        }
    }
    proof {
        if !stop {
            assert(v@.skip(k as int) =~= Seq::<char>::empty());
        }
    }
    let mut prefix: Vec<char> = Vec::new();
    let mut i: usize = 0;
    while i < k
        invariant
            i <= k <= v@.len(),
            prefix@ == v@.take(i as int),
        decreases k - i,
    {
        prefix.push(v[i]);
        assert(v@.take(i + 1) =~= v@.take(i as int).push(v@[i as int]));
        i = i + 1;
    }
    string_from_chars(trim_chars(prefix.as_slice()).as_slice())
}

/// Whether a file name is that of an injection: `inject-*.txt`.
pub fn is_injection_file_name(name: &str) -> (b: bool)
    ensures
        b == (starts_with(name@, "inject-"@) && ends_with(name@, ".txt"@)),
{
    str_starts_with(name, "inject-") && str_ends_with(name, ".txt")
}

/// The injections taken in by the gateway, framed for its context: nothing when there are
/// none, otherwise a header line, the injections one per line, and a footer line.
pub open spec fn framed_injections(parts: Seq<Seq<char>>) -> Seq<char> {
    if parts.len() == 0 {
        Seq::empty()
    } else {
        "\n--- consciousness injections ---\n"@ + join_seq(parts, seq!['\n'])
            + "\n--- end injections ---\n"@
    }
}

/// Frames the injections read for the gateway (see `framed_injections`).
pub fn frame_injections(parts: &Vec<String>) -> (r: String)
    ensures
        r@ == framed_injections(parts@.map_values(|p: String| p@)),
{
    let ghost pv = parts@.map_values(|p: String| p@);
    if parts.len() == 0 {
        return String::new();
    }
    let mut out = chars_of("\n--- consciousness injections ---\n");
    let ghost head = out@;
    let mut i: usize = 0;
    assert(pv.take(0) =~= Seq::<Seq<char>>::empty());
    while i < parts.len()
        invariant
            i <= parts@.len(),
            pv == parts@.map_values(|p: String| p@),
            out@ == head + join_seq(pv.take(i as int), seq!['\n']),
        decreases parts.len() - i,
    {
        let ghost before = out@;
        if i > 0 {
            out.push('\n');
        }
        append_chars(&mut out, chars_of(parts[i].as_str()).as_slice());
        proof {
            let pre = pv.take(i + 1);
            assert(pre.drop_last() =~= pv.take(i as int));
            assert(pre.last() == parts@[i as int]@);
            if i == 0 {
                assert(pre =~= seq![parts@[0]@]);
                assert(join_seq(pv.take(0), seq!['\n']) =~= Seq::<char>::empty());
                assert(out@ =~= head + join_seq(pre, seq!['\n']));
            } else {
                assert(out@ =~= head + join_seq(pre, seq!['\n']));
            }
        }
        i = i + 1;
    }
    assert(pv.take(parts@.len() as int) =~= pv);
    append_chars(&mut out, chars_of("\n--- end injections ---\n").as_slice());
    string_from_chars(out.as_slice())
}

/// The significant terms of a text: its words longer than three bytes, stripped of
/// non-alphanumeric characters at both ends, non-empty, each kept once (first occurrence).
pub open spec fn significant_terms(text: Seq<char>) -> Seq<Seq<char>> {
    distinct(terms_of(words(text)))
}

/// The stripped, non-empty forms of the words longer than three bytes, in order.
pub open spec fn terms_of(ws: Seq<Seq<char>>) -> Seq<Seq<char>>
    decreases ws.len(),
{
    if ws.len() == 0 {
        Seq::empty()
    } else {
        let r = terms_of(ws.drop_last());
        let t = trim_non_alnum(ws.last());
        if byte_len(ws.last()) > 3 && t.len() > 0 {
            r.push(t)
        } else {
            r
        }
    }
}

/// The entries of `s`, each kept at its first occurrence.
pub open spec fn distinct(s: Seq<Seq<char>>) -> Seq<Seq<char>>
    decreases s.len(),
{
    if s.len() == 0 {
        Seq::empty()
    } else if s.drop_last().contains(s.last()) {
        distinct(s.drop_last())
    } else {
        distinct(s.drop_last()).push(s.last())
    }
}

/// The number of entries of `a` that `b` holds.
pub open spec fn shared_count(a: Seq<Seq<char>>, b: Seq<Seq<char>>) -> nat
    decreases a.len(),
{
    if a.len() == 0 {
        0
    } else {
        shared_count(a.drop_last(), b) + if b.contains(a.last()) {
            1nat
        } else {
            0nat
        }
    }
}

proof fn lemma_push_contains(p: Seq<Seq<char>>, l: Seq<char>, x: Seq<char>)
    ensures
        p.push(l).contains(x) <==> (p.contains(x) || x == l),
{
    let s = p.push(l);
    if s.contains(x) {
        let k = choose|k: int| 0 <= k < s.len() && s[k] == x;
        if k < p.len() {
            assert(p[k] == x);
        }
    }
    if p.contains(x) {
        let k = choose|k: int| 0 <= k < p.len() && p[k] == x;
        assert(s[k] == x);
    }
    if x == l {
        assert(s[p.len() as int] == x);
    }
}

proof fn lemma_distinct_contains(s: Seq<Seq<char>>, x: Seq<char>)
    ensures
        distinct(s).contains(x) == s.contains(x),
    decreases s.len(),
{
    if s.len() > 0 {
        let p = s.drop_last();
        let l = s.last();
        lemma_distinct_contains(p, x);
        assert(s =~= p.push(l));
        lemma_push_contains(p, l, x);
        if !p.contains(l) {
            lemma_push_contains(distinct(p), l, x);
        }
    }
}

/// Whether `v` holds an entry equal to `x`.
fn contains_chars(v: &Vec<Vec<char>>, x: &Vec<char>) -> (b: bool)
    ensures
        b == views(v@).contains(x@),
{
    let mut i: usize = 0;
    while i < v.len()
        invariant
            i <= v@.len(),
            forall|k: int| 0 <= k < i ==> v@[k]@ != x@,
        decreases v.len() - i,
    {
        if chars_eq(v[i].as_slice(), x.as_slice()) {
            assert(views(v@)[i as int] == x@);
            return true;
        }
        i = i + 1;
    }
    proof {
        if views(v@).contains(x@) {
            let k = choose|k: int| 0 <= k < views(v@).len() && views(v@)[k] == x@;
            assert(v@[k]@ == x@);
        }
    }
    false
}

/// The significant terms of a text (see `significant_terms`).
pub fn significant_terms_of(text: &str) -> (ts: Vec<Vec<char>>)
    ensures
        views(ts@) == significant_terms(text@),
{
    let ws = split_words(chars_of(text).as_slice());
    let ghost all = words(text@);
    let mut raw: Vec<Vec<char>> = Vec::new();
    let mut out: Vec<Vec<char>> = Vec::new();
    let mut i: usize = 0;
    assert(all.take(0) =~= Seq::<Seq<char>>::empty());
    assert(views(out@) =~= Seq::<Seq<char>>::empty());
    assert(views(raw@) =~= Seq::<Seq<char>>::empty());
    while i < ws.len()
        invariant
            i <= ws@.len(),
            views(ws@) == all,
            views(raw@) == terms_of(all.take(i as int)),
            views(out@) == distinct(views(raw@)),
        decreases ws.len() - i,
    {
        assert(views(ws@)[i as int] == ws@[i as int]@);
        assert(all.take(i + 1).drop_last() =~= all.take(i as int));
        assert(all.take(i + 1).last() == ws@[i as int]@);
        let t = trim_non_alnum_chars(ws[i].as_slice());
        if utf8_len(ws[i].as_slice()) > 3 && t.len() > 0 {
            let ghost rb = views(raw@);
            let ghost ob = views(out@);
            let seen = contains_chars(&out, &t);
            let t2 = t.clone();
            raw.push(t);
            assert(views(raw@) =~= rb.push(t2@));
            proof {
                lemma_distinct_contains(rb, t2@);
                assert(views(raw@).drop_last() =~= rb);
            }
            if !seen {
                out.push(t2);
                assert(views(out@) =~= ob.push(t2@));
            }
        }
        i = i + 1;
    }
    assert(all.take(ws@.len() as int) =~= all);
    out
}

/// The counts a correlation is computed from: the terms the two texts share, and the terms of
/// either.
pub open spec fn correlation_counts(a: Seq<char>, b: Seq<char>) -> (nat, nat) {
    let ta = significant_terms(a);
    let tb = significant_terms(b);
    let shared = shared_count(ta, tb);
    (shared, (ta.len() + tb.len() - shared) as nat)
}

proof fn lemma_shared_le(a: Seq<Seq<char>>, b: Seq<Seq<char>>)
    ensures
        shared_count(a, b) <= a.len(),
    decreases a.len(),
{
    if a.len() > 0 {
        lemma_shared_le(a.drop_last(), b);
    }
}

/// The term counts of two texts (see `correlation_counts`); the correlation score is their
/// ratio (zero when either text has no significant term).
pub fn term_overlap(a: &str, b: &str) -> (r: (u128, u128))
    ensures
        r.0 == correlation_counts(a@, b@).0,
        r.1 == correlation_counts(a@, b@).1,
        r.0 <= usize::MAX,
        r.1 <= 2 * (usize::MAX as int),
{
    let ta = significant_terms_of(a);
    let tb = significant_terms_of(b);
    let mut shared: usize = 0;
    let mut i: usize = 0;
    let ghost va = views(ta@);
    assert(va.take(0) =~= Seq::<Seq<char>>::empty());
    while i < ta.len()
        invariant
            i <= ta@.len(),
            va == views(ta@),
            shared == shared_count(va.take(i as int), views(tb@)),
            shared <= i,
        decreases ta.len() - i,
    {
        assert(va.take(i + 1).drop_last() =~= va.take(i as int));
        assert(va.take(i + 1).last() == ta@[i as int]@);
        if contains_chars(&tb, &ta[i]) {
            shared = shared + 1;
        }
        i = i + 1;
    }
    assert(va.take(ta@.len() as int) =~= va);
    proof {
        lemma_shared_le(va, views(tb@));
    }
    (shared as u128, (ta.len() - shared) as u128 + tb.len() as u128)
}


/// Whether two texts correlate past a threshold given in thousandths of the correlation score
/// (100 for the default 0.1): the shared terms are more than that share of all terms. A text
/// without significant terms correlates with nothing.
pub open spec fn correlates_spec(a: Seq<char>, b: Seq<char>, threshold_permille: nat) -> bool {
    1000 * correlation_counts(a, b).0 > threshold_permille * correlation_counts(a, b).1
}

/// Whether two texts correlate past the threshold (see `correlates_spec`).
pub fn correlates(a: &str, b: &str, threshold_permille: u32) -> (r: bool)
    ensures
        r == correlates_spec(a@, b@, threshold_permille as nat),
{
    let (shared, union) = term_overlap(a, b);
    let t: u128 = threshold_permille as u128;
    assert(t * union <= 0xffff_ffff * (2 * 0xffff_ffff_ffff_ffffu128)) by (nonlinear_arith)
        requires
            t <= 0xffff_ffff,
            union <= 2 * 0xffff_ffff_ffff_ffffu128,
    ;
    1000 * shared > t * union
}

} // verus!
