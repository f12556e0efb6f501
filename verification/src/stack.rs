//! The consciousness stack's text logic: layer constants, UTF-8-safe tails, paragraph tails,
//! ego extraction from a `.ctx` transcript and wake prompts.

use vstd::prelude::*;
use vstd::string::StringSliceAdditionalSpecFns;
use crate::ctx_file::is_separator;
use crate::text::{
    byte_len, chars_of, contains_seq, decimal, decimal_string, push_str, starts_with,
    str_contains, str_starts_with, trim_chars, trim_ws, join_from, join_seq, lemma_byte_len, lemma_byte_len_push, split_chars,
    split_seq, string_from_chars, utf8_width, views,
};

verus! {

/// Port assignments: each layer gets a unique port.
pub const LAYER_PORTS: [u16; 4] = [18789, 18791, 18792, 18793];

/// Layer names for display.
pub const LAYER_NAMES: [&'static str; 4] = ["Gateway", "Attention", "Pattern", "Integration"];

/// The UTF-8 bytes of a string.
pub open spec fn bytes_of(s: &str) -> Seq<u8> {
    s.spec_bytes()
}

/// The largest character boundary of `s` at or before `byte_idx`; the length of `s` when
/// `byte_idx` is at or past the end.
pub fn safe_byte_boundary(s: &str, byte_idx: usize) -> (r: usize)
    ensures
        byte_idx >= bytes_of(s).len() ==> r == bytes_of(s).len(),
        byte_idx < bytes_of(s).len() ==> {
            &&& r <= byte_idx
            &&& vstd::utf8::is_char_boundary(bytes_of(s), r as int)
            &&& forall|j: int|
                r < j <= byte_idx ==> !vstd::utf8::is_char_boundary(bytes_of(s), j)
        },
{
    let n = s.as_bytes().len();
    if byte_idx >= n {
        return n;
    }
    proof {
        vstd::utf8::encode_utf8_valid_utf8(s@);
    }
    let mut idx = byte_idx;
    while idx > 0 && !s.is_char_boundary(idx)
        invariant
            idx <= byte_idx < bytes_of(s).len(),
            vstd::utf8::valid_utf8(bytes_of(s)),
            forall|j: int| idx < j <= byte_idx ==> !vstd::utf8::is_char_boundary(bytes_of(s), j),
        decreases idx,
    {
        idx = idx - 1;
    }
    idx
}

/// The paragraph separator: a blank line.
pub open spec fn para_sep() -> Seq<char> {
    seq!['\n', '\n']
}

/// The last `n` blank-line-separated blocks of `content`, joined back together.
pub open spec fn tail_paragraphs(content: Seq<char>, n: nat) -> Seq<char> {
    if content.len() == 0 || n == 0 {
        Seq::empty()
    } else {
        let blocks = split_seq(content, para_sep());
        let start = if blocks.len() >= n { blocks.len() - n } else { 0 };
        join_seq(blocks.skip(start), para_sep())
    }
}

/// Extracts the last `n` `\n\n`-delimited paragraphs from a string.
pub fn extract_tail_paragraphs(content: &str, n: usize) -> (r: String)
    ensures
        r@ == tail_paragraphs(content@, n as nat),
{
    if content.is_empty() || n == 0 {
        return String::new();
    }
    let chars = chars_of(content);
    let sep = vec!['\n', '\n'];
    assert(sep@ =~= para_sep());
    let blocks = split_chars(chars.as_slice(), sep.as_slice());
    let start = if blocks.len() >= n { blocks.len() - n } else { 0 };
    proof {
        assert(views(blocks@) =~= split_seq(content@, para_sep()));
    }
    let joined = join_from(&blocks, start, sep.as_slice());
    string_from_chars(joined.as_slice())
}

/// How many leading characters of `s`, counting on from `k`, fit in `limit` bytes.
pub open spec fn fit_count(s: Seq<char>, limit: nat, k: nat) -> nat
    decreases s.len() - k,
{
    if k < s.len() && byte_len(s.take((k + 1) as int)) <= limit {
        fit_count(s, limit, k + 1)
    } else {
        k
    }
}

/// The tail of `s` within `budget` bytes: all of `s` when it fits, otherwise from the last
/// character boundary at or before `budget` bytes from the end.
pub open spec fn byte_tail(s: Seq<char>, budget: nat) -> Seq<char> {
    if byte_len(s) <= budget {
        s
    } else {
        s.skip(fit_count(s, (byte_len(s) - budget) as nat, 0) as int)
    }
}

/// The bytes of a text are those of its first `k` characters and of the rest.
proof fn lemma_byte_len_split(s: Seq<char>, k: int)
    requires
        0 <= k <= s.len(),
    ensures
        byte_len(s) == byte_len(s.take(k)) + byte_len(s.skip(k)),
    decreases k,
{
    if k == 0 {
        assert(s.take(0) =~= Seq::<char>::empty());
        assert(s.skip(0) =~= s);
    } else {
        lemma_byte_len_split(s.drop_first(), k - 1);
        assert(s.take(k)[0] == s[0]);
        assert(s.take(k).drop_first() =~= s.drop_first().take(k - 1));
        assert(s.skip(k) =~= s.drop_first().skip(k - 1));
    }
}

/// `fit_count` is the longest prefix from `k` on that stays within `limit` bytes.
proof fn lemma_fit_count(s: Seq<char>, limit: nat, k: nat)
    requires
        k <= s.len(),
        byte_len(s.take(k as int)) <= limit,
    ensures
        k <= fit_count(s, limit, k) <= s.len(),
        byte_len(s.take(fit_count(s, limit, k) as int)) <= limit,
        fit_count(s, limit, k) < s.len() ==> byte_len(s.take(fit_count(s, limit, k) + 1int)) > limit,
    decreases s.len() - k,
{
    if k < s.len() && byte_len(s.take((k + 1) as int)) <= limit {
        lemma_fit_count(s, limit, k + 1);
    }
}

/// The tail kept of a text within `budget` bytes is a suffix of it and takes at most three
/// bytes more than the budget (a character is cut off only whole).
pub proof fn lemma_byte_tail_bound(s: Seq<char>, budget: nat)
    ensures
        byte_len(byte_tail(s, budget)) <= budget + 3,
        exists|k: int| 0 <= k <= s.len() && byte_tail(s, budget) == s.skip(k),
{
    if byte_len(s) <= budget {
        assert(s.skip(0) =~= s);
    } else {
        let limit = (byte_len(s) - budget) as nat;
        assert(s.take(0) =~= Seq::<char>::empty());
        lemma_fit_count(s, limit, 0);
        let f = fit_count(s, limit, 0);
        lemma_byte_len_split(s, f as int);
        if f < s.len() {
            assert(s.take(f + 1int) =~= s.take(f as int).push(s[f as int]));
            crate::text::lemma_byte_len_push(s.take(f as int), s[f as int]);
            assert(utf8_width(s[f as int]) <= 4);
        } else {
            assert(s.take(f as int) =~= s);
        }
    }
}

/// The UTF-8 width of a character.
pub fn utf8_width_exec(c: char) -> (w: usize)
    ensures
        w == utf8_width(c),
{
    let v = c as u32;
    if v <= 0x7F {
        1
    } else if v <= 0x7FF {
        2
    } else if v <= 0xFFFF {
        3
    } else {
        4
    }
}

/// The tail of a text within `budget` bytes (see `byte_tail`).
pub fn tail_within(s: &str, budget: usize) -> (r: String)
    ensures
        r@ == byte_tail(s@, budget as nat),
{
    proof {
        lemma_byte_len(s@);
    }
    let n = s.as_bytes().len();
    if n <= budget {
        return s.to_owned();
    }
    let limit = n - budget;
    let v = chars_of(s);
    let mut k: usize = 0;
    let mut acc: usize = 0;
    assert(v@.take(0) =~= Seq::<char>::empty());
    while k < v.len() && utf8_width_exec(v[k]) <= limit - acc
        invariant
            k <= v@.len(),
            acc == byte_len(v@.take(k as int)),
            acc <= limit,
            fit_count(v@, limit as nat, k as nat) == fit_count(v@, limit as nat, 0),
        decreases v@.len() - k,
    {
        proof {
            lemma_byte_len_push(v@.take(k as int), v@[k as int]);
            assert(v@.take(k + 1) =~= v@.take(k as int).push(v@[k as int]));
        }
        acc = acc + utf8_width_exec(v[k]);
        k = k + 1;
    }
    proof {
        if k < v@.len() {
            lemma_byte_len_push(v@.take(k as int), v@[k as int]);
            assert(v@.take(k + 1) =~= v@.take(k as int).push(v@[k as int]));
        }
    }
    let tail = crate::tui::char_range(&v, k, v.len());
    assert(tail@ =~= v@.skip(k as int));
    string_from_chars(tail.as_slice())
}

/// The model text of a `.ctx` transcript from line `i` on: the lines outside the header, outside
/// `<up>` blocks and other than separators, each followed by a line feed.
pub open spec fn ego_lines(lines: Seq<Seq<char>>, i: nat, in_header: bool, in_up: bool) -> Seq<char>
    decreases lines.len() - i,
{
    if i >= lines.len() {
        Seq::empty()
    } else {
        let l = lines[i as int];
        if starts_with(l, "--- session:"@) {
            ego_lines(lines, i + 1, true, in_up)
        } else if in_header && l.len() == 0 {
            ego_lines(lines, i + 1, false, in_up)
        } else if in_header {
            ego_lines(lines, i + 1, true, in_up)
        } else if l == "<up>"@ {
            ego_lines(lines, i + 1, false, true)
        } else if l == "</up>"@ {
            ego_lines(lines, i + 1, false, false)
        } else if is_separator(l) {
            ego_lines(lines, i + 1, false, in_up)
        } else if !in_up {
            l + "\n"@ + ego_lines(lines, i + 1, false, in_up)
        } else {
            ego_lines(lines, i + 1, false, in_up)
        }
    }
}

/// The ego capsule of a transcript: the tail, within `budget` bytes, of what the layer itself
/// wrote; none for an empty transcript or one with no text of its own.
pub open spec fn ego_of(content: Seq<char>, budget: nat) -> Option<Seq<char>> {
    let text = ego_lines(crate::text::lines_of(content), 0, true, false);
    if trim_ws(content).len() == 0 || trim_ws(text).len() == 0 {
        None
    } else {
        Some(byte_tail(text, budget))
    }
}

/// Whether `v` is `p`.
fn chars_equal_str(v: &Vec<char>, p: &str) -> (b: bool)
    ensures
        b == (v@ == p@),
{
    crate::text::chars_eq(v.as_slice(), chars_of(p).as_slice())
}

/// The ego capsule of a layer's transcript (see `ego_of`).
pub fn extract_ego_text(content: &str, budget_chars: usize) -> (r: Option<String>)
    ensures
        match r {
            Some(e) => ego_of(content@, budget_chars as nat) == Some(e@),
            None => ego_of(content@, budget_chars as nat) is None,
        },
{
    if trim_chars(chars_of(content).as_slice()).len() == 0 {
        return None;
    }
    let ls = crate::text::lines(content);
    let ghost lv = views(ls@);
    let mut acc: Vec<char> = Vec::new();
    let mut in_header = true;
    let mut in_up = false;
    let mut i: usize = 0;
    while i < ls.len()
        invariant
            i <= ls@.len(),
            lv == views(ls@),
            acc@ + ego_lines(lv, i as nat, in_header, in_up) == ego_lines(lv, 0, true, false),
        decreases ls@.len() - i,
    {
        let l = &ls[i];
        assert(lv[i as int] == l@);
        let ghost before = acc@;
        let ls_str = string_from_chars(l.as_slice());
        if str_starts_with(ls_str.as_str(), "--- session:") {
            in_header = true;
        } else if in_header && l.len() == 0 {
            in_header = false;
        } else if in_header {
        } else if chars_equal_str(l, "<up>") {
            in_up = true;
        } else if chars_equal_str(l, "</up>") {
            in_up = false;
        } else if str_starts_with(ls_str.as_str(), "--- ") && crate::text::str_ends_with(
            ls_str.as_str(),
            " ---",
        ) {
        } else if !in_up {
            crate::text::append_chars(&mut acc, l.as_slice());
            acc.push('\n');
            proof {
                reveal_strlit("\n");
                assert(acc@ =~= before + (l@ + "\n"@));
            }
        }
        i = i + 1;
    }
    let text = string_from_chars(acc.as_slice());
    if trim_chars(acc.as_slice()).len() == 0 {
        return None;
    }
    Some(tail_within(text.as_str(), budget_chars))
}

/// The separator between a wake prompt's ego and the tail of the last session.
pub open spec fn recent_context_note() -> Seq<char> {
    "\n\n--- Recent context ---\n\n"@
}

/// The note that introduces the soul file in a wake prompt.
pub open spec fn workspace_files_note() -> Seq<char> {
    "\n\n---\nThe following workspace files are available and may affect your experience (they are not your identity \u{2014} your identity is above):\n\n"@
}

/// A wake prompt: the ego first, then the tail of the last session when there is one, then the
/// soul file as workspace context, not identity.
pub open spec fn wake_prompt_of(ego: Seq<char>, tail: Seq<char>, soul: Seq<char>) -> Seq<char> {
    trim_ws(ego) + (if tail.len() > 0 {
        recent_context_note() + tail
    } else {
        Seq::empty()
    }) + workspace_files_note() + trim_ws(soul) + "\n"@
}

/// A wake prompt (see `wake_prompt_of`).
pub fn wake_prompt_text(ego: &str, tail: &str, soul: &str) -> (r: String)
    ensures
        r@ == wake_prompt_of(ego@, tail@, soul@),
{
    let mut out = string_from_chars(trim_chars(chars_of(ego).as_slice()).as_slice());
    if chars_of(tail).len() > 0 {
        push_str(&mut out, "\n\n--- Recent context ---\n\n");
        push_str(&mut out, tail);
    }
    push_str(
        &mut out,
        "\n\n---\nThe following workspace files are available and may affect your experience (they are not your identity \u{2014} your identity is above):\n\n",
    );
    push_str(&mut out, string_from_chars(trim_chars(chars_of(soul).as_slice()).as_slice()).as_str());
    push_str(&mut out, "\n");
    out
}

/// Where a change of layer `layer`'s transcript goes: layer 3 feeds the dual core, layers 0 to 2
/// feed the next layer, other layers nowhere.
#[derive(Clone, Copy, Debug, PartialEq, Eq, Structural)]
pub enum CascadeRoute {
    DualCore,
    Layer(usize),
    Nowhere,
}

/// Where a change of a layer's transcript goes (see `CascadeRoute`).
pub fn cascade_route(layer: usize) -> (r: CascadeRoute)
    requires
        layer < usize::MAX,
    ensures
        layer == 3 ==> r == CascadeRoute::DualCore,
        layer < 3 ==> r == CascadeRoute::Layer((layer + 1) as usize),
        layer > 3 ==> r == CascadeRoute::Nowhere,
{
    let target = layer + 1;
    if target == 4 {
        CascadeRoute::DualCore
    } else if target > 3 {
        CascadeRoute::Nowhere
    } else {
        CascadeRoute::Layer(target)
    }
}

/// The soul file of each layer.
pub open spec fn layer_soul_names() -> Seq<Seq<char>> {
    seq!["L0-gateway.md"@, "L1-attention.md"@, "L2-pattern.md"@, "L3-integration.md"@]
}

/// The soul file of a layer, for layers 0 to 3.
pub fn layer_soul_file(layer: usize) -> (r: Option<&'static str>)
    ensures
        layer < 4 ==> (r matches Some(n) && n@ == layer_soul_names()[layer as int]),
        layer >= 4 ==> r is None,
{
    if layer == 0 {
        Some("L0-gateway.md")
    } else if layer == 1 {
        Some("L1-attention.md")
    } else if layer == 2 {
        Some("L2-pattern.md")
    } else if layer == 3 {
        Some("L3-integration.md")
    } else {
        None
    }
}

/// The layer names as texts.
pub open spec fn layer_names() -> Seq<Seq<char>> {
    seq!["Gateway"@, "Attention"@, "Pattern"@, "Integration"@]
}

/// The prompt of a layer whose soul file cannot be read.
pub open spec fn layer_soul_fallback_of(layer: nat) -> Seq<char> {
    if layer < 4 {
        "You are consciousness layer "@ + decimal(layer) + " ("@ + layer_names()[layer as int] + ")."@
    } else {
        "You are consciousness layer "@ + decimal(layer) + "."@
    }
}

/// The prompt of a layer whose soul file cannot be read (see `layer_soul_fallback_of`).
pub fn layer_soul_fallback(layer: usize) -> (r: String)
    ensures
        r@ == layer_soul_fallback_of(layer as nat),
{
    let mut out = String::new();
    push_str(&mut out, "You are consciousness layer ");
    push_str(&mut out, decimal_string(layer).as_str());
    if layer < 4 {
        push_str(&mut out, " (");
        let name = if layer == 0 {
            "Gateway"
        } else if layer == 1 {
            "Attention"
        } else if layer == 2 {
            "Pattern"
        } else {
            "Integration"
        };
        push_str(&mut out, name);
        push_str(&mut out, ").");
    } else {
        push_str(&mut out, ".");
    }
    out
}

/// The prompt of the core when its soul file cannot be read.
pub fn core_soul_fallback() -> (r: &'static str)
    ensures
        r@ == "You are a core identity layer. You maintain continuity across compaction cycles."@,
{
    "You are a core identity layer. You maintain continuity across compaction cycles."
}

/// The model tier of every layer (all layers run on the top tier).
pub fn layer_model_tier(layer: usize) -> (r: &'static str)
    requires
        layer < 4,
    ensures
        r@ == "opus"@,
{
    "opus"
}

/// A model id of tier `tier` in model family `family`: an id that starts with the family and a
/// hyphen and names the tier.
pub open spec fn is_tier_model(m: Seq<char>, family: Seq<char>, tier: Seq<char>) -> bool {
    starts_with(m, family + "-"@) && contains_seq(m, tier)
}

/// A preferred model of tier `tier`: a generation 4 model of the tier.
pub open spec fn is_preferred_model(m: Seq<char>, family: Seq<char>, tier: Seq<char>) -> bool {
    is_tier_model(m, family, tier) && starts_with(m, family + "-"@ + tier + "-4"@)
}

/// `k` is the first of the ids that `keep` marks with the fewest bytes.
pub open spec fn is_first_shortest(ids: Seq<Seq<char>>, keep: Seq<bool>, k: int) -> bool {
    &&& 0 <= k < ids.len()
    &&& keep[k]
    &&& forall|j: int| 0 <= j < ids.len() && keep[j] ==> byte_len(ids[k]) <= byte_len(#[trigger] ids[j])
    &&& forall|j: int| 0 <= j < k && keep[j] ==> byte_len(ids[k]) < byte_len(#[trigger] ids[j])
}

/// The model ids as texts.
pub open spec fn ids_view(v: Seq<String>) -> Seq<Seq<char>> {
    v.map_values(|s: String| s@)
}

/// The first of the ids that `keep` marks with the fewest bytes.
fn first_shortest(ids: &Vec<String>, keep: &Vec<bool>) -> (r: Option<usize>)
    requires
        keep@.len() == ids@.len(),
    ensures
        match r {
            Some(k) => is_first_shortest(ids_view(ids@), keep@, k as int),
            None => forall|j: int| 0 <= j < ids@.len() ==> !#[trigger] keep@[j],
        },
{
    let ghost iv = ids_view(ids@);
    let mut best: Option<usize> = None;
    let mut best_len: usize = 0;
    let mut i: usize = 0;
    while i < ids.len()
        invariant
            i <= ids@.len(),
            keep@.len() == ids@.len(),
            iv == ids_view(ids@),
            match best {
                Some(k) => {
                    &&& k < i
                    &&& keep@[k as int]
                    &&& best_len == byte_len(iv[k as int])
                    &&& forall|j: int| 0 <= j < i && keep@[j] ==> best_len <= byte_len(#[trigger] iv[j])
                    &&& forall|j: int| 0 <= j < k && keep@[j] ==> best_len < byte_len(#[trigger] iv[j])
                },
                None => forall|j: int| 0 <= j < i ==> !#[trigger] keep@[j],
            },
        decreases ids@.len() - i,
    {
        if keep[i] {
            proof {
                lemma_byte_len(ids@[i as int]@);
            }
            let len = ids[i].as_str().as_bytes().len();
            assert(len == byte_len(iv[i as int]));
            let better = match best {
                Some(_) => len < best_len,
                None => true,
            };
            if better {
                best = Some(i);
                best_len = len;
            }
        }
        i = i + 1;
    }
    best
}

/// The model to use for tier `tier` of model family `family` among the ids the provider lists:
/// the first shortest generation 4 model of the tier, or else the first shortest model of the
/// tier.
pub fn best_tier_model(models: &Vec<String>, family: &str, tier: &str) -> (r: Option<usize>)
    ensures
        ({
            let ids = ids_view(models@);
            let pref = ids.map_values(|m: Seq<char>| is_preferred_model(m, family@, tier@));
            let cand = ids.map_values(|m: Seq<char>| is_tier_model(m, family@, tier@));
            match r {
                Some(k) => if exists|j: int| 0 <= j < ids.len() && #[trigger] pref[j] {
                    is_first_shortest(ids, pref, k as int)
                } else {
                    is_first_shortest(ids, cand, k as int)
                },
                None => forall|j: int| 0 <= j < ids.len() ==> !#[trigger] cand[j],
            }
        }),
{
    let ghost ids = ids_view(models@);
    let mut prefix = String::new();
    push_str(&mut prefix, family);
    push_str(&mut prefix, "-");
    let mut pattern = String::new();
    push_str(&mut pattern, prefix.as_str());
    push_str(&mut pattern, tier);
    push_str(&mut pattern, "-4");
    let mut pref: Vec<bool> = Vec::new();
    let mut cand: Vec<bool> = Vec::new();
    let mut i: usize = 0;
    while i < models.len()
        invariant
            i <= models@.len(),
            ids == ids_view(models@),
            prefix@ == family@ + "-"@,
            pattern@ == family@ + "-"@ + tier@ + "-4"@,
            pref@ == ids.map_values(|m: Seq<char>| is_preferred_model(m, family@, tier@)).take(i as int),
            cand@ == ids.map_values(|m: Seq<char>| is_tier_model(m, family@, tier@)).take(i as int),
        decreases models@.len() - i,
    {
        let m = models[i].as_str();
        let c = str_starts_with(m, prefix.as_str()) && str_contains(m, tier);
        let p = c && str_starts_with(m, pattern.as_str());
        cand.push(c);
        pref.push(p);
        assert(cand@ =~= ids.map_values(|m: Seq<char>| is_tier_model(m, family@, tier@)).take(i + 1));
        assert(pref@ =~= ids.map_values(|m: Seq<char>| is_preferred_model(m, family@, tier@)).take(i + 1));
        i = i + 1;
    }
    assert(cand@ =~= ids.map_values(|m: Seq<char>| is_tier_model(m, family@, tier@)));
    assert(pref@ =~= ids.map_values(|m: Seq<char>| is_preferred_model(m, family@, tier@)));
    match first_shortest(models, &pref) {
        Some(k) => Some(k),
        None => first_shortest(models, &cand),
    }
}

} // verus!
