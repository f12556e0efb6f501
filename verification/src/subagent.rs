//! Subagents: their purpose-hash names (a readable prefix from the purpose and a short hash
//! suffix), their lifecycle states, and what is kept of their output.

use vstd::prelude::*;
use std::hash::Hasher;
use vstd::std_specs::hash::DefaultHasherAdditionalSpecFns;
use crate::text::{
    lowercase, to_lowercase,
    append_chars, byte_cut, byte_cut_chars, byte_len, char_is_alphanumeric, chars_of,
    has_byte_cut, is_alphanumeric, join_from, join_seq, lemma_byte_len, lemma_prefix_strict,
    split_words, string_from_chars, utf8_len, views, words, lemma_byte_len_push, push_str,
    decimal, decimal_string, decimal_string_u64,
};

verus! {

broadcast use vstd::string::group_string_axioms;

#[verifier::external_type_specification]
#[verifier::external_body]
pub struct ExSystemTime(std::time::SystemTime);

/// `SystemTime::now`: the system clock's current time. Nothing is stated of it.
#[verifier::external_body]
fn system_now() -> (t: std::time::SystemTime) {
    std::time::SystemTime::now()
}

/// `SystemTime::duration_since(UNIX_EPOCH)`, its error (a clock set before the epoch) shown as
/// none. Nothing is stated of the duration: it depends on the clock.
#[verifier::external_body]
fn since_unix_epoch(t: &std::time::SystemTime) -> (d: Option<std::time::Duration>) {
    t.duration_since(std::time::UNIX_EPOCH).ok()
}

/// `Duration::as_nanos`: the whole nanoseconds of a duration (not stated: the duration itself
/// comes from the clock).
#[verifier::external_body]
fn duration_nanos(d: &std::time::Duration) -> (n: u128) {
    d.as_nanos()
}

/// `u128::to_ne_bytes`: the number's bytes in the machine's byte order (not stated: the order
/// depends on the machine).
#[verifier::external_body]
fn u128_ne_bytes(n: u128) -> (b: [u8; 16]) {
    n.to_ne_bytes()
}

/// What std's `DefaultHasher` gives after taking in a purpose (its UTF-8 bytes, then 0xff, as
/// `str` hashing does) and then 16 bytes of the clock.
pub open spec fn purpose_clock_hash(purpose: Seq<char>, clock: Seq<u8>) -> u64 {
    <std::collections::hash_map::DefaultHasher as DefaultHasherAdditionalSpecFns>::spec_finish(
        seq![vstd::utf8::encode_utf8(purpose), seq![0xffu8], clock],
    )
}

/// A hash of the purpose mixed with the current time: std's `DefaultHasher` fed the purpose
/// (as `str` hashing does: its bytes, then 0xff) and the nanoseconds since the Unix epoch (0
/// when the clock is set before it). Nothing is stated of the value: it depends on the clock,
/// which is what makes two names for one purpose differ.
fn purpose_time_hash(purpose: &str) -> (h: u64)
    ensures
        exists|clock: Seq<u8>| clock.len() == 16 && h == purpose_clock_hash(purpose@, clock),
{
    let mut hasher = std::collections::hash_map::DefaultHasher::new();
    let pb = purpose.as_bytes();
    assert(pb@ == vstd::utf8::encode_utf8(purpose@));
    hasher.write(pb);
    assert(hasher@ =~= seq![vstd::utf8::encode_utf8(purpose@)]);
    let end: [u8; 1] = [0xffu8];
    let es = end.as_slice();
    assert(es@ =~= seq![0xffu8]);
    hasher.write(es);
    let nanos: u128 = match since_unix_epoch(&system_now()) {
        Some(d) => duration_nanos(&d),
        None => 0,
    };
    let bytes = u128_ne_bytes(nanos);
    let bs = bytes.as_slice();
    assert(bs@.len() == 16);
    hasher.write(bs);
    let h = hasher.finish();
    proof {
        assert(hasher@ =~= seq![vstd::utf8::encode_utf8(purpose@), seq![0xffu8], bs@]);
    }
    h
}

/// The words of `ws` longer than one byte, in order.
pub open spec fn long_words(ws: Seq<Seq<char>>) -> Seq<Seq<char>>
    decreases ws.len(),
{
    if ws.len() == 0 {
        Seq::empty()
    } else if byte_len(ws.last()) > 1 {
        long_words(ws.drop_last()).push(ws.last())
    } else {
        long_words(ws.drop_last())
    }
}

/// The words a name is made from: the first four words of the purpose longer than one byte.
pub open spec fn name_words(purpose: Seq<char>) -> Seq<Seq<char>> {
    let lw = long_words(words(purpose));
    if lw.len() > 4 {
        lw.take(4)
    } else {
        lw
    }
}

/// The alphanumeric characters of `s`, in order.
pub open spec fn alnum_only(s: Seq<char>) -> Seq<char>
    decreases s.len(),
{
    if s.len() == 0 {
        Seq::empty()
    } else if char_is_alphanumeric(s.last()) {
        alnum_only(s.drop_last()).push(s.last())
    } else {
        alnum_only(s.drop_last())
    }
}

/// Each word lower-cased and stripped to its alphanumeric characters.
pub open spec fn name_parts(ws: Seq<Seq<char>>) -> Seq<Seq<char>>
    decreases ws.len(),
{
    if ws.len() == 0 {
        Seq::empty()
    } else {
        name_parts(ws.drop_last()).push(alnum_only(lowercase(ws.last())))
    }
}

/// The readable part of a name before it is cut: "agent" for a purpose without such words,
/// otherwise the name parts joined by hyphens.
pub open spec fn raw_prefix(purpose: Seq<char>) -> Seq<char> {
    if name_words(purpose).len() == 0 {
        "agent"@
    } else {
        join_seq(name_parts(name_words(purpose)), seq!['-'])
    }
}

/// The readable part of a name: the raw prefix, cut to its first 20 bytes when longer.
pub open spec fn name_prefix(purpose: Seq<char>) -> Seq<char> {
    if byte_len(raw_prefix(purpose)) > 20 {
        byte_cut(raw_prefix(purpose), 20)
    } else {
        raw_prefix(purpose)
    }
}

/// The raw prefix can be cut at 20 bytes (it is no longer, or the cut falls between
/// characters).
pub open spec fn prefix_cuttable(purpose: Seq<char>) -> bool {
    byte_len(raw_prefix(purpose)) <= 20 || has_byte_cut(raw_prefix(purpose), 20)
}

/// The lower-case hexadecimal digit of `d`.
pub open spec fn hex_char(d: nat) -> char {
    if d < 10 {
        (('0' as u32) + d) as char
    } else {
        (('a' as u32) + (d - 10)) as char
    }
}

/// `v` as five lower-case hexadecimal digits.
pub open spec fn hex5(v: nat) -> Seq<char> {
    seq![
        hex_char((v / 0x10000) % 16),
        hex_char((v / 0x1000) % 16),
        hex_char((v / 0x100) % 16),
        hex_char((v / 0x10) % 16),
        hex_char(v % 16),
    ]
}

/// The name of a subagent for `purpose` with hash value `h`: the name prefix, a hyphen, and the
/// low 20 bits of `h` as five hexadecimal digits.
pub open spec fn hash_name(purpose: Seq<char>, h: nat) -> Seq<char> {
    name_prefix(purpose) + seq!['-'] + hex5(h % 0x100000)
}

fn hex_digit(d: u64) -> (c: char)
    requires
        d < 16,
    ensures
        c == hex_char(d as nat),
{
    if d < 10 {
        let v: u8 = 48 + d as u8;
        v as char
    } else {
        let v: u8 = 97 + (d - 10) as u8;
        v as char
    }
}

/// The alphanumeric characters of `v`.
fn alnum_chars(v: &[char]) -> (r: Vec<char>)
    ensures
        r@ == alnum_only(v@),
{
    let mut r: Vec<char> = Vec::new();
    let mut i: usize = 0;
    assert(v@.take(0) =~= Seq::<char>::empty());
    while i < v.len()
        invariant
            i <= v@.len(),
            r@ == alnum_only(v@.take(i as int)),
        decreases v.len() - i,
    {
        assert(v@.take(i + 1).drop_last() =~= v@.take(i as int));
        assert(v@.take(i + 1).last() == v@[i as int]);
        if is_alphanumeric(v[i]) {
            r.push(v[i]);
        }
        i = i + 1;
    }
    assert(v@.take(v@.len() as int) =~= v@);
    r
}

/// The raw prefix of a name for `purpose`.
fn raw_prefix_chars(purpose: &str) -> (r: Vec<char>)
    ensures
        r@ == raw_prefix(purpose@),
{
    let ws = split_words(chars_of(purpose).as_slice());
    let ghost all = words(purpose@);
    let mut chosen: Vec<Vec<char>> = Vec::new();
    let mut i: usize = 0;
    assert(all.take(0) =~= Seq::<Seq<char>>::empty());
    assert(views(chosen@) =~= Seq::<Seq<char>>::empty());
    while i < ws.len() && chosen.len() < 4
        invariant
            i <= ws@.len(),
            views(ws@) == all,
            views(chosen@) == long_words(all.take(i as int)),
            chosen@.len() <= 4,
        decreases ws.len() - i,
    {
        let w = &ws[i];
        assert(views(ws@)[i as int] == w@);
        assert(all.take(i + 1).drop_last() =~= all.take(i as int));
        assert(all.take(i + 1).last() == w@);
        if utf8_len(w.as_slice()) > 1 {
            let ghost before = chosen@;
            chosen.push(ws[i].clone());
            assert(views(chosen@) =~= views(before).push(w@));
        }
        i = i + 1;
    }
    proof {
        lemma_long_words_take(all, i as int);
    }
    assert(views(chosen@) == name_words(purpose@));
    if chosen.len() == 0 {
        return chars_of("agent");
    }
    let mut parts: Vec<Vec<char>> = Vec::new();
    let mut k: usize = 0;
    let ghost nw = views(chosen@);
    assert(nw.take(0) =~= Seq::<Seq<char>>::empty());
    assert(views(parts@) =~= Seq::<Seq<char>>::empty());
    while k < chosen.len()
        invariant
            k <= chosen@.len(),
            nw == views(chosen@),
            views(parts@) == name_parts(nw.take(k as int)),
        decreases chosen.len() - k,
    {
        let word = string_from_chars(chosen[k].as_slice());
        let lower = to_lowercase(word.as_str());
        let part = alnum_chars(chars_of(lower.as_str()).as_slice());
        assert(nw.take(k + 1).drop_last() =~= nw.take(k as int));
        assert(nw.take(k + 1).last() == chosen@[k as int]@);
        let ghost before = parts@;
        parts.push(part);
        assert(views(parts@) =~= views(before).push(part@));
        k = k + 1;
    }
    assert(nw.take(nw.len() as int) =~= nw);
    let sep = vec!['-'];
    assert(sep@ =~= seq!['-']);
    let r = join_from(&parts, 0, sep.as_slice());
    assert(views(parts@).skip(0) =~= views(parts@));
    assert(views(parts@) == name_parts(name_words(purpose@)));
    r
}

proof fn lemma_long_words_take(all: Seq<Seq<char>>, i: int)
    requires
        0 <= i <= all.len(),
        long_words(all.take(i)).len() <= 4,
        i < all.len() ==> long_words(all.take(i)).len() == 4,
    ensures
        long_words(all.take(i)) == (if long_words(all).len() > 4 {
            long_words(all).take(4)
        } else {
            long_words(all)
        }),
    decreases all.len() - i,
{
    if i == all.len() {
        assert(all.take(i) =~= all);
    } else {
        lemma_long_words_prefix(all, i);
    }
}

/// Once the first `i` words hold four long words, the first four long words of all the words
/// are those.
proof fn lemma_long_words_prefix(all: Seq<Seq<char>>, i: int)
    requires
        0 <= i <= all.len(),
    ensures
        long_words(all).len() >= long_words(all.take(i)).len(),
        long_words(all).take(long_words(all.take(i)).len() as int) == long_words(all.take(i)),
    decreases all.len() - i,
{
    if i < all.len() {
        lemma_long_words_prefix(all, i + 1);
        let a = long_words(all.take(i));
        let b = long_words(all.take(i + 1));
        assert(all.take(i + 1).drop_last() =~= all.take(i));
        assert(b.take(a.len() as int) =~= a);
        assert(long_words(all).take(a.len() as int) =~= long_words(all).take(b.len() as int).take(
            a.len() as int,
        ));
    } else {
        assert(all.take(i) =~= all);
        assert(long_words(all).take(long_words(all).len() as int) =~= long_words(all));
    }
}

/// Whether some prefix of `v` takes exactly `limit` bytes.
fn has_byte_cut_exec(v: &[char], limit: usize) -> (b: bool)
    ensures
        b == has_byte_cut(v@, limit as nat),
{
    let mut acc: u128 = 0;
    let mut k: usize = 0;
    assert(v@.take(0) =~= Seq::<char>::empty());
    while k < v.len() && acc < limit as u128
        invariant
            k <= v@.len(),
            acc == byte_len(v@.take(k as int)),
            forall|j: int| 0 <= j < k ==> byte_len(#[trigger] v@.take(j)) < limit,
            acc <= 4 * k,
        decreases v.len() - k,
    {
        proof {
            lemma_byte_len_push(v@.take(k as int), v@[k as int]);
            assert(v@.take(k + 1) =~= v@.take(k as int).push(v@[k as int]));
        }
        let c = v[k] as u32;
        let w: u128 = if c <= 0x7F {
            1
        } else if c <= 0x7FF {
            2
        } else if c <= 0xFFFF {
            3
        } else {
            4
        };
        acc = acc + w;
        k = k + 1;
    }
    let found = acc == limit as u128;
    proof {
        if !found {
            if has_byte_cut(v@, limit as nat) {
                let j = choose|j: int| 0 <= j <= v@.len() && byte_len(v@.take(j)) == limit;
                if j < k {
                } else if j == k {
                } else if k < v@.len() {
                    lemma_prefix_strict(v@, k as int, j);
                } else {
                    assert(j <= v@.len());
                }
            }
        }
    }
    found
}

/// The name prefix for `purpose`.
fn name_prefix_chars(purpose: &str) -> (r: Vec<char>)
    requires
        prefix_cuttable(purpose@),
    ensures
        r@ == name_prefix(purpose@),
{
    let raw = raw_prefix_chars(purpose);
    if utf8_len(raw.as_slice()) > 20 {
        byte_cut_chars(raw.as_slice(), 20)
    } else {
        raw
    }
}

/// The name of a subagent for `purpose`, given the hash value `hash`.
pub fn hash_name_with(purpose: &str, hash: u64) -> (r: String)
    requires
        prefix_cuttable(purpose@),
    ensures
        r@ == hash_name(purpose@, hash as nat),
{
    let mut out = name_prefix_chars(purpose);
    out.push('-');
    let v = hash & 0xFFFFF;
    assert(v == hash % 0x100000) by (bit_vector)
        requires
            v == hash & 0xFFFFF,
    ;
    out.push(hex_digit((v / 0x10000) % 16));
    out.push(hex_digit((v / 0x1000) % 16));
    out.push(hex_digit((v / 0x100) % 16));
    out.push(hex_digit((v / 0x10) % 16));
    out.push(hex_digit(v % 16));
    assert(out@ =~= hash_name(purpose@, hash as nat));
    string_from_chars(out.as_slice())
}

/// A purpose-hash name for a subagent (e.g. `fix-slider-css-bug-a3f9b`): the first four words
/// of the purpose longer than one byte, lower-cased, stripped to alphanumeric characters and
/// joined by hyphens ("agent" when there are none), cut to 20 bytes, then a hyphen and five
/// hexadecimal digits of a hash of the purpose and the current time.
pub fn purpose_hash_name(purpose: &str) -> (r: String)
    requires
        prefix_cuttable(purpose@),
    ensures
        exists|clock: Seq<u8>|
            clock.len() == 16 && r@ == hash_name(purpose@, purpose_clock_hash(purpose@, clock) as nat),
{
    let h = purpose_time_hash(purpose);
    hash_name_with(purpose, h)
}

/// A purpose-hash name, or `None` when the 20-byte cut of the prefix would fall inside a
/// character.
pub fn try_purpose_hash_name(purpose: &str) -> (r: Option<String>)
    ensures
        r is None <==> !prefix_cuttable(purpose@),
        r matches Some(n) ==> exists|clock: Seq<u8>|
            clock.len() == 16 && n@ == hash_name(purpose@, purpose_clock_hash(purpose@, clock) as nat),
{
    let raw = raw_prefix_chars(purpose);
    if utf8_len(raw.as_slice()) > 20 && !has_byte_cut_exec(raw.as_slice(), 20) {
        return None;
    }
    Some(purpose_hash_name(purpose))
}

/// The lifecycle state of a subagent.
#[derive(Debug, Clone, Copy, PartialEq, Eq, Structural)]
pub enum SubagentStatus {
    Running,
    Paused,
    Complete,
    Failed,
    Killed,
}

impl SubagentStatus {
    /// The state's name as it is displayed.
    pub fn label(&self) -> (s: &'static str)
        ensures
            *self == SubagentStatus::Running ==> s@ == "running"@,
            *self == SubagentStatus::Paused ==> s@ == "paused"@,
            *self == SubagentStatus::Complete ==> s@ == "complete"@,
            *self == SubagentStatus::Failed ==> s@ == "failed"@,
            *self == SubagentStatus::Killed ==> s@ == "killed"@,
    {
        match self {
            SubagentStatus::Running => "running",
            SubagentStatus::Paused => "paused",
            SubagentStatus::Complete => "complete",
            SubagentStatus::Failed => "failed",
            SubagentStatus::Killed => "killed",
        }
    }

    /// Whether the subagent has ended (completed, failed or killed).
    pub fn is_terminal(&self) -> (b: bool)
        ensures
            b <==> (*self == SubagentStatus::Complete || *self == SubagentStatus::Failed || *self
                == SubagentStatus::Killed),
    {
        match self {
            SubagentStatus::Complete | SubagentStatus::Failed | SubagentStatus::Killed => true,
            _ => false,
        }
    }
}

/// A read-only snapshot of a subagent's state.
#[derive(Debug, Clone)]
pub struct SubagentInfo {
    pub name: String,
    pub purpose: String,
    pub status: SubagentStatus,
    pub tokens: usize,
    pub elapsed_ms: u64,
    pub last_output: String,
    pub children: Vec<String>,
    pub parent: Option<String>,
}

/// What is kept of a finished subagent's output: itself when at most 500 bytes, otherwise its
/// first 497 bytes and "...".
pub open spec fn kept_output(output: Seq<char>) -> Seq<char> {
    if byte_len(output) > 500 {
        byte_cut(output, 497) + "..."@
    } else {
        output
    }
}

/// What is kept of a finished subagent's output (the cut at 497 bytes must fall between
/// characters).
pub fn completion_output(output: &str) -> (r: String)
    requires
        byte_len(output@) <= 500 || has_byte_cut(output@, 497),
    ensures
        r@ == kept_output(output@),
{
    proof {
        lemma_byte_len(output@);
    }
    if output.as_bytes().len() <= 500 {
        return output.to_owned();
    }
    let v = chars_of(output);
    let mut out = byte_cut_chars(v.as_slice(), 497);
    append_chars(&mut out, chars_of("...").as_slice());
    string_from_chars(out.as_slice())
}

/// The output recorded for a failed subagent: "ERROR: " and the error.
pub fn failure_output(error: &str) -> (r: String)
    ensures
        r@ == "ERROR: "@ + error@,
{
    let mut out = chars_of("ERROR: ");
    append_chars(&mut out, chars_of(error).as_slice());
    string_from_chars(out.as_slice())
}

/// A state's displayed name.
pub open spec fn status_text(s: SubagentStatus) -> Seq<char> {
    match s {
        SubagentStatus::Running => "running"@,
        SubagentStatus::Paused => "paused"@,
        SubagentStatus::Complete => "complete"@,
        SubagentStatus::Failed => "failed"@,
        SubagentStatus::Killed => "killed"@,
    }
}

/// The output preview of a snapshot: the output itself when at most 100 bytes, otherwise its
/// first 97 bytes and "...".
pub open spec fn preview_of(output: Seq<char>) -> Seq<char> {
    if byte_len(output) > 100 {
        byte_cut(output, 97) + "..."@
    } else {
        output
    }
}

/// How a snapshot is shown: name, state, purpose, elapsed time and tokens, then the output
/// preview on a line of its own when there is output.
pub open spec fn info_text(
    name: Seq<char>,
    status: SubagentStatus,
    purpose: Seq<char>,
    elapsed_ms: nat,
    tokens: nat,
    last_output: Seq<char>,
) -> Seq<char> {
    let head = name + " ["@ + status_text(status) + "] \u{2014} "@ + purpose + " ("@ + decimal(
        elapsed_ms,
    ) + "ms, ~"@ + decimal(tokens) + "tok)"@;
    if last_output.len() == 0 {
        head
    } else {
        head + "\n  \u{2514}\u{2500} "@ + preview_of(last_output)
    }
}

impl SubagentInfo {
    /// The snapshot as text (the cut at 97 bytes of a long output must fall between
    /// characters).
    pub fn display_text(&self) -> (r: String)
        requires
            byte_len(self.last_output@) <= 100 || has_byte_cut(self.last_output@, 97),
        ensures
            r@ == info_text(
                self.name@,
                self.status,
                self.purpose@,
                self.elapsed_ms as nat,
                self.tokens as nat,
                self.last_output@,
            ),
    {
        let mut r = String::new();
        push_str(&mut r, self.name.as_str());
        push_str(&mut r, " [");
        push_str(&mut r, self.status.label());
        push_str(&mut r, "] \u{2014} ");
        push_str(&mut r, self.purpose.as_str());
        push_str(&mut r, " (");
        push_str(&mut r, decimal_string_u64(self.elapsed_ms).as_str());
        push_str(&mut r, "ms, ~");
        push_str(&mut r, decimal_string(self.tokens).as_str());
        push_str(&mut r, "tok)");
        let v = chars_of(self.last_output.as_str());
        if v.len() > 0 {
            push_str(&mut r, "\n  \u{2514}\u{2500} ");
            proof {
                lemma_byte_len(self.last_output@);
            }
            if self.last_output.as_str().as_bytes().len() > 100 {
                let mut out = byte_cut_chars(v.as_slice(), 97);
                append_chars(&mut out, chars_of("...").as_slice());
                push_str(&mut r, string_from_chars(out.as_slice()).as_str());
            } else {
                push_str(&mut r, self.last_output.as_str());
            }
        }
        r
    }
}

} // verus!
