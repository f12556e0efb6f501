//! The `.ctx` session file: the text that each step of a session appends, and reading a file
//! back into a session to resume. The format is plain text:
//!
//! ```text
//! --- session: <id> ---
//! started: <ISO 8601>
//! cwd: <path>
//!
//! --- <timestamp> ---
//! [concatenated SOUL.md/AGENTS.md content]
//!
//! --- <timestamp> ---
//! <up>
//! User message here.
//! </up>
//!
//! --- <timestamp> ---
//! Assistant response here.
//! [tool:read] /path/to/file
//! ```
//!
//! Files are written and read elsewhere; this module holds the text.

use vstd::prelude::*;
use crate::text::{
    chars_of, decimal, decimal_string, ends_with, join_from, join_seq, lines, lines_of,
    matches_at, matches_at_exec, push_str, starts_with, string_from_chars, trim_chars, trim_ws,
    views, text_less, chars_start_with, chars_end_with, text_less_exec, lemma_text_less_trans, lemma_text_less_irrefl,
};

verus! {

broadcast use vstd::string::group_string_axioms;

/// A turn separator line for `timestamp`.
pub open spec fn separator(timestamp: Seq<char>) -> Seq<char> {
    "--- "@ + timestamp + " ---\n"@
}

/// One preloaded file in the header's context block: its text, a line feed when it does not end
/// with one, and a blank line between files.
pub open spec fn context_piece(content: Seq<char>, last: bool) -> Seq<char> {
    content + (if ends_with(content, seq!['\n']) {
        Seq::empty()
    } else {
        "\n"@
    }) + (if last {
        Seq::empty()
    } else {
        "\n"@
    })
}

/// The preloaded files `files[k..]` of `n` files, as the context block holds them.
pub open spec fn context_block(files: Seq<Seq<char>>, k: int) -> Seq<char>
    decreases files.len() - k,
{
    if k < 0 || k >= files.len() {
        Seq::empty()
    } else {
        context_piece(files[k], k == files.len() - 1) + context_block(files, k + 1)
    }
}

/// The start of a new `.ctx` file: the session header, then the preloaded context as the first
/// turn when there is any.
pub open spec fn header_text(
    session_id: Seq<char>,
    timestamp: Seq<char>,
    cwd: Option<Seq<char>>,
    files: Seq<Seq<char>>,
) -> Seq<char> {
    "--- session: "@ + session_id + " ---\n"@ + "started: "@ + timestamp + "\n"@ + (match cwd {
        Some(c) => "cwd: "@ + c + "\n"@,
        None => Seq::empty(),
    }) + "\n"@ + (if files.len() == 0 {
        Seq::empty()
    } else {
        separator(timestamp) + context_block(files, 0) + "\n"@
    })
}

/// The texts of a list of strings.
pub open spec fn strings_view(v: Seq<String>) -> Seq<Seq<char>> {
    v.map_values(|s: String| s@)
}

/// Appends one preloaded file to the context block (see `context_piece`).
fn push_context_piece(out: &mut String, content: &str, last: bool)
    ensures
        final(out)@ == old(out)@ + context_piece(content@, last),
{
    push_str(out, content);
    let cv = chars_of(content);
    let ends = cv.len() > 0 && cv[cv.len() - 1] == '\n';
    if !ends {
        push_str(out, "\n");
    }
    if !last {
        push_str(out, "\n");
    }
    proof {
        reveal_strlit("\n");
        if cv@.len() > 0 {
            assert(content@.skip(content@.len() - 1) =~= seq![content@.last()]);
            if content@.last() == '\n' {
                assert(seq![content@.last()] =~= seq!['\n']);
            } else {
                assert(seq![content@.last()][0] != seq!['\n'][0]);
            }
        }
        assert(ends == ends_with(content@, seq!['\n']));
        assert(final(out)@ =~= old(out)@ + context_piece(content@, last));
    }
}

/// The start of a new `.ctx` file (see `header_text`).
pub fn header(session_id: &str, timestamp: &str, cwd: Option<&str>, context_files: &[String]) -> (r:
    String)
    ensures
        r@ == header_text(
            session_id@,
            timestamp@,
            match cwd {
                Some(c) => Some(c@),
                None => None,
            },
            strings_view(context_files@),
        ),
{
    let mut out = String::new();
    push_str(&mut out, "--- session: ");
    push_str(&mut out, session_id);
    push_str(&mut out, " ---\n");
    push_str(&mut out, "started: ");
    push_str(&mut out, timestamp);
    push_str(&mut out, "\n");
    if let Some(c) = cwd {
        push_str(&mut out, "cwd: ");
        push_str(&mut out, c);
        push_str(&mut out, "\n");
    }
    push_str(&mut out, "\n");
    let ghost files = strings_view(context_files@);
    let ghost head = out@;
    if context_files.len() > 0 {
        push_str(&mut out, "--- ");
        push_str(&mut out, timestamp);
        push_str(&mut out, " ---\n");
        let ghost start = out@;
        let n = context_files.len();
        let mut i: usize = 0;
        while i < n
            invariant
                n == context_files@.len(),
                files == strings_view(context_files@),
                i <= n,
                start + context_block(files, 0) == out@ + context_block(files, i as int),
            decreases n - i,
        {
            let ghost before = out@;
            push_context_piece(&mut out, context_files[i].as_str(), i == n - 1);
            proof {
                assert(context_block(files, i as int) == context_piece(files[i as int], i == n - 1)
                    + context_block(files, i + 1));
                assert(before + context_block(files, i as int) =~= out@ + context_block(
                    files,
                    i + 1,
                ));
            }
            i = i + 1;
        }
        push_str(&mut out, "\n");
    }
    out
}

/// A user message block: the separator, then the message between `<up>` and `</up>`.
pub open spec fn user_message_text(timestamp: Seq<char>, content: Seq<char>) -> Seq<char> {
    separator(timestamp) + "<up>\n"@ + content + "\n</up>\n\n"@
}

/// A user message block (see `user_message_text`).
pub fn user_message(timestamp: &str, content: &str) -> (r: String)
    ensures
        r@ == user_message_text(timestamp@, content@),
{
    let mut out = String::new();
    push_str(&mut out, "--- ");
    push_str(&mut out, timestamp);
    push_str(&mut out, " ---\n");
    push_str(&mut out, "<up>\n");
    push_str(&mut out, content);
    push_str(&mut out, "\n</up>\n\n");
    out
}

/// An assistant block: the separator, then the model's text.
pub open spec fn assistant_text_block(timestamp: Seq<char>, content: Seq<char>) -> Seq<char> {
    separator(timestamp) + content + "\n\n"@
}

/// An assistant block (see `assistant_text_block`).
pub fn assistant_text(timestamp: &str, content: &str) -> (r: String)
    ensures
        r@ == assistant_text_block(timestamp@, content@),
{
    let mut out = String::new();
    push_str(&mut out, "--- ");
    push_str(&mut out, timestamp);
    push_str(&mut out, " ---\n");
    push_str(&mut out, content);
    push_str(&mut out, "\n\n");
    out
}

/// A tool call line in the current assistant block.
pub open spec fn tool_call_text(name: Seq<char>, args_summary: Seq<char>) -> Seq<char> {
    "[tool:"@ + name + "] "@ + args_summary + "\n"@
}

/// A tool call line (see `tool_call_text`).
pub fn tool_call(name: &str, args_summary: &str) -> (r: String)
    ensures
        r@ == tool_call_text(name@, args_summary@),
{
    let mut out = String::new();
    push_str(&mut out, "[tool:");
    push_str(&mut out, name);
    push_str(&mut out, "] ");
    push_str(&mut out, args_summary);
    push_str(&mut out, "\n");
    out
}

/// A tool result as the file shows it: over 30 lines, the first 15 and the last 15 with a note
/// of how many were left out between them.
pub open spec fn result_display(content: Seq<char>) -> Seq<char> {
    let ls = lines_of(content);
    if ls.len() > 30 {
        join_seq(ls.take(15), "\n"@) + "\n  ... ("@ + decimal((ls.len() - 30) as nat)
            + " lines omitted)\n"@ + join_seq(ls.skip(ls.len() - 15), "\n"@)
    } else {
        content
    }
}

/// A tool result block: the separator, then `[tool:<name>]`, `error: ` for a failure, and the
/// shown result, trimmed, between `<up>` and `</up>`.
pub open spec fn tool_result_text(
    timestamp: Seq<char>,
    name: Seq<char>,
    content: Seq<char>,
    is_error: bool,
) -> Seq<char> {
    separator(timestamp) + "<up>\n[tool:"@ + name + "] "@ + (if is_error {
        "error: "@
    } else {
        Seq::empty()
    }) + trim_ws(result_display(content)) + "\n</up>\n\n"@
}

/// The parts `parts[a..b]` joined with line feeds.
fn join_range(parts: &Vec<Vec<char>>, a: usize, b: usize) -> (r: Vec<char>)
    requires
        a <= b <= parts@.len(),
    ensures
        r@ == join_seq(views(parts@).subrange(a as int, b as int), "\n"@),
{
    let mut head: Vec<Vec<char>> = Vec::new();
    let mut i: usize = a;
    while i < b
        invariant
            a <= i <= b <= parts@.len(),
            views(head@) == views(parts@).subrange(a as int, i as int),
        decreases b - i,
    {
        let mut part: Vec<char> = Vec::new();
        crate::text::append_chars(&mut part, parts[i].as_slice());
        assert(part@ =~= parts@[i as int]@);
        let ghost before = head@;
        head.push(part);
        assert(views(head@) =~= views(before).push(parts@[i as int]@));
        assert(views(parts@).subrange(a as int, i + 1) =~= views(parts@).subrange(a as int, i as int).push(
            parts@[i as int]@,
        ));
        i = i + 1;
    }
    assert(views(head@).skip(0) =~= views(head@));
    let nl = chars_of("\n");
    join_from(&head, 0, nl.as_slice())
}

/// A tool result block (see `tool_result_text`).
pub fn tool_result(timestamp: &str, name: &str, content: &str, is_error: bool) -> (r: String)
    ensures
        r@ == tool_result_text(timestamp@, name@, content@, is_error),
{
    let ls = lines(content);
    let ghost lv = lines_of(content@);
    let display: Vec<char> = if ls.len() > 30 {
        let n = ls.len();
        let mut d = join_range(&ls, 0, 15);
        let mut note = String::new();
        push_str(&mut note, "\n  ... (");
        let count = decimal_string(n - 30);
        push_str(&mut note, count.as_str());
        push_str(&mut note, " lines omitted)\n");
        crate::text::append_chars(&mut d, chars_of(note.as_str()).as_slice());
        let tail = join_range(&ls, n - 15, n);
        crate::text::append_chars(&mut d, tail.as_slice());
        assert(lv.subrange(0, 15) =~= lv.take(15));
        assert(lv.subrange(n - 15, n as int) =~= lv.skip(lv.len() - 15));
        assert(d@ =~= result_display(content@));
        d
    } else {
        chars_of(content)
    };
    assert(display@ == result_display(content@));
    let shown = trim_chars(display.as_slice());
    let mut out = String::new();
    push_str(&mut out, "--- ");
    push_str(&mut out, timestamp);
    push_str(&mut out, " ---\n");
    push_str(&mut out, "<up>\n[tool:");
    push_str(&mut out, name);
    push_str(&mut out, "] ");
    if is_error {
        push_str(&mut out, "error: ");
    }
    push_str(&mut out, string_from_chars(shown.as_slice()).as_str());
    push_str(&mut out, "\n</up>\n\n");
    out
}

/// A turn separator line: `--- ` at the start and ` ---` at the end.
pub open spec fn is_separator(l: Seq<char>) -> bool {
    starts_with(l, "--- "@) && ends_with(l, " ---"@)
}

/// The session id of a session header line `--- session: <id> ---`.
pub open spec fn header_id(l: Seq<char>) -> Option<Seq<char>> {
    let p = "--- session: "@;
    let rest = l.skip(p.len() as int);
    if starts_with(l, p) && ends_with(rest, " ---"@) {
        Some(rest.take(rest.len() - 4))
    } else {
        None
    }
}

/// Where the reader is: looking for the next header or turn, skipping the header's fields, or
/// inside a turn (a user turn between `<up>` and `</up>`, or an assistant turn), with the turn's
/// lines so far.
pub enum ReadMode {
    Scan,
    Fields,
    Turn { up: bool, acc: Seq<Seq<char>> },
}

/// What has been read so far.
pub struct ReadState {
    pub session_id: Seq<char>,
    pub system_parts: Seq<Seq<char>>,
    /// (is a user turn, text) for each turn after the system context.
    pub turns: Seq<(bool, Seq<char>)>,
    pub first_turn: bool,
}

/// A finished turn: blank turns are dropped; the first turn, when it is not a user turn, is
/// the preloaded system context; the others are messages.
pub open spec fn turn_done(st: ReadState, up: bool, acc: Seq<Seq<char>>) -> ReadState {
    let text = join_seq(acc, "\n"@);
    if trim_ws(text).len() == 0 {
        st
    } else if st.first_turn && !up {
        ReadState { system_parts: st.system_parts.push(text), first_turn: false, ..st }
    } else {
        ReadState { turns: st.turns.push((up, text)), first_turn: false, ..st }
    }
}

/// A measure that each step of reading lowers.
pub open spec fn read_measure(n: nat, i: nat, mode: ReadMode) -> int {
    2 * (n - i) + (if mode is Turn {
        1int
    } else {
        0
    })
}

/// Reading `lines` from line `i` on, in `mode`, having read `st`.
pub open spec fn read_from(lines: Seq<Seq<char>>, i: nat, mode: ReadMode, st: ReadState) -> ReadState
    decreases read_measure(lines.len(), i, mode),
{
    if i >= lines.len() {
        match mode {
            ReadMode::Turn { up, acc } => turn_done(st, up, acc),
            _ => st,
        }
    } else {
        let line = lines[i as int];
        match mode {
            ReadMode::Scan => match header_id(line) {
                Some(id) => read_from(lines, i + 1, ReadMode::Fields, ReadState { session_id: id, ..st }),
                None => if is_separator(line) {
                    if i + 1 >= lines.len() {
                        st
                    } else if lines[(i + 1) as int] == "<up>"@ {
                        read_from(lines, i + 2, ReadMode::Turn { up: true, acc: Seq::empty() }, st)
                    } else {
                        read_from(lines, i + 1, ReadMode::Turn { up: false, acc: Seq::empty() }, st)
                    }
                } else {
                    read_from(lines, i + 1, ReadMode::Scan, st)
                },
            },
            ReadMode::Fields => if line.len() > 0 {
                read_from(lines, i + 1, ReadMode::Fields, st)
            } else {
                read_from(lines, i + 1, ReadMode::Scan, st)
            },
            ReadMode::Turn { up, acc } => if up && line == "</up>"@ {
                read_from(lines, i + 1, ReadMode::Scan, turn_done(st, up, acc))
            } else if !up && is_separator(line) {
                read_from(lines, i, ReadMode::Scan, turn_done(st, up, acc))
            } else if !up && line.len() == 0 && (i + 1 >= lines.len() || starts_with(
                lines[(i + 1) as int],
                "--- "@,
            )) {
                read_from(lines, i + 1, ReadMode::Scan, turn_done(st, up, acc))
            } else {
                read_from(lines, i + 1, ReadMode::Turn { up, acc: acc.push(line) }, st)
            },
        }
    }
}

/// Reading a whole `.ctx` text.
pub open spec fn read_ctx(content: Seq<char>) -> ReadState {
    read_from(
        lines_of(content),
        0,
        ReadMode::Scan,
        ReadState {
            session_id: Seq::empty(),
            system_parts: Seq::empty(),
            turns: Seq::empty(),
            first_turn: true,
        },
    )
}

/// The role of a turn.
pub open spec fn role_of(up: bool) -> Seq<char> {
    if up {
        "user"@
    } else {
        "assistant"@
    }
}

/// A session read back from its `.ctx` file.
pub struct ResumedSession {
    pub session_id: String,
    pub ctx_path: String,
    /// The preloaded context, joined by blank lines; none when the file has none.
    pub system_prompt: Option<String>,
    /// (role, text) of each message in order; the role is `user` or `assistant`.
    pub messages: Vec<(String, String)>,
}

/// The texts of a resumed session's messages.
pub open spec fn messages_view(v: Seq<(String, String)>) -> Seq<(Seq<char>, Seq<char>)> {
    v.map_values(|m: (String, String)| (m.0@, m.1@))
}

/// The messages of what was read.
pub open spec fn read_messages(st: ReadState) -> Seq<(Seq<char>, Seq<char>)> {
    st.turns.map_values(|t: (bool, Seq<char>)| (role_of(t.0), t.1))
}

/// The system prompt of what was read.
pub open spec fn read_system_prompt(st: ReadState) -> Option<Seq<char>> {
    if st.system_parts.len() == 0 {
        None
    } else {
        Some(join_seq(st.system_parts, "\n\n"@))
    }
}


/// Whether `v` is `p`.
fn chars_are(v: &Vec<char>, p: &str) -> (b: bool)
    ensures
        b == (v@ == p@),
{
    let pv = chars_of(p);
    let r = crate::text::chars_eq(v.as_slice(), pv.as_slice());
    r
}

/// Whether a line is a turn separator (see `is_separator`).
fn separator_line(v: &Vec<char>) -> (b: bool)
    ensures
        b == is_separator(v@),
{
    chars_start_with(v, "--- ") && chars_end_with(v, " ---")
}

/// The session id of a header line (see `header_id`).
fn header_line_id(v: &Vec<char>) -> (r: Option<Vec<char>>)
    ensures
        match r {
            Some(id) => header_id(v@) == Some(id@),
            None => header_id(v@) is None,
        },
{
    proof {
        reveal_strlit("--- session: ");
        reveal_strlit(" ---");
    }
    if !chars_start_with(v, "--- session: ") {
        return None;
    }
    let rest = crate::tui::char_range(v, 13, v.len());
    assert(rest@ =~= v@.skip(13));
    if !chars_end_with(&rest, " ---") {
        return None;
    }
    let id = crate::tui::char_range(&rest, 0, rest.len() - 4);
    assert(id@ =~= rest@.take(rest@.len() - 4));
    Some(id)
}

/// What has been read so far, as the reader holds it.
struct Reader {
    session_id: Vec<char>,
    system_parts: Vec<Vec<char>>,
    turns: Vec<(bool, Vec<char>)>,
    first_turn: bool,
}

/// The turns a reader holds.
spec fn turns_view(v: Seq<(bool, Vec<char>)>) -> Seq<(bool, Seq<char>)> {
    v.map_values(|t: (bool, Vec<char>)| (t.0, t.1@))
}

impl Reader {
    spec fn state(&self) -> ReadState {
        ReadState {
            session_id: self.session_id@,
            system_parts: views(self.system_parts@),
            turns: turns_view(self.turns@),
            first_turn: self.first_turn,
        }
    }

    /// Ends a turn (see `turn_done`).
    fn finish_turn(&mut self, up: bool, acc: &Vec<Vec<char>>)
        ensures
            final(self).state() == turn_done(old(self).state(), up, views(acc@)),
    {
        let nl = chars_of("\n");
        let text = join_from(acc, 0, nl.as_slice());
        assert(views(acc@).skip(0) =~= views(acc@));
        if trim_chars(text.as_slice()).len() == 0 {
            return;
        }
        if self.first_turn && !up {
            let ghost before = self.system_parts@;
            self.system_parts.push(text);
            assert(views(self.system_parts@) =~= views(before).push(text@));
        } else {
            let ghost before = self.turns@;
            self.turns.push((up, text));
            assert(turns_view(self.turns@) =~= turns_view(before).push((up, text@)));
        }
        self.first_turn = false;
    }
}

/// The reading mode a reader is in.
spec fn mode_of(kind: u8, up: bool, acc: Seq<Vec<char>>) -> ReadMode {
    if kind == 0 {
        ReadMode::Scan
    } else if kind == 1 {
        ReadMode::Fields
    } else {
        ReadMode::Turn { up, acc: views(acc) }
    }
}

/// A copy of a line.
fn copy_chars(v: &Vec<char>) -> (r: Vec<char>)
    ensures
        r@ == v@,
{
    let mut r: Vec<char> = Vec::new();
    crate::text::append_chars(&mut r, v.as_slice());
    assert(r@ =~= v@);
    r
}

/// Reads the lines of a `.ctx` text (see `read_from`).
fn read_lines(ls: &Vec<Vec<char>>) -> (r: Reader)
    ensures
        r.state() == read_from(
            views(ls@),
            0,
            ReadMode::Scan,
            ReadState {
                session_id: Seq::empty(),
                system_parts: Seq::empty(),
                turns: Seq::empty(),
                first_turn: true,
            },
        ),
{
    let ghost lv = views(ls@);
    let mut rd = Reader {
        session_id: Vec::new(),
        system_parts: Vec::new(),
        turns: Vec::new(),
        first_turn: true,
    };
    assert(rd.session_id@ =~= Seq::<char>::empty());
    assert(views(rd.system_parts@) =~= Seq::<Seq<char>>::empty());
    assert(turns_view(rd.turns@) =~= Seq::<(bool, Seq<char>)>::empty());
    let ghost goal = read_from(lv, 0, ReadMode::Scan, rd.state());
    let n = ls.len();
    let mut i: usize = 0;
    let mut kind: u8 = 0;
    let mut up = false;
    let mut acc: Vec<Vec<char>> = Vec::new();
    while i < n
        invariant
            n == ls@.len(),
            lv == views(ls@),
            i <= n,
            kind <= 2,
            read_from(lv, i as nat, mode_of(kind, up, acc@), rd.state()) == goal,
        decreases read_measure(n as nat, i as nat, mode_of(kind, up, acc@)),
    {
        let line = &ls[i];
        assert(lv[i as int] == line@);
        if kind == 0 {
            match header_line_id(line) {
                Some(id) => {
                    rd.session_id = id;
                    kind = 1;
                    i = i + 1;
                },
                None => {
                    if separator_line(line) {
                        if i + 1 >= n {
                            i = i + 1;
                        } else if chars_are(&ls[i + 1], "<up>") {
                            assert(lv[i + 1] == ls@[i + 1]@);
                            kind = 2;
                            up = true;
                            acc = Vec::new();
                            assert(views(acc@) =~= Seq::<Seq<char>>::empty());
                            i = i + 2;
                        } else {
                            assert(lv[i + 1] == ls@[i + 1]@);
                            kind = 2;
                            up = false;
                            acc = Vec::new();
                            assert(views(acc@) =~= Seq::<Seq<char>>::empty());
                            i = i + 1;
                        }
                    } else {
                        i = i + 1;
                    }
                },
            }
        } else if kind == 1 {
            if line.len() == 0 {
                kind = 0;
            }
            i = i + 1;
        } else {
            if up && chars_are(line, "</up>") {
                rd.finish_turn(up, &acc);
                kind = 0;
                i = i + 1;
            } else if !up && separator_line(line) {
                rd.finish_turn(up, &acc);
                kind = 0;
            } else if !up && line.len() == 0 && (i + 1 >= n || chars_start_with(&ls[i + 1], "--- ")) {
                proof {
                    if i + 1 < n {
                        assert(lv[i + 1] == ls@[i + 1]@);
                    }
                }
                rd.finish_turn(up, &acc);
                kind = 0;
                i = i + 1;
            } else {
                let ghost before = acc@;
                acc.push(copy_chars(line));
                assert(views(acc@) =~= views(before).push(line@));
                i = i + 1;
            }
        }
    }
    if kind == 2 {
        rd.finish_turn(up, &acc);
    }
    rd
}

/// Reads a `.ctx` text back into a session (see `read_ctx`): the session id from the header,
/// the first assistant-side turn as the system prompt, and the other turns as messages.
pub fn parse_ctx(path: &str, content: &str) -> (r: ResumedSession)
    ensures
        r.session_id@ == read_ctx(content@).session_id,
        r.ctx_path@ == path@,
        match r.system_prompt {
            Some(p) => read_system_prompt(read_ctx(content@)) == Some(p@),
            None => read_system_prompt(read_ctx(content@)) is None,
        },
        messages_view(r.messages@) == read_messages(read_ctx(content@)),
{
    let ls = lines(content);
    let rd = read_lines(&ls);
    let system_prompt = if rd.system_parts.len() == 0 {
        None
    } else {
        let sep = chars_of("\n\n");
        let joined = join_from(&rd.system_parts, 0, sep.as_slice());
        assert(views(rd.system_parts@).skip(0) =~= views(rd.system_parts@));
        Some(string_from_chars(joined.as_slice()))
    };
    let mut messages: Vec<(String, String)> = Vec::new();
    let mut k: usize = 0;
    let ghost tv = turns_view(rd.turns@);
    while k < rd.turns.len()
        invariant
            k <= rd.turns@.len(),
            tv == turns_view(rd.turns@),
            messages_view(messages@) == tv.take(k as int).map_values(
                |t: (bool, Seq<char>)| (role_of(t.0), t.1),
            ),
        decreases rd.turns@.len() - k,
    {
        let t = &rd.turns[k];
        let role = if t.0 {
            "user".to_owned()
        } else {
            "assistant".to_owned()
        };
        let ghost before = messages@;
        messages.push((role, string_from_chars(t.1.as_slice())));
        assert(messages_view(messages@) =~= messages_view(before).push((role_of(t.0), t.1@)));
        assert(tv.take(k + 1).map_values(|t: (bool, Seq<char>)| (role_of(t.0), t.1)) =~= tv.take(
            k as int,
        ).map_values(|t: (bool, Seq<char>)| (role_of(t.0), t.1)).push((role_of(t.0), t.1@)));
        k = k + 1;
    }
    assert(tv.take(rd.turns@.len() as int) =~= tv);
    ResumedSession {
        session_id: string_from_chars(rd.session_id.as_slice()),
        ctx_path: path.to_owned(),
        system_prompt,
        messages,
    }
}

/// `p` without trailing slashes.
pub open spec fn trim_slashes(p: Seq<char>) -> Seq<char>
    decreases p.len(),
{
    if p.len() > 0 && p.last() == '/' {
        trim_slashes(p.drop_last())
    } else {
        p
    }
}

/// The text after the last `/` of `p`.
pub open spec fn after_last_slash(p: Seq<char>) -> Seq<char>
    decreases p.len(),
{
    if p.len() == 0 {
        p
    } else if p.last() == '/' {
        Seq::empty()
    } else {
        after_last_slash(p.drop_last()).push(p.last())
    }
}

/// The last component of a path, trailing slashes ignored.
pub open spec fn last_component(p: Seq<char>) -> Seq<char> {
    after_last_slash(trim_slashes(p))
}

/// The directory of a workspace's sessions: `sessions` inside the workspace when the workspace
/// is itself a `.agenticlaw` directory, `.agenticlaw/sessions` inside it otherwise.
pub open spec fn sessions_dir_of(workspace: Seq<char>) -> Seq<char> {
    if last_component(workspace) == ".agenticlaw"@ {
        crate::text::join_path(workspace, "sessions"@)
    } else {
        crate::text::join_path(crate::text::join_path(workspace, ".agenticlaw"@), "sessions"@)
    }
}

/// The last component of a path (see `last_component`).
fn last_component_exec(p: &str) -> (r: Vec<char>)
    ensures
        r@ == last_component(p@),
{
    let v = chars_of(p);
    let mut end = v.len();
    assert(v@.take(end as int) =~= v@);
    while end > 0 && v[end - 1] == '/'
        invariant
            end <= v@.len(),
            trim_slashes(v@.take(end as int)) == trim_slashes(v@),
        decreases end,
    {
        assert(v@.take(end as int).drop_last() =~= v@.take(end - 1));
        end = end - 1;
    }
    assert(trim_slashes(v@.take(end as int)) == v@.take(end as int));
    let mut start = end;
    assert(v@.subrange(start as int, end as int) =~= Seq::<char>::empty());
    while start > 0 && v[start - 1] != '/'
        invariant
            start <= end <= v@.len(),
            after_last_slash(v@.take(end as int)) == after_last_slash(v@.take(start as int)) + v@.subrange(
                start as int,
                end as int,
            ),
        decreases start,
    {
        assert(v@.take(start as int).drop_last() =~= v@.take(start - 1));
        assert(v@.subrange(start - 1, end as int) =~= seq![v@[start - 1]] + v@.subrange(
            start as int,
            end as int,
        ));
        start = start - 1;
    }
    assert(after_last_slash(v@.take(start as int)) =~= Seq::<char>::empty());
    let r = crate::tui::char_range(&v, start, end);
    assert(r@ =~= last_component(p@));
    r
}

/// The directory of a workspace's sessions (see `sessions_dir_of`).
pub fn sessions_dir(workspace: &str) -> (r: String)
    ensures
        r@ == sessions_dir_of(workspace@),
{
    let last = last_component_exec(workspace);
    if chars_are(&last, ".agenticlaw") {
        crate::text::path_join(workspace, "sessions")
    } else {
        let inner = crate::text::path_join(workspace, ".agenticlaw");
        crate::text::path_join(inner.as_str(), "sessions")
    }
}

/// The file name of a session's `.ctx` file started at `stamp` (`YYYYMMDD-HHMMSS`).
pub open spec fn session_file_name(stamp: Seq<char>, session_id: Seq<char>) -> Seq<char> {
    stamp + "-"@ + session_id + ".ctx"@
}

/// The path of a new `.ctx` file for a session started at `stamp` (`YYYYMMDD-HHMMSS`):
/// timestamped, so that a session can roll over into a new file.
pub fn session_ctx_path_at(workspace: &str, stamp: &str, session_id: &str) -> (r: String)
    ensures
        r@ == crate::text::join_path(sessions_dir_of(workspace@), session_file_name(stamp@, session_id@)),
{
    let dir = sessions_dir(workspace);
    let mut name = String::new();
    push_str(&mut name, stamp);
    push_str(&mut name, "-");
    push_str(&mut name, session_id);
    push_str(&mut name, ".ctx");
    crate::text::path_join(dir.as_str(), name.as_str())
}

/// Whether a file name has the extension `ctx`: a `.ctx` ending after at least one character.
pub open spec fn has_ctx_extension(name: Seq<char>) -> bool {
    name.len() > 4 && ends_with(name, ".ctx"@)
}

/// Whether a file name belongs to session `session_id`: `<stamp>-<id>.ctx`, or `<id>.ctx`.
pub open spec fn is_session_file(name: Seq<char>, session_id: Seq<char>) -> bool {
    ends_with(name, "-"@ + session_id + ".ctx"@) || name == session_id + ".ctx"@
}

/// Whether a file name has the extension `ctx` (see `has_ctx_extension`).
pub fn is_ctx_file(name: &str) -> (b: bool)
    ensures
        b == has_ctx_extension(name@),
{
    proof {
        reveal_strlit(".ctx");
    }
    let v = chars_of(name);
    v.len() > 4 && chars_end_with(&v, ".ctx")
}

/// Whether a file name belongs to a session (see `is_session_file`).
pub fn is_session_file_of(name: &str, session_id: &str) -> (b: bool)
    ensures
        b == is_session_file(name@, session_id@),
{
    let v = chars_of(name);
    let mut suffix = String::new();
    push_str(&mut suffix, "-");
    push_str(&mut suffix, session_id);
    push_str(&mut suffix, ".ctx");
    let mut exact = String::new();
    push_str(&mut exact, session_id);
    push_str(&mut exact, ".ctx");
    chars_end_with(&v, suffix.as_str()) || chars_are(&v, exact.as_str())
}

/// The index of the last of `names` in text order among those that `keep` marks, if any.
pub open spec fn is_latest(names: Seq<Seq<char>>, keep: Seq<bool>, k: int) -> bool {
    &&& 0 <= k < names.len()
    &&& keep[k]
    &&& forall|j: int| 0 <= j < names.len() && keep[j] ==> !text_less(names[k], #[trigger] names[j])
}

/// The file names of a directory, as texts.
pub open spec fn names_view(v: Seq<String>) -> Seq<Seq<char>> {
    v.map_values(|s: String| s@)
}

/// The latest `.ctx` file among a directory's file names: the last in text order, which the
/// timestamp prefix makes the most recent.
pub fn latest_ctx(names: &Vec<String>) -> (r: Option<usize>)
    ensures
        match r {
            Some(k) => is_latest(
                names_view(names@),
                names_view(names@).map_values(|n: Seq<char>| has_ctx_extension(n)),
                k as int,
            ),
            None => forall|j: int| 0 <= j < names@.len() ==> !has_ctx_extension(#[trigger] names@[j]@),
        },
{
    let mut keep: Vec<bool> = Vec::new();
    let mut i: usize = 0;
    while i < names.len()
        invariant
            i <= names@.len(),
            keep@ == names_view(names@).map_values(|n: Seq<char>| has_ctx_extension(n)).take(i as int),
        decreases names@.len() - i,
    {
        keep.push(is_ctx_file(names[i].as_str()));
        assert(keep@ =~= names_view(names@).map_values(|n: Seq<char>| has_ctx_extension(n)).take(i + 1));
        i = i + 1;
    }
    assert(keep@ =~= names_view(names@).map_values(|n: Seq<char>| has_ctx_extension(n)));
    let r = latest_kept(names, &keep);
    proof {
        if r is None {
            assert forall|j: int| 0 <= j < names@.len() implies !has_ctx_extension(
                #[trigger] names@[j]@,
            ) by {
                assert(!keep@[j]);
            }
        }
    }
    r
}

/// The latest `.ctx` file of a session among a directory's file names (see `is_session_file`).
pub fn latest_for_session(names: &Vec<String>, session_id: &str) -> (r: Option<usize>)
    ensures
        match r {
            Some(k) => is_latest(
                names_view(names@),
                names_view(names@).map_values(|n: Seq<char>| is_session_file(n, session_id@)),
                k as int,
            ),
            None => forall|j: int|
                0 <= j < names@.len() ==> !is_session_file(#[trigger] names@[j]@, session_id@),
        },
{
    let mut keep: Vec<bool> = Vec::new();
    let mut i: usize = 0;
    while i < names.len()
        invariant
            i <= names@.len(),
            keep@ == names_view(names@).map_values(|n: Seq<char>| is_session_file(n, session_id@)).take(
                i as int,
            ),
        decreases names@.len() - i,
    {
        keep.push(is_session_file_of(names[i].as_str(), session_id));
        assert(keep@ =~= names_view(names@).map_values(
            |n: Seq<char>| is_session_file(n, session_id@),
        ).take(i + 1));
        i = i + 1;
    }
    assert(keep@ =~= names_view(names@).map_values(|n: Seq<char>| is_session_file(n, session_id@)));
    let r = latest_kept(names, &keep);
    proof {
        if r is None {
            assert forall|j: int| 0 <= j < names@.len() implies !is_session_file(
                #[trigger] names@[j]@,
                session_id@,
            ) by {
                assert(!keep@[j]);
            }
        }
    }
    r
}

/// The last in text order of the names that `keep` marks.
fn latest_kept(names: &Vec<String>, keep: &Vec<bool>) -> (r: Option<usize>)
    requires
        keep@.len() == names@.len(),
    ensures
        match r {
            Some(k) => is_latest(names_view(names@), keep@, k as int),
            None => forall|j: int| 0 <= j < names@.len() ==> !#[trigger] keep@[j],
        },
{
    let mut best: Option<usize> = None;
    let mut best_chars: Vec<char> = Vec::new();
    let mut i: usize = 0;
    let ghost nv = names_view(names@);
    while i < names.len()
        invariant
            i <= names@.len(),
            keep@.len() == names@.len(),
            nv == names_view(names@),
            match best {
                Some(k) => {
                    &&& k < i
                    &&& keep@[k as int]
                    &&& best_chars@ == nv[k as int]
                    &&& forall|j: int| 0 <= j < i && keep@[j] ==> !text_less(nv[k as int], #[trigger] nv[j])
                },
                None => forall|j: int| 0 <= j < i ==> !#[trigger] keep@[j],
            },
        decreases names@.len() - i,
    {
        if keep[i] {
            let c = chars_of(names[i].as_str());
            assert(c@ == nv[i as int]);
            let replace = match best {
                Some(_) => text_less_exec(&best_chars, &c),
                None => true,
            };
            if replace {
                proof {
                    if let Some(k) = best {
                        assert forall|j: int| 0 <= j < i + 1 && keep@[j] implies !text_less(
                            nv[i as int],
                            #[trigger] nv[j],
                        ) by {
                            if j < i {
                                lemma_text_less_trans(nv[k as int], nv[i as int], nv[j]);
                            }
                            lemma_text_less_irrefl(nv[i as int]);
                        }
                    } else {
                        assert forall|j: int| 0 <= j < i + 1 && keep@[j] implies !text_less(
                            nv[i as int],
                            #[trigger] nv[j],
                        ) by {
                            lemma_text_less_irrefl(nv[i as int]);
                        }
                    }
                }
                best = Some(i);
                best_chars = c;
            } else {
                proof {
                    let k = best->0;
                    assert forall|j: int| 0 <= j < i + 1 && keep@[j] implies !text_less(
                        nv[k as int],
                        #[trigger] nv[j],
                    ) by {
                        if j == i {
                            assert(!text_less(nv[k as int], nv[i as int]));
                        }
                    }
                }
            }
        }
        i = i + 1;
    }
    best
}

/// Whether a preloaded file's text is kept: it holds more than white space.
pub fn is_preload_content(content: &str) -> (b: bool)
    ensures
        b == (trim_ws(content@).len() > 0),
{
    trim_chars(chars_of(content).as_slice()).len() > 0
}

/// A text split at line feeds: a first piece with no line feed, a line feed, and the rest.
proof fn lemma_split_cons(a: Seq<char>, rest: Seq<char>)
    requires
        !a.contains('\n'),
    ensures
        crate::text::split_seq(a + seq!['\n'] + rest, seq!['\n']) == seq![a] + crate::text::split_seq(
            rest,
            seq!['\n'],
        ),
    decreases a.len(),
{
    let s = a + seq!['\n'] + rest;
    if a.len() == 0 {
        assert(a =~= Seq::<char>::empty());
        assert(s.take(1) =~= seq!['\n']);
        assert(s.skip(1) =~= rest);
    } else {
        assert(s.take(1) =~= seq![a[0]]);
        assert(seq![a[0]][0] != seq!['\n'][0]);
        assert(s.take(1) != seq!['\n']);
        let t = a.drop_first();
        assert(!t.contains('\n')) by {
            if t.contains('\n') {
                let k = choose|k: int| 0 <= k < t.len() && t[k] == '\n';
                assert(a[k + 1] == '\n');
            }
        }
        assert(s.drop_first() =~= t + seq!['\n'] + rest);
        lemma_split_cons(t, rest);
        let r = crate::text::split_seq(s.drop_first(), seq!['\n']);
        assert(r == seq![t] + crate::text::split_seq(rest, seq!['\n']));
        assert(r[0] == t);
        assert(s[0] == a[0]);
        assert(seq![a[0]] + t =~= a);
        assert(r.update(0, seq![s[0]] + r[0]) =~= seq![a] + crate::text::split_seq(rest, seq!['\n']));
    }
}

/// The lines of a text that starts with a line of no line feed.
proof fn lemma_lines_cons(a: Seq<char>, rest: Seq<char>)
    requires
        !a.contains('\n'),
    ensures
        lines_of(a + seq!['\n'] + rest) == seq![crate::text::strip_cr(a)] + lines_of(rest),
{
    lemma_split_cons(a, rest);
    crate::text::lemma_split_nonempty(rest, seq!['\n']);
    let pr = crate::text::split_seq(rest, seq!['\n']);
    let p = seq![a] + pr;
    let kept_r = if pr.last().len() == 0 {
        pr.drop_last()
    } else {
        pr
    };
    let kept = if p.last().len() == 0 {
        p.drop_last()
    } else {
        p
    };
    assert(p.last() == pr.last());
    assert(kept =~= seq![a] + kept_r);
    assert(kept.map_values(|l: Seq<char>| crate::text::strip_cr(l)) =~= seq![crate::text::strip_cr(a)]
        + kept_r.map_values(|l: Seq<char>| crate::text::strip_cr(l)));
}

/// A text with no line break characters.
pub open spec fn single_line(s: Seq<char>) -> bool {
    !s.contains('\n') && !s.contains('\r')
}

proof fn lemma_strip_cr_single(s: Seq<char>)
    requires
        !s.contains('\r'),
    ensures
        crate::text::strip_cr(s) == s,
{
    if s.len() > 0 {
        assert(s[s.len() - 1] != '\r');
    }
}

/// One user message and the reply to it, each with its timestamp.
pub struct Exchange {
    pub ts1: Seq<char>,
    pub message: Seq<char>,
    pub ts2: Seq<char>,
    pub reply: Seq<char>,
}

/// The session-file text of an exchange: the user block, then the assistant block.
pub open spec fn exchange_text(x: Exchange) -> Seq<char> {
    user_message_text(x.ts1, x.message) + assistant_text_block(x.ts2, x.reply)
}

/// The session-file text of exchanges in order.
pub open spec fn exchanges_text(xs: Seq<Exchange>) -> Seq<char>
    decreases xs.len(),
{
    if xs.len() == 0 {
        Seq::empty()
    } else {
        exchange_text(xs[0]) + exchanges_text(xs.drop_first())
    }
}

/// The messages of exchanges in order: each message, then its reply.
pub open spec fn exchange_messages(xs: Seq<Exchange>) -> Seq<(Seq<char>, Seq<char>)>
    decreases xs.len(),
{
    if xs.len() == 0 {
        Seq::empty()
    } else {
        seq![("user"@, xs[0].message), ("assistant"@, xs[0].reply)] + exchange_messages(
            xs.drop_first(),
        )
    }
}

/// An exchange that reads back as written: one-line message and reply, the message not the
/// end tag of a user block, the reply not a tag or separator, both more than white space, and
/// timestamps whose separators are single lines that do not read as session headers.
pub open spec fn readable(x: Exchange) -> bool {
    &&& !x.ts1.contains('\n')
    &&& !x.ts2.contains('\n')
    &&& single_line(x.message)
    &&& single_line(x.reply)
    &&& x.message != "</up>"@
    &&& x.reply != "<up>"@
    &&& !is_separator(x.reply)
    &&& trim_ws(x.message).len() > 0
    &&& trim_ws(x.reply).len() > 0
    &&& header_id("--- "@ + x.ts1 + " ---"@) is None
    &&& header_id("--- "@ + x.ts2 + " ---"@) is None
}

/// The lines of an exchange's text.
pub open spec fn exchange_lines(x: Exchange) -> Seq<Seq<char>> {
    seq![
        "--- "@ + x.ts1 + " ---"@,
        "<up>"@,
        x.message,
        "</up>"@,
        Seq::<char>::empty(),
        "--- "@ + x.ts2 + " ---"@,
        x.reply,
        Seq::<char>::empty(),
    ]
}

/// The lines of exchanges in order.
pub open spec fn exchanges_lines(xs: Seq<Exchange>) -> Seq<Seq<char>>
    decreases xs.len(),
{
    if xs.len() == 0 {
        Seq::empty()
    } else {
        exchange_lines(xs[0]) + exchanges_lines(xs.drop_first())
    }
}

proof fn lemma_no_newline_sep(ts: Seq<char>)
    requires
        !ts.contains('\n'),
    ensures
        !("--- "@ + ts + " ---"@).contains('\n'),
{
    reveal_strlit("--- ");
    reveal_strlit(" ---");
    let l = "--- "@ + ts + " ---"@;
    if l.contains('\n') {
        let k = choose|k: int| 0 <= k < l.len() && l[k] == '\n';
        if k >= 4 && k < 4 + ts.len() {
            assert(ts[k - 4] == '\n');
        }
    }
}

/// The lines of an exchange followed by more text.
proof fn lemma_exchange_text_lines(x: Exchange, rest: Seq<char>)
    requires
        readable(x),
    ensures
        lines_of(exchange_text(x) + rest) == exchange_lines(x) + lines_of(rest),
{
    reveal_strlit(" ---\n");
    reveal_strlit("--- ");
    reveal_strlit(" ---");
    reveal_strlit("<up>\n");
    reveal_strlit("<up>");
    reveal_strlit("\n</up>\n\n");
    reveal_strlit("</up>");
    reveal_strlit("\n\n");
    let nl = seq!['\n'];
    let e = Seq::<char>::empty();
    let l4 = "--- "@ + x.ts1 + " ---"@;
    let l8 = "--- "@ + x.ts2 + " ---"@;
    let r8 = rest;
    let r7 = e + nl + r8;
    let r6 = x.reply + nl + r7;
    let r5 = l8 + nl + r6;
    let r4 = e + nl + r5;
    let r3 = "</up>"@ + nl + r4;
    let r2 = x.message + nl + r3;
    let r1 = "<up>"@ + nl + r2;
    let r0 = l4 + nl + r1;
    assert(exchange_text(x) + rest =~= r0);
    lemma_no_newline_sep(x.ts1);
    lemma_no_newline_sep(x.ts2);
    assert(!e.contains('\n'));
    assert(!"<up>"@.contains('\n')) by {
        if "<up>"@.contains('\n') {
            let k = choose|k: int| 0 <= k < 4 && "<up>"@[k] == '\n';
        }
    }
    assert(!"</up>"@.contains('\n')) by {
        if "</up>"@.contains('\n') {
            let k = choose|k: int| 0 <= k < 5 && "</up>"@[k] == '\n';
        }
    }
    lemma_lines_cons(e, r8);
    lemma_lines_cons(x.reply, r7);
    lemma_lines_cons(l8, r6);
    lemma_lines_cons(e, r5);
    lemma_lines_cons("</up>"@, r4);
    lemma_lines_cons(x.message, r3);
    lemma_lines_cons("<up>"@, r2);
    lemma_lines_cons(l4, r1);
    lemma_strip_cr_single(x.message);
    lemma_strip_cr_single(x.reply);
    assert(l4.last() == '-' && l8.last() == '-') by {
        reveal_strlit(" ---");
        assert(l4[l4.len() - 1] == " ---"@[3]);
        assert(l8[l8.len() - 1] == " ---"@[3]);
    }
    assert(crate::text::strip_cr(l4) == l4);
    assert(crate::text::strip_cr(l8) == l8);
    assert(crate::text::strip_cr(e) == e);
    assert(crate::text::strip_cr("<up>"@) == "<up>"@);
    assert(crate::text::strip_cr("</up>"@) == "</up>"@);
    assert(lines_of(r0) =~= exchange_lines(x) + lines_of(rest));
}

/// The lines of exchanges in order.
proof fn lemma_exchanges_text_lines(xs: Seq<Exchange>)
    requires
        forall|i: int| 0 <= i < xs.len() ==> readable(#[trigger] xs[i]),
    ensures
        lines_of(exchanges_text(xs)) == exchanges_lines(xs),
    decreases xs.len(),
{
    if xs.len() == 0 {
        let e = Seq::<char>::empty();
        assert(crate::text::split_seq(e, seq!['\n']) == seq![e]);
        assert(lines_of(e) =~= Seq::<Seq<char>>::empty());
    } else {
        let rest = xs.drop_first();
        assert forall|i: int| 0 <= i < rest.len() implies readable(#[trigger] rest[i]) by {
            assert(rest[i] == xs[i + 1]);
        }
        lemma_exchanges_text_lines(rest);
        lemma_exchange_text_lines(xs[0], exchanges_text(rest));
    }
}

/// The state after reading an exchange: its message and reply added as turns.
pub open spec fn after_exchange(st: ReadState, x: Exchange) -> ReadState {
    ReadState {
        turns: st.turns.push((true, x.message)).push((false, x.reply)),
        first_turn: false,
        ..st
    }
}

/// Reading the lines of one exchange, from the scan that meets its first separator, gives its
/// two turns and scans on after its last line.
proof fn lemma_read_exchange(lines: Seq<Seq<char>>, p: nat, x: Exchange, st: ReadState)
    requires
        readable(x),
        p + 8 <= lines.len(),
        lines.subrange(p as int, p as int + 8) == exchange_lines(x),
        p + 8 < lines.len() ==> starts_with(lines[p as int + 8], "--- "@),
    ensures
        read_from(lines, p, ReadMode::Scan, st) == read_from(lines, (p + 8) as nat,
            ReadMode::Scan,
            after_exchange(st, x),
        ),
{
    reveal_strlit("--- session: ");
    reveal_strlit(" ---");
    reveal_strlit("--- ");
    reveal_strlit("<up>");
    reveal_strlit("</up>");
    let e = Seq::<char>::empty();
    let l4 = "--- "@ + x.ts1 + " ---"@;
    let l8 = "--- "@ + x.ts2 + " ---"@;
    assert(lines[p as int] == l4);
    assert(lines[p as int + 1] == "<up>"@);
    assert(lines[p as int + 2] == x.message);
    assert(lines[p as int + 3] == "</up>"@);
    assert(lines[p as int + 4] == e);
    assert(lines[p as int + 5] == l8);
    assert(lines[p as int + 6] == x.reply);
    assert(lines[p as int + 7] == e);
    assert(l4.take(4) =~= "--- "@);
    assert(l4.skip(l4.len() - 4) =~= " ---"@);
    assert(is_separator(l4));
    assert(read_from(lines, p, ReadMode::Scan, st) == read_from(lines, (p + 2) as nat,
        ReadMode::Turn { up: true, acc: Seq::empty() },
        st,
    ));
    assert(read_from(lines, (p + 2) as nat, ReadMode::Turn { up: true, acc: Seq::empty() }, st)
        == read_from(lines, (p + 3) as nat, ReadMode::Turn { up: true, acc: seq![x.message] }, st)) by {
        assert(Seq::<Seq<char>>::empty().push(x.message) =~= seq![x.message]);
    }
    let st2 = ReadState { turns: st.turns.push((true, x.message)), first_turn: false, ..st };
    assert(join_seq(seq![x.message], "\n"@) == x.message);
    assert(turn_done(st, true, seq![x.message]) == st2);
    assert(read_from(lines, (p + 3) as nat, ReadMode::Turn { up: true, acc: seq![x.message] }, st)
        == read_from(lines, (p + 4) as nat, ReadMode::Scan, st2));
    assert(!starts_with(e, "--- session: "@));
    assert(header_id(e) is None);
    assert(!is_separator(e));
    assert(read_from(lines, (p + 4) as nat, ReadMode::Scan, st2) == read_from(lines, (p + 5) as nat, ReadMode::Scan, st2));
    assert(l8.take(4) =~= "--- "@);
    assert(l8.skip(l8.len() - 4) =~= " ---"@);
    assert(is_separator(l8));
    assert(read_from(lines, (p + 5) as nat, ReadMode::Scan, st2) == read_from(lines, (p + 6) as nat,
        ReadMode::Turn { up: false, acc: Seq::empty() },
        st2,
    ));
    assert(x.reply.len() > 0) by {
        if x.reply.len() == 0 {
            assert(trim_ws(x.reply) =~= Seq::<char>::empty());
        }
    }
    assert(read_from(lines, (p + 6) as nat, ReadMode::Turn { up: false, acc: Seq::empty() }, st2)
        == read_from(lines, (p + 7) as nat, ReadMode::Turn { up: false, acc: seq![x.reply] }, st2)) by {
        assert(Seq::<Seq<char>>::empty().push(x.reply) =~= seq![x.reply]);
    }
    assert(join_seq(seq![x.reply], "\n"@) == x.reply);
    assert(turn_done(st2, false, seq![x.reply]) == after_exchange(st, x));
    assert(read_from(lines, (p + 7) as nat, ReadMode::Turn { up: false, acc: seq![x.reply] }, st2)
        == read_from(lines, (p + 8) as nat, ReadMode::Scan, after_exchange(st, x)));
}

/// Reading the lines of exchanges, from the scan that meets the first one's separator, adds
/// their messages in order.
proof fn lemma_read_exchanges(lines: Seq<Seq<char>>, p: nat, xs: Seq<Exchange>, st: ReadState)
    requires
        forall|i: int| 0 <= i < xs.len() ==> readable(#[trigger] xs[i]),
        p <= lines.len(),
        lines.skip(p as int) == exchanges_lines(xs),
    ensures
        read_from(lines, p, ReadMode::Scan, st).session_id == st.session_id,
        read_from(lines, p, ReadMode::Scan, st).system_parts == st.system_parts,
        read_from(lines, p, ReadMode::Scan, st).turns.map_values(
            |t: (bool, Seq<char>)| (role_of(t.0), t.1),
        ) == st.turns.map_values(|t: (bool, Seq<char>)| (role_of(t.0), t.1)) + exchange_messages(xs),
    decreases xs.len(),
{
    if xs.len() == 0 {
        assert(lines.skip(p as int).len() == 0);
        assert(exchange_messages(xs) =~= Seq::<(Seq<char>, Seq<char>)>::empty());
        assert(st.turns.map_values(|t: (bool, Seq<char>)| (role_of(t.0), t.1)) + exchange_messages(xs)
            =~= st.turns.map_values(|t: (bool, Seq<char>)| (role_of(t.0), t.1)));
    } else {
        let x = xs[0];
        let rest = xs.drop_first();
        assert forall|i: int| 0 <= i < rest.len() implies readable(#[trigger] rest[i]) by {
            assert(rest[i] == xs[i + 1]);
        }
        let tail = lines.skip(p as int);
        assert(tail == exchange_lines(x) + exchanges_lines(rest));
        assert(tail.len() == 8 + exchanges_lines(rest).len());
        assert(lines.subrange(p as int, p as int + 8) =~= exchange_lines(x)) by {
            assert forall|k: int| 0 <= k < 8 implies lines.subrange(p as int, p as int + 8)[k]
                == exchange_lines(x)[k] by {
                assert(tail[k] == lines[p as int + k]);
            }
        }
        assert(lines.skip(p as int + 8) =~= exchanges_lines(rest)) by {
            assert forall|k: int| 0 <= k < lines.skip(p as int + 8).len() implies lines.skip(p as int + 8)[k]
                == exchanges_lines(rest)[k] by {
                assert(tail[8 + k] == lines[p as int + 8 + k]);
            }
        }
        if p + 8 < lines.len() {
            assert(rest.len() > 0) by {
                if rest.len() == 0 {
                    assert(exchanges_lines(rest).len() == 0);
                }
            }
            let y = rest[0];
            assert(exchanges_lines(rest)[0] == "--- "@ + y.ts1 + " ---"@);
            assert(lines[p as int + 8] == exchanges_lines(rest)[0]);
            reveal_strlit("--- ");
            assert(("--- "@ + y.ts1 + " ---"@).take(4) =~= "--- "@);
        }
        lemma_read_exchange(lines, p, x, st);
        let st1 = after_exchange(st, x);
        lemma_read_exchanges(lines, (p + 8) as nat, rest, st1);
        let f = |t: (bool, Seq<char>)| (role_of(t.0), t.1);
        assert(st1.turns.map_values(f) =~= st.turns.map_values(f) + seq![
            ("user"@, x.message),
            ("assistant"@, x.reply),
        ]);
        assert(exchange_messages(xs) =~= seq![("user"@, x.message), ("assistant"@, x.reply)]
            + exchange_messages(rest));
        assert(st.turns.map_values(f) + seq![("user"@, x.message), ("assistant"@, x.reply)]
            + exchange_messages(rest) =~= st.turns.map_values(f) + exchange_messages(xs));
    }
}

/// A new session file holding exchanges, one after another, reads back as that session: its
/// id, no system prompt, and each message followed by its reply, in order.
pub proof fn lemma_exchanges_read_back(id: Seq<char>, started: Seq<char>, xs: Seq<Exchange>)
    requires
        !id.contains('\n'),
        !started.contains('\n'),
        forall|i: int| 0 <= i < xs.len() ==> readable(#[trigger] xs[i]),
    ensures
        ({
            let content = header_text(id, started, None, Seq::empty()) + exchanges_text(xs);
            &&& read_ctx(content).session_id == id
            &&& read_system_prompt(read_ctx(content)) is None
            &&& read_messages(read_ctx(content)) == exchange_messages(xs)
        }),
{
    reveal_strlit("--- session: ");
    reveal_strlit(" ---\n");
    reveal_strlit(" ---");
    reveal_strlit("started: ");
    reveal_strlit("\n");
    let nl = seq!['\n'];
    let e = Seq::<char>::empty();
    let l1 = "--- session: "@ + id + " ---"@;
    let l2 = "started: "@ + started;
    let body = exchanges_text(xs);
    let content = header_text(id, started, None, Seq::empty()) + body;
    let r2 = e + nl + body;
    let r1 = l2 + nl + r2;
    let r0 = l1 + nl + r1;
    assert(content =~= r0);
    assert(!l1.contains('\n')) by {
        if l1.contains('\n') {
            let k = choose|k: int| 0 <= k < l1.len() && l1[k] == '\n';
            if k >= 13 && k < 13 + id.len() {
                assert(id[k - 13] == '\n');
            }
        }
    }
    assert(!l2.contains('\n')) by {
        if l2.contains('\n') {
            let k = choose|k: int| 0 <= k < l2.len() && l2[k] == '\n';
            if k >= 9 {
                assert(started[k - 9] == '\n');
            }
        }
    }
    assert(!e.contains('\n'));
    lemma_lines_cons(e, body);
    lemma_lines_cons(l2, r2);
    lemma_lines_cons(l1, r1);
    lemma_exchanges_text_lines(xs);
    let ls = lines_of(content);
    let sl2 = crate::text::strip_cr(l2);
    assert(crate::text::strip_cr(e) == e);
    assert(l1.last() == '-') by {
        assert(l1[l1.len() - 1] == " ---"@[3]);
    }
    assert(crate::text::strip_cr(l1) == l1);
    assert(ls =~= seq![l1, sl2, e] + exchanges_lines(xs));
    let st0 = ReadState {
        session_id: Seq::empty(),
        system_parts: Seq::empty(),
        turns: Seq::empty(),
        first_turn: true,
    };
    let st1 = ReadState { session_id: id, ..st0 };
    let rest1 = l1.skip(13);
    assert(l1.take(13) =~= "--- session: "@);
    assert(rest1 =~= id + " ---"@);
    assert(rest1.skip(rest1.len() - 4) =~= " ---"@);
    assert(rest1.take(rest1.len() - 4) =~= id);
    assert(header_id(l1) == Some(id));
    assert(ls[0] == l1);
    assert(read_from(ls, 0, ReadMode::Scan, st0) == read_from(ls, 1, ReadMode::Fields, st1));
    assert(sl2.len() > 0) by {
        assert(l2.len() >= 9);
    }
    assert(ls[1] == sl2);
    assert(read_from(ls, 1, ReadMode::Fields, st1) == read_from(ls, 2, ReadMode::Fields, st1));
    assert(ls[2] == e);
    assert(read_from(ls, 2, ReadMode::Fields, st1) == read_from(ls, 3, ReadMode::Scan, st1));
    assert(ls.skip(3) =~= exchanges_lines(xs));
    lemma_read_exchanges(ls, 3, xs, st1);
    assert(read_ctx(content) == read_from(ls, 0, ReadMode::Scan, st0));
    assert(st1.turns.map_values(|t: (bool, Seq<char>)| (role_of(t.0), t.1)) + exchange_messages(xs)
        =~= exchange_messages(xs));
}

} // verus!
