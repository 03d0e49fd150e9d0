//! The mode-driven input state machine. An `Editor` owns the current mode,
//! the document buffer, the page-navigation state, the prompt entries and the
//! status message. `dispatch` interprets one key according to the current
//! mode; work that needs the outside world — reading or writing a page file,
//! counting a directory, the system clipboard — is returned as an
//! `IoRequest`, and its result is handed back through an outcome method. The
//! surrounding loop therefore stays free of any decision.
use vstd::prelude::*;

use crate::document::{
    apply_bwd, apply_fwd, doc_wf, edited, move_target, DocView, Document, EditView, Move,
};
use crate::pages::{
    all_digits, dec_val, format_file_name, format_page_id, page_file_name, page_token,
    parse_page_id,
};
use crate::region::{pos_le, Pos};
use crate::reflow::{reflow, reflow_chars};
use crate::search::{bwd_search, fwd_search, pattern_compiles, CompiledPattern};
use crate::text::{
    chars_of_str, content_to_lines, join_lines, lines_of_content, string_of_chars,
    strip_trailing_newline,
};

verus! {

/// The single active input-interpretation state. Exactly one is active at a
/// time; `Quit` is terminal.
#[derive(Clone, Copy, PartialEq, Eq, Structural, Debug)]
pub enum Mode {
    Command,
    OpenDirectory,
    OpenFile,
    Input,
    Selection,
    Search,
    History,
    Quit,
}

/// A key, reduced to what the editor reads.
#[derive(Clone, Copy, PartialEq, Eq, Structural, Debug)]
pub enum Key {
    Char(char),
    Enter,
    Esc,
    Backspace,
    Tab,
    Up,
    Down,
    Left,
    Right,
    Home,
    End,
    PageUp,
    PageDown,
    Other,
}

/// One input event: a key together with its modifiers.
#[derive(Clone, Copy, PartialEq, Eq, Structural, Debug)]
pub struct KeyInput {
    pub key: Key,
    pub ctrl: bool,
    pub shift: bool,
}

/// Work the editor asks its surroundings to perform. The caller performs it
/// and reports the result through the matching outcome method.
#[derive(Debug)]
pub enum IoRequest {
    /// Count the regular files directly inside `dir` and read `dir`'s page
    /// zero; report through `dir_opened`.
    OpenDirectory { dir: String },
    /// Read the file `file` inside `dir`; report through `page_loaded`.
    LoadPage { dir: String, file: String, id: u32 },
    /// Write `content` to the file `file` inside `dir`; report through
    /// `save_done`.
    SavePage { dir: String, file: String, content: String },
    /// Place `content` on the system clipboard; report through
    /// `clipboard_done`.
    CopyToClipboard { content: String },
}

/// The mathematical content of an `Editor`.
pub ghost struct EditorView {
    pub mode: Mode,
    pub doc: DocView,
    pub dir: Seq<char>,
    pub id_entry: Seq<char>,
    pub pattern_entry: Seq<char>,
    pub pattern: Option<Seq<char>>,
    pub curr: u32,
    pub tot: usize,
    pub msg: Seq<char>,
}

/// The editor: mode, buffer, navigation state, prompt entries, status.
pub struct Editor {
    mode: Mode,
    doc: Document,
    dir: Vec<char>,
    id_entry: Vec<char>,
    pattern_entry: Vec<char>,
    pattern: Option<CompiledPattern>,
    curr: u32,
    tot: usize,
    msg: String,
}

impl View for Editor {
    type V = EditorView;

    closed spec fn view(&self) -> EditorView {
        EditorView {
            mode: self.mode,
            doc: self.doc@,
            dir: self.dir@,
            id_entry: self.id_entry@,
            pattern_entry: self.pattern_entry@,
            pattern: match self.pattern {
                Some(p) => Some(p.pat()),
                None => None,
            },
            curr: self.curr,
            tot: self.tot,
            msg: self.msg@,
        }
    }
}

/// The pattern seeded at startup: transcription artifacts — bare numbers and
/// page or folio markers — so likely navigation anchors are found at once.
pub open spec fn default_pattern() -> Seq<char> {
    "\\d+|f\\.|fol|p\\.|page|scan"@
}

/// The status reported when a search finds nothing.
pub open spec fn msg_no_match() -> Seq<char> {
    "no match"@
}

/// The status reported for a search pattern that does not compile.
pub open spec fn msg_bad_pattern() -> Seq<char> {
    "invalid search pattern"@
}

/// The status reported for a page-id entry that is not a number in range.
pub open spec fn msg_bad_id() -> Seq<char> {
    "invalid page id"@
}

/// The status reported when stepping back from page zero.
pub open spec fn msg_first_page() -> Seq<char> {
    "already at page zero"@
}

/// The status reported when stepping forward from the largest page id.
pub open spec fn msg_last_page() -> Seq<char> {
    "no next page id"@
}

/// The status reported after the buffer was placed on the clipboard.
pub open spec fn msg_copied() -> Seq<char> {
    "copied to clipboard"@
}

/// The state after a page load succeeds: the buffer is rebuilt from the raw
/// text alone — old content, selection and history are discarded — the
/// current page id and its displayed token follow the loaded page, and the
/// editor returns to command mode.
pub open spec fn loaded_view(pre: EditorView, id: u32, content: Seq<char>) -> EditorView {
    EditorView {
        mode: Mode::Command,
        doc: DocView {
            lines: lines_of_content(content),
            cursor: Pos { line: 0, col: 0 },
            anchor: None,
            undo_edits: Seq::empty(),
            redo_edits: Seq::empty(),
        },
        curr: id,
        id_entry: page_token(id as int),
        msg: Seq::empty(),
        ..pre
    }
}

impl Editor {
    /// Whether this editor is well formed; every operation preserves it.
    pub open spec fn wf(&self) -> bool {
        doc_wf(self@.doc)
    }

    /// A fresh editor: command mode, an empty buffer, page zero of the given
    /// directory, page count one, and the default search pattern compiled
    /// once, eagerly.
    pub fn new(initial_dir: &str) -> (e: Editor)
        ensures
            e.wf(),
            e@.mode == Mode::Command,
            e@.dir == initial_dir@,
            e@.curr == 0,
            e@.tot == 1,
            e@.id_entry == page_token(0),
            e@.pattern_entry == default_pattern(),
            e@.msg == Seq::<char>::empty(),
            e@.doc.lines == seq![Seq::<char>::empty()],
            e@.doc.undo_edits.len() == 0,
            e@.doc.redo_edits.len() == 0,
            pattern_compiles(default_pattern()) <==> e@.pattern is Some,
            e@.pattern matches Some(p) ==> p == default_pattern(),
    {
        let pat = "\\d+|f\\.|fol|p\\.|page|scan";
        let compiled = CompiledPattern::compile(pat);
        Editor {
            mode: Mode::Command,
            doc: Document::new(),
            dir: chars_of_str(initial_dir),
            id_entry: format_page_id(0),
            pattern_entry: chars_of_str(pat),
            pattern: compiled,
            curr: 0,
            tot: 1,
            msg: String::new(),
        }
    }

    /// The current mode.
    pub fn mode(&self) -> (m: Mode)
        ensures
            m == self@.mode,
    {
        self.mode
    }

    /// The document buffer, for display.
    pub fn document(&self) -> (d: &Document)
        ensures
            d@ == self@.doc,
    {
        &self.doc
    }

    /// The current page id.
    pub fn page_id(&self) -> (id: u32)
        ensures
            id == self@.curr,
    {
        self.curr
    }

    /// The cached page count of the opened directory.
    pub fn page_count(&self) -> (n: usize)
        ensures
            n == self@.tot,
    {
        self.tot
    }

    /// The status message of the last operation; empty when it succeeded.
    pub fn status(&self) -> (s: String)
        ensures
            s@ == self@.msg,
    {
        self.msg.clone()
    }

    /// The directory entry, for display.
    pub fn dir_entry(&self) -> (s: String)
        ensures
            s@ == self@.dir,
    {
        string_of_chars(&self.dir)
    }

    /// The page-id entry, for display.
    pub fn id_entry(&self) -> (s: String)
        ensures
            s@ == self@.id_entry,
    {
        string_of_chars(&self.id_entry)
    }

    /// The search-pattern entry, for display.
    pub fn pattern_entry(&self) -> (s: String)
        ensures
            s@ == self@.pattern_entry,
    {
        string_of_chars(&self.pattern_entry)
    }

    /// Takes the outcome of a `LoadPage` request. On success the buffer is
    /// replaced wholesale by the page's text and the editor returns to
    /// command mode. On failure only the status message changes: the page id
    /// is not updated until a load succeeds, and the mode stays, so a failed
    /// open leaves the prompt active and a failed next/prev stays in command
    /// mode.
    pub fn page_loaded(&mut self, id: u32, outcome: Result<String, String>)
        requires
            old(self).wf(),
        ensures
            final(self).wf(),
            outcome matches Ok(content) ==> final(self)@ == loaded_view(old(self)@, id, content@),
            outcome matches Err(e) ==> final(self)@ == (EditorView { msg: e@, ..old(self)@ }),
    {
        match outcome {
            Ok(content) => {
                let chars = chars_of_str(content.as_str());
                let lines = content_to_lines(&chars);
                self.doc.replace_wholesale(lines);
                self.curr = id;
                self.id_entry = format_page_id(id);
                self.mode = Mode::Command;
                self.msg = String::new();
                proof {
                    assert(self@.doc.undo_edits =~= Seq::<EditView>::empty());
                    assert(self@.doc.redo_edits =~= Seq::<EditView>::empty());
                    assert(self@.msg =~= Seq::<char>::empty());
                }
            },
            Err(e) => {
                self.msg = e;
            },
        }
    }

    /// Takes the outcome of an `OpenDirectory` request: the file count and
    /// the text of page zero. On success the count is cached, page zero is
    /// loaded and the editor returns to command mode; on failure only the
    /// status message changes and the prompt stays active.
    pub fn dir_opened(&mut self, outcome: Result<(usize, String), String>)
        requires
            old(self).wf(),
        ensures
            final(self).wf(),
            outcome matches Ok((count, content)) ==> final(self)@ == loaded_view(
                (EditorView { tot: count, ..old(self)@ }),
                0,
                content@,
            ),
            outcome matches Err(e) ==> final(self)@ == (EditorView { msg: e@, ..old(self)@ }),
    {
        match outcome {
            Ok((count, content)) => {
                self.tot = count;
                self.page_loaded(0, Ok(content));
            },
            Err(e) => {
                self.msg = e;
            },
        }
    }

    /// Takes the outcome of a `SavePage` request: saving mutates nothing in
    /// the editor; only the status message reports a failure.
    pub fn save_done(&mut self, outcome: Result<(), String>)
        requires
            old(self).wf(),
        ensures
            final(self).wf(),
            outcome is Ok ==> final(self)@ == (EditorView {
                msg: Seq::<char>::empty(),
                ..old(self)@
            }),
            outcome matches Err(e) ==> final(self)@ == (EditorView { msg: e@, ..old(self)@ }),
    {
        match outcome {
            Ok(()) => {
                self.msg = String::new();
            },
            Err(e) => {
                self.msg = e;
            },
        }
    }

    /// Takes the outcome of a `CopyToClipboard` request; failure is a status
    /// message, never fatal.
    pub fn clipboard_done(&mut self, outcome: Result<(), String>)
        requires
            old(self).wf(),
        ensures
            final(self).wf(),
            outcome is Ok ==> final(self)@ == (EditorView { msg: msg_copied(), ..old(self)@ }),
            outcome matches Err(e) ==> final(self)@ == (EditorView { msg: e@, ..old(self)@ }),
    {
        match outcome {
            Ok(()) => {
                self.msg = String::from_str("copied to clipboard");
            },
            Err(e) => {
                self.msg = e;
            },
        }
    }
}

/// The shared movement submodel: which movement unit, if any, a key means.
/// It is read the same way from command and selection mode; in selection
/// mode the moving cursor extends the selection, since the anchor stays.
pub open spec fn movement_spec(k: KeyInput) -> Option<Move> {
    match k.key {
        Key::Char(c) => if c == 'w' {
            Some(Move::WordForward)
        } else if c == 'b' {
            Some(Move::WordBack)
        } else if c == '^' {
            Some(Move::LineHead)
        } else if c == '$' {
            Some(Move::LineEnd)
        } else if c == 'u' && k.ctrl {
            Some(Move::ParaBack)
        } else if c == 'd' && k.ctrl {
            Some(Move::ParaForward)
        } else {
            None
        },
        Key::Left => if k.ctrl {
            Some(Move::WordBack)
        } else {
            Some(Move::Left)
        },
        Key::Right => if k.ctrl {
            Some(Move::WordForward)
        } else {
            Some(Move::Right)
        },
        Key::Up => Some(Move::Up),
        Key::Down => Some(Move::Down),
        Key::Home => Some(Move::LineHead),
        Key::End => Some(Move::LineEnd),
        Key::PageUp => Some(Move::ParaBack),
        Key::PageDown => Some(Move::ParaForward),
        _ => None,
    }
}

/// The movement unit a key means, if any.
fn movement_of(k: KeyInput) -> (r: Option<Move>)
    ensures
        r == movement_spec(k),
{
    match k.key {
        Key::Char(c) => {
            if c == 'w' {
                Some(Move::WordForward)
            } else if c == 'b' {
                Some(Move::WordBack)
            } else if c == '^' {
                Some(Move::LineHead)
            } else if c == '$' {
                Some(Move::LineEnd)
            } else if c == 'u' && k.ctrl {
                Some(Move::ParaBack)
            } else if c == 'd' && k.ctrl {
                Some(Move::ParaForward)
            } else {
                None
            }
        },
        Key::Left => if k.ctrl {
            Some(Move::WordBack)
        } else {
            Some(Move::Left)
        },
        Key::Right => if k.ctrl {
            Some(Move::WordForward)
        } else {
            Some(Move::Right)
        },
        Key::Up => Some(Move::Up),
        Key::Down => Some(Move::Down),
        Key::Home => Some(Move::LineHead),
        Key::End => Some(Move::LineEnd),
        Key::PageUp => Some(Move::ParaBack),
        Key::PageDown => Some(Move::ParaForward),
        _ => None,
    }
}

/// Everything outside the document, the mode and the status is unchanged.
pub open spec fn keeps_surround(pre: EditorView, post: EditorView) -> bool {
    &&& post.dir == pre.dir
    &&& post.id_entry == pre.id_entry
    &&& post.pattern_entry == pre.pattern_entry
    &&& post.pattern == pre.pattern
    &&& post.curr == pre.curr
    &&& post.tot == pre.tot
}

/// The cursor moved by unit `m`; nothing else of the document, and nothing
/// around it, changed; the status is cleared.
pub open spec fn moved(pre: EditorView, post: EditorView, m: Move, mode: Mode) -> bool {
    &&& post.mode == mode
    &&& post.doc.lines == pre.doc.lines
    &&& post.doc.cursor.line as int == move_target(pre.doc.lines, pre.doc.cursor, m).0
    &&& post.doc.cursor.col as int == move_target(pre.doc.lines, pre.doc.cursor, m).1
    &&& post.doc.anchor == pre.doc.anchor
    &&& post.doc.undo_edits == pre.doc.undo_edits
    &&& post.doc.redo_edits == pre.doc.redo_edits
    &&& keeps_surround(pre, post)
    &&& post.msg == Seq::<char>::empty()
}

/// `r` asks to load page `id` of the working directory.
pub open spec fn is_load_request(r: Option<IoRequest>, pre: EditorView, id: u32) -> bool {
    &&& r matches Some(IoRequest::LoadPage { dir, file, id: rid })
    &&& dir@ == pre.dir
    &&& file@ == page_file_name(id as int)
    &&& rid == id
}

/// `r` asks to save the buffer to the current page's file.
pub open spec fn is_save_request(r: Option<IoRequest>, pre: EditorView) -> bool {
    &&& r matches Some(IoRequest::SavePage { dir, file, content })
    &&& dir@ == pre.dir
    &&& file@ == page_file_name(pre.curr as int)
    &&& content@ == join_lines(pre.doc.lines)
}

/// One backward deletion: the character before the cursor, the joining of
/// two lines, or nothing at the buffer's very start.
pub open spec fn backspace_step(pre: DocView, post: DocView) -> bool {
    if pre.cursor.col > 0 {
        edited(
            pre,
            post,
            pre.cursor.line as int,
            pre.cursor.col - 1,
            pre.cursor.line as int,
            pre.cursor.col as int,
            seq![Seq::<char>::empty()],
        )
    } else if pre.cursor.line > 0 {
        edited(
            pre,
            post,
            pre.cursor.line - 1,
            pre.lines[pre.cursor.line - 1].len() as int,
            pre.cursor.line as int,
            0,
            seq![Seq::<char>::empty()],
        )
    } else {
        post == pre
    }
}

/// One cut: the span between anchor and cursor, in document order, removed
/// and recorded; without a selection nothing happens.
pub open spec fn cut_step(pre: DocView, post: DocView) -> bool {
    match pre.anchor {
        None => post == pre,
        Some(a) => {
            let lo = if pos_le(a, pre.cursor) {
                a
            } else {
                pre.cursor
            };
            let hi = if pos_le(a, pre.cursor) {
                pre.cursor
            } else {
                a
            };
            edited(
                pre,
                post,
                lo.line as int,
                lo.col as int,
                hi.line as int,
                hi.col as int,
                seq![Seq::<char>::empty()],
            )
        },
    }
}

/// One undo: the newest record replayed backward, or nothing.
pub open spec fn undo_step(pre: DocView, post: DocView) -> bool {
    if pre.undo_edits.len() == 0 {
        post == pre
    } else {
        let e = pre.undo_edits.last();
        &&& post.lines == apply_bwd(pre.lines, e)
        &&& post.undo_edits == pre.undo_edits.drop_last()
        &&& post.redo_edits == pre.redo_edits.push(e)
        &&& post.anchor is None
        &&& post.cursor.line as int == crate::region::end_line(e.at.line as int, e.old_text)
        &&& post.cursor.col as int == crate::region::end_col(e.at.col as int, e.old_text)
    }
}

/// One redo: the newest undone record replayed forward, or nothing.
pub open spec fn redo_step(pre: DocView, post: DocView) -> bool {
    if pre.redo_edits.len() == 0 {
        post == pre
    } else {
        let e = pre.redo_edits.last();
        &&& post.lines == apply_fwd(pre.lines, e)
        &&& post.redo_edits == pre.redo_edits.drop_last()
        &&& post.undo_edits == pre.undo_edits.push(e)
        &&& post.anchor is None
        &&& post.cursor.line as int == crate::region::end_line(e.at.line as int, e.new_text)
        &&& post.cursor.col as int == crate::region::end_col(e.at.col as int, e.new_text)
    }
}

/// What one key does in command mode: movement first; then the transitions
/// and actions of the command table. An unknown key does nothing but clear
/// the status.
pub open spec fn command_step(
    pre: EditorView,
    post: EditorView,
    k: KeyInput,
    r: Option<IoRequest>,
) -> bool {
    match movement_spec(k) {
        Some(m) => r is None && moved(pre, post, m, Mode::Command),
        None => match k.key {
            Key::Esc => r is None && post == (EditorView {
                mode: Mode::Quit,
                msg: Seq::<char>::empty(),
                ..pre
            }),
            Key::Char(c) => if c == 'q' {
                r is None && post == (EditorView {
                    mode: Mode::Quit,
                    msg: Seq::<char>::empty(),
                    ..pre
                })
            } else if c == 'o' {
                r is None && post == (EditorView {
                    mode: Mode::OpenDirectory,
                    msg: Seq::<char>::empty(),
                    ..pre
                })
            } else if c == 'f' {
                r is None && post == (EditorView {
                    mode: Mode::OpenFile,
                    msg: Seq::<char>::empty(),
                    ..pre
                })
            } else if c == 'i' {
                r is None && post == (EditorView {
                    mode: Mode::Input,
                    msg: Seq::<char>::empty(),
                    ..pre
                })
            } else if c == 'h' {
                r is None && post == (EditorView {
                    mode: Mode::History,
                    msg: Seq::<char>::empty(),
                    ..pre
                })
            } else if c == '/' {
                r is None && post == (EditorView {
                    mode: Mode::Search,
                    msg: Seq::<char>::empty(),
                    ..pre
                })
            } else if c == ' ' {
                r is None && post == (EditorView {
                    mode: Mode::Selection,
                    msg: Seq::<char>::empty(),
                    doc: (DocView { anchor: Some(pre.doc.cursor), ..pre.doc }),
                    ..pre
                })
            } else if c == '*' {
                &&& post == (EditorView { msg: Seq::<char>::empty(), ..pre })
                &&& r matches Some(IoRequest::CopyToClipboard { content })
                &&& content@ == join_lines(pre.doc.lines)
            } else if c == 'n' {
                if pre.curr < u32::MAX {
                    post == (EditorView { msg: Seq::<char>::empty(), ..pre })
                        && is_load_request(r, pre, (pre.curr + 1) as u32)
                } else {
                    r is None && post == (EditorView { msg: msg_last_page(), ..pre })
                }
            } else if c == 'p' {
                if pre.curr > 0 {
                    post == (EditorView { msg: Seq::<char>::empty(), ..pre })
                        && is_load_request(r, pre, (pre.curr - 1) as u32)
                } else {
                    r is None && post == (EditorView { msg: msg_first_page(), ..pre })
                }
            } else if c == 's' && k.ctrl {
                post == (EditorView { msg: Seq::<char>::empty(), ..pre }) && is_save_request(
                    r,
                    pre,
                )
            } else if c == '#' {
                &&& r is None
                &&& post.mode == Mode::Command
                &&& keeps_surround(pre, post)
                &&& post.msg == Seq::<char>::empty()
                &&& edited(
                    pre.doc,
                    post.doc,
                    pre.doc.cursor.line as int,
                    pre.doc.cursor.col as int,
                    pre.doc.cursor.line as int,
                    pre.doc.cursor.col as int,
                    seq![seq!['#', '#', '#']],
                )
            } else if c == 'l' {
                r is None && post == (EditorView {
                    msg: Seq::<char>::empty(),
                    doc: (DocView {
                        lines: lines_of_content(reflow(join_lines(pre.doc.lines))),
                        cursor: Pos { line: 0, col: 0 },
                        anchor: None,
                        undo_edits: Seq::empty(),
                        redo_edits: Seq::empty(),
                    }),
                    ..pre
                })
            } else {
                r is None && post == (EditorView { msg: Seq::<char>::empty(), ..pre })
            },
            _ => r is None && post == (EditorView { msg: Seq::<char>::empty(), ..pre }),
        },
    }
}

/// What one key does in input mode: Esc leaves for command mode; everything
/// else is a raw text edit — a character, a line break, a backward deletion.
pub open spec fn input_step(
    pre: EditorView,
    post: EditorView,
    k: KeyInput,
    r: Option<IoRequest>,
) -> bool {
    &&& r is None
    &&& match k.key {
        Key::Esc => post == (EditorView {
            mode: Mode::Command,
            msg: Seq::<char>::empty(),
            ..pre
        }),
        Key::Char(c) => if k.ctrl {
            post == (EditorView { msg: Seq::<char>::empty(), ..pre })
        } else {
            &&& post.mode == Mode::Input
            &&& keeps_surround(pre, post)
            &&& post.msg == Seq::<char>::empty()
            &&& edited(
                pre.doc,
                post.doc,
                pre.doc.cursor.line as int,
                pre.doc.cursor.col as int,
                pre.doc.cursor.line as int,
                pre.doc.cursor.col as int,
                seq![seq![c]],
            )
        },
        Key::Tab => {
            &&& post.mode == Mode::Input
            &&& keeps_surround(pre, post)
            &&& post.msg == Seq::<char>::empty()
            &&& edited(
                pre.doc,
                post.doc,
                pre.doc.cursor.line as int,
                pre.doc.cursor.col as int,
                pre.doc.cursor.line as int,
                pre.doc.cursor.col as int,
                seq![seq!['\t']],
            )
        },
        Key::Enter => {
            &&& post.mode == Mode::Input
            &&& keeps_surround(pre, post)
            &&& post.msg == Seq::<char>::empty()
            &&& edited(
                pre.doc,
                post.doc,
                pre.doc.cursor.line as int,
                pre.doc.cursor.col as int,
                pre.doc.cursor.line as int,
                pre.doc.cursor.col as int,
                seq![Seq::<char>::empty(), Seq::<char>::empty()],
            )
        },
        Key::Backspace => {
            &&& post.mode == Mode::Input
            &&& keeps_surround(pre, post)
            &&& post.msg == Seq::<char>::empty()
            &&& backspace_step(pre.doc, post.doc)
        },
        _ => post == (EditorView { msg: Seq::<char>::empty(), ..pre }),
    }
}

/// What one key does in selection mode: movement extends the selection; `x`
/// cuts it and returns to command mode; Esc cancels it.
pub open spec fn selection_step(
    pre: EditorView,
    post: EditorView,
    k: KeyInput,
    r: Option<IoRequest>,
) -> bool {
    &&& r is None
    &&& match movement_spec(k) {
        Some(m) => moved(pre, post, m, Mode::Selection),
        None => match k.key {
            Key::Esc => post == (EditorView {
                mode: Mode::Command,
                msg: Seq::<char>::empty(),
                doc: (DocView { anchor: None, ..pre.doc }),
                ..pre
            }),
            Key::Char(c) => if c == 'x' {
                &&& post.mode == Mode::Command
                &&& keeps_surround(pre, post)
                &&& post.msg == Seq::<char>::empty()
                &&& cut_step(pre.doc, post.doc)
            } else {
                post == (EditorView { msg: Seq::<char>::empty(), ..pre })
            },
            _ => post == (EditorView { msg: Seq::<char>::empty(), ..pre }),
        },
    }
}

/// What one key does in search mode: Enter compiles the entry and searches
/// forward, Shift+Enter backward; a pattern that does not compile is a
/// status message and the mode stays; Esc keeps the last compiled pattern;
/// other keys edit the entry.
pub open spec fn search_step(
    pre: EditorView,
    post: EditorView,
    k: KeyInput,
    r: Option<IoRequest>,
) -> bool {
    &&& r is None
    &&& match k.key {
        Key::Esc => post == (EditorView {
            mode: Mode::Command,
            msg: Seq::<char>::empty(),
            ..pre
        }),
        Key::Enter => {
            if pattern_compiles(pre.pattern_entry) {
                &&& post.mode == Mode::Search
                &&& post.pattern == Some(pre.pattern_entry)
                &&& post.dir == pre.dir
                &&& post.id_entry == pre.id_entry
                &&& post.pattern_entry == pre.pattern_entry
                &&& post.curr == pre.curr
                &&& post.tot == pre.tot
                &&& post.doc.lines == pre.doc.lines
                &&& post.doc.anchor == pre.doc.anchor
                &&& post.doc.undo_edits == pre.doc.undo_edits
                &&& post.doc.redo_edits == pre.doc.redo_edits
                &&& {
                    let res = if k.shift {
                        bwd_search(
                            pre.pattern_entry,
                            pre.doc.lines,
                            pre.doc.cursor.line as int,
                            pre.doc.cursor.col as int,
                        )
                    } else {
                        fwd_search(
                            pre.pattern_entry,
                            pre.doc.lines,
                            pre.doc.cursor.line as int,
                            pre.doc.cursor.col + 1,
                        )
                    };
                    match res {
                        Some(q) => post.doc.cursor == q && post.msg == Seq::<char>::empty(),
                        None => post.doc.cursor == pre.doc.cursor && post.msg == msg_no_match(),
                    }
                }
            } else {
                post == (EditorView { msg: msg_bad_pattern(), ..pre })
            }
        },
        Key::Char(c) => if k.ctrl {
            post == (EditorView { msg: Seq::<char>::empty(), ..pre })
        } else {
            post == (EditorView {
                pattern_entry: pre.pattern_entry.push(c),
                msg: Seq::<char>::empty(),
                ..pre
            })
        },
        Key::Backspace => post == (EditorView {
            pattern_entry: if pre.pattern_entry.len() > 0 {
                pre.pattern_entry.drop_last()
            } else {
                pre.pattern_entry
            },
            msg: Seq::<char>::empty(),
            ..pre
        }),
        _ => post == (EditorView { msg: Seq::<char>::empty(), ..pre }),
    }
}

/// What one key does in history mode: `u` undoes, `r` redoes, Esc leaves.
pub open spec fn history_step(
    pre: EditorView,
    post: EditorView,
    k: KeyInput,
    r: Option<IoRequest>,
) -> bool {
    &&& r is None
    &&& match k.key {
        Key::Esc => post == (EditorView {
            mode: Mode::Command,
            msg: Seq::<char>::empty(),
            ..pre
        }),
        Key::Char(c) => if c == 'u' {
            &&& post.mode == Mode::History
            &&& keeps_surround(pre, post)
            &&& post.msg == Seq::<char>::empty()
            &&& undo_step(pre.doc, post.doc)
        } else if c == 'r' {
            &&& post.mode == Mode::History
            &&& keeps_surround(pre, post)
            &&& post.msg == Seq::<char>::empty()
            &&& redo_step(pre.doc, post.doc)
        } else {
            post == (EditorView { msg: Seq::<char>::empty(), ..pre })
        },
        _ => post == (EditorView { msg: Seq::<char>::empty(), ..pre }),
    }
}

/// What one key does while entering a directory path: Enter asks the
/// surroundings to open it, Esc goes back keeping the entry, other keys edit
/// the entry.
pub open spec fn open_dir_step(
    pre: EditorView,
    post: EditorView,
    k: KeyInput,
    r: Option<IoRequest>,
) -> bool {
    match k.key {
        Key::Esc => r is None && post == (EditorView {
            mode: Mode::Command,
            msg: Seq::<char>::empty(),
            ..pre
        }),
        Key::Enter => {
            &&& post == (EditorView { msg: Seq::<char>::empty(), ..pre })
            &&& r matches Some(IoRequest::OpenDirectory { dir })
            &&& dir@ == pre.dir
        },
        Key::Char(c) => r is None && if k.ctrl {
            post == (EditorView { msg: Seq::<char>::empty(), ..pre })
        } else {
            post == (EditorView { dir: pre.dir.push(c), msg: Seq::<char>::empty(), ..pre })
        },
        Key::Backspace => r is None && post == (EditorView {
            dir: if pre.dir.len() > 0 {
                pre.dir.drop_last()
            } else {
                pre.dir
            },
            msg: Seq::<char>::empty(),
            ..pre
        }),
        _ => r is None && post == (EditorView { msg: Seq::<char>::empty(), ..pre }),
    }
}

/// What one key does while entering a page id: Enter parses the entry and
/// asks for that page — a token that is not a number in range is a status
/// message and the prompt stays — Esc goes back, other keys edit the entry.
pub open spec fn open_file_step(
    pre: EditorView,
    post: EditorView,
    k: KeyInput,
    r: Option<IoRequest>,
) -> bool {
    match k.key {
        Key::Esc => r is None && post == (EditorView {
            mode: Mode::Command,
            msg: Seq::<char>::empty(),
            ..pre
        }),
        Key::Enter => {
            if pre.id_entry.len() > 0 && all_digits(pre.id_entry) && dec_val(pre.id_entry)
                <= u32::MAX {
                &&& post == (EditorView { msg: Seq::<char>::empty(), ..pre })
                &&& is_load_request(r, pre, dec_val(pre.id_entry) as u32)
            } else {
                r is None && post == (EditorView { msg: msg_bad_id(), ..pre })
            }
        },
        Key::Char(c) => r is None && if k.ctrl {
            post == (EditorView { msg: Seq::<char>::empty(), ..pre })
        } else {
            post == (EditorView {
                id_entry: pre.id_entry.push(c),
                msg: Seq::<char>::empty(),
                ..pre
            })
        },
        Key::Backspace => r is None && post == (EditorView {
            id_entry: if pre.id_entry.len() > 0 {
                pre.id_entry.drop_last()
            } else {
                pre.id_entry
            },
            msg: Seq::<char>::empty(),
            ..pre
        }),
        _ => r is None && post == (EditorView { msg: Seq::<char>::empty(), ..pre }),
    }
}

impl Editor {
    /// Interprets one input event according to the current mode. The mode
    /// table is deterministic and exhaustive: each mode's effect is pinned by
    /// its step predicate. From any mode but command and quit, Esc returns
    /// to command mode; in command mode Esc — like `q` — quits, and quit is
    /// reached no other way. Quit is terminal. Errors never escape: a bad
    /// page id, a bad pattern, a page at the edge of the id range each
    /// become a status message.
    pub fn dispatch(&mut self, k: KeyInput) -> (r: Option<IoRequest>)
        requires
            old(self).wf(),
        ensures
            final(self).wf(),
            old(self)@.mode == Mode::Command ==> command_step(old(self)@, final(self)@, k, r),
            old(self)@.mode == Mode::OpenDirectory ==> open_dir_step(
                old(self)@,
                final(self)@,
                k,
                r,
            ),
            old(self)@.mode == Mode::OpenFile ==> open_file_step(old(self)@, final(self)@, k, r),
            old(self)@.mode == Mode::Input ==> input_step(old(self)@, final(self)@, k, r),
            old(self)@.mode == Mode::Selection ==> selection_step(old(self)@, final(self)@, k, r),
            old(self)@.mode == Mode::Search ==> search_step(old(self)@, final(self)@, k, r),
            old(self)@.mode == Mode::History ==> history_step(old(self)@, final(self)@, k, r),
            old(self)@.mode == Mode::Quit ==> r is None && final(self)@ == old(self)@,
            k.key == Key::Esc ==> final(self)@.mode == (if old(self)@.mode == Mode::Command
                || old(self)@.mode == Mode::Quit {
                Mode::Quit
            } else {
                Mode::Command
            }),
            final(self)@.mode == Mode::Quit ==> old(self)@.mode == Mode::Quit || (old(
                self,
            )@.mode == Mode::Command && (k.key == Key::Esc || k.key == Key::Char('q'))),
    {
        match self.mode {
            Mode::Command => self.command_input(k),
            Mode::OpenDirectory => self.open_dir_input(k),
            Mode::OpenFile => self.open_file_input(k),
            Mode::Input => self.input_input(k),
            Mode::Selection => self.select_input(k),
            Mode::Search => self.search_input(k),
            Mode::History => self.history_input(k),
            Mode::Quit => None,
        }
    }

    fn command_input(&mut self, k: KeyInput) -> (r: Option<IoRequest>)
        requires
            old(self).wf(),
            old(self)@.mode == Mode::Command,
        ensures
            final(self).wf(),
            command_step(old(self)@, final(self)@, k, r),
    {
        match movement_of(k) {
            Some(m) => {
                self.doc.move_cursor(m);
                self.msg = String::new();
                None
            },
            None => match k.key {
                Key::Esc => {
                    self.mode = Mode::Quit;
                    self.msg = String::new();
                    None
                },
                Key::Char(c) => {
                    if c == 'q' {
                        self.mode = Mode::Quit;
                        self.msg = String::new();
                        None
                    } else if c == 'o' {
                        self.mode = Mode::OpenDirectory;
                        self.msg = String::new();
                        None
                    } else if c == 'f' {
                        self.mode = Mode::OpenFile;
                        self.msg = String::new();
                        None
                    } else if c == 'i' {
                        self.mode = Mode::Input;
                        self.msg = String::new();
                        None
                    } else if c == 'h' {
                        self.mode = Mode::History;
                        self.msg = String::new();
                        None
                    } else if c == '/' {
                        self.mode = Mode::Search;
                        self.msg = String::new();
                        None
                    } else if c == ' ' {
                        self.doc.start_selection();
                        self.mode = Mode::Selection;
                        self.msg = String::new();
                        None
                    } else if c == '*' {
                        let content = self.doc.content_chars();
                        let text = string_of_chars(&content);
                        self.msg = String::new();
                        Some(IoRequest::CopyToClipboard { content: text })
                    } else if c == 'n' {
                        match crate::pages::next_page_id(self.curr) {
                            Some(id) => {
                                let dir = string_of_chars(&self.dir);
                                let file = format_file_name(id);
                                self.msg = String::new();
                                Some(IoRequest::LoadPage { dir, file, id })
                            },
                            None => {
                                self.msg = String::from_str("no next page id");
                                None
                            },
                        }
                    } else if c == 'p' {
                        match crate::pages::prev_page_id(self.curr) {
                            Some(id) => {
                                let dir = string_of_chars(&self.dir);
                                let file = format_file_name(id);
                                self.msg = String::new();
                                Some(IoRequest::LoadPage { dir, file, id })
                            },
                            None => {
                                self.msg = String::from_str("already at page zero");
                                None
                            },
                        }
                    } else if c == 's' && k.ctrl {
                        let dir = string_of_chars(&self.dir);
                        let file = format_file_name(self.curr);
                        let content = self.doc.content_chars();
                        let text = string_of_chars(&content);
                        self.msg = String::new();
                        Some(IoRequest::SavePage { dir, file, content: text })
                    } else if c == '#' {
                        let mut marker: Vec<char> = Vec::new();
                        marker.push('#');
                        marker.push('#');
                        marker.push('#');
                        proof {
                            assert(marker@ =~= seq!['#', '#', '#']);
                        }
                        self.doc.insert_text(marker);
                        self.msg = String::new();
                        None
                    } else if c == 'l' {
                        let content = self.doc.content_chars();
                        let repaired = reflow_chars(&content);
                        let lines = content_to_lines(&repaired);
                        self.doc.replace_wholesale(lines);
                        self.msg = String::new();
                        proof {
                            assert(self@.doc.undo_edits =~= Seq::<EditView>::empty());
                            assert(self@.doc.redo_edits =~= Seq::<EditView>::empty());
                        }
                        None
                    } else {
                        self.msg = String::new();
                        None
                    }
                },
                _ => {
                    self.msg = String::new();
                    None
                },
            },
        }
    }

    fn input_input(&mut self, k: KeyInput) -> (r: Option<IoRequest>)
        requires
            old(self).wf(),
            old(self)@.mode == Mode::Input,
        ensures
            final(self).wf(),
            input_step(old(self)@, final(self)@, k, r),
    {
        match k.key {
            Key::Esc => {
                self.mode = Mode::Command;
                self.msg = String::new();
            },
            Key::Char(c) => {
                if !k.ctrl {
                    self.doc.insert_char(c);
                }
                self.msg = String::new();
            },
            Key::Tab => {
                self.doc.insert_char('\t');
                self.msg = String::new();
            },
            Key::Enter => {
                self.doc.insert_newline();
                self.msg = String::new();
            },
            Key::Backspace => {
                self.doc.backspace();
                self.msg = String::new();
            },
            _ => {
                self.msg = String::new();
            },
        }
        None
    }

    fn select_input(&mut self, k: KeyInput) -> (r: Option<IoRequest>)
        requires
            old(self).wf(),
            old(self)@.mode == Mode::Selection,
        ensures
            final(self).wf(),
            selection_step(old(self)@, final(self)@, k, r),
    {
        match movement_of(k) {
            Some(m) => {
                self.doc.move_cursor(m);
                self.msg = String::new();
            },
            None => match k.key {
                Key::Esc => {
                    self.doc.cancel_selection();
                    self.mode = Mode::Command;
                    self.msg = String::new();
                },
                Key::Char(c) => {
                    if c == 'x' {
                        let _cut = self.doc.cut_selection();
                        self.mode = Mode::Command;
                    }
                    self.msg = String::new();
                },
                _ => {
                    self.msg = String::new();
                },
            },
        }
        None
    }

    fn search_input(&mut self, k: KeyInput) -> (r: Option<IoRequest>)
        requires
            old(self).wf(),
            old(self)@.mode == Mode::Search,
        ensures
            final(self).wf(),
            search_step(old(self)@, final(self)@, k, r),
    {
        match k.key {
            Key::Esc => {
                self.mode = Mode::Command;
                self.msg = String::new();
            },
            Key::Enter => {
                let pstr = string_of_chars(&self.pattern_entry);
                match CompiledPattern::compile(pstr.as_str()) {
                    Some(cp) => {
                        let found = if k.shift {
                            self.doc.search_backward(&cp)
                        } else {
                            self.doc.search_forward(&cp)
                        };
                        self.pattern = Some(cp);
                        if found {
                            self.msg = String::new();
                        } else {
                            self.msg = String::from_str("no match");
                        }
                    },
                    None => {
                        self.msg = String::from_str("invalid search pattern");
                    },
                }
            },
            Key::Char(c) => {
                if !k.ctrl {
                    self.pattern_entry.push(c);
                }
                self.msg = String::new();
            },
            Key::Backspace => {
                if self.pattern_entry.len() > 0 {
                    let _ = self.pattern_entry.pop();
                    proof {
                        assert(self.pattern_entry@ =~= old(self).pattern_entry@.drop_last());
                    }
                }
                self.msg = String::new();
            },
            _ => {
                self.msg = String::new();
            },
        }
        None
    }

    fn history_input(&mut self, k: KeyInput) -> (r: Option<IoRequest>)
        requires
            old(self).wf(),
            old(self)@.mode == Mode::History,
        ensures
            final(self).wf(),
            history_step(old(self)@, final(self)@, k, r),
    {
        match k.key {
            Key::Esc => {
                self.mode = Mode::Command;
                self.msg = String::new();
            },
            Key::Char(c) => {
                if c == 'u' {
                    let _done = self.doc.undo();
                } else if c == 'r' {
                    let _done = self.doc.redo();
                }
                self.msg = String::new();
            },
            _ => {
                self.msg = String::new();
            },
        }
        None
    }

    fn open_dir_input(&mut self, k: KeyInput) -> (r: Option<IoRequest>)
        requires
            old(self).wf(),
        ensures
            final(self).wf(),
            open_dir_step(old(self)@, final(self)@, k, r),
    {
        match k.key {
            Key::Esc => {
                self.mode = Mode::Command;
                self.msg = String::new();
                None
            },
            Key::Enter => {
                let dir = string_of_chars(&self.dir);
                self.msg = String::new();
                Some(IoRequest::OpenDirectory { dir })
            },
            Key::Char(c) => {
                if !k.ctrl {
                    self.dir.push(c);
                }
                self.msg = String::new();
                None
            },
            Key::Backspace => {
                if self.dir.len() > 0 {
                    let _ = self.dir.pop();
                    proof {
                        assert(self.dir@ =~= old(self).dir@.drop_last());
                    }
                }
                self.msg = String::new();
                None
            },
            _ => {
                self.msg = String::new();
                None
            },
        }
    }

    fn open_file_input(&mut self, k: KeyInput) -> (r: Option<IoRequest>)
        requires
            old(self).wf(),
        ensures
            final(self).wf(),
            open_file_step(old(self)@, final(self)@, k, r),
    {
        match k.key {
            Key::Esc => {
                self.mode = Mode::Command;
                self.msg = String::new();
                None
            },
            Key::Enter => {
                match parse_page_id(&self.id_entry) {
                    Some(id) => {
                        let dir = string_of_chars(&self.dir);
                        let file = format_file_name(id);
                        self.msg = String::new();
                        Some(IoRequest::LoadPage { dir, file, id })
                    },
                    None => {
                        self.msg = String::from_str("invalid page id");
                        None
                    },
                }
            },
            Key::Char(c) => {
                if !k.ctrl {
                    self.id_entry.push(c);
                }
                self.msg = String::new();
                None
            },
            Key::Backspace => {
                if self.id_entry.len() > 0 {
                    let _ = self.id_entry.pop();
                    proof {
                        assert(self.id_entry@ =~= old(self).id_entry@.drop_last());
                    }
                }
                self.msg = String::new();
                None
            },
            _ => {
                self.msg = String::new();
                None
            },
        }
    }
}

/// Loading a page and saving it back with no edits writes the page's own
/// text, up to the one defined normalization: a single trailing line break
/// is dropped. The text a save writes is the buffer's lines joined by
/// `'\n'`, and a load builds those lines from the raw text.
pub proof fn lemma_load_save_round_trip(content: Seq<char>)
    ensures
        join_lines(lines_of_content(content)) == strip_trailing_newline(content),
{
    if content.len() == 0 {
        assert(join_lines(lines_of_content(content)) =~= content);
    } else {
        crate::text::lemma_join_split(content);
    }
}

/// Stepping to the next page and back loads the original page id again, and
/// loading a page's own text restores the buffer exactly: next-then-prev
/// brings the editor back to where it stood, as long as the files on disk
/// are unchanged in between.
pub proof fn lemma_next_prev_round_trip(e: EditorView, c: Seq<char>, cn: Seq<char>)
    requires
        0 < e.curr < u32::MAX,
        e.doc == (DocView {
            lines: lines_of_content(c),
            cursor: Pos { line: 0, col: 0 },
            anchor: None,
            undo_edits: Seq::empty(),
            redo_edits: Seq::empty(),
        }),
    ensures
        ({
            let after_next = loaded_view(e, (e.curr + 1) as u32, cn);
            let after_prev = loaded_view(after_next, (after_next.curr - 1) as u32, c);
            &&& after_next.curr == e.curr + 1
            &&& after_prev.curr == e.curr
            &&& after_prev.doc == e.doc
            &&& after_prev.id_entry == e.id_entry || after_prev.id_entry == page_token(
                e.curr as int,
            )
        }),
{
}

} // verus!
