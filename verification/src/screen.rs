//! The screen/cursor state machine: consumes grid-update events in
//! engine order and decides, per event, whether to emit text, emit a
//! line break, ask the engine to scroll, or signal completion.
//!
//! Emitted terminal bytes are appended to a caller-supplied `String`;
//! framed requests back to the engine are appended to a caller-supplied
//! byte buffer.  The caller writes both out after each event.

use vstd::prelude::*;
use vstd::string::StrSliceExecFns;
use vstd::string::StringExecFns;
use crate::HEIGHT;
use crate::WIDTH;
use crate::ProtocolError;
use crate::highlight::Highlight;
use crate::highlight::HighlightV;
use crate::highlight::HlEntry;
use crate::highlight::HlEntryV;
use crate::highlight::apply_event_spec;
use crate::highlight::collect_spec;
use crate::highlight::collect_hl_event;
use crate::highlight::wire_bg;
use crate::highlight::wire_fg;
use crate::msgpack::attach_msg;
use crate::msgpack::attach_msg_bytes;
use crate::msgpack::command_msg;
use crate::msgpack::command_msg_bytes;
use crate::msgpack::quit_msg;
use crate::msgpack::quit_msg_bytes;
use crate::msgpack::scroll_msg;
use crate::msgpack::scroll_msg_bytes;
use crate::msgpack::set_lines_msg;
use crate::msgpack::set_lines_msg_bytes;
use crate::synattr::AttrV;
use crate::synattr::sgr_of;

verus! {

// ---------------------------------------------------------------------------
// Events
// ---------------------------------------------------------------------------

/// One grid-update command, already lifted off the wire into plain
/// values.  A batched kind carries all its instances; which instance
/// counts is this module's decision.
pub enum UpdateEvent {
    /// Text fragments written at the cursor, in engine order.
    Put(Vec<String>),
    /// Cursor repositionings; only the last instance takes effect.
    CursorGoto(Vec<(usize, usize)>),
    /// An attribute change: the last payload map, or nothing at all.
    HighlightSet(Option<Vec<HlEntry>>),
    /// A default-foreground change; only the last value counts.
    UpdateFg(Option<u64>),
    /// A default-background change; only the last value counts.
    UpdateBg(Option<u64>),
    /// Any other update kind, which the interpreter ignores.
    Other,
}

/// The value of an update event.
pub enum UpdateV {
    Put(Seq<Seq<char>>),
    CursorGoto(Seq<(usize, usize)>),
    HighlightSet(Option<Seq<HlEntryV>>),
    UpdateFg(Option<u64>),
    UpdateBg(Option<u64>),
    Other,
}

impl View for UpdateEvent {
    type V = UpdateV;

    open spec fn view(&self) -> UpdateV {
        match self {
            UpdateEvent::Put(frags) => UpdateV::Put(frags.deep_view()),
            UpdateEvent::CursorGoto(insts) => UpdateV::CursorGoto(insts@),
            UpdateEvent::HighlightSet(p) => UpdateV::HighlightSet(
                match p {
                    Some(entries) => Some(entries.deep_view()),
                    None => None,
                },
            ),
            UpdateEvent::UpdateFg(v) => UpdateV::UpdateFg(*v),
            UpdateEvent::UpdateBg(v) => UpdateV::UpdateBg(*v),
            UpdateEvent::Other => UpdateV::Other,
        }
    }
}

impl DeepView for UpdateEvent {
    type V = UpdateV;

    open spec fn deep_view(&self) -> UpdateV {
        self.view()
    }
}

/// One inbound protocol message, already decoded: a notification with
/// its method name and update commands, a response to an earlier
/// request (drained and discarded), or anything else.
pub enum Inbound {
    Notification(String, Vec<UpdateEvent>),
    Response,
    Other,
}

/// The value of an inbound message.
pub enum InboundV {
    Notification(Seq<char>, Seq<UpdateV>),
    Response,
    Other,
}

impl View for Inbound {
    type V = InboundV;

    open spec fn view(&self) -> InboundV {
        match self {
            Inbound::Notification(m, ups) => InboundV::Notification(m@, ups.deep_view()),
            Inbound::Response => InboundV::Response,
            Inbound::Other => InboundV::Other,
        }
    }
}

// ---------------------------------------------------------------------------
// The interpreter state and its value
// ---------------------------------------------------------------------------

/// The value of the interpreter state.
#[verifier::ext_equal]
pub struct NvimV {
    pub row: nat,
    pub col: nat,
    pub expected_line: nat,
    pub offset: nat,
    pub first_draw: bool,
    pub modeline: bool,
    pub eof: bool,
    pub finished: bool,
    pub hl: HighlightV,
}

/// The screen-update interpreter: virtual cursor, content-line counter,
/// mode flags and highlight state.
pub struct Nvim {
    pub cursor_row: usize,
    pub cursor_col: usize,
    pub expected_line: usize,
    pub offset: usize,
    pub first_draw: bool,
    pub modeline: bool,
    pub eof: bool,
    pub finished: bool,
    pub hl: Highlight,
}

impl View for Nvim {
    type V = NvimV;

    open spec fn view(&self) -> NvimV {
        NvimV {
            row: self.cursor_row as nat,
            col: self.cursor_col as nat,
            expected_line: self.expected_line as nat,
            offset: self.offset as nat,
            first_draw: self.first_draw,
            modeline: self.modeline,
            eof: self.eof,
            finished: self.finished,
            hl: self.hl@,
        }
    }
}

// ---------------------------------------------------------------------------
// Transition specifications
// ---------------------------------------------------------------------------

/// The line terminator: the default attribute escape, clear to end of
/// line, newline.
pub open spec fn nl_of(d: AttrV) -> Seq<char> {
    sgr_of(d) + "\u{1b}[K\n"@
}

/// All put fragments joined in arrival order.
pub open spec fn frags_concat(frags: Seq<Seq<char>>) -> Seq<char>
    decreases frags.len(),
{
    if frags.len() == 0 {
        Seq::empty()
    } else {
        frags_concat(frags.drop_last()) + frags.last()
    }
}

/// A put event reaches the output only outside the first draw and the
/// modeline, before completion, and only for rows whose content has
/// been pushed.
pub open spec fn put_emits(s: NvimV) -> bool {
    !s.first_draw && !s.modeline && !s.finished && s.expected_line >= s.row
}

/// An emitting put that would run past the right edge of the grid is a
/// protocol desynchronization.
pub open spec fn put_err(s: NvimV, text: Seq<char>) -> bool {
    put_emits(s) && s.col + s.offset + text.len() > WIDTH
}

/// What a put writes: pending blank columns padded with the default
/// attribute, then the current attribute escape, then the text.
pub open spec fn put_out(s: NvimV, text: Seq<char>) -> Seq<char> {
    if put_emits(s) {
        (if s.offset != 0 {
            sgr_of(s.hl.dflt) + crate::numfmt::spaces_of(s.offset)
        } else {
            Seq::empty()
        }) + sgr_of(s.hl.current) + text
    } else {
        Seq::empty()
    }
}

/// How a put moves the state: an emitting put advances the column and
/// clears the pending offset; a put seen on the modeline ends the first
/// draw.
pub open spec fn put_state(s: NvimV, text: Seq<char>) -> NvimV {
    if put_emits(s) {
        NvimV { col: s.col + s.offset + text.len(), offset: 0, ..s }
    } else if s.modeline {
        NvimV { first_draw: false, ..s }
    } else {
        s
    }
}

/// The completion condition: past the first draw, with all input pushed
/// and the cursor parked on the last content line, any move to a
/// different row means the engine has nothing more to render.
pub open spec fn goto_finishes(s: NvimV, row: nat) -> bool {
    !s.first_draw && s.eof && s.expected_line == s.row && row != s.row
}

/// How a cursor move transforms the state.
pub open spec fn goto_state(s: NvimV, row: nat, col: nat) -> NvimV {
    if s.finished {
        s
    } else {
        let s1 = NvimV { modeline: false, offset: col, ..s };
        if goto_finishes(s, row) {
            NvimV { finished: true, ..s1 }
        } else if row + 2 >= HEIGHT {
            NvimV { modeline: true, row: 0, col: 0, offset: 0, ..s1 }
        } else if s.first_draw || s.expected_line < row {
            s1
        } else if row == s.row + 1 {
            NvimV { row: row, col: 0, ..s1 }
        } else if row == s.row && col > s.col {
            NvimV { offset: (col - s.col) as nat, ..s1 }
        } else {
            s1
        }
    }
}

/// What a cursor move emits to the terminal: a line terminator on
/// completion and on each new-line transition, nothing otherwise.
pub open spec fn goto_out(s: NvimV, row: nat, col: nat) -> Seq<char> {
    if s.finished {
        Seq::empty()
    } else if goto_finishes(s, row) {
        nl_of(s.hl.dflt)
    } else if row + 2 >= HEIGHT {
        Seq::empty()
    } else if s.first_draw || s.expected_line < row {
        Seq::empty()
    } else if row == s.row + 1 {
        nl_of(s.hl.dflt)
    } else {
        Seq::empty()
    }
}

/// What a cursor move sends back to the engine: quit on completion, a
/// scroll when the modeline is reached after the first draw.
pub open spec fn goto_cmds(s: NvimV, row: nat, col: nat) -> Seq<u8> {
    if s.finished {
        Seq::empty()
    } else if goto_finishes(s, row) {
        quit_msg_bytes()
    } else if row + 2 >= HEIGHT && !s.first_draw {
        scroll_msg_bytes((HEIGHT - 2) as u64)
    } else {
        Seq::empty()
    }
}

/// How an attribute-change event transforms the state: no payload resets
/// `current` to `default`; a payload patches the fields it carries.
pub open spec fn hlset_state(s: NvimV, payload: Option<Seq<HlEntryV>>) -> NvimV {
    match payload {
        None => NvimV {
            hl: HighlightV { current: s.hl.dflt, dflt: s.hl.dflt, truecolor: s.hl.truecolor },
            ..s
        },
        Some(entries) => match collect_spec(entries) {
            Some(ev) => NvimV { hl: apply_event_spec(s.hl, ev), ..s },
            None => s,
        },
    }
}

/// The error one update raises, if any.  A finished interpreter
/// processes nothing.
pub open spec fn step_err(s: NvimV, u: UpdateV) -> Option<ProtocolError> {
    if s.finished {
        None
    } else {
        match u {
            UpdateV::Put(frags) => if put_err(s, frags_concat(frags)) {
                Some(ProtocolError::PutPastGridEdge)
            } else {
                None
            },
            UpdateV::HighlightSet(Some(entries)) => if collect_spec(entries) is None {
                Some(ProtocolError::BadHighlightValue)
            } else {
                None
            },
            _ => None,
        }
    }
}

/// How one update transforms the state.
pub open spec fn step_state(s: NvimV, u: UpdateV) -> NvimV {
    if s.finished || step_err(s, u) is Some {
        s
    } else {
        match u {
            UpdateV::Put(frags) => put_state(s, frags_concat(frags)),
            UpdateV::CursorGoto(insts) => if insts.len() == 0 {
                s
            } else {
                goto_state(s, insts.last().0 as nat, insts.last().1 as nat)
            },
            UpdateV::HighlightSet(p) => hlset_state(s, p),
            UpdateV::UpdateFg(Some(v)) => NvimV {
                hl: HighlightV {
                    current: s.hl.current,
                    dflt: AttrV { fg: wire_fg(v, s.hl.truecolor, "39"@), ..s.hl.dflt },
                    truecolor: s.hl.truecolor,
                },
                ..s
            },
            UpdateV::UpdateFg(None) => s,
            UpdateV::UpdateBg(Some(v)) => NvimV {
                hl: HighlightV {
                    current: s.hl.current,
                    dflt: AttrV { bg: wire_bg(v, s.hl.truecolor, "49"@), ..s.hl.dflt },
                    truecolor: s.hl.truecolor,
                },
                ..s
            },
            UpdateV::UpdateBg(None) => s,
            UpdateV::Other => s,
        }
    }
}

/// What one update emits to the terminal.
pub open spec fn step_out(s: NvimV, u: UpdateV) -> Seq<char> {
    if s.finished || step_err(s, u) is Some {
        Seq::empty()
    } else {
        match u {
            UpdateV::Put(frags) => put_out(s, frags_concat(frags)),
            UpdateV::CursorGoto(insts) => if insts.len() == 0 {
                Seq::empty()
            } else {
                goto_out(s, insts.last().0 as nat, insts.last().1 as nat)
            },
            _ => Seq::empty(),
        }
    }
}

/// What one update sends back to the engine.
pub open spec fn step_cmds(s: NvimV, u: UpdateV) -> Seq<u8> {
    if s.finished || step_err(s, u) is Some {
        Seq::empty()
    } else {
        match u {
            UpdateV::CursorGoto(insts) => if insts.len() == 0 {
                Seq::empty()
            } else {
                goto_cmds(s, insts.last().0 as nat, insts.last().1 as nat)
            },
            _ => Seq::empty(),
        }
    }
}

/// The state after a whole batch: updates apply in order, stopping at
/// the first error and once completion is signalled.
pub open spec fn run_state(s: NvimV, us: Seq<UpdateV>) -> NvimV
    decreases us.len(),
{
    if us.len() == 0 {
        s
    } else if step_err(s, us[0]) is Some {
        s
    } else if step_state(s, us[0]).finished {
        step_state(s, us[0])
    } else {
        run_state(step_state(s, us[0]), us.skip(1))
    }
}

/// Everything a batch emits to the terminal.
pub open spec fn run_out(s: NvimV, us: Seq<UpdateV>) -> Seq<char>
    decreases us.len(),
{
    if us.len() == 0 {
        Seq::empty()
    } else if step_err(s, us[0]) is Some {
        Seq::empty()
    } else if step_state(s, us[0]).finished {
        step_out(s, us[0])
    } else {
        step_out(s, us[0]) + run_out(step_state(s, us[0]), us.skip(1))
    }
}

/// Everything a batch sends back to the engine.
pub open spec fn run_cmds(s: NvimV, us: Seq<UpdateV>) -> Seq<u8>
    decreases us.len(),
{
    if us.len() == 0 {
        Seq::empty()
    } else if step_err(s, us[0]) is Some {
        Seq::empty()
    } else if step_state(s, us[0]).finished {
        step_cmds(s, us[0])
    } else {
        step_cmds(s, us[0]) + run_cmds(step_state(s, us[0]), us.skip(1))
    }
}

/// The first error a batch raises, if any.
pub open spec fn run_err(s: NvimV, us: Seq<UpdateV>) -> Option<ProtocolError>
    decreases us.len(),
{
    if us.len() == 0 {
        None
    } else if step_err(s, us[0]) is Some {
        step_err(s, us[0])
    } else if step_state(s, us[0]).finished {
        None
    } else {
        run_err(step_state(s, us[0]), us.skip(1))
    }
}

/// The update commands an inbound message carries: only a `redraw`
/// notification has any.
pub open spec fn msg_updates(m: InboundV) -> Seq<UpdateV> {
    match m {
        InboundV::Notification(method, ups) => if method == "redraw"@ {
            ups
        } else {
            Seq::empty()
        },
        _ => Seq::empty(),
    }
}

// ---------------------------------------------------------------------------
// The interpreter
// ---------------------------------------------------------------------------

impl Nvim {
    /// A fresh interpreter: cursor at the origin, nothing pushed, first
    /// draw in progress, both attribute sets terminal-neutral.
    pub fn new(truecolor: bool) -> (r: Nvim)
        ensures
            r@ == (NvimV {
                row: 0,
                col: 0,
                expected_line: 0,
                offset: 0,
                first_draw: true,
                modeline: false,
                eof: false,
                finished: false,
                hl: HighlightV {
                    current: crate::synattr::default_attr_v(),
                    dflt: crate::synattr::default_attr_v(),
                    truecolor: truecolor,
                },
            }),
    {
        let r = Nvim {
            cursor_row: 0,
            cursor_col: 0,
            expected_line: 0,
            offset: 0,
            first_draw: true,
            modeline: false,
            eof: false,
            finished: false,
            hl: Highlight::new(truecolor),
        };
        proof {
            assert(r@ =~= (NvimV {
                row: 0,
                col: 0,
                expected_line: 0,
                offset: 0,
                first_draw: true,
                modeline: false,
                eof: false,
                finished: false,
                hl: HighlightV {
                    current: crate::synattr::default_attr_v(),
                    dflt: crate::synattr::default_attr_v(),
                    truecolor: truecolor,
                },
            }));
        }
        r
    }

    /// All input lines are known to have been pushed: nothing more will
    /// follow.
    pub fn set_eof(&mut self)
        ensures
            final(self)@ == (NvimV { eof: true, ..old(self)@ }),
    {
        self.eof = true;
        proof {
            assert(self@ =~= (NvimV { eof: true, ..old(self)@ }));
        }
    }

    /// Frames one engine command into the outbound buffer.
    pub fn nvim_command(&self, command: &str, engine: &mut Vec<u8>)
        ensures
            final(engine)@ == old(engine)@ + command_msg_bytes(command@),
    {
        let mut m = command_msg(command);
        engine.append(&mut m);
    }

    /// Frames the UI attach request, grid-sized, asking for 24-bit
    /// colour.
    pub fn attach(&self, engine: &mut Vec<u8>)
        ensures
            final(engine)@ == old(engine)@ + attach_msg_bytes(WIDTH as u64, HEIGHT as u64),
    {
        let mut m = attach_msg(WIDTH as u64, HEIGHT as u64);
        engine.append(&mut m);
    }

    /// Frames the quit command.
    pub fn quit(&self, engine: &mut Vec<u8>)
        ensures
            final(engine)@ == old(engine)@ + quit_msg_bytes(),
    {
        let mut m = quit_msg();
        engine.append(&mut m);
    }

    /// Frames the scroll-forward command.
    fn scroll(&self, down: u64, engine: &mut Vec<u8>)
        ensures
            final(engine)@ == old(engine)@ + scroll_msg_bytes(down),
    {
        let mut m = scroll_msg(down);
        engine.append(&mut m);
    }

    /// Appends the source lines to the engine's buffer and counts them
    /// as expected content.
    pub fn add_lines(&mut self, lines: &Vec<String>, engine: &mut Vec<u8>) -> (r: Result<
        (),
        ProtocolError,
    >)
        ensures
            r is Ok <==> old(self)@.expected_line + lines@.len() <= usize::MAX && lines@.len()
                <= 0xffffffff,
            r is Ok ==> final(self)@ == (NvimV {
                expected_line: old(self)@.expected_line + lines@.len(),
                ..old(self)@
            }) && final(engine)@ == old(engine)@ + set_lines_msg_bytes(lines.deep_view()),
            r is Err ==> final(self)@ == old(self)@ && final(engine)@ == old(engine)@ && r
                == Err::<(), ProtocolError>(ProtocolError::LineCountOverflow),
    {
        if lines.len() > 0xffffffff {
            return Err(ProtocolError::LineCountOverflow);
        }
        if self.expected_line > usize::MAX - lines.len() {
            return Err(ProtocolError::LineCountOverflow);
        }
        self.expected_line = self.expected_line + lines.len();
        let mut m = set_lines_msg(lines);
        engine.append(&mut m);
        proof {
            assert(self@ =~= (NvimV {
                expected_line: old(self)@.expected_line + lines@.len(),
                ..old(self)@
            }));
        }
        Ok(())
    }

    /// Appends one line terminator, painted with the default attribute
    /// set: its escape, clear to end of line, newline.
    pub fn print_newline(&self, term: &mut String)
        ensures
            final(term)@ == old(term)@ + nl_of(self@.hl.dflt),
    {
        term.append(self.hl.render_default().as_str());
        term.append("\u{1b}[K\n");
    }

    /// A put event: emits the pending padding and the current-attribute
    /// text, unless the event belongs to the first draw, the modeline,
    /// a finished run, or a row not yet pushed.
    pub fn handle_put(&mut self, frags: &Vec<String>, term: &mut String) -> (r: Result<
        (),
        ProtocolError,
    >)
        ensures
            r is Ok <==> !put_err(old(self)@, frags_concat(frags.deep_view())),
            r is Ok ==> final(self)@ == put_state(old(self)@, frags_concat(frags.deep_view()))
                && final(term)@ == old(term)@ + put_out(old(self)@, frags_concat(frags.deep_view())),
            r is Err ==> final(self)@ == old(self)@ && final(term)@ == old(term)@ && r == Err::<
                (),
                ProtocolError,
            >(ProtocolError::PutPastGridEdge),
    {
        if self.modeline {
            // the engine has reached its status rows: the initial
            // full-screen paint is over
            self.first_draw = false;
            proof {
                assert(self@ =~= put_state(old(self)@, frags_concat(frags.deep_view())));
            }
            return Ok(());
        }
        if self.first_draw || self.finished || self.expected_line < self.cursor_row {
            return Ok(());
        }
        let mut text = String::new();
        let mut i: usize = 0;
        while i < frags.len()
            invariant
                i <= frags.len(),
                text@ == frags_concat(frags.deep_view().take(i as int)),
            decreases frags.len() - i,
        {
            proof {
                assert(frags.deep_view().take(i + 1).drop_last() =~= frags.deep_view().take(
                    i as int,
                ));
                assert(frags.deep_view().take(i + 1).last() == frags[i as int]@);
            }
            text.append(frags[i].as_str());
            i = i + 1;
        }
        proof {
            assert(frags.deep_view().take(frags.len() as int) =~= frags.deep_view());
        }
        let tlen = text.as_str().unicode_len();
        let over = self.cursor_col > WIDTH || self.offset > WIDTH - self.cursor_col || tlen > WIDTH
            - self.cursor_col - self.offset;
        if over {
            return Err(ProtocolError::PutPastGridEdge);
        }
        if self.offset != 0 {
            term.append(self.hl.render_default().as_str());
            term.append(crate::numfmt::spaces(self.offset).as_str());
        }
        term.append(self.hl.render_current().as_str());
        term.append(text.as_str());
        self.cursor_col = self.cursor_col + self.offset + tlen;
        self.offset = 0;
        proof {
            assert(self@ =~= put_state(old(self)@, frags_concat(frags.deep_view())));
            assert(final(term)@ =~= old(term)@ + put_out(
                old(self)@,
                frags_concat(frags.deep_view()),
            ));
        }
        Ok(())
    }

    /// A cursor move: always leaves the modeline and records the target
    /// column as pending padding; then checks, in order, for
    /// completion, for modeline entry (scrolling the next page in), for
    /// a move ahead of pushed content, for a new line, and for a
    /// rightward move on the same row.  Any other move is ignored.
    pub fn handle_cursor_goto(
        &mut self,
        row: usize,
        col: usize,
        term: &mut String,
        engine: &mut Vec<u8>,
    )
        ensures
            final(self)@ == goto_state(old(self)@, row as nat, col as nat),
            final(term)@ == old(term)@ + goto_out(old(self)@, row as nat, col as nat),
            final(engine)@ == old(engine)@ + goto_cmds(old(self)@, row as nat, col as nat),
    {
        if self.finished {
            return;
        }
        self.modeline = false;
        self.offset = col;
        if !self.first_draw && self.eof && self.expected_line == self.cursor_row && row
            != self.cursor_row {
            // the engine moved off the last pushed line with no more
            // input to come: the rendering is complete
            self.quit(engine);
            self.finished = true;
            self.print_newline(term);
            proof {
                assert(self@ =~= goto_state(old(self)@, row as nat, col as nat));
            }
            return;
        }
        if row >= HEIGHT - 2 {
            // jumped to the status rows: end of this page
            self.modeline = true;
            if !self.first_draw {
                self.scroll((HEIGHT - 2) as u64, engine);
            }
            self.cursor_row = 0;
            self.cursor_col = 0;
            self.offset = 0;
            proof {
                assert(self@ =~= goto_state(old(self)@, row as nat, col as nat));
            }
            return;
        }
        if self.first_draw || self.expected_line < row {
            proof {
                assert(self@ =~= goto_state(old(self)@, row as nat, col as nat));
            }
            return;
        }
        if row >= 1 && row - 1 == self.cursor_row {
            // the next content line
            self.cursor_row = row;
            self.cursor_col = 0;
            self.print_newline(term);
            proof {
                assert(self@ =~= goto_state(old(self)@, row as nat, col as nat));
            }
            return;
        }
        if row == self.cursor_row && col > self.cursor_col {
            // a highlight-span boundary on the same row, not a new line
            self.offset = col - self.cursor_col;
            proof {
                assert(self@ =~= goto_state(old(self)@, row as nat, col as nat));
            }
            return;
        }
        proof {
            assert(self@ =~= goto_state(old(self)@, row as nat, col as nat));
        }
    }

    /// An attribute-change event: no payload resets `current` to
    /// `default`; otherwise the payload's fields are collected and
    /// applied.
    pub fn handle_highlight_set(&mut self, payload: &Option<Vec<HlEntry>>) -> (r: Result<
        (),
        ProtocolError,
    >)
        ensures
            ({
                let p = match payload {
                    Some(entries) => Some(entries.deep_view()),
                    None => None,
                };
                &&& r is Ok <==> !(p is Some && collect_spec(p->0) is None)
                &&& r is Ok ==> final(self)@ == hlset_state(old(self)@, p)
                &&& r is Err ==> final(self)@ == old(self)@ && r == Err::<(), ProtocolError>(
                    ProtocolError::BadHighlightValue,
                )
            }),
    {
        match payload {
            None => {
                self.hl.reset();
                proof {
                    assert(self@ =~= hlset_state(old(self)@, None));
                }
                Ok(())
            },
            Some(entries) => {
                match collect_hl_event(entries) {
                    Ok(ev) => {
                        self.hl.apply_event(&ev);
                        proof {
                            assert(self@ =~= hlset_state(
                                old(self)@,
                                Some(entries.deep_view()),
                            ));
                        }
                        Ok(())
                    },
                    Err(e) => Err(e),
                }
            },
        }
    }

    /// Dispatches one update command.  A finished interpreter processes
    /// nothing.
    pub fn handle_update(&mut self, up: &UpdateEvent, term: &mut String, engine: &mut Vec<u8>) -> (
        r: Result<(), ProtocolError>)
        ensures
            r is Ok <==> step_err(old(self)@, up@) is None,
            r is Err ==> r == Err::<(), ProtocolError>(step_err(old(self)@, up@)->0),
            final(self)@ == (if step_err(old(self)@, up@) is None {
                step_state(old(self)@, up@)
            } else {
                old(self)@
            }),
            final(term)@ == old(term)@ + step_out(old(self)@, up@),
            final(engine)@ == old(engine)@ + step_cmds(old(self)@, up@),
    {
        if self.finished {
            return Ok(());
        }
        match up {
            UpdateEvent::Put(frags) => {
                let r = self.handle_put(frags, term);
                r
            },
            UpdateEvent::CursorGoto(insts) => {
                if insts.len() > 0 {
                    let (row, col) = insts[insts.len() - 1];
                    proof {
                        assert(insts@.last() == insts@[insts@.len() - 1]);
                    }
                    self.handle_cursor_goto(row, col, term, engine);
                }
                Ok(())
            },
            UpdateEvent::HighlightSet(p) => {
                let r = self.handle_highlight_set(p);
                r
            },
            UpdateEvent::UpdateFg(v) => {
                match v {
                    Some(x) => {
                        self.hl.set_default_fg(*x);
                        proof {
                            assert(self@ =~= step_state(old(self)@, up@));
                        }
                    },
                    None => {},
                }
                Ok(())
            },
            UpdateEvent::UpdateBg(v) => {
                match v {
                    Some(x) => {
                        self.hl.set_default_bg(*x);
                        proof {
                            assert(self@ =~= step_state(old(self)@, up@));
                        }
                    },
                    None => {},
                }
                Ok(())
            },
            UpdateEvent::Other => Ok(()),
        }
    }

    /// Consumes one inbound message: the update commands of a `redraw`
    /// notification run in order, stopping at the first error and as
    /// soon as completion is signalled; every other message is drained
    /// and discarded.  Returns whether this message finished the run.
    pub fn process_event(&mut self, msg: &Inbound, term: &mut String, engine: &mut Vec<u8>) -> (r:
        Result<bool, ProtocolError>)
        ensures
            final(self)@ == run_state(old(self)@, msg_updates(msg@)),
            final(term)@ == old(term)@ + run_out(old(self)@, msg_updates(msg@)),
            final(engine)@ == old(engine)@ + run_cmds(old(self)@, msg_updates(msg@)),
            r is Ok <==> run_err(old(self)@, msg_updates(msg@)) is None,
            r is Ok ==> r->Ok_0 == (!old(self)@.finished && run_state(
                old(self)@,
                msg_updates(msg@),
            ).finished),
            r is Err ==> r == Err::<bool, ProtocolError>(
                run_err(old(self)@, msg_updates(msg@))->0,
            ),
    {
        match msg {
            Inbound::Notification(method, updates) => {
                let k_redraw = "redraw".to_owned();
                if !(*method == k_redraw) {
                    proof {
                        assert(msg_updates(msg@) =~= Seq::<UpdateV>::empty());
                        assert(old(term)@ + run_out(old(self)@, msg_updates(msg@)) =~= old(term)@);
                        assert(old(engine)@ + run_cmds(old(self)@, msg_updates(msg@)) =~= old(
                            engine,
                        )@);
                    }
                    return Ok(false);
                }
                if self.finished {
                    proof {
                        lemma_run_finished(old(self)@, updates.deep_view());
                        assert(old(term)@ + run_out(old(self)@, msg_updates(msg@)) =~= old(term)@);
                        assert(old(engine)@ + run_cmds(old(self)@, msg_updates(msg@)) =~= old(
                            engine,
                        )@);
                    }
                    return Ok(false);
                }
                let ghost ups = updates.deep_view();
                proof {
                    assert(ups.skip(0) =~= ups);
                    assert(msg@ == InboundV::Notification(method@, updates.deep_view()));
                    assert(msg_updates(msg@) == ups);
                }
                let mut i: usize = 0;
                while i < updates.len()
                    invariant
                        i <= updates.len(),
                        ups == updates.deep_view(),
                        ups == msg_updates(msg@),
                        ups.len() == updates.len(),
                        !self@.finished,
                        run_state(old(self)@, ups) == run_state(self@, ups.skip(i as int)),
                        old(term)@ + run_out(old(self)@, ups) == term@ + run_out(
                            self@,
                            ups.skip(i as int),
                        ),
                        old(engine)@ + run_cmds(old(self)@, ups) == engine@ + run_cmds(
                            self@,
                            ups.skip(i as int),
                        ),
                        run_err(old(self)@, ups) == run_err(self@, ups.skip(i as int)),
                        old(self)@.finished == false,
                    decreases updates.len() - i,
                {
                    let ghost pre = self@;
                    let ghost rest = ups.skip(i as int);
                    let ghost pre_term = term@;
                    let ghost pre_engine = engine@;
                    proof {
                        assert(rest.len() == ups.len() - i);
                        assert(rest[0] == ups[i as int]);
                        assert(updates[i as int]@ == ups[i as int]);
                        assert(rest.skip(1) =~= ups.skip(i + 1));
                    }
                    let r = self.handle_update(&updates[i], term, engine);
                    match r {
                        Ok(()) => {},
                        Err(e) => {
                            proof {
                                assert(step_err(pre, rest[0]) is Some);
                                assert(self@ == pre);
                                assert(run_state(pre, rest) == pre);
                                assert(run_err(pre, rest) == step_err(pre, rest[0]));
                                assert(term@ + run_out(pre, rest) =~= term@);
                                assert(engine@ + run_cmds(pre, rest) =~= engine@);
                            }
                            return Err(e);
                        },
                    }
                    proof {
                        assert(step_err(pre, rest[0]) is None);
                        assert(self@ == step_state(pre, rest[0]));
                    }
                    if self.finished {
                        proof {
                            assert(run_state(pre, rest) == self@);
                            assert(run_err(pre, rest) is None);
                            assert(run_out(pre, rest) == step_out(pre, rest[0]));
                            assert(run_cmds(pre, rest) == step_cmds(pre, rest[0]));
                        }
                        return Ok(true);
                    }
                    i = i + 1;
                    proof {
                        assert(run_state(pre, rest) == run_state(self@, ups.skip(i as int)));
                        assert(run_out(pre, rest) == step_out(pre, rest[0]) + run_out(
                            self@,
                            ups.skip(i as int),
                        ));
                        assert(pre_term + (step_out(pre, rest[0]) + run_out(
                            self@,
                            ups.skip(i as int),
                        )) =~= (pre_term + step_out(pre, rest[0])) + run_out(
                            self@,
                            ups.skip(i as int),
                        ));
                        assert(run_cmds(pre, rest) == step_cmds(pre, rest[0]) + run_cmds(
                            self@,
                            ups.skip(i as int),
                        ));
                        assert(pre_engine + (step_cmds(pre, rest[0]) + run_cmds(
                            self@,
                            ups.skip(i as int),
                        )) =~= (pre_engine + step_cmds(pre, rest[0])) + run_cmds(
                            self@,
                            ups.skip(i as int),
                        ));
                    }
                }
                proof {
                    assert(ups.skip(ups.len() as int) =~= Seq::<UpdateV>::empty());
                }
                Ok(false)
            },
            Inbound::Response => {
                proof {
                    assert(old(term)@ + run_out(old(self)@, msg_updates(msg@)) =~= old(term)@);
                    assert(old(engine)@ + run_cmds(old(self)@, msg_updates(msg@)) =~= old(engine)@);
                }
                Ok(false)
            },
            Inbound::Other => {
                proof {
                    assert(old(term)@ + run_out(old(self)@, msg_updates(msg@)) =~= old(term)@);
                    assert(old(engine)@ + run_cmds(old(self)@, msg_updates(msg@)) =~= old(engine)@);
                }
                Ok(false)
            },
        }
    }
}

/// A finished interpreter stays put: a batch moves nothing, emits
/// nothing, raises nothing.
pub proof fn lemma_run_finished(s: NvimV, us: Seq<UpdateV>)
    requires
        s.finished,
    ensures
        run_state(s, us) == s,
        run_out(s, us) == Seq::<char>::empty(),
        run_cmds(s, us) == Seq::<u8>::empty(),
        run_err(s, us) is None,
    decreases us.len(),
{
    if us.len() > 0 {
        assert(step_err(s, us[0]) is None);
        assert(step_state(s, us[0]) == s);
        lemma_run_finished(s, us.skip(1));
        assert(run_out(s, us) =~= Seq::<char>::empty());
        assert(run_cmds(s, us) =~= Seq::<u8>::empty());
    }
}

} // verus!
