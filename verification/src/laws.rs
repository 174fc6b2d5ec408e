//! The general properties the interpreter obeys, stated and proved over
//! the transition specifications.

use vstd::prelude::*;
use crate::HEIGHT;
use crate::highlight::HlEvent;
use crate::highlight::apply_event_spec;
use crate::msgpack::scroll_msg_bytes;
use crate::numfmt::spaces_of;
use crate::screen::NvimV;
use crate::screen::goto_cmds;
use crate::screen::goto_finishes;
use crate::screen::goto_out;
use crate::screen::goto_state;
use crate::screen::hlset_state;
use crate::screen::nl_of;
use crate::screen::put_emits;
use crate::screen::put_out;
use crate::screen::put_state;
use crate::screen::step_cmds;
use crate::screen::step_err;
use crate::screen::step_out;
use crate::screen::step_state;
use crate::synattr::sgr_of;

verus! {

/// Attribute reset idempotence: an attribute-change event with no
/// payload leaves `current` equal to `default`; applying it twice
/// changes nothing further, and rendering after either application
/// yields byte-identical escapes.
pub proof fn lemma_reset_idempotent(s: NvimV)
    ensures
        hlset_state(s, None).hl.current == hlset_state(s, None).hl.dflt,
        hlset_state(hlset_state(s, None), None) == hlset_state(s, None),
        sgr_of(hlset_state(hlset_state(s, None), None).hl.current) == sgr_of(
            hlset_state(s, None).hl.current,
        ),
{
    assert(hlset_state(hlset_state(s, None), None) =~= hlset_state(s, None));
}

/// Sequential put ordering: across two puts on the same row with no
/// cursor move between them, the emitted text is the fragments in
/// arrival order, each prefixed by the current attribute escape, with
/// the pending blank padding emitted exactly once, before the first
/// fragment; the first put clears the pending offset, so the second
/// adds no padding.
pub proof fn lemma_put_ordering(s: NvimV, t1: Seq<char>, t2: Seq<char>)
    requires
        put_emits(s),
    ensures
        put_state(s, t1).offset == 0,
        put_emits(put_state(s, t1)),
        put_out(s, t1) + put_out(put_state(s, t1), t2) =~= (if s.offset != 0 {
            sgr_of(s.hl.dflt) + spaces_of(s.offset)
        } else {
            Seq::<char>::empty()
        }) + sgr_of(s.hl.current) + t1 + sgr_of(s.hl.current) + t2,
{
}

/// What a run of puts, one after the other with no cursor move
/// between them, emits in total.
pub open spec fn puts_out_from(s: NvimV, texts: Seq<Seq<char>>) -> Seq<char>
    decreases texts.len(),
{
    if texts.len() == 0 {
        Seq::empty()
    } else {
        put_out(s, texts[0]) + puts_out_from(put_state(s, texts[0]), texts.skip(1))
    }
}

/// The texts in order, each prefixed by the attribute escape `a`.
pub open spec fn texts_with_attr(a: Seq<char>, texts: Seq<Seq<char>>) -> Seq<char>
    decreases texts.len(),
{
    if texts.len() == 0 {
        Seq::empty()
    } else {
        a + texts[0] + texts_with_attr(a, texts.skip(1))
    }
}

/// Sequential put ordering, for a whole run of puts on one row: the
/// emitted text is the fragments joined in arrival order, each behind
/// the current attribute escape, with the pending blank padding
/// emitted exactly once, before the first fragment.
pub proof fn lemma_put_run_ordering(s: NvimV, texts: Seq<Seq<char>>)
    requires
        put_emits(s),
        texts.len() > 0,
    ensures
        puts_out_from(s, texts) =~= (if s.offset != 0 {
            sgr_of(s.hl.dflt) + spaces_of(s.offset)
        } else {
            Seq::<char>::empty()
        }) + texts_with_attr(sgr_of(s.hl.current), texts),
    decreases texts.len(),
{
    let s1 = put_state(s, texts[0]);
    assert(s1.offset == 0);
    assert(put_emits(s1));
    assert(s1.hl == s.hl);
    if texts.len() == 1 {
        assert(puts_out_from(s1, texts.skip(1)) == Seq::<char>::empty());
        assert(texts_with_attr(sgr_of(s.hl.current), texts.skip(1)) == Seq::<char>::empty());
    } else {
        lemma_put_run_ordering(s1, texts.skip(1));
    }
}

/// New-line detection determinism: past the first draw, below the
/// modeline and within pushed content, a cursor move to exactly the
/// next row emits exactly one line terminator, and a rightward move on
/// the same row emits nothing.
pub proof fn lemma_newline_exactly_once(s: NvimV, row: nat, col: nat)
    requires
        !s.finished,
        !s.first_draw,
        row + 2 < HEIGHT,
        s.expected_line >= row,
    ensures
        row == s.row + 1 ==> goto_out(s, row, col) == nl_of(s.hl.dflt),
        row == s.row && col > s.col ==> goto_out(s, row, col) == Seq::<char>::empty(),
{
}

/// Completion exactly once: `FINISHED` is monotonic — no update ever
/// clears it — and once it holds, an update changes nothing and emits
/// nothing.  (For whole batches, `lemma_run_finished` extends this to
/// every suffix of a run.)
pub proof fn lemma_finished_monotonic(s: NvimV, u: crate::screen::UpdateV)
    ensures
        s.finished ==> step_state(s, u).finished,
        s.finished ==> step_state(s, u) == s,
        s.finished ==> step_out(s, u) == Seq::<char>::empty(),
        s.finished ==> step_cmds(s, u) == Seq::<u8>::empty(),
        s.finished ==> step_err(s, u) is None,
{
}

/// Modeline round-trip: when the cursor reaches the reserved bottom
/// rows outside the first draw (and completion does not fire), exactly
/// one scroll command goes back to the engine, the cursor resets to
/// the origin, the pending offset clears, and nothing is emitted.
pub proof fn lemma_modeline_roundtrip(s: NvimV, row: nat, col: nat)
    requires
        !s.finished,
        !s.first_draw,
        row + 2 >= HEIGHT,
        !goto_finishes(s, row),
    ensures
        goto_cmds(s, row, col) == scroll_msg_bytes((HEIGHT - 2) as u64),
        goto_state(s, row, col).row == 0,
        goto_state(s, row, col).col == 0,
        goto_state(s, row, col).offset == 0,
        goto_state(s, row, col).modeline,
        goto_out(s, row, col) == Seq::<char>::empty(),
{
}

/// The cursor invariant: the tracked row stays above the reserved
/// bottom rows and the column never passes the grid edge.
pub open spec fn cursor_in_grid(s: NvimV) -> bool {
    s.row + 2 < HEIGHT && s.col <= crate::WIDTH
}

/// Every update that raises no protocol error keeps the cursor inside
/// the grid, and no update ever lowers the count of pushed content
/// lines.
pub proof fn lemma_step_preserves_grid(s: NvimV, u: crate::screen::UpdateV)
    requires
        cursor_in_grid(s),
        step_err(s, u) is None,
    ensures
        cursor_in_grid(step_state(s, u)),
        step_state(s, u).expected_line == s.expected_line,
{
}

/// The highlight tracker patches only what an event carries: a field
/// absent from the event keeps its current value.
pub proof fn lemma_partial_update_keeps_rest(h: crate::highlight::HighlightV, ev: HlEvent)
    ensures
        ev.fg is None ==> apply_event_spec(h, ev).current.fg == h.current.fg,
        ev.bg is None ==> apply_event_spec(h, ev).current.bg == h.current.bg,
        ev.bold is None ==> apply_event_spec(h, ev).current.bold == h.current.bold,
        ev.reverse is None ==> apply_event_spec(h, ev).current.reverse == h.current.reverse,
        ev.italic is None ==> apply_event_spec(h, ev).current.italic == h.current.italic,
        ev.underline is None ==> apply_event_spec(h, ev).current.underline == h.current.underline,
        apply_event_spec(h, ev).dflt == h.dflt,
{
}

} // verus!
