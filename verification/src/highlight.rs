//! The highlight state tracker: the `current` and `default` attribute
//! sets, partial attribute-change events, and the hex form of the
//! engine's packed 24-bit colours.

use vstd::prelude::*;
use vstd::arithmetic::div_mod::lemma_mod_breakdown;
use vstd::string::StringExecFns;
use crate::numfmt::hex_char;
use crate::numfmt::hex_digit_str;
use crate::synattr::AttrV;
use crate::synattr::SynAttr;
use crate::synattr::default_attr;
use crate::synattr::hex_seq_val;
use crate::synattr::hex_val;
use crate::synattr::is_hex_digit;
use crate::synattr::pow16;
use crate::synattr::rgb_fragment;
use crate::synattr::sgr_of;
use crate::synattr::valid_hex_tail;
use crate::ProtocolError;

verus! {

// ---------------------------------------------------------------------------
// Packed RGB to hex colour string
// ---------------------------------------------------------------------------

/// `n` hexadecimal digits of `v`, most significant first.
pub open spec fn hexn_of(v: nat, n: nat) -> Seq<char>
    decreases n,
{
    if n == 0 {
        Seq::empty()
    } else {
        hexn_of(v / 16, (n - 1) as nat).push(hex_char(v % 16))
    }
}

/// The `#rrggbb` form of a 24-bit colour value.
pub open spec fn hex6_of(v: nat) -> Seq<char> {
    seq!['#'] + hexn_of(v, 6)
}

proof fn lemma_hex_char_val(d: nat)
    requires
        d < 16,
    ensures
        is_hex_digit(hex_char(d)),
        hex_val(hex_char(d)) == d,
{
}

proof fn lemma_hexn_digits(v: nat, n: nat)
    ensures
        hexn_of(v, n).len() == n,
        forall|i: int| 0 <= i < n ==> is_hex_digit(#[trigger] hexn_of(v, n)[i]),
    decreases n,
{
    if n > 0 {
        lemma_hexn_digits(v / 16, (n - 1) as nat);
        lemma_hex_char_val(v % 16);
    }
}

proof fn lemma_pow16_pos(n: nat)
    ensures
        pow16(n) >= 1,
    decreases n,
{
    if n > 0 {
        lemma_pow16_pos((n - 1) as nat);
    }
}

proof fn lemma_hexn_round_trip(v: nat, n: nat)
    ensures
        hex_seq_val(hexn_of(v, n)) == v % pow16(n),
    decreases n,
{
    if n == 0 {
        assert(pow16(0) == 1);
    } else {
        lemma_hexn_round_trip(v / 16, (n - 1) as nat);
        lemma_hex_char_val(v % 16);
        lemma_pow16_pos((n - 1) as nat);
        assert(hexn_of(v, n).drop_last() =~= hexn_of(v / 16, (n - 1) as nat));
        lemma_mod_breakdown(v as int, 16, pow16((n - 1) as nat) as int);
    }
}

/// The hex form of a 24-bit colour round-trips through the hex parser.
pub proof fn lemma_hex6_round_trip(v: nat)
    requires
        v < 0x1000000,
    ensures
        valid_hex_tail(hex6_of(v).skip(1)),
        hex6_of(v).len() == 7,
        hex6_of(v)[0] == '#',
        hex_seq_val(hex6_of(v).skip(1)) == v,
{
    lemma_hexn_digits(v, 6);
    lemma_hexn_round_trip(v, 6);
    assert(pow16(6) == 0x1000000) by {
        reveal_with_fuel(pow16, 7);
    }
    assert(hex6_of(v).skip(1) =~= hexn_of(v, 6));
}

fn hexn_str(v: u32, n: usize) -> (r: String)
    ensures
        r@ == hexn_of(v as nat, n as nat),
    decreases n,
{
    if n == 0 {
        let r = String::new();
        proof {
            assert(r@ =~= hexn_of(v as nat, 0));
        }
        r
    } else {
        let mut s = hexn_str(v / 16, n - 1);
        s.append(hex_digit_str(v % 16));
        proof {
            assert(s@ =~= hexn_of(v as nat, n as nat));
        }
        s
    }
}

/// The `#rrggbb` string for a packed colour value; only the low 24 bits
/// carry colour.
pub fn rgb_to_string(v: u32) -> (r: String)
    ensures
        r@ == hex6_of((v as nat) % 0x1000000),
{
    let m: u32 = v % 0x1000000;
    let mut s = "#".to_owned();
    s.append(hexn_str(m, 6).as_str());
    proof {
        reveal_strlit("#");
        assert(s@ =~= hex6_of((v as nat) % 0x1000000));
    }
    s
}

// ---------------------------------------------------------------------------
// Attribute-change events
// ---------------------------------------------------------------------------

/// One value in a highlight payload as it comes off the wire.
#[derive(Clone, Copy, Debug, PartialEq, Eq, Structural)]
pub enum HlValue {
    Num(u64),
    Flag(bool),
    Other,
}

/// One key/value pair of a highlight payload.
#[derive(Clone, Debug)]
pub struct HlEntry {
    pub key: String,
    pub value: HlValue,
}

/// The value of an entry: its key characters and its wire value.
pub struct HlEntryV {
    pub key: Seq<char>,
    pub value: HlValue,
}

impl View for HlEntry {
    type V = HlEntryV;

    open spec fn view(&self) -> HlEntryV {
        HlEntryV { key: self.key@, value: self.value }
    }
}

impl DeepView for HlEntry {
    type V = HlEntryV;

    open spec fn deep_view(&self) -> HlEntryV {
        self.view()
    }
}

/// A collected attribute-change event: the fields the payload carried.
#[derive(Clone, Copy, Debug, PartialEq, Eq, Structural)]
pub struct HlEvent {
    pub fg: Option<u64>,
    pub bg: Option<u64>,
    pub bold: Option<bool>,
    pub reverse: Option<bool>,
    pub italic: Option<bool>,
    pub underline: Option<bool>,
}

/// The event with no fields present.
pub open spec fn empty_event() -> HlEvent {
    HlEvent { fg: None, bg: None, bold: None, reverse: None, italic: None, underline: None }
}

/// Folds one payload entry into the event.  An unknown key is ignored;
/// a known key with a value of the wrong kind is a protocol error.
pub open spec fn fold_entry(ev: HlEvent, e: HlEntryV) -> Option<HlEvent> {
    if e.key == "foreground"@ {
        match e.value {
            HlValue::Num(v) => Some(
                HlEvent {
                    fg: Some(v),
                    bg: ev.bg,
                    bold: ev.bold,
                    reverse: ev.reverse,
                    italic: ev.italic,
                    underline: ev.underline,
                },
            ),
            _ => None,
        }
    } else if e.key == "background"@ {
        match e.value {
            HlValue::Num(v) => Some(
                HlEvent {
                    fg: ev.fg,
                    bg: Some(v),
                    bold: ev.bold,
                    reverse: ev.reverse,
                    italic: ev.italic,
                    underline: ev.underline,
                },
            ),
            _ => None,
        }
    } else if e.key == "bold"@ {
        match e.value {
            HlValue::Flag(b) => Some(
                HlEvent {
                    fg: ev.fg,
                    bg: ev.bg,
                    bold: Some(b),
                    reverse: ev.reverse,
                    italic: ev.italic,
                    underline: ev.underline,
                },
            ),
            _ => None,
        }
    } else if e.key == "reverse"@ {
        match e.value {
            HlValue::Flag(b) => Some(
                HlEvent {
                    fg: ev.fg,
                    bg: ev.bg,
                    bold: ev.bold,
                    reverse: Some(b),
                    italic: ev.italic,
                    underline: ev.underline,
                },
            ),
            _ => None,
        }
    } else if e.key == "italic"@ {
        match e.value {
            HlValue::Flag(b) => Some(
                HlEvent {
                    fg: ev.fg,
                    bg: ev.bg,
                    bold: ev.bold,
                    reverse: ev.reverse,
                    italic: Some(b),
                    underline: ev.underline,
                },
            ),
            _ => None,
        }
    } else if e.key == "underline"@ {
        match e.value {
            HlValue::Flag(b) => Some(
                HlEvent {
                    fg: ev.fg,
                    bg: ev.bg,
                    bold: ev.bold,
                    reverse: ev.reverse,
                    italic: ev.italic,
                    underline: Some(b),
                },
            ),
            _ => None,
        }
    } else {
        Some(ev)
    }
}

/// Collects a whole payload, entries applied in order (a later entry for
/// the same key wins).
pub open spec fn collect_spec(entries: Seq<HlEntryV>) -> Option<HlEvent>
    decreases entries.len(),
{
    if entries.len() == 0 {
        Some(empty_event())
    } else {
        match collect_spec(entries.drop_last()) {
            None => None,
            Some(ev) => fold_entry(ev, entries.last()),
        }
    }
}

proof fn lemma_collect_prefix_none(s: Seq<HlEntryV>, i: int)
    requires
        0 <= i <= s.len(),
        collect_spec(s.take(i)) is None,
    ensures
        collect_spec(s) is None,
    decreases s.len() - i,
{
    if i == s.len() {
        assert(s.take(i) =~= s);
    } else {
        assert(s.take(i + 1).drop_last() =~= s.take(i));
        lemma_collect_prefix_none(s, i + 1);
    }
}

/// Collects the key/value pairs of one highlight payload into an event.
pub fn collect_hl_event(entries: &Vec<HlEntry>) -> (r: Result<HlEvent, ProtocolError>)
    ensures
        match r {
            Ok(ev) => collect_spec(entries.deep_view()) == Some(ev),
            Err(e) => collect_spec(entries.deep_view()) is None && e
                == ProtocolError::BadHighlightValue,
        },
{
    let mut ev = HlEvent {
        fg: None,
        bg: None,
        bold: None,
        reverse: None,
        italic: None,
        underline: None,
    };
    let k_fg = "foreground".to_owned();
    let k_bg = "background".to_owned();
    let k_bold = "bold".to_owned();
    let k_rev = "reverse".to_owned();
    let k_it = "italic".to_owned();
    let k_ul = "underline".to_owned();
    let mut i: usize = 0;
    while i < entries.len()
        invariant
            i <= entries.len(),
            collect_spec(entries.deep_view().take(i as int)) == Some(ev),
            k_fg@ == "foreground"@,
            k_bg@ == "background"@,
            k_bold@ == "bold"@,
            k_rev@ == "reverse"@,
            k_it@ == "italic"@,
            k_ul@ == "underline"@,
        decreases entries.len() - i,
    {
        let e = &entries[i];
        proof {
            assert(entries.deep_view().take(i + 1).drop_last() =~= entries.deep_view().take(
                i as int,
            ));
            assert(entries.deep_view().take(i + 1).last() == entries[i as int]@);
        }
        if e.key == k_fg {
            match e.value {
                HlValue::Num(v) => {
                    ev.fg = Some(v);
                },
                _ => {
                    proof {
                        lemma_collect_prefix_none(entries.deep_view(), i + 1);
                    }
                    return Err(ProtocolError::BadHighlightValue);
                },
            }
        } else if e.key == k_bg {
            match e.value {
                HlValue::Num(v) => {
                    ev.bg = Some(v);
                },
                _ => {
                    proof {
                        lemma_collect_prefix_none(entries.deep_view(), i + 1);
                    }
                    return Err(ProtocolError::BadHighlightValue);
                },
            }
        } else if e.key == k_bold {
            match e.value {
                HlValue::Flag(b) => {
                    ev.bold = Some(b);
                },
                _ => {
                    proof {
                        lemma_collect_prefix_none(entries.deep_view(), i + 1);
                    }
                    return Err(ProtocolError::BadHighlightValue);
                },
            }
        } else if e.key == k_rev {
            match e.value {
                HlValue::Flag(b) => {
                    ev.reverse = Some(b);
                },
                _ => {
                    proof {
                        lemma_collect_prefix_none(entries.deep_view(), i + 1);
                    }
                    return Err(ProtocolError::BadHighlightValue);
                },
            }
        } else if e.key == k_it {
            match e.value {
                HlValue::Flag(b) => {
                    ev.italic = Some(b);
                },
                _ => {
                    proof {
                        lemma_collect_prefix_none(entries.deep_view(), i + 1);
                    }
                    return Err(ProtocolError::BadHighlightValue);
                },
            }
        } else if e.key == k_ul {
            match e.value {
                HlValue::Flag(b) => {
                    ev.underline = Some(b);
                },
                _ => {
                    proof {
                        lemma_collect_prefix_none(entries.deep_view(), i + 1);
                    }
                    return Err(ProtocolError::BadHighlightValue);
                },
            }
        }
        i = i + 1;
    }
    proof {
        assert(entries.deep_view().take(entries.len() as int) =~= entries.deep_view());
    }
    Ok(ev)
}

// ---------------------------------------------------------------------------
// The tracker
// ---------------------------------------------------------------------------

/// The value of the tracker: both attribute sets and the palette mode.
#[verifier::ext_equal]
pub struct HighlightV {
    pub current: AttrV,
    pub dflt: AttrV,
    pub truecolor: bool,
}

/// The highlight state tracker: the attribute set subsequent text is
/// painted with, and the screen's default set.
#[derive(Clone, Debug)]
pub struct Highlight {
    pub current: SynAttr,
    pub dflt: SynAttr,
    pub truecolor: bool,
}

impl View for Highlight {
    type V = HighlightV;

    open spec fn view(&self) -> HighlightV {
        HighlightV { current: self.current@, dflt: self.dflt@, truecolor: self.truecolor }
    }
}

/// The foreground fragment a packed wire colour resolves to, with the
/// given fallback when the palette mode cannot express it.
pub open spec fn wire_fg(v: u64, truecolor: bool, fallback: Seq<char>) -> Seq<char> {
    if truecolor {
        "38;"@ + rgb_fragment((v as nat) % 0x1000000)
    } else {
        fallback
    }
}

/// The background fragment a packed wire colour resolves to.
pub open spec fn wire_bg(v: u64, truecolor: bool, fallback: Seq<char>) -> Seq<char> {
    if truecolor {
        "48;"@ + rgb_fragment((v as nat) % 0x1000000)
    } else {
        fallback
    }
}

/// What applying a collected attribute-change event does: each present
/// field is set on `current`, absent fields keep their current value.
/// A colour the palette mode cannot express falls back to the default
/// set's value.
pub open spec fn apply_event_spec(h: HighlightV, ev: HlEvent) -> HighlightV {
    HighlightV {
        current: AttrV {
            fg: match ev.fg {
                Some(v) => wire_fg(v, h.truecolor, h.dflt.fg),
                None => h.current.fg,
            },
            bg: match ev.bg {
                Some(v) => wire_bg(v, h.truecolor, h.dflt.bg),
                None => h.current.bg,
            },
            bold: match ev.bold {
                Some(true) => "1"@,
                Some(false) => "22"@,
                None => h.current.bold,
            },
            reverse: match ev.reverse {
                Some(true) => "7"@,
                Some(false) => "27"@,
                None => h.current.reverse,
            },
            italic: match ev.italic {
                Some(true) => "3"@,
                Some(false) => "23"@,
                None => h.current.italic,
            },
            underline: match ev.underline {
                Some(true) => "4"@,
                Some(false) => "24"@,
                None => h.current.underline,
            },
        },
        dflt: h.dflt,
        truecolor: h.truecolor,
    }
}

impl Highlight {
    /// Both sets start terminal-neutral.
    pub fn new(truecolor: bool) -> (r: Highlight)
        ensures
            r@.current == crate::synattr::default_attr_v(),
            r@.dflt == crate::synattr::default_attr_v(),
            r@.truecolor == truecolor,
    {
        Highlight { current: default_attr(), dflt: default_attr(), truecolor }
    }

    /// An attribute-change event with no payload: `current` becomes a
    /// copy of `default`.
    pub fn reset(&mut self)
        ensures
            final(self)@ == (HighlightV {
                current: old(self)@.dflt,
                dflt: old(self)@.dflt,
                truecolor: old(self)@.truecolor,
            }),
    {
        self.current = self.dflt.duplicate();
        proof {
            assert(self@ =~= (HighlightV {
                current: old(self)@.dflt,
                dflt: old(self)@.dflt,
                truecolor: old(self)@.truecolor,
            }));
        }
    }

    /// Resolves one wire colour to a foreground fragment.
    fn fg_fragment(&self, v: u64) -> (r: String)
        ensures
            r@ == wire_fg(v, self@.truecolor, self@.dflt.fg),
    {
        let packed: u32 = (v % 0x1000000) as u32;
        let hex = rgb_to_string(packed);
        proof {
            lemma_hex6_round_trip((v as nat) % 0x1000000);
        }
        match crate::synattr::parse_colour(hex.as_str(), self.truecolor) {
            Some(f) => {
                let mut s = "38;".to_owned();
                s.append(f.as_str());
                proof {
                    assert(s@ =~= wire_fg(v, self@.truecolor, self@.dflt.fg));
                }
                s
            },
            None => self.dflt.fg.clone(),
        }
    }

    /// Resolves one wire colour to a background fragment.
    fn bg_fragment(&self, v: u64) -> (r: String)
        ensures
            r@ == wire_bg(v, self@.truecolor, self@.dflt.bg),
    {
        let packed: u32 = (v % 0x1000000) as u32;
        let hex = rgb_to_string(packed);
        proof {
            lemma_hex6_round_trip((v as nat) % 0x1000000);
        }
        match crate::synattr::parse_colour(hex.as_str(), self.truecolor) {
            Some(f) => {
                let mut s = "48;".to_owned();
                s.append(f.as_str());
                proof {
                    assert(s@ =~= wire_bg(v, self@.truecolor, self@.dflt.bg));
                }
                s
            },
            None => self.dflt.bg.clone(),
        }
    }

    /// Applies a collected attribute-change event to `current`.
    pub fn apply_event(&mut self, ev: &HlEvent)
        ensures
            final(self)@ == apply_event_spec(old(self)@, *ev),
    {
        match ev.fg {
            Some(v) => {
                let f = self.fg_fragment(v);
                self.current.fg = f;
            },
            None => {},
        }
        match ev.bg {
            Some(v) => {
                let f = self.bg_fragment(v);
                self.current.bg = f;
            },
            None => {},
        }
        match ev.bold {
            Some(b) => {
                self.current.bold = if b {
                    "1"
                } else {
                    "22"
                };
            },
            None => {},
        }
        match ev.reverse {
            Some(b) => {
                self.current.reverse = if b {
                    "7"
                } else {
                    "27"
                };
            },
            None => {},
        }
        match ev.italic {
            Some(b) => {
                self.current.italic = if b {
                    "3"
                } else {
                    "23"
                };
            },
            None => {},
        }
        match ev.underline {
            Some(b) => {
                self.current.underline = if b {
                    "4"
                } else {
                    "24"
                };
            },
            None => {},
        }
        proof {
            assert(self@ =~= apply_event_spec(old(self)@, *ev));
        }
    }

    /// A default-foreground-changed event: mutates `default` only.
    pub fn set_default_fg(&mut self, v: u64)
        ensures
            final(self)@ == (HighlightV {
                current: old(self)@.current,
                dflt: AttrV { fg: wire_fg(v, old(self)@.truecolor, "39"@), ..old(self)@.dflt },
                truecolor: old(self)@.truecolor,
            }),
    {
        let packed: u32 = (v % 0x1000000) as u32;
        let hex = rgb_to_string(packed);
        proof {
            lemma_hex6_round_trip((v as nat) % 0x1000000);
        }
        match crate::synattr::parse_colour(hex.as_str(), self.truecolor) {
            Some(f) => {
                let mut s = "38;".to_owned();
                s.append(f.as_str());
                self.dflt.fg = s;
            },
            None => {
                self.dflt.fg = "39".to_owned();
            },
        }
        proof {
            assert(self@ =~= (HighlightV {
                current: old(self)@.current,
                dflt: AttrV { fg: wire_fg(v, old(self)@.truecolor, "39"@), ..old(self)@.dflt },
                truecolor: old(self)@.truecolor,
            }));
        }
    }

    /// A default-background-changed event: mutates `default` only.
    pub fn set_default_bg(&mut self, v: u64)
        ensures
            final(self)@ == (HighlightV {
                current: old(self)@.current,
                dflt: AttrV { bg: wire_bg(v, old(self)@.truecolor, "49"@), ..old(self)@.dflt },
                truecolor: old(self)@.truecolor,
            }),
    {
        let packed: u32 = (v % 0x1000000) as u32;
        let hex = rgb_to_string(packed);
        proof {
            lemma_hex6_round_trip((v as nat) % 0x1000000);
        }
        match crate::synattr::parse_colour(hex.as_str(), self.truecolor) {
            Some(f) => {
                let mut s = "48;".to_owned();
                s.append(f.as_str());
                self.dflt.bg = s;
            },
            None => {
                self.dflt.bg = "49".to_owned();
            },
        }
        proof {
            assert(self@ =~= (HighlightV {
                current: old(self)@.current,
                dflt: AttrV { bg: wire_bg(v, old(self)@.truecolor, "49"@), ..old(self)@.dflt },
                truecolor: old(self)@.truecolor,
            }));
        }
    }

    /// The SGR escape for the current set.
    pub fn render_current(&self) -> (r: String)
        ensures
            r@ == sgr_of(self@.current),
    {
        self.current.render()
    }

    /// The SGR escape for the default set.
    pub fn render_default(&self) -> (r: String)
        ensures
            r@ == sgr_of(self@.dflt),
    {
        self.dflt.render()
    }
}

} // verus!
