//! The colour and attribute model: resolving a colour specification
//! (hex RGB, bare palette index, or colour name) to an ANSI SGR fragment,
//! and composing full attribute sets.

use vstd::prelude::*;
use vstd::string::StrSliceExecFns;
use vstd::string::StringExecFns;
use crate::numfmt::dec_of;
use crate::numfmt::dec_str;

verus! {

// ---------------------------------------------------------------------------
// Hexadecimal and decimal colour digits
// ---------------------------------------------------------------------------

pub open spec fn is_dec_digit(c: char) -> bool {
    48 <= c as int <= 57
}

pub open spec fn dec_val(c: char) -> nat {
    if is_dec_digit(c) {
        (c as int - 48) as nat
    } else {
        0
    }
}

pub open spec fn is_hex_digit(c: char) -> bool {
    is_dec_digit(c) || 97 <= c as int <= 102 || 65 <= c as int <= 70
}

pub open spec fn hex_val(c: char) -> nat {
    if is_dec_digit(c) {
        dec_val(c)
    } else if 97 <= c as int <= 102 {
        (c as int - 87) as nat
    } else if 65 <= c as int <= 70 {
        (c as int - 55) as nat
    } else {
        0
    }
}

/// Value of a big-endian string of hexadecimal digits.
pub open spec fn hex_seq_val(s: Seq<char>) -> nat
    decreases s.len(),
{
    if s.len() == 0 {
        0
    } else {
        hex_seq_val(s.drop_last()) * 16 + hex_val(s.last())
    }
}

/// Value of a big-endian string of decimal digits.
pub open spec fn dec_seq_val(s: Seq<char>) -> nat
    decreases s.len(),
{
    if s.len() == 0 {
        0
    } else {
        dec_seq_val(s.drop_last()) * 10 + dec_val(s.last())
    }
}

pub open spec fn is_dec_seq(s: Seq<char>) -> bool {
    s.len() > 0 && forall|i: int| 0 <= i < s.len() ==> is_dec_digit(s[i])
}

/// A well-formed hex colour body: what may follow the `#`.
pub open spec fn valid_hex_tail(s: Seq<char>) -> bool {
    1 <= s.len() <= 6 && forall|i: int| 0 <= i < s.len() ==> is_hex_digit(s[i])
}

pub open spec fn pow16(n: nat) -> nat
    decreases n,
{
    if n == 0 {
        1
    } else {
        16 * pow16((n - 1) as nat)
    }
}

pub proof fn lemma_hex_seq_val_bound(s: Seq<char>)
    ensures
        hex_seq_val(s) < pow16(s.len()),
    decreases s.len(),
{
    if s.len() == 0 {
    } else {
        lemma_hex_seq_val_bound(s.drop_last());
    }
}

// ---------------------------------------------------------------------------
// Case-insensitive name matching
// ---------------------------------------------------------------------------

/// `a` reads as the (lower-case) character `b`, ignoring ASCII case.
pub open spec fn lower_char_rel(a: char, b: char) -> bool {
    a == b || (65 <= a as int <= 90 && a as int + 32 == b as int)
}

/// `s` equals the lower-case string `t` up to ASCII case.
pub open spec fn eq_nocase(s: Seq<char>, t: Seq<char>) -> bool {
    s.len() == t.len() && forall|i: int| 0 <= i < s.len() ==> lower_char_rel(s[i], t[i])
}

/// Case-insensitive comparison against a lower-case ASCII pattern.
pub fn eq_lower(s: &str, lit: &str) -> (r: bool)
    ensures
        r == eq_nocase(s@, lit@),
{
    let n = s.unicode_len();
    let m = lit.unicode_len();
    if n != m {
        return false;
    }
    let mut i: usize = 0;
    while i < n
        invariant
            i <= n,
            n == s@.len(),
            n == lit@.len(),
            forall|j: int| 0 <= j < i ==> lower_char_rel(s@[j], lit@[j]),
        decreases n - i,
    {
        let a = s.get_char(i);
        let b = lit.get_char(i);
        let ok = a == b || (a as u32 >= 65 && a as u32 <= 90 && a as u32 + 32 == b as u32);
        if !ok {
            proof {
                assert(!lower_char_rel(s@[i as int], lit@[i as int]));
            }
            return false;
        }
        i = i + 1;
    }
    true
}

// ---------------------------------------------------------------------------
// The fixed table of terminal colour names
// ---------------------------------------------------------------------------

/// The fixed name table: palette index and VGA-style RGB triple for the
/// standard terminal colour names, their `light` variants on the bright
/// palette, and their `dark` variants as synonyms of the base names.
/// Lookups ignore ASCII case.
pub open spec fn name_entry(s: Seq<char>) -> Option<(u8, u8, u8, u8)> {
    if eq_nocase(s, "black"@) || eq_nocase(s, "darkblack"@) {
        Some((0u8, 0u8, 0u8, 0u8))
    } else if eq_nocase(s, "red"@) || eq_nocase(s, "darkred"@) {
        Some((1u8, 128u8, 0u8, 0u8))
    } else if eq_nocase(s, "green"@) || eq_nocase(s, "darkgreen"@) {
        Some((2u8, 0u8, 128u8, 0u8))
    } else if eq_nocase(s, "yellow"@) || eq_nocase(s, "darkyellow"@) {
        Some((3u8, 128u8, 128u8, 0u8))
    } else if eq_nocase(s, "blue"@) || eq_nocase(s, "darkblue"@) {
        Some((4u8, 0u8, 0u8, 128u8))
    } else if eq_nocase(s, "magenta"@) || eq_nocase(s, "darkmagenta"@) {
        Some((5u8, 128u8, 0u8, 128u8))
    } else if eq_nocase(s, "cyan"@) || eq_nocase(s, "darkcyan"@) {
        Some((6u8, 0u8, 128u8, 128u8))
    } else if eq_nocase(s, "white"@) || eq_nocase(s, "darkwhite"@) {
        Some((7u8, 192u8, 192u8, 192u8))
    } else if eq_nocase(s, "lightblack"@) {
        Some((8u8, 128u8, 128u8, 128u8))
    } else if eq_nocase(s, "lightred"@) {
        Some((9u8, 255u8, 0u8, 0u8))
    } else if eq_nocase(s, "lightgreen"@) {
        Some((10u8, 0u8, 255u8, 0u8))
    } else if eq_nocase(s, "lightyellow"@) {
        Some((11u8, 255u8, 255u8, 0u8))
    } else if eq_nocase(s, "lightblue"@) {
        Some((12u8, 0u8, 0u8, 255u8))
    } else if eq_nocase(s, "lightmagenta"@) {
        Some((13u8, 255u8, 0u8, 255u8))
    } else if eq_nocase(s, "lightcyan"@) {
        Some((14u8, 0u8, 255u8, 255u8))
    } else if eq_nocase(s, "lightwhite"@) {
        Some((15u8, 255u8, 255u8, 255u8))
    } else {
        None
    }
}

/// Table lookup for a colour name, ignoring ASCII case.
pub fn lookup_name(s: &str) -> (r: Option<(u8, u8, u8, u8)>)
    ensures
        r == name_entry(s@),
{
    if eq_lower(s, "black") || eq_lower(s, "darkblack") {
        Some((0, 0, 0, 0))
    } else if eq_lower(s, "red") || eq_lower(s, "darkred") {
        Some((1, 128, 0, 0))
    } else if eq_lower(s, "green") || eq_lower(s, "darkgreen") {
        Some((2, 0, 128, 0))
    } else if eq_lower(s, "yellow") || eq_lower(s, "darkyellow") {
        Some((3, 128, 128, 0))
    } else if eq_lower(s, "blue") || eq_lower(s, "darkblue") {
        Some((4, 0, 0, 128))
    } else if eq_lower(s, "magenta") || eq_lower(s, "darkmagenta") {
        Some((5, 128, 0, 128))
    } else if eq_lower(s, "cyan") || eq_lower(s, "darkcyan") {
        Some((6, 0, 128, 128))
    } else if eq_lower(s, "white") || eq_lower(s, "darkwhite") {
        Some((7, 192, 192, 192))
    } else if eq_lower(s, "lightblack") {
        Some((8, 128, 128, 128))
    } else if eq_lower(s, "lightred") {
        Some((9, 255, 0, 0))
    } else if eq_lower(s, "lightgreen") {
        Some((10, 0, 255, 0))
    } else if eq_lower(s, "lightyellow") {
        Some((11, 255, 255, 0))
    } else if eq_lower(s, "lightblue") {
        Some((12, 0, 0, 255))
    } else if eq_lower(s, "lightmagenta") {
        Some((13, 255, 0, 255))
    } else if eq_lower(s, "lightcyan") {
        Some((14, 0, 255, 255))
    } else if eq_lower(s, "lightwhite") {
        Some((15, 255, 255, 255))
    } else {
        None
    }
}

// ---------------------------------------------------------------------------
// Colour resolution
// ---------------------------------------------------------------------------

/// The SGR parameters for a 24-bit colour value: `2;R;G;B`.
pub open spec fn rgb_fragment(v: nat) -> Seq<char> {
    "2;"@ + dec_of(v / 65536) + ";"@ + dec_of((v / 256) % 256) + ";"@ + dec_of(v % 256)
}

/// The SGR parameters for a palette index: `5;N`.
pub open spec fn idx_fragment(n: nat) -> Seq<char> {
    "5;"@ + dec_of(n)
}

/// The SGR fragment a colour name resolves to, if any.
pub open spec fn named_fragment(s: Seq<char>, truecolor: bool) -> Option<Seq<char>> {
    match name_entry(s) {
        Some((i, r, g, b)) => if truecolor {
            Some("2;"@ + dec_of(r as nat) + ";"@ + dec_of(g as nat) + ";"@ + dec_of(b as nat))
        } else {
            Some(idx_fragment(i as nat))
        },
        None => None,
    }
}

/// What a colour specification resolves to: a hex RGB string becomes a
/// 24-bit fragment in true-colour mode and stays unset in indexed mode;
/// a bare small integer becomes a direct 256-colour index; a known name
/// goes through the fixed table; anything else is unset.
pub open spec fn colour_fragment(s: Seq<char>, truecolor: bool) -> Option<Seq<char>> {
    if s.len() == 0 {
        None
    } else if s[0] == '#' {
        if truecolor {
            Some(rgb_fragment(hex_seq_val(s.skip(1))))
        } else {
            None
        }
    } else if is_dec_seq(s) && dec_seq_val(s) <= 255 {
        Some(idx_fragment(dec_seq_val(s)))
    } else {
        named_fragment(s, truecolor)
    }
}

/// Resolves one colour specification to its SGR parameter fragment.
///
/// A malformed hex string is a fatal configuration error and is excluded
/// up front: after a `#` there must be one to six hex digits.
pub fn parse_colour(string: &str, truecolor: bool) -> (r: Option<String>)
    requires
        string@.len() > 0 && string@[0] == '#' ==> valid_hex_tail(string@.skip(1)),
    ensures
        r is Some <==> colour_fragment(string@, truecolor) is Some,
        r is Some ==> r->0@ == colour_fragment(string@, truecolor)->0,
{
    let n = string.unicode_len();
    if n == 0 {
        return None;
    }
    if string.get_char(0) == '#' {
        if !truecolor {
            return None;
        }
        let mut val: u32 = 0;
        let mut i: usize = 1;
        while i < n
            invariant
                1 <= i <= n,
                n == string@.len(),
                valid_hex_tail(string@.skip(1)),
                val as nat == hex_seq_val(string@.subrange(1, i as int)),
            decreases n - i,
        {
            let c = string.get_char(i);
            proof {
                assert(string@.skip(1)[i - 1] == string@[i as int]);
                assert(is_hex_digit(string@[i as int]));
            }
            let d = hex_digit_value(c);
            proof {
                assert(string@.subrange(1, i as int) =~= string@.skip(1).take(i - 1));
                assert(forall|j: int| 0 <= j < i - 1 ==> is_hex_digit(
                    #[trigger] string@.skip(1).take(i - 1)[j],
                ));
                lemma_hex_seq_val_bound(string@.subrange(1, i as int));
                assert(pow16(5) == 0x100000) by {
                    reveal_with_fuel(pow16, 6);
                }
                assert(string@.subrange(1, i as int).len() <= 5);
                assert(pow16(string@.subrange(1, i as int).len()) <= pow16(5)) by {
                    reveal_with_fuel(pow16, 6);
                }
                assert(val < 0x100000);
                assert(string@.subrange(1, i + 1).drop_last() =~= string@.subrange(1, i as int));
            }
            val = val * 16 + d;
            i = i + 1;
        }
        proof {
            assert(string@.subrange(1, n as int) =~= string@.skip(1));
        }
        let r: u32 = val / 65536;
        let g: u32 = (val / 256) % 256;
        let b: u32 = val % 256;
        let mut out = "2;".to_owned();
        out.append(dec_str(r as u64).as_str());
        out.append(";");
        out.append(dec_str(g as u64).as_str());
        out.append(";");
        out.append(dec_str(b as u64).as_str());
        proof {
            assert(out@ =~= rgb_fragment(val as nat));
        }
        return Some(out);
    }
    // a bare decimal index, when it fits in a byte
    let mut all_digits = true;
    let mut val: u32 = 0;
    let mut i: usize = 0;
    while i < n && all_digits
        invariant
            0 <= i <= n,
            n == string@.len(),
            all_digits ==> forall|j: int| 0 <= j < i ==> is_dec_digit(string@[j]),
            !all_digits ==> !is_dec_seq(string@),
            all_digits && dec_seq_val(string@.subrange(0, i as int)) <= 255 ==> val as nat
                == dec_seq_val(string@.subrange(0, i as int)),
            all_digits && dec_seq_val(string@.subrange(0, i as int)) > 255 ==> val == 256,
            val <= 256,
        decreases n - i + (if all_digits {
            1int
        } else {
            0int
        }),
    {
        let c = string.get_char(i);
        let cu = c as u32;
        if cu >= 48 && cu <= 57 {
            proof {
                assert(string@.subrange(0, i + 1).drop_last() =~= string@.subrange(0, i as int));
            }
            let d = cu - 48;
            let next = val * 10 + d;
            val = if next > 255 {
                256
            } else {
                next
            };
        } else {
            proof {
                assert(!is_dec_digit(string@[i as int]));
            }
            all_digits = false;
        }
        if all_digits {
            i = i + 1;
        }
    }
    if all_digits && val <= 255 {
        proof {
            assert(string@.subrange(0, n as int) =~= string@);
        }
        let mut out = "5;".to_owned();
        out.append(dec_str(val as u64).as_str());
        proof {
            assert(out@ =~= idx_fragment(dec_seq_val(string@)));
        }
        return Some(out);
    }
    proof {
        if all_digits {
            assert(string@.subrange(0, n as int) =~= string@);
            assert(!(is_dec_seq(string@) && dec_seq_val(string@) <= 255));
        }
    }
    // a colour name
    match lookup_name(string) {
        Some((idx, r, g, b)) => {
            if truecolor {
                let mut out = "2;".to_owned();
                out.append(dec_str(r as u64).as_str());
                out.append(";");
                out.append(dec_str(g as u64).as_str());
                out.append(";");
                out.append(dec_str(b as u64).as_str());
                proof {
                    assert(out@ =~= named_fragment(string@, truecolor)->0);
                }
                Some(out)
            } else {
                let mut out = "5;".to_owned();
                out.append(dec_str(idx as u64).as_str());
                proof {
                    assert(out@ =~= idx_fragment(idx as nat));
                }
                Some(out)
            }
        },
        None => None,
    }
}

/// Numeric value of one hexadecimal digit character.
fn hex_digit_value(c: char) -> (d: u32)
    requires
        is_hex_digit(c),
    ensures
        d as nat == hex_val(c),
        d < 16,
{
    let x = c as u32;
    if x >= 48 && x <= 57 {
        x - 48
    } else if x >= 97 {
        x - 87
    } else {
        x - 55
    }
}

// ---------------------------------------------------------------------------
// Attribute sets
// ---------------------------------------------------------------------------

/// The value of an attribute set: each field is the SGR parameter string
/// that paints it.
#[verifier::ext_equal]
pub struct AttrV {
    pub fg: Seq<char>,
    pub bg: Seq<char>,
    pub bold: Seq<char>,
    pub reverse: Seq<char>,
    pub italic: Seq<char>,
    pub underline: Seq<char>,
}

/// One resolved attribute set: foreground, background and the four style
/// switches, each held as the SGR parameter string that paints it.
#[derive(Clone, Debug)]
pub struct SynAttr {
    pub fg: String,
    pub bg: String,
    pub bold: &'static str,
    pub reverse: &'static str,
    pub italic: &'static str,
    pub underline: &'static str,
}

impl View for SynAttr {
    type V = AttrV;

    open spec fn view(&self) -> AttrV {
        AttrV {
            fg: self.fg@,
            bg: self.bg@,
            bold: self.bold@,
            reverse: self.reverse@,
            italic: self.italic@,
            underline: self.underline@,
        }
    }
}

/// The terminal-neutral attribute set: no colour, no style bits.
pub open spec fn default_attr_v() -> AttrV {
    AttrV {
        fg: "39"@,
        bg: "49"@,
        bold: "22"@,
        reverse: "27"@,
        italic: "23"@,
        underline: "24"@,
    }
}

/// The terminal-neutral attribute set: no colour, no style bits.
pub fn default_attr() -> (r: SynAttr)
    ensures
        r@ == default_attr_v(),
{
    let r = SynAttr {
        fg: "39".to_owned(),
        bg: "49".to_owned(),
        bold: "22",
        reverse: "27",
        italic: "23",
        underline: "24",
    };
    proof {
        assert(r@ =~= default_attr_v());
    }
    r
}

/// The single SGR escape that paints an attribute set.
pub open spec fn sgr_of(a: AttrV) -> Seq<char> {
    "\u{1b}["@ + a.fg + ";"@ + a.bg + ";"@ + a.bold + ";"@ + a.reverse + ";"@ + a.italic + ";"@
        + a.underline + "m"@
}

/// What composing an attribute set from raw engine fields yields: present
/// colours resolve through the colour model, absent or unresolvable fields
/// fall back to `dflt` (or to the neutral codes without one), and a
/// non-empty style string switches that style on.
pub open spec fn compose_attr_v(
    fg: Seq<char>,
    bg: Seq<char>,
    bold: bool,
    reverse: bool,
    italic: bool,
    underline: bool,
    dflt: Option<AttrV>,
    truecolor: bool,
) -> AttrV {
    let d = match dflt {
        Some(d) => d,
        None => default_attr_v(),
    };
    AttrV {
        fg: match colour_fragment(fg, truecolor) {
            Some(f) => "38;"@ + f,
            None => d.fg,
        },
        bg: match colour_fragment(bg, truecolor) {
            Some(f) => "48;"@ + f,
            None => d.bg,
        },
        bold: if bold {
            "1"@
        } else {
            d.bold
        },
        reverse: if reverse {
            "7"@
        } else {
            d.reverse
        },
        italic: if italic {
            "3"@
        } else {
            d.italic
        },
        underline: if underline {
            "4"@
        } else {
            d.underline
        },
    }
}

impl SynAttr {
    /// Composes an attribute set from the engine's raw string fields.
    /// An empty style string means the style is absent; absent fields fall
    /// back to `default`'s value, or to the terminal-neutral codes.
    pub fn new(
        fg: &str,
        bg: &str,
        bold: &str,
        reverse: &str,
        italic: &str,
        underline: &str,
        default: Option<&SynAttr>,
        truecolor: bool,
    ) -> (r: SynAttr)
        requires
            fg@.len() > 0 && fg@[0] == '#' ==> valid_hex_tail(fg@.skip(1)),
            bg@.len() > 0 && bg@[0] == '#' ==> valid_hex_tail(bg@.skip(1)),
        ensures
            r@ == compose_attr_v(
                fg@,
                bg@,
                bold@.len() > 0,
                reverse@.len() > 0,
                italic@.len() > 0,
                underline@.len() > 0,
                match default {
                    Some(d) => Some(d@),
                    None => None,
                },
                truecolor,
            ),
    {
        let fg_frag = parse_colour(fg, truecolor);
        let bg_frag = parse_colour(bg, truecolor);
        let r = SynAttr {
            fg: match fg_frag {
                Some(f) => {
                    let mut s = "38;".to_owned();
                    s.append(f.as_str());
                    s
                },
                None => match default {
                    Some(d) => d.fg.clone(),
                    None => "39".to_owned(),
                },
            },
            bg: match bg_frag {
                Some(f) => {
                    let mut s = "48;".to_owned();
                    s.append(f.as_str());
                    s
                },
                None => match default {
                    Some(d) => d.bg.clone(),
                    None => "49".to_owned(),
                },
            },
            bold: if !bold.is_empty() {
                "1"
            } else {
                match default {
                    Some(d) => d.bold,
                    None => "22",
                }
            },
            reverse: if !reverse.is_empty() {
                "7"
            } else {
                match default {
                    Some(d) => d.reverse,
                    None => "27",
                }
            },
            italic: if !italic.is_empty() {
                "3"
            } else {
                match default {
                    Some(d) => d.italic,
                    None => "23",
                }
            },
            underline: if !underline.is_empty() {
                "4"
            } else {
                match default {
                    Some(d) => d.underline,
                    None => "24",
                }
            },
        };
        proof {
            assert(r@ =~= compose_attr_v(
                fg@,
                bg@,
                bold@.len() > 0,
                reverse@.len() > 0,
                italic@.len() > 0,
                underline@.len() > 0,
                match default {
                    Some(d) => Some(d@),
                    None => None,
                },
                truecolor,
            ));
        }
        r
    }

    /// A field-for-field copy with the same value.
    pub fn duplicate(&self) -> (r: SynAttr)
        ensures
            r@ == self@,
    {
        let r = SynAttr {
            fg: self.fg.clone(),
            bg: self.bg.clone(),
            bold: self.bold,
            reverse: self.reverse,
            italic: self.italic,
            underline: self.underline,
        };
        proof {
            assert(r@ =~= self@);
        }
        r
    }

    /// Renders the full set as one SGR escape.  Rendering is a pure
    /// function of the set: rendering twice yields identical bytes.
    pub fn render(&self) -> (r: String)
        ensures
            r@ == sgr_of(self@),
    {
        let mut s = "\u{1b}[".to_owned();
        s.append(self.fg.as_str());
        s.append(";");
        s.append(self.bg.as_str());
        s.append(";");
        s.append(self.bold);
        s.append(";");
        s.append(self.reverse);
        s.append(";");
        s.append(self.italic);
        s.append(";");
        s.append(self.underline);
        s.append("m");
        proof {
            assert(s@ =~= sgr_of(self@));
        }
        s
    }
}

} // verus!
