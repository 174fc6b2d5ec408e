//! The outbound half of the protocol adapter: framing the engine's three
//! requests as MessagePack.  The primitive encodings come from the `rmp`
//! crate behind trusted wrappers; the request framing above them is
//! verified.

use vstd::prelude::*;
use vstd::string::StringExecFns;
use crate::numfmt::dec_of;
use crate::numfmt::dec_str;

verus! {

// ---------------------------------------------------------------------------
// Trusted primitive encodings
// ---------------------------------------------------------------------------

/// The MessagePack header for an array of `n` elements.
pub uninterp spec fn mp_array_len_bytes(n: u32) -> Seq<u8>;

/// The MessagePack header for a map of `n` pairs.
pub uninterp spec fn mp_map_len_bytes(n: u32) -> Seq<u8>;

/// The MessagePack encoding of an unsigned integer.
pub uninterp spec fn mp_uint_bytes(n: u64) -> Seq<u8>;

/// The MessagePack encoding of a signed integer.
pub uninterp spec fn mp_sint_bytes(n: i64) -> Seq<u8>;

/// The MessagePack encoding of a string.
pub uninterp spec fn mp_str_bytes(s: Seq<char>) -> Seq<u8>;

/// The MessagePack encoding of a boolean.
pub uninterp spec fn mp_bool_bytes(b: bool) -> Seq<u8>;

/// Relies on rmp::encode::write_array_len: appends the MessagePack array
/// header for `n` elements.  Writing into a Vec cannot fail.
#[verifier::external_body]
fn mp_array_len(out: &mut Vec<u8>, n: u32)
    ensures
        final(out)@ == old(out)@ + mp_array_len_bytes(n),
{
    rmp::encode::write_array_len(out, n).unwrap();
}

/// Relies on rmp::encode::write_map_len: appends the MessagePack map
/// header for `n` pairs.  Writing into a Vec cannot fail.
#[verifier::external_body]
fn mp_map_len(out: &mut Vec<u8>, n: u32)
    ensures
        final(out)@ == old(out)@ + mp_map_len_bytes(n),
{
    rmp::encode::write_map_len(out, n).unwrap();
}

/// Relies on rmp::encode::write_uint: appends the MessagePack encoding of
/// an unsigned integer.  Writing into a Vec cannot fail.
#[verifier::external_body]
fn mp_uint(out: &mut Vec<u8>, n: u64)
    ensures
        final(out)@ == old(out)@ + mp_uint_bytes(n),
{
    rmp::encode::write_uint(out, n).unwrap();
}

/// Relies on rmp::encode::write_sint: appends the MessagePack encoding of
/// a signed integer.  Writing into a Vec cannot fail.
#[verifier::external_body]
fn mp_sint(out: &mut Vec<u8>, n: i64)
    ensures
        final(out)@ == old(out)@ + mp_sint_bytes(n),
{
    rmp::encode::write_sint(out, n).unwrap();
}

/// Relies on rmp::encode::write_str: appends the MessagePack encoding of
/// a string.  Writing into a Vec cannot fail.
#[verifier::external_body]
fn mp_str(out: &mut Vec<u8>, s: &str)
    ensures
        final(out)@ == old(out)@ + mp_str_bytes(s@),
{
    rmp::encode::write_str(out, s).unwrap();
}

/// Relies on rmp::encode::write_bool: appends the MessagePack encoding of
/// a boolean.  Writing into a Vec cannot fail.
#[verifier::external_body]
fn mp_bool(out: &mut Vec<u8>, b: bool)
    ensures
        final(out)@ == old(out)@ + mp_bool_bytes(b),
{
    rmp::encode::write_bool(out, b).unwrap();
}

// ---------------------------------------------------------------------------
// Verified request framing
// ---------------------------------------------------------------------------

/// The `nvim_command` request envelope: `[0, 300, "nvim_command", [cmd]]`.
pub open spec fn command_msg_bytes(cmd: Seq<char>) -> Seq<u8> {
    mp_array_len_bytes(4) + mp_uint_bytes(0) + mp_uint_bytes(300) + mp_str_bytes("nvim_command"@)
        + mp_array_len_bytes(1) + mp_str_bytes(cmd)
}

/// Frames one engine command.
pub fn command_msg(cmd: &str) -> (r: Vec<u8>)
    ensures
        r@ == command_msg_bytes(cmd@),
{
    let mut out: Vec<u8> = Vec::new();
    mp_array_len(&mut out, 4);
    mp_uint(&mut out, 0);
    mp_uint(&mut out, 300);
    mp_str(&mut out, "nvim_command");
    mp_array_len(&mut out, 1);
    mp_str(&mut out, cmd);
    proof {
        assert(out@ =~= command_msg_bytes(cmd@));
    }
    out
}

/// The quit command that shuts the engine down.
pub open spec fn quit_msg_bytes() -> Seq<u8> {
    command_msg_bytes("qa!"@)
}

/// Frames the quit command.
pub fn quit_msg() -> (r: Vec<u8>)
    ensures
        r@ == quit_msg_bytes(),
{
    command_msg("qa!")
}

/// The editor command that scrolls `n` rows forward.
pub open spec fn scroll_cmd(n: nat) -> Seq<char> {
    "normal "@ + dec_of(n) + "gjz\n"@
}

/// The framed scroll-forward command.
pub open spec fn scroll_msg_bytes(n: u64) -> Seq<u8> {
    command_msg_bytes(scroll_cmd(n as nat))
}

/// Frames the command that scrolls `n` rows forward.
pub fn scroll_msg(n: u64) -> (r: Vec<u8>)
    ensures
        r@ == scroll_msg_bytes(n),
{
    let mut cmd = "normal ".to_owned();
    cmd.append(dec_str(n).as_str());
    cmd.append("gjz\n");
    proof {
        assert(cmd@ =~= scroll_cmd(n as nat));
    }
    command_msg(cmd.as_str())
}

/// The UI attach request: `[0, 100, "nvim_ui_attach", [w, h, {rgb: true}]]`.
pub open spec fn attach_msg_bytes(width: u64, height: u64) -> Seq<u8> {
    mp_array_len_bytes(4) + mp_uint_bytes(0) + mp_uint_bytes(100) + mp_str_bytes(
        "nvim_ui_attach"@,
    ) + mp_array_len_bytes(3) + mp_uint_bytes(width) + mp_uint_bytes(height) + mp_map_len_bytes(1)
        + mp_str_bytes("rgb"@) + mp_bool_bytes(true)
}

/// Frames the UI attach request, always asking for 24-bit colour.
pub fn attach_msg(width: u64, height: u64) -> (r: Vec<u8>)
    ensures
        r@ == attach_msg_bytes(width, height),
{
    let mut out: Vec<u8> = Vec::new();
    mp_array_len(&mut out, 4);
    mp_uint(&mut out, 0);
    mp_uint(&mut out, 100);
    mp_str(&mut out, "nvim_ui_attach");
    mp_array_len(&mut out, 3);
    mp_uint(&mut out, width);
    mp_uint(&mut out, height);
    mp_map_len(&mut out, 1);
    mp_str(&mut out, "rgb");
    mp_bool(&mut out, true);
    proof {
        assert(out@ =~= attach_msg_bytes(width, height));
    }
    out
}

/// The encodings of a run of lines, in order.
pub open spec fn lines_bytes(lines: Seq<Seq<char>>) -> Seq<u8>
    decreases lines.len(),
{
    if lines.len() == 0 {
        Seq::empty()
    } else {
        lines_bytes(lines.drop_last()) + mp_str_bytes(lines.last())
    }
}

/// The append-lines request:
/// `[0, 100, "nvim_buf_set_lines", [1, -1, -1, false, lines]]`.
pub open spec fn set_lines_msg_bytes(lines: Seq<Seq<char>>) -> Seq<u8> {
    mp_array_len_bytes(4) + mp_uint_bytes(0) + mp_uint_bytes(100) + mp_str_bytes(
        "nvim_buf_set_lines"@,
    ) + mp_array_len_bytes(5) + mp_uint_bytes(1) + mp_sint_bytes(-1i64) + mp_sint_bytes(-1i64)
        + mp_bool_bytes(false) + mp_array_len_bytes(lines.len() as u32) + lines_bytes(lines)
}

/// Frames the request that appends `lines` to the engine's buffer.
pub fn set_lines_msg(lines: &Vec<String>) -> (r: Vec<u8>)
    requires
        lines@.len() <= 0xffffffff,
    ensures
        r@ == set_lines_msg_bytes(lines.deep_view()),
{
    let mut out: Vec<u8> = Vec::new();
    mp_array_len(&mut out, 4);
    mp_uint(&mut out, 0);
    mp_uint(&mut out, 100);
    mp_str(&mut out, "nvim_buf_set_lines");
    mp_array_len(&mut out, 5);
    mp_uint(&mut out, 1);
    mp_sint(&mut out, -1);
    mp_sint(&mut out, -1);
    mp_bool(&mut out, false);
    mp_array_len(&mut out, lines.len() as u32);
    let ghost head = out@;
    let mut i: usize = 0;
    while i < lines.len()
        invariant
            i <= lines.len(),
            out@ == head + lines_bytes(lines.deep_view().take(i as int)),
        decreases lines.len() - i,
    {
        proof {
            assert(lines.deep_view().take(i + 1).drop_last() =~= lines.deep_view().take(i as int));
            assert(lines.deep_view().take(i + 1).last() == lines[i as int]@);
            assert(lines_bytes(lines.deep_view().take(0)) =~= Seq::<u8>::empty());
        }
        mp_str(&mut out, lines[i].as_str());
        i = i + 1;
    }
    proof {
        assert(lines.deep_view().take(lines.len() as int) =~= lines.deep_view());
        assert(out@ =~= set_lines_msg_bytes(lines.deep_view()));
    }
    out
}

} // verus!
