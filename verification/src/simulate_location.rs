//! Location simulation: the messages that set and clear a simulated
//! location.

use vstd::prelude::*;

use crate::tcp::packets::be32_bytes;
use crate::text::utf8_bytes;

verus! {

/// The message that stops simulating a location.
pub fn clear_message() -> (r: Vec<u8>)
    ensures
        r@ == seq![0u8, 0, 0, 1],
{
    let r = vec![0u8, 0, 0, 1];
    assert(r@ =~= seq![0u8, 0, 0, 1]);
    r
}

/// A text field: its length in bytes (as a 32-bit number, wrapping), then
/// its UTF-8 bytes.
pub open spec fn text_field(t: Seq<char>) -> Seq<u8> {
    be32_bytes((utf8_bytes(t).len() % 0x1_0000_0000) as u32) + utf8_bytes(t)
}

/// Appends a text field.
fn push_text_field(out: &mut Vec<u8>, t: &str)
    ensures
        final(out)@ == old(out)@ + text_field(t@),
{
    let bytes = crate::text::utf8_encode(t);
    let wide: u64 = bytes.len() as u64;
    crate::tcp::packets::push_be32(out, (wide % 0x1_0000_0000) as u32);
    crate::bytes::append_bytes(out, bytes.as_slice());
    assert(final(out)@ =~= old(out)@ + text_field(t@));
}

/// The message that sets a simulated location: a zero word, then the
/// latitude and the longitude as text fields.
pub fn set_message(latitude: &str, longitude: &str) -> (r: Vec<u8>)
    ensures
        r@ == seq![0u8, 0, 0, 0] + text_field(latitude@) + text_field(longitude@),
{
    let mut out = vec![0u8, 0, 0, 0];
    let ghost head = out@;
    assert(head =~= seq![0u8, 0, 0, 0]);
    push_text_field(&mut out, latitude);
    push_text_field(&mut out, longitude);
    out
}

} // verus!
