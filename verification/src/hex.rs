//! Lower-case hexadecimal encoding of UTF-8 text, which the Bridge uses for
//! every free-text field on its `|`-separated wire format.

use vstd::prelude::*;
use vstd::utf8::{decode_utf8, encode_utf8, valid_utf8};
use crate::error::BridgeError;
use crate::text::join_pieces;

verus! {

broadcast use vstd::utf8::group_utf8_lib;

/// The hexadecimal digit for a value below sixteen.
pub open spec fn hex_digit(n: nat) -> char {
    if n < 10 {
        (n + '0' as u32) as char
    } else {
        (n - 10 + 'a' as u32) as char
    }
}

/// Two lower-case hexadecimal digits per byte.
pub open spec fn hex_bytes(b: Seq<u8>) -> Seq<char> {
    Seq::new(
        2 * b.len(),
        |i: int|
            if i % 2 == 0 {
                hex_digit((b[i / 2] / 16) as nat)
            } else {
                hex_digit((b[i / 2] % 16) as nat)
            },
    )
}

/// The hexadecimal text of a string's UTF-8 bytes.
pub open spec fn hex_text(s: Seq<char>) -> Seq<char> {
    hex_bytes(encode_utf8(s))
}

/// The value of a hexadecimal digit byte, either case.
pub open spec fn hex_nibble(b: u8) -> Option<nat> {
    if '0' as u8 <= b <= '9' as u8 {
        Some((b - '0' as u8) as nat)
    } else if 'a' as u8 <= b <= 'f' as u8 {
        Some((b - 'a' as u8 + 10) as nat)
    } else if 'A' as u8 <= b <= 'F' as u8 {
        Some((b - 'A' as u8 + 10) as nat)
    } else {
        None
    }
}

/// Whether every byte of `b` is a hexadecimal digit and there is an even number of them.
pub open spec fn hex_well_formed(b: Seq<u8>) -> bool {
    b.len() % 2 == 0 && forall|i: int| 0 <= i < b.len() ==> (#[trigger] hex_nibble(b[i])) is Some
}

/// The bytes that well-formed hexadecimal text stands for.
pub open spec fn hex_pairs(b: Seq<u8>) -> Seq<u8> {
    Seq::new(
        b.len() / 2,
        |k: int| (hex_nibble(b[2 * k])->0 * 16 + hex_nibble(b[2 * k + 1])->0) as u8,
    )
}

/// What decoding a hexadecimal field gives: the UTF-8 text that it stands for.
pub open spec fn hex_decoded(s: Seq<char>) -> Result<Seq<char>, BridgeError> {
    let b = encode_utf8(s);
    if !hex_well_formed(b) {
        Err(BridgeError::InvalidNameEncoding)
    } else if !valid_utf8(hex_pairs(b)) {
        Err(BridgeError::InvalidNameEncoding)
    } else {
        Ok(decode_utf8(hex_pairs(b)))
    }
}

/// `std::str::from_utf8`: the text that valid UTF-8 bytes encode.
#[verifier::external_body]
pub(crate) fn utf8_str(bytes: &[u8]) -> (r: Option<&str>)
    ensures
        r is Some <==> valid_utf8(bytes@),
        r matches Some(t) ==> t@ == decode_utf8(bytes@),
{
    std::str::from_utf8(bytes).ok()
}

fn hex_digit_char(n: u8) -> (c: char)
    requires
        n < 16,
    ensures
        c == hex_digit(n as nat),
{
    if n < 10 {
        ((n as u32) + ('0' as u32)) as u8 as char
    } else {
        ((n as u32) - 10 + ('a' as u32)) as u8 as char
    }
}

/// Appends the hexadecimal text of a string's UTF-8 bytes.
pub fn hex_encode_into(output: &mut String, value: &str)
    ensures
        final(output)@ == old(output)@ + hex_text(value@),
{
    let bytes = value.as_bytes();
    let ghost b = encode_utf8(value@);
    let mut i: usize = 0;
    while i < bytes.len()
        invariant
            bytes@ == b,
            i <= bytes.len(),
            output@ == old(output)@ + hex_bytes(b.take(i as int)),
        decreases bytes.len() - i,
    {
        let byte = bytes[i];
        output.push(hex_digit_char(byte / 16));
        output.push(hex_digit_char(byte % 16));
        i += 1;
        assert(hex_bytes(b.take(i as int)) =~= hex_bytes(b.take((i - 1) as int)).push(
            hex_digit((byte / 16) as nat),
        ).push(hex_digit((byte % 16) as nat)));
    }
    assert(b.take(bytes.len() as int) == b);
}

/// The hexadecimal text of a string's UTF-8 bytes.
pub fn hex_encode(value: &str) -> (r: String)
    ensures
        r@ == hex_text(value@),
{
    let mut encoded = String::new();
    hex_encode_into(&mut encoded, value);
    encoded
}

/// The hexadecimal texts of the records, separated by `;`.
pub open spec fn hex_joined(records: Seq<String>) -> Seq<char> {
    join_pieces(records.map_values(|r: String| hex_text(r@)), ';')
}

/// Encodes each record and joins them with `;`.
pub fn hex_join_records(records: &[String]) -> (payload: String)
    ensures
        payload@ == hex_joined(records@),
{
    let mut payload = String::new();
    let mut index: usize = 0;
    while index < records.len()
        invariant
            index <= records.len(),
            payload@ == hex_joined(records@.take(index as int)),
        decreases records.len() - index,
    {
        let ghost before = records@.take(index as int);
        if index != 0 {
            payload.push(';');
        }
        hex_encode_into(&mut payload, records[index].as_str());
        index += 1;
        proof {
            let now = records@.take(index as int);
            assert(now.drop_last() == before);
            assert(now.map_values(|r: String| hex_text(r@)).drop_last() =~= before.map_values(
                |r: String| hex_text(r@),
            ));
            if index == 1 {
                assert(now.map_values(|r: String| hex_text(r@)) =~= seq![hex_text(records@[0]@)]);
            }
        }
    }
    assert(records@.take(records.len() as int) == records@);
    payload
}

/// The value of a hexadecimal digit byte, either case.
pub fn hex_value(value: u8) -> (r: Option<u8>)
    ensures
        match r {
            Some(n) => hex_nibble(value) == Some(n as nat),
            None => hex_nibble(value) is None,
        },
{
    if 48 <= value && value <= 57 {
        Some(value - 48)
    } else if 97 <= value && value <= 102 {
        Some(value - 97 + 10)
    } else if 65 <= value && value <= 70 {
        Some(value - 65 + 10)
    } else {
        None
    }
}

/// Decodes hexadecimal text back into the UTF-8 string it stands for.
pub fn hex_decode(encoded: &str) -> (r: Result<String, BridgeError>)
    ensures
        match (r, hex_decoded(encoded@)) {
            (Ok(s), Ok(t)) => s@ == t,
            (Err(e), Err(f)) => e == f,
            _ => false,
        },
{
    let bytes = encoded.as_bytes();
    let ghost b = encode_utf8(encoded@);
    if bytes.len() % 2 != 0 {
        return Err(BridgeError::InvalidNameEncoding);
    }
    let mut out: Vec<u8> = Vec::new();
    let mut k: usize = 0;
    while k < bytes.len() / 2
        invariant
            bytes@ == b,
            b == encode_utf8(encoded@),
            b.len() % 2 == 0,
            k <= b.len() / 2,
            forall|i: int| 0 <= i < 2 * k ==> (#[trigger] hex_nibble(b[i])) is Some,
            out@ == hex_pairs(b.take(2 * k as int)),
        decreases bytes.len() / 2 - k,
    {
        let high = match hex_value(bytes[2 * k]) {
            Some(v) => v,
            None => {
                assert(hex_nibble(b[2 * k as int]) is None);
                return Err(BridgeError::InvalidNameEncoding);
            },
        };
        let low = match hex_value(bytes[2 * k + 1]) {
            Some(v) => v,
            None => {
                assert(hex_nibble(b[2 * k + 1]) is None);
                return Err(BridgeError::InvalidNameEncoding);
            },
        };
        out.push(high * 16 + low);
        k += 1;
        assert(hex_pairs(b.take(2 * k as int)) =~= hex_pairs(b.take(2 * (k - 1) as int)).push(
            (high * 16 + low) as u8,
        ));
    }
    assert(b.take(b.len() as int) == b);
    match utf8_str(out.as_slice()) {
        Some(text) => Ok(text.to_owned()),
        None => Err(BridgeError::InvalidNameEncoding),
    }
}

/// Hexadecimal text is plain ASCII: its UTF-8 bytes are its characters.
pub proof fn lemma_hex_bytes_ascii(b: Seq<u8>)
    ensures
        vstd::utf8::is_ascii_chars(hex_bytes(b)),
        forall|i: int|
            0 <= i < hex_bytes(b).len() ==> #[trigger] encode_utf8(hex_bytes(b))[i]
                == hex_bytes(b)[i] as u8,
        encode_utf8(hex_bytes(b)).len() == hex_bytes(b).len(),
{
    let h = hex_bytes(b);
    assert(vstd::utf8::is_ascii_chars(h));
    vstd::utf8::is_ascii_chars_encode_utf8(h);
}

/// Decoding the hexadecimal text of a string gives the string back.
pub proof fn lemma_hex_round_trip(s: Seq<char>)
    ensures
        hex_decoded(hex_text(s)) == Ok::<Seq<char>, BridgeError>(s),
{
    let b = encode_utf8(s);
    let h = hex_bytes(b);
    lemma_hex_bytes_ascii(b);
    let e = encode_utf8(h);
    assert forall|i: int| 0 <= i < e.len() implies (#[trigger] hex_nibble(e[i])) is Some by {
        assert(e[i] == h[i] as u8);
    }
    assert(hex_pairs(e) =~= b) by {
        assert forall|k: int| 0 <= k < b.len() implies #[trigger] hex_pairs(e)[k] == b[k] by {
            assert(e[2 * k] == h[2 * k] as u8);
            assert(e[2 * k + 1] == h[2 * k + 1] as u8);
            assert((2 * k) / 2 == k);
            assert((2 * k + 1) / 2 == k);
            let hi = b[k] / 16;
            let lo = b[k] % 16;
            assert(hex_nibble(hex_digit(hi as nat) as u8) == Some(hi as nat));
            assert(hex_nibble(hex_digit(lo as nat) as u8) == Some(lo as nat));
        }
    }
}

/// Hexadecimal text never holds a separator of the wire format.
pub proof fn lemma_hex_text_excludes(s: Seq<char>, c: char)
    requires
        !(('0' <= c <= '9') || ('a' <= c <= 'f')),
    ensures
        !hex_text(s).contains(c),
{
    let h = hex_text(s);
    if h.contains(c) {
        let k = choose|k: int| 0 <= k < h.len() && h[k] == c;
        assert(h[k] == c);
    }
}

} // verus!
