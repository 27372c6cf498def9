//! Hexadecimal text for addresses, hashes and keys.

use vstd::prelude::*;
use vstd::string::*;
use crate::text::hex_char;
use crate::types::{Address, Hash256, ADDRESS_LEN, HASH_LEN};

verus! {

/// Two lower-case hex digits of a byte.
pub open spec fn hex_pair(v: u8) -> Seq<char> {
    seq![hex_char((v / 16) as int), hex_char((v % 16) as int)]
}

/// Lower-case hex of a byte string, two digits per byte.
pub open spec fn spec_hex_encode(b: Seq<u8>) -> Seq<char>
    decreases b.len(),
{
    if b.len() == 0 {
        Seq::empty()
    } else {
        spec_hex_encode(b.drop_last()) + hex_pair(b.last())
    }
}

/// The value of a hex digit byte (either case).
pub open spec fn hex_val(c: u8) -> Option<u8> {
    if 0x30 <= c && c <= 0x39 {
        Some((c - 0x30) as u8)
    } else if 0x61 <= c && c <= 0x66 {
        Some((c - 0x61 + 10) as u8)
    } else if 0x41 <= c && c <= 0x46 {
        Some((c - 0x41 + 10) as u8)
    } else {
        None
    }
}

/// The bytes that hex text (as UTF-8 bytes) denotes: an even number of hex
/// digits, each pair a byte, high digit first.
pub open spec fn spec_hex_decode(s: Seq<u8>) -> Option<Seq<u8>>
    decreases s.len(),
{
    if s.len() % 2 != 0 {
        None
    } else if s.len() == 0 {
        Some(Seq::empty())
    } else {
        match (spec_hex_decode(s.subrange(0, s.len() - 2)), hex_val(s[s.len() - 2]), hex_val(s[s.len() - 1])) {
            (Some(p), Some(h), Some(l)) => Some(p.push((h * 16 + l) as u8)),
            _ => None,
        }
    }
}

/// `hex::encode`: lower-case hex, two digits per byte.
#[verifier::external_body]
pub(crate) fn hex_encode(data: &[u8]) -> (s: String)
    ensures
        s@ == spec_hex_encode(data@),
{
    hex::encode(data)
}

/// The text of the error `hex::decode` reports for text that is not an
/// even number of hex digits.
pub uninterp spec fn hex_decode_error(s: Seq<u8>) -> Seq<char>;

/// `hex::decode`: the bytes of an even number of hex digits (either
/// case); otherwise the crate's error, as text.
#[verifier::external_body]
pub(crate) fn hex_decode(data: &[u8]) -> (r: Result<Vec<u8>, String>)
    ensures
        match spec_hex_decode(data@) {
            Some(b) => r matches Ok(v) && v@ == b,
            None => r matches Err(e) && e@ == hex_decode_error(data@),
        },
{
    hex::decode(data).map_err(|e| e.to_string())
}

/// Text bytes without one leading `0x`.
pub open spec fn strip_0x(b: Seq<u8>) -> Seq<u8> {
    if b.len() >= 2 && b[0] == 0x30 && b[1] == 0x78 {
        b.subrange(2, b.len() as int)
    } else {
        b
    }
}

/// Text bytes without one leading `0x`.
pub fn strip_hex_prefix(b: &[u8]) -> (r: &[u8])
    ensures
        r@ == strip_0x(b@),
{
    if b.len() >= 2 && b[0] == 0x30 && b[1] == 0x78 {
        vstd::slice::slice_subrange(b, 2, b.len())
    } else {
        b
    }
}

/// What parsing hex text as `n` bytes gives: the bytes, or the error text.
pub open spec fn spec_parse_fixed(s: Seq<u8>, n: nat, what: Seq<char>) -> Result<Seq<u8>, Seq<char>> {
    match spec_hex_decode(strip_0x(s)) {
        None => Err(hex_decode_error(strip_0x(s))),
        Some(b) => if b.len() == n {
            Ok(b)
        } else {
            Err(what)
        },
    }
}

/// `0x` followed by the lower-case hex of an address.
pub fn hex_addr(a: &Address) -> (s: String)
    ensures
        s@ == "0x"@ + spec_hex_encode(a@),
{
    let h = hex_encode(a.as_slice());
    String::from_str("0x").concat(h.as_str())
}

/// `0x` followed by the lower-case hex of a hash.
pub fn hex_hash(h: &Hash256) -> (s: String)
    ensures
        s@ == "0x"@ + spec_hex_encode(h@),
{
    let x = hex_encode(h.as_slice());
    String::from_str("0x").concat(x.as_str())
}

/// Copies exactly `N` bytes into an array.
fn to_array20(v: &Vec<u8>) -> (a: [u8; 20])
    requires
        v@.len() == 20,
    ensures
        a@ == v@,
{
    let mut a = [0u8; 20];
    let mut i: usize = 0;
    while i < 20
        invariant
            v@.len() == 20,
            i <= 20,
            forall|k: int| 0 <= k < i ==> a@[k] == v@[k],
        decreases 20 - i,
    {
        a[i] = v[i];
        i = i + 1;
    }
    assert(a@ =~= v@);
    a
}

fn to_array32(v: &Vec<u8>) -> (a: [u8; 32])
    requires
        v@.len() == 32,
    ensures
        a@ == v@,
{
    let mut a = [0u8; 32];
    let mut i: usize = 0;
    while i < 32
        invariant
            v@.len() == 32,
            i <= 32,
            forall|k: int| 0 <= k < i ==> a@[k] == v@[k],
        decreases 32 - i,
    {
        a[i] = v[i];
        i = i + 1;
    }
    assert(a@ =~= v@);
    a
}

/// Parses an address: optional `0x`, then 40 hex digits.
pub fn parse_addr(s: &str) -> (r: Result<Address, String>)
    ensures
        match spec_parse_fixed(s.spec_bytes(), 20, "address must be 20 bytes"@) {
            Ok(b) => r matches Ok(a) && a@ == b,
            Err(m) => r matches Err(e) && e@ == m,
        },
{
    let t = strip_hex_prefix(s.as_bytes());
    let bytes = match hex_decode(t) {
        Ok(b) => b,
        Err(e) => {
            return Err(e);
        },
    };
    if bytes.len() != ADDRESS_LEN {
        return Err(String::from_str("address must be 20 bytes"));
    }
    Ok(to_array20(&bytes))
}

/// Parses a hash: optional `0x`, then 64 hex digits.
pub fn parse_hash(s: &str) -> (r: Result<Hash256, String>)
    ensures
        match spec_parse_fixed(s.spec_bytes(), 32, "hash must be 32 bytes"@) {
            Ok(b) => r matches Ok(a) && a@ == b,
            Err(m) => r matches Err(e) && e@ == m,
        },
{
    let t = strip_hex_prefix(s.as_bytes());
    let bytes = match hex_decode(t) {
        Ok(b) => b,
        Err(e) => {
            return Err(e);
        },
    };
    if bytes.len() != HASH_LEN {
        return Err(String::from_str("hash must be 32 bytes"));
    }
    Ok(to_array32(&bytes))
}

/// Parses a 32-byte secret key: optional `0x`, then 64 hex digits.
pub fn parse_secret(s: &str) -> (r: Result<[u8; 32], String>)
    ensures
        match spec_parse_fixed(s.spec_bytes(), 32, "secret must be 32 bytes"@) {
            Ok(b) => r matches Ok(a) && a@ == b,
            Err(m) => r matches Err(e) && e@ == m,
        },
{
    let t = strip_hex_prefix(s.as_bytes());
    let bytes = match hex_decode(t) {
        Ok(b) => b,
        Err(e) => {
            return Err(e);
        },
    };
    if bytes.len() != 32 {
        return Err(String::from_str("secret must be 32 bytes"));
    }
    Ok(to_array32(&bytes))
}

/// The bytes of ASCII characters.
pub open spec fn ascii_bytes(s: Seq<char>) -> Seq<u8> {
    Seq::new(s.len(), |i: int| s[i] as u8)
}

proof fn lemma_hex_digit(d: int)
    requires
        0 <= d < 16,
    ensures
        '\0' <= hex_char(d) <= '\u{7f}',
        hex_val(hex_char(d) as u8) == Some(d as u8),
{
    reveal_strlit("0123456789abcdef");
    assert("0123456789abcdef"@ =~= seq!['0', '1', '2', '3', '4', '5', '6', '7', '8', '9', 'a', 'b', 'c', 'd', 'e', 'f']);
}

proof fn lemma_hex_encode_ascii(b: Seq<u8>)
    ensures
        spec_hex_encode(b).len() == 2 * b.len(),
        vstd::utf8::is_ascii_chars(spec_hex_encode(b)),
        spec_hex_decode(ascii_bytes(spec_hex_encode(b))) == Some(b),
    decreases b.len(),
{
    if b.len() > 0 {
        let d = b.drop_last();
        let v = b.last();
        lemma_hex_encode_ascii(d);
        let e = spec_hex_encode(d);
        let p = hex_pair(v);
        lemma_hex_digit((v / 16) as int);
        lemma_hex_digit((v % 16) as int);
        let full = e + p;
        assert(spec_hex_encode(b) == full);
        assert forall|i: int| 0 <= i < full.len() implies '\0' <= #[trigger] full[i] <= '\u{7f}' by {
            if i < e.len() {
                assert(full[i] == e[i]);
            } else {
                assert(full[i] == p[i - e.len()]);
            }
        }
        let bytes = ascii_bytes(full);
        assert(bytes.subrange(0, bytes.len() - 2) =~= ascii_bytes(e));
        assert(bytes[bytes.len() - 2] == hex_char((v / 16) as int) as u8);
        assert(bytes[bytes.len() - 1] == hex_char((v % 16) as int) as u8);
        assert(((v / 16) as u8 * 16 + (v % 16) as u8) as u8 == v);
        assert(d.push(v) =~= b);
    } else {
        assert(ascii_bytes(spec_hex_encode(b)) =~= Seq::<u8>::empty());
        assert(b =~= Seq::<u8>::empty());
    }
}

/// Hex text read back: the `0x`-prefixed lower-case hex of any bytes (as
/// `hex_addr` and `hex_hash` write it), parsed as that many bytes, gives
/// the bytes back; so `parse_addr(hex_addr(a))` is `a` and
/// `parse_hash(hex_hash(h))` is `h`.
pub proof fn law_hex_roundtrip(b: Seq<u8>, what: Seq<char>)
    ensures
        spec_parse_fixed(vstd::utf8::encode_utf8("0x"@ + spec_hex_encode(b)), b.len(), what) == Ok::<Seq<u8>, Seq<char>>(b),
        spec_parse_fixed(vstd::utf8::encode_utf8(spec_hex_encode(b)), b.len(), what) == Ok::<Seq<u8>, Seq<char>>(b),
{
    reveal_strlit("0x");
    lemma_hex_encode_ascii(b);
    let e = spec_hex_encode(b);
    let s = "0x"@ + e;
    assert("0x"@ =~= seq!['0', 'x']);
    assert(vstd::utf8::is_ascii_chars(s)) by {
        assert forall|i: int| 0 <= i < s.len() implies '\0' <= #[trigger] s[i] <= '\u{7f}' by {
            if i >= 2 {
                assert(s[i] == e[i - 2]);
            }
        }
    }
    vstd::utf8::is_ascii_chars_encode_utf8(s);
    vstd::utf8::is_ascii_chars_encode_utf8(e);
    assert(vstd::utf8::encode_utf8(s) =~= ascii_bytes(s));
    assert(vstd::utf8::encode_utf8(e) =~= ascii_bytes(e));
    assert(strip_0x(ascii_bytes(s)) =~= ascii_bytes(e));
    if e.len() >= 2 {
        assert(ascii_bytes(e)[0] == e[0] as u8);
        lemma_first_hex_not_x(b);
    }
}

proof fn lemma_first_hex_not_x(b: Seq<u8>)
    requires
        b.len() > 0,
    ensures
        spec_hex_encode(b)[1] as u8 != 0x78,
    decreases b.len(),
{
    let d = b.drop_last();
    lemma_hex_encode_ascii(d);
    if d.len() > 0 {
        lemma_first_hex_not_x(d);
        assert(spec_hex_encode(b)[1] == spec_hex_encode(d)[1]);
    } else {
        assert(spec_hex_encode(b) =~= hex_pair(b.last()));
        lemma_hex_digit((b.last() % 16) as int);
    }
}

} // verus!
