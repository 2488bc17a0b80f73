//! Content addresses and their textual (hex) wire form.

use vstd::prelude::*;

verus! {

/// A content address: the deterministic identity of an entry, derived from
/// the entry's canonical encoding.  Immutable once computed; used as the key
/// in both the local chain and the distributed store.
#[derive(Debug, PartialEq, Eq)]
pub struct Address {
    bytes: Vec<u8>,
}

impl View for Address {
    type V = Seq<u8>;

    closed spec fn view(&self) -> Seq<u8> {
        self.bytes@
    }
}

/// Copies a byte vector; the copy carries the same bytes.
fn copy_bytes(src: &Vec<u8>) -> (r: Vec<u8>)
    ensures
        r@ == src@,
{
    let mut out: Vec<u8> = Vec::new();
    let mut i: usize = 0;
    while i < src.len()
        invariant
            i <= src.len(),
            out@ == src@.take(i as int),
        decreases src.len() - i,
    {
        out.push(src[i]);
        proof {
            assert(out@ =~= src@.take(i + 1));
        }
        i = i + 1;
    }
    proof {
        assert(src@.take(src@.len() as int) =~= src@);
    }
    out
}

impl Clone for Address {
    fn clone(&self) -> (r: Self)
        ensures
            r@ == self@,
    {
        Address { bytes: copy_bytes(&self.bytes) }
    }
}

impl Address {
    /// Wraps raw bytes as an address.
    pub fn from_bytes(bytes: Vec<u8>) -> (r: Address)
        ensures
            r@ == bytes@,
    {
        Address { bytes }
    }

    /// The raw bytes of the address.
    pub fn bytes(&self) -> (r: &Vec<u8>)
        ensures
            r@ == self@,
    {
        &self.bytes
    }

    /// Byte-for-byte equality of two addresses.
    pub fn same_as(&self, other: &Address) -> (r: bool)
        ensures
            r == (self@ == other@),
    {
        if self.bytes.len() != other.bytes.len() {
            return false;
        }
        let mut i: usize = 0;
        while i < self.bytes.len()
            invariant
                i <= self.bytes.len(),
                self.bytes.len() == other.bytes.len(),
                forall|j: int| 0 <= j < i ==> self@[j] == other@[j],
            decreases self.bytes.len() - i,
        {
            if self.bytes[i] != other.bytes[i] {
                return false;
            }
            i = i + 1;
        }
        proof {
            assert(self@ =~= other@);
        }
        true
    }

    /// Encodes the address as lowercase hex, its wire form.
    pub fn encode(&self) -> (r: Vec<u8>)
        ensures
            r@ == hex_encoding_of(self@),
    {
        let mut out: Vec<u8> = Vec::new();
        let mut i: usize = 0;
        while i < self.bytes.len()
            invariant
                i <= self.bytes.len(),
                out@.len() == 2 * i,
                forall|j: int|
                    0 <= j < 2 * i ==> out@[j] == hex_encoding_of(self@)[j],
            decreases self.bytes.len() - i,
        {
            let b = self.bytes[i];
            out.push(hex_digit_exec(b / 16));
            out.push(hex_digit_exec(b % 16));
            i = i + 1;
        }
        proof {
            assert(out@ =~= hex_encoding_of(self@));
        }
        out
    }
}

/// Whether a byte is an ASCII hex digit.
pub open spec fn is_hex_digit(b: u8) -> bool {
    (48 <= b && b <= 57) || (65 <= b && b <= 70) || (97 <= b && b <= 102)
}

/// The numeric value of an ASCII hex digit.
pub open spec fn hex_digit_value(b: u8) -> u8 {
    if 48 <= b && b <= 57 {
        (b - 48) as u8
    } else if 65 <= b && b <= 70 {
        (b - 55) as u8
    } else {
        (b - 87) as u8
    }
}

/// The lowercase ASCII hex digit for a value below 16.
pub open spec fn hex_digit(v: u8) -> u8 {
    if v < 10 {
        (48 + v) as u8
    } else {
        (87 + v) as u8
    }
}

/// Whether a byte string is a well-formed hex encoding of an address.
pub open spec fn is_hex_encoding(s: Seq<u8>) -> bool {
    s.len() % 2 == 0 && forall|i: int| 0 <= i < s.len() ==> is_hex_digit(#[trigger] s[i])
}

/// The bytes denoted by a hex encoding (each pair of digits is one byte).
pub open spec fn hex_decoded(s: Seq<u8>) -> Seq<u8> {
    Seq::new(
        s.len() / 2,
        |i: int| (hex_digit_value(s[2 * i]) * 16 + hex_digit_value(s[2 * i + 1])) as u8,
    )
}

/// The hex encoding of a byte string.
pub open spec fn hex_encoding_of(b: Seq<u8>) -> Seq<u8> {
    Seq::new(
        b.len() * 2,
        |i: int|
            if i % 2 == 0 {
                hex_digit((b[i / 2] / 16) as u8)
            } else {
                hex_digit((b[i / 2] % 16) as u8)
            },
    )
}

fn is_hex_digit_exec(b: u8) -> (r: bool)
    ensures
        r == is_hex_digit(b),
{
    (48 <= b && b <= 57) || (65 <= b && b <= 70) || (97 <= b && b <= 102)
}

fn hex_digit_value_exec(b: u8) -> (r: u8)
    requires
        is_hex_digit(b),
    ensures
        r == hex_digit_value(b),
        r < 16,
{
    if 48 <= b && b <= 57 {
        b - 48
    } else if 65 <= b && b <= 70 {
        b - 55
    } else {
        b - 87
    }
}

fn hex_digit_exec(v: u8) -> (r: u8)
    requires
        v < 16,
    ensures
        r == hex_digit(v),
{
    if v < 10 {
        48 + v
    } else {
        87 + v
    }
}

/// Parses the wire form of an address.  Returns the decoded address exactly
/// when the input is a well-formed hex encoding, and nothing otherwise.
pub fn decode_address(s: &[u8]) -> (r: Option<Address>)
    ensures
        match r {
            Some(a) => is_hex_encoding(s@) && a@ == hex_decoded(s@),
            None => !is_hex_encoding(s@),
        },
{
    if s.len() % 2 != 0 {
        return None;
    }
    let mut out: Vec<u8> = Vec::new();
    let mut i: usize = 0;
    while i < s.len()
        invariant
            i <= s.len(),
            i % 2 == 0,
            s.len() % 2 == 0,
            forall|j: int| 0 <= j < i ==> is_hex_digit(#[trigger] s@[j]),
            out@.len() == i / 2,
            forall|k: int|
                0 <= k < i / 2 ==> out@[k] == (hex_digit_value(s@[2 * k]) * 16 + hex_digit_value(
                    s@[2 * k + 1],
                )) as u8,
        decreases s.len() - i,
    {
        let hi = s[i];
        let lo = s[i + 1];
        if !is_hex_digit_exec(hi) {
            proof {
                assert(!is_hex_digit(s@[i as int]));
            }
            return None;
        }
        if !is_hex_digit_exec(lo) {
            proof {
                assert(!is_hex_digit(s@[i + 1]));
            }
            return None;
        }
        out.push(hex_digit_value_exec(hi) * 16 + hex_digit_value_exec(lo));
        i = i + 2;
    }
    proof {
        assert(out@ =~= hex_decoded(s@));
    }
    Some(Address { bytes: out })
}

/// Round trip: the hex encoding of any address is well formed and decodes to
/// the same bytes.
pub proof fn lemma_hex_round_trip(b: Seq<u8>)
    ensures
        is_hex_encoding(hex_encoding_of(b)),
        hex_decoded(hex_encoding_of(b)) == b,
{
    let e = hex_encoding_of(b);
    assert forall|i: int| 0 <= i < e.len() implies is_hex_digit(#[trigger] e[i]) by {
        let v = b[i / 2];
        assert(v / 16 < 16 && v % 16 < 16) by (nonlinear_arith)
            requires v <= 255u8,
        ;
    }
    assert forall|k: int| 0 <= k < b.len() implies hex_decoded(e)[k] == b[k] by {
        let v = b[k];
        assert(v / 16 < 16 && v % 16 < 16 && v == 16 * (v / 16) + v % 16) by (nonlinear_arith)
            requires v <= 255u8,
        ;
        assert(e[2 * k] == hex_digit((v / 16) as u8));
        assert(e[2 * k + 1] == hex_digit((v % 16) as u8));
        assert(hex_digit_value(hex_digit((v / 16) as u8)) == v / 16);
        assert(hex_digit_value(hex_digit((v % 16) as u8)) == v % 16);
    }
    assert(hex_decoded(e) =~= b);
}

} // verus!
