//! Byte-level encodings used by archive files: MD5 checksums, RFC 1924 base85
//! text, xz compression and the lossy UTF-8 reading of text files.
use vstd::prelude::*;
use vstd::utf8::*;

verus! {

/// Lowercase hexadecimal MD5 digest of a byte string.
pub uninterp spec fn md5_hex(b: Seq<u8>) -> Seq<char>;

/// RFC 1924 base85 text of a byte string.
pub uninterp spec fn base85_of(b: Seq<u8>) -> Seq<char>;

/// What the base85 decoder gives back for a text (`None` when it rejects it).
pub uninterp spec fn base85_decoded(s: Seq<char>) -> Option<Seq<u8>>;

/// The xz stream (preset level 6) of a byte string.
pub uninterp spec fn xz_of(b: Seq<u8>) -> Seq<u8>;

/// What the xz decoder gives back for a byte string (`None` when it rejects it).
pub uninterp spec fn xz_decoded(b: Seq<u8>) -> Option<Seq<u8>>;

/// Text of a byte string read as UTF-8, each invalid sequence replaced.
pub uninterp spec fn utf8_lossy(b: Seq<u8>) -> Seq<char>;

pub open spec fn bytes_view(o: Option<Vec<u8>>) -> Option<Seq<u8>> {
    match o {
        Some(v) => Some(v@),
        None => None,
    }
}

/// Digit value of a base85 character; a byte outside the alphabet counts as
/// the largest digit.
pub open spec fn b85_value(c: u8) -> int {
    if 48 <= c <= 57 {
        c - 48
    } else if 65 <= c <= 90 {
        c - 55
    } else if 97 <= c <= 122 {
        c - 61
    } else if c == 33 {
        62
    } else if c == 35 {
        63
    } else if c == 36 {
        64
    } else if c == 37 {
        65
    } else if c == 38 {
        66
    } else if c == 40 {
        67
    } else if c == 41 {
        68
    } else if c == 42 {
        69
    } else if c == 43 {
        70
    } else if c == 45 {
        71
    } else if c == 59 {
        72
    } else if c == 60 {
        73
    } else if c == 61 {
        74
    } else if c == 62 {
        75
    } else if c == 63 {
        76
    } else if c == 64 {
        77
    } else if c == 94 {
        78
    } else if c == 95 {
        79
    } else if c == 96 {
        80
    } else if c == 123 {
        81
    } else if c == 124 {
        82
    } else if c == 125 {
        83
    } else {
        84
    }
}

/// Digit at position `j`; past the end the decoder pads with 126.
pub open spec fn b85_digit_at(b: Seq<u8>, j: int) -> int {
    if j < b.len() {
        b85_value(b[j])
    } else {
        126
    }
}

/// Value that the decoder accumulates for the `k`-th group of five characters.
pub open spec fn b85_group_value(b: Seq<u8>, k: int) -> int {
    b85_digit_at(b, 5 * k) * 52200625 + b85_digit_at(b, 5 * k + 1) * 614125 + b85_digit_at(
        b,
        5 * k + 2,
    ) * 7225 + b85_digit_at(b, 5 * k + 3) * 85 + b85_digit_at(b, 5 * k + 4)
}

/// Every group of the text accumulates to a value that fits in 32 bits, so the
/// decoder's arithmetic cannot overflow on it.
pub open spec fn base85_fits(s: Seq<char>) -> bool {
    let b = encode_utf8(s);
    forall|k: int| 0 <= k && 5 * k < b.len() ==> #[trigger] b85_group_value(b, k) < 0x1_0000_0000
}

/// Relies on md5::compute and the digest's `{:x}` rendering: the lowercase hex
/// digest of the bytes.
#[verifier::external_body]
pub(crate) fn md5_hex_of(b: &[u8]) -> (r: String)
    ensures
        r@ == md5_hex(b@),
{
    format!("{:x}", md5::compute(b))
}

/// Relies on base85::encode: the RFC 1924 text of the bytes. Every group of
/// its output accumulates below 2^32 (a full group is the big-endian value of
/// four bytes; a short one is padded with digits that stay below the missing
/// bytes' weight), and base85::decode gives the bytes back from it.
#[verifier::external_body]
pub(crate) fn base85_encode(b: &[u8]) -> (r: String)
    ensures
        r@ == base85_of(b@),
        base85_fits(r@),
        base85_decoded(r@) == Some(b@),
{
    base85::encode(b)
}

/// Relies on base85::decode, the inverse of base85::encode. It is called only
/// on texts whose groups fit in 32 bits, where its arithmetic cannot overflow.
#[verifier::external_body]
pub(crate) fn base85_decode(s: &str) -> (r: Option<Vec<u8>>)
    requires
        base85_fits(s@),
    ensures
        bytes_view(r) == base85_decoded(s@),
        forall|raw: Seq<u8>| base85_of(raw) == s@ ==> (#[trigger] bytes_view(r)) == Some(raw),
{
    base85::decode(s).ok()
}

/// Relies on xz2::read::XzEncoder at preset level 6: the xz stream of the
/// bytes, which xz2::read::XzDecoder turns back into them. Read from a byte
/// slice, the encoder never reports an error (its only failure, a liblzma
/// allocation error, panics instead).
#[verifier::external_body]
pub(crate) fn xz_compress(b: &[u8]) -> (r: Vec<u8>)
    ensures
        r@ == xz_of(b@),
        xz_decoded(r@) == Some(b@),
{
    let mut out = Vec::new();
    let _ = std::io::Read::read_to_end(&mut xz2::read::XzEncoder::new(b, 6), &mut out);
    out
}

/// Relies on xz2::read::XzDecoder, the inverse of the encoder: the bytes that
/// the stream holds, or `None` when it is not a valid xz stream.
#[verifier::external_body]
pub(crate) fn xz_decompress(b: &[u8]) -> (r: Option<Vec<u8>>)
    ensures
        bytes_view(r) == xz_decoded(b@),
        forall|raw: Seq<u8>| xz_of(raw) == b@ ==> (#[trigger] bytes_view(r)) == Some(raw),
{
    let mut out = Vec::new();
    match std::io::Read::read_to_end(&mut xz2::read::XzDecoder::new(b), &mut out) {
        Ok(_) => Some(out),
        Err(_) => None,
    }
}

/// Relies on String::from_utf8_lossy: valid UTF-8 is decoded unchanged.
#[verifier::external_body]
pub(crate) fn utf8_lossy_of(b: &[u8]) -> (r: String)
    ensures
        r@ == utf8_lossy(b@),
        valid_utf8(b@) ==> r@ == decode_utf8(b@),
{
    String::from_utf8_lossy(b).to_string()
}

fn b85_value_of(c: u8) -> (r: u64)
    ensures
        r == b85_value(c),
{
    if 48 <= c && c <= 57 {
        (c - 48) as u64
    } else if 65 <= c && c <= 90 {
        (c - 55) as u64
    } else if 97 <= c && c <= 122 {
        (c - 61) as u64
    } else if c == 33 {
        62
    } else if c == 35 {
        63
    } else if c == 36 {
        64
    } else if c == 37 {
        65
    } else if c == 38 {
        66
    } else if c == 40 {
        67
    } else if c == 41 {
        68
    } else if c == 42 {
        69
    } else if c == 43 {
        70
    } else if c == 45 {
        71
    } else if c == 59 {
        72
    } else if c == 60 {
        73
    } else if c == 61 {
        74
    } else if c == 62 {
        75
    } else if c == 63 {
        76
    } else if c == 64 {
        77
    } else if c == 94 {
        78
    } else if c == 95 {
        79
    } else if c == 96 {
        80
    } else if c == 123 {
        81
    } else if c == 124 {
        82
    } else if c == 125 {
        83
    } else {
        84
    }
}

fn b85_digit(b: &[u8], j: usize) -> (r: u64)
    ensures
        r == b85_digit_at(b@, j as int),
        r <= 126,
{
    if j < b.len() {
        b85_value_of(b[j])
    } else {
        126
    }
}

/// Whether every group of `s` accumulates below 2^32 in the base85 decoder.
pub fn base85_fits_check(s: &str) -> (r: bool)
    ensures
        r == base85_fits(s@),
{
    let b = s.as_bytes();
    let n = b.len();
    let mut i: usize = 0;
    let ghost mut k: int = 0;
    while i < n
        invariant
            b@ == encode_utf8(s@),
            n == b@.len(),
            i == 5 * k,
            0 <= k,
            i <= n,
            forall|m: int| 0 <= m && 5 * m < i ==> #[trigger] b85_group_value(b@, m) < 0x1_0000_0000,
        decreases n - i,
    {
        let v: u64 = b85_digit(b, i) * 52200625 + b85_digit(b, i + 1) * 614125 + b85_digit(b, i + 2)
            * 7225 + b85_digit(b, i + 3) * 85 + b85_digit(b, i + 4);
        assert(v == b85_group_value(b@, k));
        if v >= 0x1_0000_0000 {
            return false;
        }
        if n - i <= 5 {
            assert forall|m: int| 0 <= m && 5 * m < n implies #[trigger] b85_group_value(b@, m)
                < 0x1_0000_0000 by {
                if m < k {
                } else {
                    assert(m == k);
                }
            }
            return true;
        }
        i = i + 5;
        proof {
            k = k + 1;
        }
    }
    true
}

} // verus!
