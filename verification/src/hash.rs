use vstd::prelude::*;
use vstd::utf8::encode_utf8;

verus! {

/// What SHA-256 gives for a byte sequence.
pub uninterp spec fn sha256_spec(data: Seq<u8>) -> Seq<u8>;

/// Calls `sha2::Sha256::digest`. The contract claims that the digest is the SHA-256
/// function of the input bytes, and that it is 32 bytes long.
#[verifier::external_body]
pub(crate) fn sha256_digest(data: &[u8]) -> (r: Vec<u8>)
    ensures
        r@ == sha256_spec(data@),
        r@.len() == 32,
{
    <sha2::Sha256 as sha2::Digest>::digest(data).to_vec()
}

/// The lower-case hexadecimal digit for `d < 16`.
pub open spec fn hex_digit(d: nat) -> char {
    if d < 10 {
        crate::text::digit_char(d)
    } else if d == 10 { 'a' } else if d == 11 { 'b' } else if d == 12 { 'c' }
    else if d == 13 { 'd' } else if d == 14 { 'e' } else { 'f' }
}

/// Lower-case hexadecimal notation of a byte sequence, two digits per byte, as the
/// `{:x}` format of a digest writes it.
pub open spec fn hex_lower(bytes: Seq<u8>) -> Seq<char>
    decreases bytes.len(),
{
    if bytes.len() == 0 {
        seq![]
    } else {
        hex_lower(bytes.drop_last()) + seq![
            hex_digit((bytes.last() / 16) as nat),
            hex_digit((bytes.last() % 16) as nat),
        ]
    }
}

/// A character is a lower-case hexadecimal digit.
pub open spec fn is_hex_char(c: char) -> bool {
    ('0' <= c && c <= '9') || ('a' <= c && c <= 'f')
}

fn hex_digit_of(d: u8) -> (c: char)
    requires
        d < 16,
    ensures
        c == hex_digit(d as nat),
        is_hex_char(c),
{
    if d == 0 { '0' } else if d == 1 { '1' } else if d == 2 { '2' } else if d == 3 { '3' }
    else if d == 4 { '4' } else if d == 5 { '5' } else if d == 6 { '6' } else if d == 7 { '7' }
    else if d == 8 { '8' } else if d == 9 { '9' } else if d == 10 { 'a' } else if d == 11 { 'b' }
    else if d == 12 { 'c' } else if d == 13 { 'd' } else if d == 14 { 'e' } else { 'f' }
}

/// Lower-case hexadecimal notation of `bytes`.
pub fn to_hex_lower(bytes: &Vec<u8>) -> (r: String)
    ensures
        r@ == hex_lower(bytes@),
        r@.len() == 2 * bytes@.len(),
        forall|k: int| 0 <= k < r@.len() ==> is_hex_char(#[trigger] r@[k]),
{
    let mut r = String::new();
    let mut i: usize = 0;
    while i < bytes.len()
        invariant
            i <= bytes@.len(),
            r@ == hex_lower(bytes@.take(i as int)),
            r@.len() == 2 * i,
            forall|k: int| 0 <= k < r@.len() ==> is_hex_char(#[trigger] r@[k]),
        decreases bytes@.len() - i,
    {
        let b = bytes[i];
        let hi = hex_digit_of(b / 16);
        let lo = hex_digit_of(b % 16);
        let ghost before = r@;
        crate::text::push_char(&mut r, hi);
        crate::text::push_char(&mut r, lo);
        proof {
            assert(bytes@.take(i + 1).drop_last() == bytes@.take(i as int));
            assert(r@ == before + seq![hi, lo]);
        }
        i = i + 1;
    }
    assert(bytes@.take(bytes@.len() as int) == bytes@);
    r
}

/// The bytes that go into the hash of a list of parts: each part's UTF-8 bytes
/// followed by a zero byte.
pub open spec fn hash_frame(parts: Seq<Seq<char>>) -> Seq<u8>
    decreases parts.len(),
{
    if parts.len() == 0 {
        seq![]
    } else {
        hash_frame(parts.drop_last()) + encode_utf8(parts.last()) + seq![0u8]
    }
}

/// The stable identifier of a list of parts: the lower-case hex SHA-256 of their frame.
pub open spec fn stable_hash_spec(parts: Seq<Seq<char>>) -> Seq<char> {
    hex_lower(sha256_spec(hash_frame(parts)))
}

/// The views of a list of string slices.
pub open spec fn str_views(parts: Seq<&str>) -> Seq<Seq<char>> {
    parts.map_values(|p: &str| p@)
}

/// The SHA-256 hex digest of the parts, each followed by a zero byte.
pub fn stable_hash(parts: &[&str]) -> (r: String)
    ensures
        r@ == stable_hash_spec(str_views(parts@)),
        r@.len() == 64,
        forall|k: int| 0 <= k < r@.len() ==> is_hex_char(#[trigger] r@[k]),
{
    let mut frame: Vec<u8> = Vec::new();
    let mut i: usize = 0;
    while i < parts.len()
        invariant
            i <= parts@.len(),
            frame@ == hash_frame(str_views(parts@.take(i as int))),
        decreases parts@.len() - i,
    {
        let bytes = parts[i].as_bytes();
        let ghost before = frame@;
        let mut j: usize = 0;
        while j < bytes.len()
            invariant
                j <= bytes@.len(),
                frame@ == before + bytes@.take(j as int),
            decreases bytes@.len() - j,
        {
            frame.push(bytes[j]);
            assert(bytes@.take(j + 1) == bytes@.take(j as int).push(bytes@[j as int]));
            j = j + 1;
        }
        frame.push(0u8);
        proof {
            assert(bytes@.take(bytes@.len() as int) == bytes@);
            let prefix = str_views(parts@.take(i + 1));
            assert(prefix.drop_last() == str_views(parts@.take(i as int)));
            assert(prefix.last() == parts@[i as int]@);
            assert(frame@ == hash_frame(prefix));
        }
        i = i + 1;
    }
    assert(parts@.take(parts@.len() as int) == parts@);
    let digest = sha256_digest(frame.as_slice());
    to_hex_lower(&digest)
}

} // verus!
