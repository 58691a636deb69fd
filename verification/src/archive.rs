//! Integrity and unpacking of release archives: checksum verification,
//! decompression chosen by tool kind, and the archive's leading directory
//! name.
//!
//! Proton releases are gzip-compressed tars; the Wine family uses xz.
use vstd::prelude::*;

use crate::tag::TagKind;

verus! {

/// The SHA-512 digest of a byte sequence, as ring computes it.
pub uninterp spec fn sha512_of(data: Seq<u8>) -> Seq<u8>;

/// The characters that the replacement-tolerant UTF-8 reading of a byte
/// sequence yields.
pub uninterp spec fn utf8_lossy_of(bytes: Seq<u8>) -> Seq<char>;

/// The bytes a gzip stream inflates to, or `None` when it is no valid
/// gzip stream.
pub uninterp spec fn gzip_decoded(data: Seq<u8>) -> Option<Seq<u8>>;

/// The bytes an xz stream decompresses to, or `None` when it is no valid
/// xz stream.
pub uninterp spec fn xz_decoded(data: Seq<u8>) -> Option<Seq<u8>>;

/// The lower-case hex digit of a value below sixteen.
pub open spec fn hex_digit(n: int) -> char {
    if n < 10 {
        ((48 + n) as u32) as char
    } else {
        ((87 + n) as u32) as char
    }
}

/// The lower-case hex encoding of a byte sequence: two digits per byte.
pub open spec fn hex_of(bytes: Seq<u8>) -> Seq<char> {
    Seq::new(
        bytes.len() * 2,
        |i: int|
            if i % 2 == 0 {
                hex_digit((bytes[i / 2] / 16) as int)
            } else {
                hex_digit((bytes[i / 2] % 16) as int)
            },
    )
}

/// Relies on ring::digest::digest with the SHA512 algorithm: the SHA-512
/// digest of the data, 64 bytes long.
#[verifier::external_body]
fn sha512_digest(data: &[u8]) -> (r: Vec<u8>)
    ensures
        r@ == sha512_of(data@),
        r@.len() == 64,
{
    ring::digest::digest(&ring::digest::SHA512, data).as_ref().to_vec()
}

/// Relies on data_encoding::HEXLOWER.encode: the lower-case hex encoding
/// of the bytes, two digits per byte.
#[verifier::external_body]
fn hex_lower(bytes: &[u8]) -> (r: String)
    ensures
        r@ == hex_of(bytes@),
{
    data_encoding::HEXLOWER.encode(bytes)
}

/// Relies on String::from_utf8_lossy: the characters of the bytes, with
/// invalid sequences replaced; the result depends on the bytes alone.
#[verifier::external_body]
pub fn utf8_lossy(bytes: &[u8]) -> (r: String)
    ensures
        r@ == utf8_lossy_of(bytes@),
{
    String::from_utf8_lossy(bytes).into_owned()
}

/// An ASCII whitespace character, as checksum files delimit their fields.
pub open spec fn is_space(c: char) -> bool {
    c == ' ' || c == '\t' || c == '\n' || c == '\r'
}

/// The first index at or past `i` holding a non-space, or the length.
pub open spec fn skip_spaces(s: Seq<char>, i: int) -> int
    decreases s.len() - i,
{
    if i < 0 || i >= s.len() {
        s.len() as int
    } else if is_space(s[i]) {
        skip_spaces(s, i + 1)
    } else {
        i
    }
}

/// The first index at or past `i` holding a space, or the length.
pub open spec fn token_end(s: Seq<char>, i: int) -> int
    decreases s.len() - i,
{
    if i < 0 || i >= s.len() {
        s.len() as int
    } else if is_space(s[i]) {
        i
    } else {
        token_end(s, i + 1)
    }
}

/// The first whitespace-delimited token of `s`, or `None` when `s` holds
/// only whitespace.
pub open spec fn first_token(s: Seq<char>) -> Option<Seq<char>> {
    let a = skip_spaces(s, 0);
    if a >= s.len() {
        None
    } else {
        Some(s.subrange(a, token_end(s, a)))
    }
}

/// Whether the character is ASCII whitespace.
fn is_space_char(c: char) -> (b: bool)
    ensures
        b == is_space(c),
{
    c == ' ' || c == '\t' || c == '\n' || c == '\r'
}

/// The first whitespace-delimited token of the characters.
fn first_token_chars(v: &Vec<char>) -> (r: Option<Vec<char>>)
    ensures
        match r {
            Some(t) => first_token(v@) == Some(t@),
            None => first_token(v@) is None,
        },
{
    let mut a: usize = 0;
    while a < v.len() && is_space_char(v[a])
        invariant
            a <= v@.len(),
            skip_spaces(v@, 0) == skip_spaces(v@, a as int),
        decreases v@.len() - a,
    {
        a = a + 1;
    }
    if a == v.len() {
        return None;
    }
    let mut b: usize = a;
    let mut t: Vec<char> = Vec::new();
    while b < v.len() && !is_space_char(v[b])
        invariant
            a <= b <= v@.len(),
            a < v@.len(),
            skip_spaces(v@, 0) == a as int,
            !is_space(v@[a as int]),
            token_end(v@, a as int) == token_end(v@, b as int),
            t@ == v@.subrange(a as int, b as int),
        decreases v@.len() - b,
    {
        t.push(v[b]);
        b = b + 1;
        proof {
            assert(t@ =~= v@.subrange(a as int, b as int));
        }
    }
    proof {
        assert(token_end(v@, b as int) == b as int);
        assert(t@ =~= v@.subrange(a as int, token_end(v@, a as int)));
    }
    Some(t)
}

/// Compares an expected checksum against the SHA-512 digest of a
/// compressed tar.  The expected text is reduced to its first
/// whitespace-delimited token first, because upstream checksum files
/// append the file name after the digest; a text with no token never
/// matches.
pub fn checksums_match(compressed_tar: &[u8], expected_sum: &[u8]) -> (r: bool)
    ensures
        r == match first_token(utf8_lossy_of(expected_sum@)) {
            Some(tok) => tok == hex_of(sha512_of(compressed_tar@)),
            None => false,
        },
{
    let text = utf8_lossy(expected_sum);
    let chars = crate::text::chars_vec(text.as_str());
    let tok = match first_token_chars(&chars) {
        Some(t) => t,
        None => {
            return false;
        },
    };
    let digest = sha512_digest(compressed_tar);
    let hex = hex_lower(digest.as_slice());
    let hex_chars = crate::text::chars_vec(hex.as_str());
    let mut i: usize = 0;
    if tok.len() != hex_chars.len() {
        proof {
            assert(tok@ != hex_of(sha512_of(compressed_tar@)));
        }
        return false;
    }
    while i < tok.len()
        invariant
            i <= tok@.len(),
            tok@.len() == hex_chars@.len(),
            hex_chars@ == hex_of(sha512_of(compressed_tar@)),
            first_token(utf8_lossy_of(expected_sum@)) == Some(tok@),
            forall|j: int| 0 <= j < i ==> tok@[j] == hex_chars@[j],
        decreases tok@.len() - i,
    {
        if tok[i] != hex_chars[i] {
            proof {
                assert(tok@ != hex_of(sha512_of(compressed_tar@)));
            }
            return false;
        }
        i = i + 1;
    }
    proof {
        assert(tok@ =~= hex_chars@);
    }
    true
}

/// A checksum text whose digest part carries no whitespace reduces to that
/// part, whether or not a file name follows: verification is insensitive
/// to the trailing token.
pub proof fn lemma_first_token_ignores_filename(sum: Seq<char>, rest: Seq<char>)
    requires
        sum.len() > 0,
        forall|i: int| 0 <= i < sum.len() ==> !is_space(#[trigger] sum[i]),
        rest.len() == 0 || is_space(rest[0]),
    ensures
        first_token(sum + rest) == Some(sum),
        first_token(sum) == Some(sum),
{
    let s = sum + rest;
    lemma_token_end_concat(sum, rest, 0);
    assert(skip_spaces(s, 0) == 0);
    assert(s.subrange(0, sum.len() as int) =~= sum);
    assert(skip_spaces(sum, 0) == 0);
    lemma_token_end_all(sum, 0);
    assert(sum.subrange(0, sum.len() as int) =~= sum);
}

/// The token scan over space-free characters runs to their end.
proof fn lemma_token_end_all(sum: Seq<char>, i: int)
    requires
        0 <= i <= sum.len(),
        forall|j: int| 0 <= j < sum.len() ==> !is_space(#[trigger] sum[j]),
    ensures
        token_end(sum, i) == sum.len(),
    decreases sum.len() - i,
{
    if i < sum.len() {
        lemma_token_end_all(sum, i + 1);
    }
}

/// The token scan over a space-free part followed by a space stops at the
/// boundary.
proof fn lemma_token_end_concat(sum: Seq<char>, rest: Seq<char>, i: int)
    requires
        0 <= i <= sum.len(),
        forall|j: int| 0 <= j < sum.len() ==> !is_space(#[trigger] sum[j]),
        rest.len() == 0 || is_space(rest[0]),
    ensures
        token_end(sum + rest, i) == sum.len(),
    decreases sum.len() - i,
{
    let s = sum + rest;
    if i < sum.len() {
        assert(s[i] == sum[i]);
        lemma_token_end_concat(sum, rest, i + 1);
    } else {
        if rest.len() == 0 {
        } else {
            assert(s[i] == rest[0]);
        }
    }
}

/// The error of unpacking a release archive: the bytes are no valid
/// stream of the expected container format.
#[derive(Debug)]
pub enum ArchiveError {
    DecodeError,
}

/// Relies on flate2::read::GzDecoder and Read::read_to_end: inflates a
/// gzip stream held in memory; the result depends on the bytes alone.
#[verifier::external_body]
fn gzip_decode(data: &[u8]) -> (r: Result<Vec<u8>, ArchiveError>)
    ensures
        match r {
            Ok(v) => gzip_decoded(data@) == Some(v@),
            Err(ArchiveError::DecodeError) => gzip_decoded(data@) is None,
            Err(_) => false,
        },
{
    let mut out: Vec<u8> = Vec::new();
    match std::io::Read::read_to_end(&mut flate2::read::GzDecoder::new(data), &mut out) {
        Ok(_) => Ok(out),
        Err(_) => Err(ArchiveError::DecodeError),
    }
}

/// Relies on xz2::read::XzDecoder and Read::read_to_end: decompresses an
/// xz stream held in memory; the result depends on the bytes alone.
#[verifier::external_body]
fn xz_decode(data: &[u8]) -> (r: Result<Vec<u8>, ArchiveError>)
    ensures
        match r {
            Ok(v) => xz_decoded(data@) == Some(v@),
            Err(ArchiveError::DecodeError) => xz_decoded(data@) is None,
            Err(_) => false,
        },
{
    let mut out: Vec<u8> = Vec::new();
    match std::io::Read::read_to_end(&mut xz2::read::XzDecoder::new(data), &mut out) {
        Ok(_) => Ok(out),
        Err(_) => Err(ArchiveError::DecodeError),
    }
}

/// The decompressed tar of a release archive under the fixed mapping of
/// kinds to algorithms: gzip for Proton, xz for the Wine family.
pub open spec fn decompressed_for(kind: TagKind, data: Seq<u8>) -> Option<Seq<u8>> {
    match kind {
        TagKind::Proton => gzip_decoded(data),
        TagKind::Wine { .. } => xz_decoded(data),
    }
}

/// Decompresses a release archive with the algorithm its kind fixes:
/// Proton releases are gzip streams, Wine family releases xz streams.
pub fn decompress(kind: &TagKind, data: &[u8]) -> (r: Result<Vec<u8>, ArchiveError>)
    ensures
        match r {
            Ok(v) => decompressed_for(*kind, data@) == Some(v@),
            Err(ArchiveError::DecodeError) => decompressed_for(*kind, data@) is None,
            Err(_) => false,
        },
{
    match kind {
        TagKind::Proton => gzip_decode(data),
        TagKind::Wine { .. } => xz_decode(data),
    }
}

/// The index of the first zero byte among the first hundred bytes of a
/// tar header, or one hundred.
pub open spec fn tar_name_len(t: Seq<u8>, i: int) -> int
    decreases 100 - i,
{
    if i < 0 || i >= 100 || i >= t.len() {
        i
    } else if t[i] == 0 {
        i
    } else {
        tar_name_len(t, i + 1)
    }
}

/// The name of a tar archive's first entry: the characters of the header's
/// name field, which names the archive's single top-level directory.
pub open spec fn tar_first_name(t: Seq<u8>) -> Option<Seq<char>> {
    if t.len() < 512 || tar_name_len(t, 0) == 0 {
        None
    } else {
        Some(utf8_lossy_of(t.subrange(0, tar_name_len(t, 0))))
    }
}

/// Reads the name of the tar archive's first entry from its leading
/// header: the name field's bytes up to the first zero.  An archive too
/// short for a header, or one with an empty name, has none.
pub fn tar_first_entry_name(tar: &[u8]) -> (r: Option<String>)
    ensures
        match r {
            Some(s) => tar_first_name(tar@) == Some(s@),
            None => tar_first_name(tar@) is None,
        },
{
    if tar.len() < 512 {
        return None;
    }
    let mut n: usize = 0;
    while n < 100 && tar[n] != 0
        invariant
            n <= 100,
            tar@.len() >= 512,
            tar_name_len(tar@, 0) == tar_name_len(tar@, n as int),
        decreases 100 - n,
    {
        n = n + 1;
    }
    proof {
        assert(tar_name_len(tar@, n as int) == n as int);
    }
    if n == 0 {
        return None;
    }
    let mut name_bytes: Vec<u8> = Vec::new();
    let mut i: usize = 0;
    while i < n
        invariant
            i <= n,
            n <= 100,
            tar@.len() >= 512,
            name_bytes@ == tar@.subrange(0, i as int),
        decreases n - i,
    {
        name_bytes.push(tar[i]);
        i = i + 1;
        proof {
            assert(name_bytes@ =~= tar@.subrange(0, i as int));
        }
    }
    Some(utf8_lossy(name_bytes.as_slice()))
}

} // verus!
