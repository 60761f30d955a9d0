//! The supported formats and how each is recognised by its leading bytes.
use vstd::prelude::*;

verus! {

/// Compression format.
#[derive(Clone, Copy, PartialEq, Eq, Structural, PartialOrd, Ord, Hash, Debug)]
pub enum Format {
    /// No encoding.
    Verbatim,
    /// Gzip encoding.
    Gz,
    /// Bzip2 encoding.
    Bz,
    /// Zlib encoding.
    Zlib,
    /// XZ encoding.
    Xz,
    /// Zstd encoding.
    Zstd,
}

/// The longest magic prefix among the supported formats.
pub const MAX_MAGIC_BYTES: usize = 6;

/// Whether `s` starts with all of `magic`.
pub open spec fn starts_with(s: Seq<u8>, magic: Seq<u8>) -> bool {
    magic.len() <= s.len() && s.subrange(0, magic.len() as int) == magic
}

/// The xz stream header: `FD 37 7A 58 5A 00`.
pub open spec fn xz_magic() -> Seq<u8> {
    seq![0xfdu8, 0x37u8, 0x7au8, 0x58u8, 0x5au8, 0x00u8]
}

/// The zstd frame header: `28 B5 2F FD`.
pub open spec fn zstd_magic() -> Seq<u8> {
    seq![0x28u8, 0xb5u8, 0x2fu8, 0xfdu8]
}

/// The gzip member header with the deflate method: `1F 8B 08`.
pub open spec fn gz_magic() -> Seq<u8> {
    seq![0x1fu8, 0x8bu8, 0x08u8]
}

/// The bzip2 stream header: `BZh`.
pub open spec fn bz_magic() -> Seq<u8> {
    seq![0x42u8, 0x5au8, 0x68u8]
}

/// A zlib header: the deflate method, a window of at most 32 KiB, and a check
/// value that makes `256 * cmf + flg` a multiple of 31.
pub open spec fn is_zlib_header(cmf: u8, flg: u8) -> bool {
    &&& cmf & 0x0f == 8
    &&& (cmf >> 4) & 0x0f <= 7
    &&& (256 * cmf + flg) % 31 == 0
}

/// The format that the leading bytes `prefix` announce, checked in a fixed
/// order, first match first; `None` where no rule matches.
pub open spec fn detected(prefix: Seq<u8>) -> Option<Format> {
    if starts_with(prefix, xz_magic()) {
        Some(Format::Xz)
    } else if starts_with(prefix, zstd_magic()) {
        Some(Format::Zstd)
    } else if starts_with(prefix, gz_magic()) {
        Some(Format::Gz)
    } else if starts_with(prefix, bz_magic()) {
        Some(Format::Bz)
    } else if prefix.len() >= 2 && is_zlib_header(prefix[0], prefix[1]) {
        Some(Format::Zlib)
    } else {
        None
    }
}

/// The format a decoder settles on: the detected one, or `Verbatim` when
/// nothing matched and unknown input is let through; `None` when nothing
/// matched and unknown input is refused.
pub open spec fn resolved(prefix: Seq<u8>, fail_on_unknown_format: bool) -> Option<Format> {
    match detected(prefix) {
        Some(f) => Some(f),
        None => if fail_on_unknown_format {
            None
        } else {
            Some(Format::Verbatim)
        },
    }
}

/// The compression method field of a zlib header byte.
pub fn zlib_cm(x: u8) -> (r: u8)
    ensures
        r == x & 0x0f,
{
    x & 0b1111
}

/// The window size field of a zlib header byte.
pub fn zlib_cinfo(x: u8) -> (r: u8)
    ensures
        r == (x >> 4) & 0x0f,
        r <= 15,
{
    proof {
        assert((x >> 4u8) & 0x0fu8 <= 15) by (bit_vector);
    }
    (x >> 4) & 0b1111
}

fn has_prefix(s: &[u8], magic: &[u8]) -> (r: bool)
    ensures
        r == starts_with(s@, magic@),
{
    if magic.len() > s.len() {
        return false;
    }
    let mut i: usize = 0;
    while i < magic.len()
        invariant
            i <= magic@.len() <= s@.len(),
            forall|j: int| 0 <= j < i ==> s@[j] == magic@[j],
        decreases magic@.len() - i,
    {
        if s[i] != magic[i] {
            proof {
                assert(s@.subrange(0, magic@.len() as int)[i as int] != magic@[i as int]);
            }
            return false;
        }
        i = i + 1;
    }
    proof {
        assert(s@.subrange(0, magic@.len() as int) =~= magic@);
    }
    true
}

/// The format that the leading bytes `prefix` announce; only the first
/// `MAX_MAGIC_BYTES` bytes are looked at.
pub fn detect(prefix: &[u8]) -> (r: Option<Format>)
    ensures
        r == detected(prefix@),
{
    let xz: [u8; 6] = [0xfd, 0x37, 0x7a, 0x58, 0x5a, 0x00];
    let zstd: [u8; 4] = [0x28, 0xb5, 0x2f, 0xfd];
    let gz: [u8; 3] = [0x1f, 0x8b, 0x08];
    let bz: [u8; 3] = [0x42, 0x5a, 0x68];
    proof {
        assert(xz@ =~= xz_magic());
        assert(zstd@ =~= zstd_magic());
        assert(gz@ =~= gz_magic());
        assert(bz@ =~= bz_magic());
    }
    if has_prefix(prefix, &xz) {
        Some(Format::Xz)
    } else if has_prefix(prefix, &zstd) {
        Some(Format::Zstd)
    } else if has_prefix(prefix, &gz) {
        Some(Format::Gz)
    } else if has_prefix(prefix, &bz) {
        Some(Format::Bz)
    } else if prefix.len() >= 2 && zlib_cm(prefix[0]) == 8 && zlib_cinfo(prefix[0]) <= 7
        && ((prefix[0] as u16) * 256 + (prefix[1] as u16)) % 31 == 0 {
        Some(Format::Zlib)
    } else {
        None
    }
}

/// The format a decoder settles on for the leading bytes `prefix`; `None`
/// when no rule matches and `fail_on_unknown_format` is set.
pub fn resolve(prefix: &[u8], fail_on_unknown_format: bool) -> (r: Option<Format>)
    ensures
        r == resolved(prefix@, fail_on_unknown_format),
{
    match detect(prefix) {
        Some(f) => Some(f),
        None => if fail_on_unknown_format {
            None
        } else {
            Some(Format::Verbatim)
        },
    }
}

/// Detection looks at the first `MAX_MAGIC_BYTES` bytes and no further.
pub proof fn lemma_detection_reads_prefix(p: Seq<u8>)
    ensures
        p.len() >= MAX_MAGIC_BYTES ==> detected(p) == detected(
            p.subrange(0, MAX_MAGIC_BYTES as int),
        ),
{
    if p.len() >= MAX_MAGIC_BYTES {
        let q = p.subrange(0, MAX_MAGIC_BYTES as int);
        assert(p.subrange(0, 6) =~= q.subrange(0, 6));
        assert(p.subrange(0, 4) =~= q.subrange(0, 4));
        assert(p.subrange(0, 3) =~= q.subrange(0, 3));
        assert(p[0] == q[0] && p[1] == q[1]);
    }
}

/// Two inputs whose first `MAX_MAGIC_BYTES` bytes agree are given the same
/// format, whatever follows and however the bytes were delivered.
pub proof fn lemma_magic_stability(a: Seq<u8>, b: Seq<u8>, fail_on_unknown_format: bool)
    requires
        a.len() >= MAX_MAGIC_BYTES,
        b.len() >= MAX_MAGIC_BYTES,
        a.subrange(0, MAX_MAGIC_BYTES as int) == b.subrange(0, MAX_MAGIC_BYTES as int),
    ensures
        detected(a) == detected(b),
        resolved(a, fail_on_unknown_format) == resolved(b, fail_on_unknown_format),
{
    lemma_detection_reads_prefix(a);
    lemma_detection_reads_prefix(b);
}

/// An input of fewer than two bytes matches no rule: it is `Verbatim`, or
/// refused when unknown input is refused.
pub proof fn lemma_short_input_is_unknown(p: Seq<u8>, fail_on_unknown_format: bool)
    requires
        p.len() < 2,
    ensures
        detected(p) is None,
        resolved(p, fail_on_unknown_format) == if fail_on_unknown_format {
            None
        } else {
            Some(Format::Verbatim)
        },
{
}

} // verus!
