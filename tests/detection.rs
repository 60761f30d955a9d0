use std::io::BufRead;
use std::io::ErrorKind;
use std::io::Read;
use std::io::Write;

use deko::format::detect;
use deko::format::resolve;
use deko::format::zlib_cinfo;
use deko::format::zlib_cm;
use deko::format::MAX_MAGIC_BYTES;
use deko::magic::MagicReader;
use deko::read::AnyDecoder as ReadDecoder;
use deko::AnyDecoder;
use deko::Compression;
use deko::CompressionLevel;
use deko::Format;

// A source that hands out at most `chunk` bytes per call.
struct Chunked<'a> {
    data: &'a [u8],
    chunk: usize,
}

impl<'a> Read for Chunked<'a> {
    fn read(&mut self, buf: &mut [u8]) -> std::io::Result<usize> {
        let n = buf.len().min(self.chunk).min(self.data.len());
        buf[..n].copy_from_slice(&self.data[..n]);
        self.data = &self.data[n..];
        Ok(n)
    }
}

impl<'a> BufRead for Chunked<'a> {
    fn fill_buf(&mut self) -> std::io::Result<&[u8]> {
        let n = self.chunk.min(self.data.len());
        Ok(&self.data[..n])
    }

    fn consume(&mut self, n: usize) {
        self.data = &self.data[n..];
    }
}

// A source that reports an interruption before every other call.
struct Interrupting<'a> {
    data: &'a [u8],
    interrupt: bool,
}

impl<'a> Read for Interrupting<'a> {
    fn read(&mut self, buf: &mut [u8]) -> std::io::Result<usize> {
        let n = buf.len().min(1).min(self.data.len());
        buf[..n].copy_from_slice(&self.data[..n]);
        self.data = &self.data[n..];
        Ok(n)
    }
}

impl<'a> BufRead for Interrupting<'a> {
    fn fill_buf(&mut self) -> std::io::Result<&[u8]> {
        self.interrupt = !self.interrupt;
        if self.interrupt {
            return Err(std::io::Error::new(ErrorKind::Interrupted, "interrupted"));
        }
        Ok(&self.data[..self.data.len().min(1)])
    }

    fn consume(&mut self, n: usize) {
        self.data = &self.data[n..];
    }
}

fn gzip(data: &[u8]) -> Vec<u8> {
    let mut w = flate2::write::GzEncoder::new(Vec::new(), flate2::Compression::default());
    w.write_all(data).unwrap();
    w.finish().unwrap()
}

fn decode_all(input: &[u8], chunk: usize) -> Vec<u8> {
    let mut d = AnyDecoder::new(Chunked { data: input, chunk });
    let mut out = Vec::new();
    d.read_to_end(&mut out).unwrap();
    out
}

#[test]
fn detects_each_magic() {
    assert_eq!(detect(&[0xfd, 0x37, 0x7a, 0x58, 0x5a, 0x00, 0x01]), Some(Format::Xz));
    assert_eq!(detect(&[0x28, 0xb5, 0x2f, 0xfd]), Some(Format::Zstd));
    assert_eq!(detect(&[0x1f, 0x8b, 0x08]), Some(Format::Gz));
    assert_eq!(detect(b"BZh9"), Some(Format::Bz));
    assert_eq!(detect(&[0x78, 0x9c]), Some(Format::Zlib));
    assert_eq!(detect(&[0x78, 0x01]), Some(Format::Zlib));
    assert_eq!(detect(b"Hello"), None);
}

#[test]
fn partial_magic_does_not_match() {
    assert_eq!(detect(&[0xfd, 0x37, 0x7a, 0x58, 0x5a]), None);
    assert_eq!(detect(&[0x28, 0xb5, 0x2f]), None);
    assert_eq!(detect(&[0x1f, 0x8b]), None);
    assert_eq!(detect(&[0x1f, 0x8b, 0x09]), None);
    assert_eq!(detect(b"BZ"), None);
}

#[test]
fn zlib_header_rule() {
    assert_eq!(zlib_cm(0x78), 8);
    assert_eq!(zlib_cinfo(0x78), 7);
    assert_eq!(zlib_cm(0xff), 15);
    assert_eq!(zlib_cinfo(0xff), 15);
    // window field above 7
    assert_eq!(detect(&[0x88, 0x98]), None);
    // method other than deflate
    assert_eq!(detect(&[0x79, 0x9c]), None);
    // check value not a multiple of 31
    assert_eq!(detect(&[0x78, 0x9d]), None);
}

#[test]
fn short_inputs_are_verbatim_or_refused() {
    for input in [&b""[..], &b"H"[..], &b"He"[..], &b"Hello"[..]] {
        assert_eq!(resolve(input, false), Some(Format::Verbatim));
        assert_eq!(resolve(input, true), None);
        for chunk in [1, 2, 100] {
            let mut d = AnyDecoder::new(Chunked { data: input, chunk });
            assert_eq!(d.kind().unwrap(), Format::Verbatim);
            let mut out = Vec::new();
            d.read_to_end(&mut out).unwrap();
            assert_eq!(out, input);

            let mut strict = AnyDecoder::new(Chunked { data: input, chunk });
            strict.fail_on_unknown_format(true);
            let mut out = Vec::new();
            let err = strict.read_to_end(&mut out).unwrap_err();
            assert_eq!(err.kind(), ErrorKind::InvalidData);
        }
    }
}

#[test]
fn gzip_stream_is_detected_and_decoded() {
    let payload = b"the quick brown fox jumps over the lazy dog";
    let compressed = gzip(payload);
    assert_eq!(&compressed[..3], &[0x1f, 0x8b, 0x08]);
    let mut d = AnyDecoder::new(&compressed[..]);
    assert_eq!(d.kind().unwrap(), Format::Gz);
    let mut out = Vec::new();
    d.read_to_end(&mut out).unwrap();
    assert_eq!(out, payload);
}

#[test]
fn hello_is_verbatim() {
    let mut d = AnyDecoder::new(&b"Hello"[..]);
    assert_eq!(d.kind().unwrap(), Format::Verbatim);
    let mut out = Vec::new();
    d.read_to_end(&mut out).unwrap();
    assert_eq!(out, vec![0x48, 0x65, 0x6c, 0x6c, 0x6f]);
}

#[test]
fn hello_is_refused_when_strict() {
    let mut d = AnyDecoder::new(&b"Hello"[..]);
    d.fail_on_unknown_format(true);
    let mut buf = [0u8; 8];
    let err = d.read(&mut buf).unwrap_err();
    assert_eq!(err.kind(), ErrorKind::InvalidData);
    let err = d.kind().unwrap_err();
    assert_eq!(err.kind(), ErrorKind::InvalidData);
}

#[test]
fn empty_input_is_verbatim() {
    let mut d = AnyDecoder::new(&b""[..]);
    assert_eq!(d.kind().unwrap(), Format::Verbatim);
    let mut out = Vec::new();
    assert_eq!(d.read_to_end(&mut out).unwrap(), 0);
    assert!(out.is_empty());
}

#[test]
fn truncated_gzip_fails_on_read() {
    let mut d = AnyDecoder::new(&[0x1f, 0x8b, 0x08][..]);
    d.fail_on_unknown_format(true);
    assert_eq!(d.kind().unwrap(), Format::Gz);
    let mut out = Vec::new();
    assert!(d.read_to_end(&mut out).is_err());
    assert_eq!(d.kind().unwrap(), Format::Gz);
}

#[test]
fn zstd_best_round_trip_by_sniffing() {
    let payload: Vec<u8> = (0..5000u32).map(|i| (i * 7 % 251) as u8).collect();
    let level = match Compression::Best.encoder_level(Format::Zstd) {
        Some(CompressionLevel::Zstd(level)) => level,
        other => panic!("unexpected level {:?}", other),
    };
    assert_eq!(level, 22);
    let mut w = zstd::stream::write::Encoder::new(Vec::new(), level).unwrap();
    w.write_all(&payload).unwrap();
    let compressed = w.finish().unwrap();
    for chunk in [1, 3, 4096] {
        let mut d = AnyDecoder::new(Chunked { data: &compressed, chunk });
        assert_eq!(d.kind().unwrap(), Format::Zstd);
        let mut out = Vec::new();
        d.read_to_end(&mut out).unwrap();
        assert_eq!(out, payload);
    }
}

#[test]
fn round_trip_through_every_format() {
    let payload = b"round and round the bytes go".repeat(20);
    for format in [Format::Verbatim, Format::Gz, Format::Bz, Format::Zlib, Format::Xz, Format::Zstd] {
        for compression in [Compression::Fast, Compression::Default, Compression::Best] {
            let compressed = match compression.encoder_level(format).unwrap() {
                CompressionLevel::Verbatim => payload.clone(),
                CompressionLevel::Gz(c) => {
                    let mut w = flate2::write::GzEncoder::new(Vec::new(), c);
                    w.write_all(&payload).unwrap();
                    w.finish().unwrap()
                }
                CompressionLevel::Bz(c) => {
                    let mut w = bzip2::write::BzEncoder::new(Vec::new(), c);
                    w.write_all(&payload).unwrap();
                    w.finish().unwrap()
                }
                CompressionLevel::Zlib(c) => {
                    let mut w = flate2::write::ZlibEncoder::new(Vec::new(), c);
                    w.write_all(&payload).unwrap();
                    w.finish().unwrap()
                }
                CompressionLevel::Xz(c) => {
                    let mut w = xz::write::XzEncoder::new(Vec::new(), c);
                    w.write_all(&payload).unwrap();
                    w.finish().unwrap()
                }
                CompressionLevel::Zstd(c) => {
                    let mut w = zstd::stream::write::Encoder::new(Vec::new(), c).unwrap();
                    w.write_all(&payload).unwrap();
                    w.finish().unwrap()
                }
            };
            for chunk in [1, 5, 10000] {
                let mut d = AnyDecoder::new(Chunked { data: &compressed, chunk });
                assert_eq!(d.kind().unwrap(), format);
                assert_eq!(decode_all(&compressed, chunk), payload);
            }
        }
    }
}

#[test]
fn detection_does_not_depend_on_chunking() {
    let inputs: [&[u8]; 4] = [
        &[0xfd, 0x37, 0x7a, 0x58, 0x5a, 0x00, 0x00, 0x04],
        &[0x28, 0xb5, 0x2f, 0xfd, 0x00],
        b"BZh91AY&SY",
        b"plain text",
    ];
    for input in inputs {
        let expected = resolve(input, false).unwrap();
        for chunk in 1..=8 {
            let mut d = AnyDecoder::new(Chunked { data: input, chunk });
            assert_eq!(d.kind().unwrap(), expected);
        }
    }
}

#[test]
fn query_is_idempotent() {
    let compressed = gzip(b"abc");
    let mut d = AnyDecoder::new(Chunked { data: &compressed, chunk: 2 });
    assert_eq!(d.kind().unwrap(), Format::Gz);
    assert_eq!(d.kind().unwrap(), Format::Gz);
    let mut buf = [0u8; 1];
    d.read_exact(&mut buf).unwrap();
    assert_eq!(&buf, b"a");
    assert_eq!(d.kind().unwrap(), Format::Gz);
    d.fail_on_unknown_format(true);
    assert_eq!(d.kind().unwrap(), Format::Gz);
}

#[test]
fn sniffing_survives_interruptions() {
    let input = b"BZh";
    let mut d = AnyDecoder::new(Interrupting { data: &input[..], interrupt: false });
    assert_eq!(d.kind().unwrap(), Format::Bz);
    let mut text = Interrupting { data: &b"Hi there"[..], interrupt: false };
    let mut m = MagicReader::new(&mut text);
    let magic = m.read_magic_slow().unwrap();
    assert_eq!(magic, b"Hi the");
}

#[test]
fn lookahead_replays_every_byte_once() {
    let data: Vec<u8> = (0..200u32).map(|i| (i % 256) as u8).collect();
    for chunk in [1, 2, 3, 7, 64] {
        let mut m = MagicReader::new(Chunked { data: &data, chunk });
        let sniffed = m.read_magic_slow().unwrap().to_vec();
        assert_eq!(sniffed, &data[..MAX_MAGIC_BYTES]);
        let mut out = Vec::new();
        let mut two = [0u8; 2];
        let n = m.read(&mut two).unwrap();
        out.extend_from_slice(&two[..n]);
        let mut three = [0u8; 3];
        m.read_exact(&mut three).unwrap();
        out.extend_from_slice(&three);
        let mut big = [0u8; 10];
        let n = m.read(&mut big).unwrap();
        out.extend_from_slice(&big[..n]);
        m.read_to_end(&mut out).unwrap();
        assert_eq!(out, data);
    }
}

#[test]
fn buffered_bytes_are_served_without_touching_the_source() {
    let mut m = MagicReader::new(Chunked { data: b"abcdefgh", chunk: 3 });
    assert_eq!(m.read_magic_slow().unwrap(), b"abcdef");
    assert_eq!(m.buffered_len(), 6);
    let mut two = [0u8; 2];
    assert_eq!(m.do_read(&mut two).unwrap(), 2);
    assert_eq!(&two, b"ab");
    let mut v = vec![b'x'];
    assert_eq!(m.do_read_buf(&mut v, 3).unwrap(), 3);
    assert_eq!(v, b"xcde");
    assert_eq!(m.buffered_len(), 1);
    // the source still holds what was not sniffed
    assert_eq!(m.get_ref().data, b"gh");
    let mut rest = [0u8; 4];
    assert_eq!(m.read(&mut rest).unwrap(), 3);
    assert_eq!(&rest[..3], b"fgh");
}

#[test]
fn read_to_string_checks_buffered_and_fresh_bytes_together() {
    let text = "héllo wörld";
    let mut m = MagicReader::new(Chunked { data: text.as_bytes(), chunk: 1 });
    m.read_magic_slow().unwrap();
    let mut s = String::from(">");
    assert_eq!(m.read_to_string(&mut s).unwrap(), text.len());
    assert_eq!(s, ">héllo wörld");

    let bad = [b'a', b'b', 0xc3, b'(', b'x', b'y', b'z'];
    let mut m = MagicReader::new(Chunked { data: &bad, chunk: 2 });
    m.read_magic_slow().unwrap();
    let mut s = String::from("keep");
    let err = m.read_to_string(&mut s).unwrap_err();
    assert_eq!(err.kind(), ErrorKind::InvalidData);
    assert_eq!(s, "keep");
}

#[test]
fn unwrapping_keeps_the_source_position() {
    let mut d = AnyDecoder::new(Chunked { data: b"plain", chunk: 2 });
    assert_eq!(d.get_ref().data, b"plain");
    d.get_mut().chunk = 1;
    assert_eq!(d.kind().unwrap(), Format::Verbatim);
    assert_eq!(d.get_ref().data, b"");
    let mut out = Vec::new();
    d.read_to_end(&mut out).unwrap();
    assert_eq!(out, b"plain");
    let source = d.into_inner();
    assert_eq!(source.chunk, 1);
}

#[test]
fn compression_levels_per_codec() {
    assert_eq!(Compression::default(), Compression::Default);
    assert_eq!(Compression::Fast.to_xz(), 1);
    assert_eq!(Compression::Default.to_xz(), 5);
    assert_eq!(Compression::Best.to_xz(), 9);
    assert_eq!(Compression::Level(3).to_xz(), 3);
    assert_eq!(Compression::Fast.to_zstd(), 1);
    assert_eq!(Compression::Default.to_zstd(), 0);
    assert_eq!(Compression::Best.to_zstd(), 22);
    assert_eq!(Compression::Level(19).to_zstd(), 19);
    assert_eq!(Compression::Level(u32::MAX).to_zstd(), -1);
    assert!(matches!(Compression::Best.to_level(Format::Verbatim), CompressionLevel::Verbatim));
    assert!(matches!(Compression::Best.to_level(Format::Xz), CompressionLevel::Xz(9)));
    assert!(matches!(Compression::Fast.to_level(Format::Zstd), CompressionLevel::Zstd(1)));
    match Compression::Level(4).to_level(Format::Gz) {
        CompressionLevel::Gz(c) => assert_eq!(c.level(), 4),
        other => panic!("unexpected level {:?}", other),
    }
    match Compression::Best.to_level(Format::Bz) {
        CompressionLevel::Bz(c) => assert_eq!(c.level(), 9),
        other => panic!("unexpected level {:?}", other),
    }
    match Compression::Fast.to_level(Format::Zlib) {
        CompressionLevel::Zlib(c) => assert_eq!(c.level(), 1),
        other => panic!("unexpected level {:?}", other),
    }
}

#[test]
fn encoder_levels_out_of_range_are_refused() {
    assert!(Compression::Level(0).encoder_level(Format::Bz).is_none());
    assert!(Compression::Level(10).encoder_level(Format::Bz).is_none());
    assert!(Compression::Level(9).encoder_level(Format::Bz).is_some());
    assert!(Compression::Level(11).encoder_level(Format::Gz).is_none());
    assert!(Compression::Level(10).encoder_level(Format::Zlib).is_some());
    assert!(Compression::Level(10).encoder_level(Format::Xz).is_none());
    assert!(matches!(
        Compression::Level(0x8000_0009).encoder_level(Format::Xz),
        Some(CompressionLevel::Xz(0x8000_0009))
    ));
    assert!(matches!(
        Compression::Level(100).encoder_level(Format::Zstd),
        Some(CompressionLevel::Zstd(100))
    ));
    assert!(matches!(
        Compression::Level(1000).encoder_level(Format::Verbatim),
        Some(CompressionLevel::Verbatim)
    ));
    match Compression::Default.encoder_level(Format::Bz) {
        Some(CompressionLevel::Bz(c)) => assert_eq!(c.level(), 6),
        other => panic!("unexpected level {:?}", other),
    }
}

// A source that can only hand out bytes by taking them, at most `chunk` per
// call, reporting an interruption before every other call when `interrupt`.
struct OnlyRead<'a> {
    data: &'a [u8],
    chunk: usize,
    interrupt: bool,
    flip: bool,
}

impl<'a> OnlyRead<'a> {
    fn new(data: &'a [u8], chunk: usize) -> Self {
        OnlyRead { data, chunk, interrupt: false, flip: false }
    }
}

impl<'a> Read for OnlyRead<'a> {
    fn read(&mut self, buf: &mut [u8]) -> std::io::Result<usize> {
        if self.interrupt {
            self.flip = !self.flip;
            if self.flip {
                return Err(std::io::Error::new(ErrorKind::Interrupted, "interrupted"));
            }
        }
        let n = buf.len().min(self.chunk).min(self.data.len());
        buf[..n].copy_from_slice(&self.data[..n]);
        self.data = &self.data[n..];
        Ok(n)
    }
}

#[test]
fn destructive_source_round_trip() {
    let payload = b"bytes that went through a codec and back".repeat(10);
    let mut gz = flate2::write::GzEncoder::new(Vec::new(), flate2::Compression::fast());
    gz.write_all(&payload).unwrap();
    let gz = gz.finish().unwrap();
    let mut bz = bzip2::write::BzEncoder::new(Vec::new(), bzip2::Compression::best());
    bz.write_all(&payload).unwrap();
    let bz = bz.finish().unwrap();
    let mut zl = flate2::write::ZlibEncoder::new(Vec::new(), flate2::Compression::default());
    zl.write_all(&payload).unwrap();
    let zl = zl.finish().unwrap();
    let mut xzw = xz::write::XzEncoder::new(Vec::new(), 6);
    xzw.write_all(&payload).unwrap();
    let xzc = xzw.finish().unwrap();
    let mut zs = zstd::stream::write::Encoder::new(Vec::new(), 3).unwrap();
    zs.write_all(&payload).unwrap();
    let zs = zs.finish().unwrap();
    let cases: [(&[u8], Format); 6] = [
        (&payload, Format::Verbatim),
        (&gz, Format::Gz),
        (&bz, Format::Bz),
        (&zl, Format::Zlib),
        (&xzc, Format::Xz),
        (&zs, Format::Zstd),
    ];
    for (input, format) in cases {
        for chunk in [1, 4, 100000] {
            let mut d = ReadDecoder::new(OnlyRead::new(input, chunk));
            assert_eq!(d.kind().unwrap(), format);
            let mut out = Vec::new();
            d.read_to_end(&mut out).unwrap();
            assert_eq!(out, payload);
        }
    }
}

#[test]
fn destructive_source_short_and_strict() {
    for input in [&b""[..], &b"H"[..], &b"He"[..], &b"Hello"[..]] {
        let mut d = ReadDecoder::new(OnlyRead::new(input, 1));
        let mut out = Vec::new();
        d.read_to_end(&mut out).unwrap();
        assert_eq!(out, input);
        assert_eq!(d.kind().unwrap(), Format::Verbatim);

        let mut strict = ReadDecoder::new(OnlyRead::new(input, 1));
        strict.fail_on_unknown_format(true);
        assert_eq!(strict.kind().unwrap_err().kind(), ErrorKind::InvalidData);
        // the bytes taken while looking stay with the decoder
        assert_eq!(strict.get_ref().data, b"");
    }
}

#[test]
fn destructive_sniffing_keeps_bytes_and_retries() {
    let data = b"0123456789";
    let mut source = OnlyRead::new(data, 2);
    source.interrupt = true;
    let mut m = MagicReader::new(source);
    assert_eq!(m.fill_magic_slow().unwrap(), b"012345");
    assert_eq!(m.get_ref().data, b"6789");
    let mut out = String::new();
    assert_eq!(m.read_to_string(&mut out).unwrap(), 10);
    assert_eq!(out, "0123456789");

    let mut m = MagicReader::new(OnlyRead::new(data, 4));
    assert_eq!(m.fill_magic().unwrap(), b"0123");
    assert_eq!(m.fill_magic().unwrap(), b"012345");
    let mut five = [0u8; 5];
    m.read_exact(&mut five).unwrap();
    assert_eq!(&five, b"01234");
    let mut rest = Vec::new();
    m.read_to_end(&mut rest).unwrap();
    assert_eq!(rest, b"56789");

    let mut d = ReadDecoder::new(OnlyRead { data: b"BZh", chunk: 1, interrupt: true, flip: false });
    assert_eq!(d.kind().unwrap(), Format::Bz);
}

#[test]
fn destructive_verbatim_unwraps_after_the_sniffed_bytes() {
    let mut d = ReadDecoder::new(OnlyRead::new(b"plain text here", 3));
    assert_eq!(d.kind().unwrap(), Format::Verbatim);
    assert_eq!(d.get_ref().data, b"text here");
    let mut first = [0u8; 4];
    d.read_exact(&mut first).unwrap();
    assert_eq!(&first, b"plai");
    d.get_mut().chunk = 100;
    let mut rest = String::new();
    d.read_to_string(&mut rest).unwrap();
    assert_eq!(rest, "n text here");
    assert_eq!(d.into_inner().chunk, 100);
}

#[test]
fn push_utf8_appends_only_valid_text() {
    let mut s = String::from("a");
    assert_eq!(deko::magic::push_utf8(&mut s, "€b".as_bytes()).unwrap(), 4);
    assert_eq!(s, "a€b");
    let err = deko::magic::push_utf8(&mut s, &[0xe2, 0x82]).unwrap_err();
    assert_eq!(err.kind(), ErrorKind::InvalidData);
    assert_eq!(s, "a€b");
}

#[test]
fn text_split_between_buffer_and_source() {
    let text = "abcde€fg";
    let mut d = AnyDecoder::new(Chunked { data: text.as_bytes(), chunk: 1 });
    assert_eq!(d.kind().unwrap(), Format::Verbatim);
    let mut s = String::new();
    assert_eq!(d.read_to_string(&mut s).unwrap(), text.len());
    assert_eq!(s, text);
}

#[test]
fn into_parts_keeps_buffered_bytes() {
    let mut m = MagicReader::new(Chunked { data: b"abcdefgh", chunk: 2 });
    m.read_magic_slow().unwrap();
    let mut one = [0u8; 1];
    m.read_exact(&mut one).unwrap();
    let (source, rest) = m.into_parts();
    assert_eq!(rest, b"bcdef");
    assert_eq!(source.data, b"gh");
}

#[test]
fn consuming_more_than_ready_is_clamped() {
    let mut m = MagicReader::new(&b"abc"[..]);
    assert_eq!(m.fill_buf().unwrap(), b"abc");
    m.consume(10);
    assert_eq!(m.fill_buf().unwrap(), b"");
    let mut m = MagicReader::new(Chunked { data: b"abcdefgh", chunk: 3 });
    m.read_magic_slow().unwrap();
    m.consume(100);
    assert_eq!(m.fill_buf().unwrap(), b"gh");
}

#[test]
fn strict_empty_input_fails_and_leaves_output_empty() {
    let mut d = AnyDecoder::new(&b""[..]);
    d.fail_on_unknown_format(true);
    let mut out = Vec::new();
    assert_eq!(d.read_to_end(&mut out).unwrap_err().kind(), ErrorKind::InvalidData);
    assert!(out.is_empty());
    assert_eq!(d.kind().unwrap_err().kind(), ErrorKind::InvalidData);
}

#[test]
fn decoder_into_parts_keeps_lookahead_bytes() {
    let mut d = AnyDecoder::new(Chunked { data: b"plain text", chunk: 2 });
    assert!(d.has_source());
    assert_eq!(d.kind().unwrap(), Format::Verbatim);
    let mut two = [0u8; 2];
    d.read_exact(&mut two).unwrap();
    assert_eq!(&two, b"pl");
    let (source, rest) = d.into_parts();
    assert_eq!(rest, b"ain ");
    assert_eq!(source.data, b"text");
}

#[test]
fn presets_are_always_given() {
    for format in [Format::Verbatim, Format::Gz, Format::Bz, Format::Zlib, Format::Xz, Format::Zstd] {
        for compression in [Compression::Fast, Compression::Default, Compression::Best] {
            assert!(compression.encoder_level(format).is_some());
        }
    }
}
