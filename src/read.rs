//! A decoder over a source that can only hand out bytes by taking them
//! (`Read`): it detects the format of its input from the leading bytes, which
//! it keeps for the codec, and then reads through the matching codec.
use crate::bufread::zstd_decoder;
use crate::bufread::zstd_finish;
use crate::bufread::zstd_get_mut;
use crate::bufread::zstd_get_ref;
use crate::format::lemma_detection_reads_prefix;
use crate::format::resolve;
use crate::format::resolved;
use crate::format::Format;
use crate::format::MAX_MAGIC_BYTES;
use crate::io_ops::invalid_data;
use crate::io_ops::is_interrupted;
use crate::io_ops::other_error;
use crate::io_ops::read_exact_from;
use crate::io_ops::read_from;
use crate::io_ops::read_to_end_of;
use crate::io_ops::read_to_string_of;
use crate::io_ops::read_vectored_of;
use crate::magic::in_order;
use crate::magic::lemma_took_keeps_all;
use crate::magic::lemma_took_nothing;
use crate::magic::lemma_took_twice;
use crate::magic::min_of;
use crate::magic::only_took;
use crate::magic::sniff_post;
use crate::magic::MagicReader;
use bzip2::read::BzDecoder;
use flate2::read::GzDecoder;
use flate2::read::ZlibDecoder;
use std::io::BufReader;
use std::io::Error;
use std::io::IoSliceMut;
use std::io::Read;
use vstd::pervasive::unreached;
use vstd::prelude::*;
use vstd::utf8::decode_utf8;
use vstd::utf8::valid_utf8;
use xz::bufread::XzDecoder;
use zstd::stream::read::Decoder as ZstdDecoder;

verus! {

/// flate2's gzip decoder over a `Read`, held opaque.
#[verifier::external_type_specification]
#[verifier::external_body]
#[verifier::reject_recursive_types(R)]
pub struct ExReadGzDecoder<R>(flate2::read::GzDecoder<R>);

/// flate2's zlib decoder over a `Read`, held opaque.
#[verifier::external_type_specification]
#[verifier::external_body]
#[verifier::reject_recursive_types(R)]
pub struct ExReadZlibDecoder<R>(flate2::read::ZlibDecoder<R>);

/// bzip2's decoder over a `Read`, held opaque.
#[verifier::external_type_specification]
#[verifier::external_body]
#[verifier::reject_recursive_types(R)]
pub struct ExReadBzDecoder<R>(bzip2::read::BzDecoder<R>);

/// `std::io::BufReader`, held opaque.
#[verifier::external_type_specification]
#[verifier::external_body]
#[verifier::reject_recursive_types(R)]
pub struct ExBufReader<R: ?Sized>(std::io::BufReader<R>);

/// Relies on `flate2::read::GzDecoder::new`: a gzip decoder over `r`.
pub assume_specification<R: Read>[ GzDecoder::<R>::new ](r: R) -> GzDecoder<R>;

/// Relies on `flate2::read::ZlibDecoder::new`: a zlib decoder over `r`.
pub assume_specification<R: Read>[ ZlibDecoder::<R>::new ](r: R) -> ZlibDecoder<R>;

/// Relies on `bzip2::read::BzDecoder::new`: a bzip2 decoder over `r`.
pub assume_specification<R: Read>[ BzDecoder::<R>::new ](r: R) -> BzDecoder<R>;

/// Relies on `flate2::read::GzDecoder::get_ref`: the reader it decodes.
pub assume_specification<R>[ GzDecoder::<R>::get_ref ](d: &GzDecoder<R>) -> &R;

/// Relies on `flate2::read::ZlibDecoder::get_ref`: the reader it decodes.
pub assume_specification<R>[ ZlibDecoder::<R>::get_ref ](d: &ZlibDecoder<R>) -> &R;

/// Relies on `bzip2::read::BzDecoder::get_ref`: the reader it decodes.
pub assume_specification<R: Read>[ BzDecoder::<R>::get_ref ](d: &BzDecoder<R>) -> &R;

/// Relies on `flate2::read::GzDecoder::get_mut`: the reader it decodes.
pub assume_specification<R>[ GzDecoder::<R>::get_mut ](d: &mut GzDecoder<R>) -> &mut R;

/// Relies on `flate2::read::ZlibDecoder::get_mut`: the reader it decodes.
pub assume_specification<R>[ ZlibDecoder::<R>::get_mut ](d: &mut ZlibDecoder<R>) -> &mut R;

/// Relies on `bzip2::read::BzDecoder::get_mut`: the reader it decodes.
pub assume_specification<R: Read>[ BzDecoder::<R>::get_mut ](d: &mut BzDecoder<R>) -> &mut R;

/// Relies on `flate2::read::GzDecoder::into_inner`: the reader it decodes.
pub assume_specification<R>[ GzDecoder::<R>::into_inner ](d: GzDecoder<R>) -> R;

/// Relies on `flate2::read::ZlibDecoder::into_inner`: the reader it decodes.
pub assume_specification<R>[ ZlibDecoder::<R>::into_inner ](d: ZlibDecoder<R>) -> R;

/// Relies on `bzip2::read::BzDecoder::into_inner`: the reader it decodes.
pub assume_specification<R: Read>[ BzDecoder::<R>::into_inner ](d: BzDecoder<R>) -> R;

/// Relies on `BufReader::new`: a buffer in front of `inner`.
#[verifier::external_body]
fn buffered<R: Read>(inner: R) -> (r: BufReader<R>) {
    BufReader::new(inner)
}

/// Relies on `BufReader::get_ref`: the reader behind the buffer.
#[verifier::external_body]
fn buffered_ref<R: Read>(b: &BufReader<R>) -> (r: &R) {
    b.get_ref()
}

/// Relies on `BufReader::get_mut`: the reader behind the buffer.
#[verifier::external_body]
fn buffered_mut<R: Read>(b: &mut BufReader<R>) -> (r: &mut R) {
    b.get_mut()
}

/// Relies on `BufReader::into_inner`: the reader behind the buffer; what the
/// buffer held is dropped.
#[verifier::external_body]
fn unbuffered<R: Read>(b: BufReader<R>) -> (r: R) {
    b.into_inner()
}

/// The codec chosen for a stream, reading from the lookahead buffer; xz and
/// zstd read through a buffer of their own in front of it.
#[verifier::reject_recursive_types(R)]
enum Engine<R> {
    Verbatim(MagicReader<R>),
    Gz(GzDecoder<MagicReader<R>>),
    Bz(BzDecoder<MagicReader<R>>),
    Zlib(ZlibDecoder<MagicReader<R>>),
    Xz(XzDecoder<BufReader<MagicReader<R>>>),
    Zstd(ZstdDecoder<'static, BufReader<MagicReader<R>>>),
}

impl<R: Read> Engine<R> {
    spec fn format(self) -> Format {
        match self {
            Engine::Verbatim(_) => Format::Verbatim,
            Engine::Gz(_) => Format::Gz,
            Engine::Bz(_) => Format::Bz,
            Engine::Zlib(_) => Format::Zlib,
            Engine::Xz(_) => Format::Xz,
            Engine::Zstd(_) => Format::Zstd,
        }
    }

    /// Starts the codec of `format` over `reader`.
    fn start(reader: MagicReader<R>, format: Format) -> (r: Result<Self, Error>)
        ensures
            r is Ok ==> r->Ok_0.format() == format,
            format != Format::Zstd ==> r is Ok,
            format == Format::Verbatim ==> r == Ok::<Self, Error>(Engine::Verbatim(reader)),
    {
        match format {
            Format::Verbatim => Ok(Engine::Verbatim(reader)),
            Format::Gz => Ok(Engine::Gz(GzDecoder::new(reader))),
            Format::Bz => Ok(Engine::Bz(BzDecoder::new(reader))),
            Format::Zlib => Ok(Engine::Zlib(ZlibDecoder::new(reader))),
            Format::Xz => Ok(Engine::Xz(XzDecoder::new(buffered(reader)))),
            Format::Zstd => match zstd_decoder(buffered(reader)) {
                Ok(d) => Ok(Engine::Zstd(d)),
                Err(e) => Err(e),
            },
        }
    }

    fn get_ref(&self) -> (r: &R)
        ensures
            self is Verbatim ==> *r == self->Verbatim_0.source(),
    {
        match self {
            Engine::Verbatim(m) => m.get_ref(),
            Engine::Gz(d) => d.get_ref().get_ref(),
            Engine::Bz(d) => d.get_ref().get_ref(),
            Engine::Zlib(d) => d.get_ref().get_ref(),
            Engine::Xz(d) => buffered_ref(d.get_ref()).get_ref(),
            Engine::Zstd(d) => buffered_ref(zstd_get_ref(d)).get_ref(),
        }
    }

    fn get_mut(&mut self) -> (r: &mut R)
        ensures
            final(self).format() == old(self).format(),
            *old(self) is Verbatim ==> {
                let (before, after) = ((*old(self))->Verbatim_0, (*final(self))->Verbatim_0);
                &&& *r == before.source()
                &&& *final(r) == after.source()
                &&& after.pending() == before.pending()
            },
    {
        match self {
            Engine::Verbatim(m) => m.get_mut(),
            Engine::Gz(d) => d.get_mut().get_mut(),
            Engine::Bz(d) => d.get_mut().get_mut(),
            Engine::Zlib(d) => d.get_mut().get_mut(),
            Engine::Xz(d) => buffered_mut(d.get_mut()).get_mut(),
            Engine::Zstd(d) => buffered_mut(zstd_get_mut(d)).get_mut(),
        }
    }

    fn into_reader(self) -> (r: MagicReader<R>)
        ensures
            self is Verbatim ==> r == self->Verbatim_0,
    {
        match self {
            Engine::Verbatim(m) => m,
            Engine::Gz(d) => d.into_inner(),
            Engine::Bz(d) => d.into_inner(),
            Engine::Zlib(d) => d.into_inner(),
            Engine::Xz(d) => unbuffered(d.into_inner()),
            Engine::Zstd(d) => unbuffered(zstd_finish(d)),
        }
    }
}

impl<R: Read> Engine<R> {
    fn read_some(&mut self, buf: &mut [u8]) -> (r: Result<usize, Error>)
        ensures
            final(self).format() == old(self).format(),
            final(buf)@.len() == old(buf)@.len(),
            *old(self) is Verbatim ==> {
                let (before, after) = ((*old(self))->Verbatim_0, (*final(self))->Verbatim_0);
                &&& r is Ok ==> r->Ok_0 <= old(buf)@.len() && in_order(
                    before.pending(),
                    final(buf)@.subrange(0, r->Ok_0 as int),
                    after.pending(),
                )
                &&& before.pending().len() > 0 ==> r is Ok
            },
    {
        match self {
            Engine::Verbatim(m) => m.read_some(buf),
            Engine::Gz(d) => read_from(d, buf, 0),
            Engine::Bz(d) => read_from(d, buf, 0),
            Engine::Zlib(d) => read_from(d, buf, 0),
            Engine::Xz(d) => read_from(d, buf, 0),
            Engine::Zstd(d) => read_from(d, buf, 0),
        }
    }

    fn read_exact(&mut self, buf: &mut [u8]) -> (r: Result<(), Error>)
        ensures
            final(self).format() == old(self).format(),
            final(buf)@.len() == old(buf)@.len(),
            *old(self) is Verbatim ==> {
                let (before, after) = ((*old(self))->Verbatim_0, (*final(self))->Verbatim_0);
                &&& r is Ok ==> in_order(before.pending(), final(buf)@, after.pending())
                &&& old(buf)@.len() <= before.pending().len() ==> r is Ok && after.source()
                    == before.source()
            },
    {
        match self {
            Engine::Verbatim(m) => m.read_exact_into(buf),
            Engine::Gz(d) => read_exact_from(d, buf, 0),
            Engine::Bz(d) => read_exact_from(d, buf, 0),
            Engine::Zlib(d) => read_exact_from(d, buf, 0),
            Engine::Xz(d) => read_exact_from(d, buf, 0),
            Engine::Zstd(d) => read_exact_from(d, buf, 0),
        }
    }

    fn read_to_end(&mut self, buf: &mut Vec<u8>) -> (r: Result<usize, Error>)
        ensures
            final(self).format() == old(self).format(),
            final(buf)@.len() >= old(buf)@.len(),
            final(buf)@.subrange(0, old(buf)@.len() as int) == old(buf)@,
            r is Ok ==> final(buf)@.len() == old(buf)@.len() + r->Ok_0,
            *old(self) is Verbatim ==> {
                let (before, after) = ((*old(self))->Verbatim_0, (*final(self))->Verbatim_0);
                &&& r is Ok ==> in_order(
                    before.pending(),
                    final(buf)@.subrange(old(buf)@.len() as int, final(buf)@.len() as int),
                    after.pending(),
                )
                &&& old(buf)@.len() + before.pending().len() <= final(buf)@.len()
                &&& final(buf)@.subrange(0, (old(buf)@.len() + before.pending().len()) as int) == old(
                    buf,
                )@ + before.pending()
            },
    {
        match self {
            Engine::Verbatim(m) => {
                let r = m.read_all_into(buf);
                proof {
                    let k = old(buf)@.len() as int;
                    assert(buf@.subrange(0, k) =~= buf@.subrange(
                        0,
                        k + old(self)->Verbatim_0.pending().len(),
                    ).subrange(0, k));
                }
                r
            },
            Engine::Gz(d) => read_to_end_of(d, buf),
            Engine::Bz(d) => read_to_end_of(d, buf),
            Engine::Zlib(d) => read_to_end_of(d, buf),
            Engine::Xz(d) => read_to_end_of(d, buf),
            Engine::Zstd(d) => read_to_end_of(d, buf),
        }
    }

    fn read_to_string(&mut self, buf: &mut String) -> (r: Result<usize, Error>)
        ensures
            final(self).format() == old(self).format(),
            final(buf)@.len() >= old(buf)@.len(),
            final(buf)@.subrange(0, old(buf)@.len() as int) == old(buf)@,
            *old(self) is Verbatim && (*old(self))->Verbatim_0.pending().len() > 0 ==> {
                let (before, after) = ((*old(self))->Verbatim_0, (*final(self))->Verbatim_0);
                &&& r is Ok ==> exists|bytes: Seq<u8>|
                    #[trigger] valid_utf8(bytes) && bytes.len() == r->Ok_0 && in_order(
                        before.pending(),
                        bytes,
                        after.pending(),
                    ) && final(buf)@ == old(buf)@ + decode_utf8(bytes)
                &&& r is Err ==> final(buf)@ == old(buf)@
            },
    {
        match self {
            Engine::Verbatim(m) => m.read_text_into(buf),
            Engine::Gz(d) => read_to_string_of(d, buf),
            Engine::Bz(d) => read_to_string_of(d, buf),
            Engine::Zlib(d) => read_to_string_of(d, buf),
            Engine::Xz(d) => read_to_string_of(d, buf),
            Engine::Zstd(d) => read_to_string_of(d, buf),
        }
    }

    fn read_vectored(&mut self, bufs: &mut [IoSliceMut<'_>]) -> (r: Result<usize, Error>)
        ensures
            final(self).format() == old(self).format(),
    {
        match self {
            Engine::Verbatim(m) => read_vectored_of(m, bufs),
            Engine::Gz(d) => read_vectored_of(d, bufs),
            Engine::Bz(d) => read_vectored_of(d, bufs),
            Engine::Zlib(d) => read_vectored_of(d, bufs),
            Engine::Xz(d) => read_vectored_of(d, bufs),
            Engine::Zstd(d) => read_vectored_of(d, bufs),
        }
    }
}


/// Looks at the leading bytes of the stream and names its format: bytes are
/// taken into the buffer until there are `MAX_MAGIC_BYTES` or the stream
/// ends, and stay there for the codec. Interrupted calls are tried again.
/// Unknown input is `Verbatim`, or an error of kind `InvalidData` when
/// `fail_on_unknown_format` is set. Once `MAX_MAGIC_BYTES` were taken, the
/// source is not touched.
pub fn sniff_format<R: Read>(reader: &mut MagicReader<R>, fail_on_unknown_format: bool) -> (r:
    Result<Format, Error>)
    ensures
        sniff_post(*old(reader), *final(reader), r, fail_on_unknown_format),
        r is Ok ==> final(reader).leading() == final(reader).sniffed(),
{
    let ghost start = *reader;
    let fast = match reader.fill_magic() {
        Ok(magic) => if magic.len() >= MAX_MAGIC_BYTES {
            Some(resolve(magic, fail_on_unknown_format))
        } else {
            None
        },
        Err(e) => {
            if !is_interrupted(&e) {
                return Err(e);
            }
            None
        },
    };
    let ghost mid = *reader;
    match fast {
        Some(Some(f)) => Ok(f),
        Some(None) => Err(invalid_data("unknown compression format")),
        None => {
            let magic = match reader.fill_magic_slow() {
                Ok(magic) => magic,
                Err(e) => {
                    proof {
                        lemma_took_twice(start, mid, *reader);
                    }
                    return Err(e);
                },
            };
            let format = resolve(magic, fail_on_unknown_format);
            proof {
                lemma_took_twice(start, mid, *reader);
            }
            match format {
                Some(f) => Ok(f),
                None => Err(invalid_data("unknown compression format")),
            }
        },
    }
}

/// Where a decoder stands: not yet looked at its input; settled on a codec,
/// for good; or left without input because the codec it chose failed to start.
#[verifier::reject_recursive_types(R)]
enum Stage<R> {
    Undetected(MagicReader<R>),
    Detected(Engine<R>),
    Spent,
}

/// A decoder that decompresses the supplied input stream using any of the
/// supported formats, for a source that can only hand out bytes by taking
/// them.
///
/// The format is detected using the _magic bytes_ at the start of the stream.
/// By default, if the format is not supported, the data is read verbatim.
/// Use [fail_on_unknown_format](AnyDecoder::fail_on_unknown_format) to change
/// this behaviour.
#[verifier::reject_recursive_types(R)]
pub struct AnyDecoder<R> {
    stage: Stage<R>,
    fail_on_unknown_format: bool,
    prefix: Ghost<Seq<u8>>,
    prefix_ended: Ghost<bool>,
    handed: Ghost<Seq<u8>>,
}

impl<R: Read> AnyDecoder<R> {
    /// The format settled on, once the input has been looked at.
    pub closed spec fn detected_format(self) -> Option<Format> {
        match self.stage {
            Stage::Detected(e) => Some(e.format()),
            _ => None,
        }
    }

    /// The reader of the input while no format is settled on.
    pub closed spec fn undetected(self) -> Option<MagicReader<R>> {
        match self.stage {
            Stage::Undetected(m) => Some(m),
            _ => None,
        }
    }

    /// The reader of the input once `Verbatim` is settled on.
    pub closed spec fn verbatim(self) -> Option<MagicReader<R>> {
        match self.stage {
            Stage::Detected(Engine::Verbatim(m)) => Some(m),
            _ => None,
        }
    }

    /// Whether unknown input is refused.
    pub closed spec fn strict(self) -> bool {
        self.fail_on_unknown_format
    }

    /// Whether the decoder still holds its input: it does unless the codec it
    /// chose failed to start.
    pub closed spec fn holds_source(self) -> bool {
        !(self.stage is Spent)
    }

    /// The leading bytes of the stream that the format was settled on.
    pub closed spec fn prefix(self) -> Seq<u8> {
        self.prefix@
    }

    /// Whether the stream ended within the leading bytes looked at.
    pub closed spec fn prefix_is_whole_stream(self) -> bool {
        self.prefix_ended@
    }

    /// The bytes buffered when the codec was chosen: the codec reads them
    /// first, then the rest of the source.
    pub closed spec fn handed_over(self) -> Seq<u8> {
        self.handed@
    }

    /// Create new decoder from the supplied `reader`.
    pub fn new(reader: R) -> (r: Self)
        ensures
            r.detected_format() is None,
            r.holds_source(),
            !r.strict(),
            r.undetected() is Some,
            r.undetected()->Some_0.source() == reader,
            r.undetected()->Some_0.pending() == Seq::<u8>::empty(),
            r.undetected()->Some_0.sniffed() == Seq::<u8>::empty(),
    {
        AnyDecoder {
            stage: Stage::Undetected(MagicReader::new(reader)),
            fail_on_unknown_format: false,
            prefix: Ghost(Seq::empty()),
            prefix_ended: Ghost(false),
            handed: Ghost(Seq::empty()),
        }
    }

    /// Throw an error when the decoder fails to detect compression format.
    ///
    /// By default no error is thrown, and the data is read verbatim. Once the
    /// format is detected, this setting has no effect.
    pub fn fail_on_unknown_format(&mut self, value: bool)
        ensures
            final(self).strict() == value,
            final(self).detected_format() == old(self).detected_format(),
            final(self).undetected() == old(self).undetected(),
            final(self).verbatim() == old(self).verbatim(),
            final(self).holds_source() == old(self).holds_source(),
            same_record(*old(self), *final(self)),
    {
        self.fail_on_unknown_format = value;
    }

    fn get_kind(&self) -> (r: Option<Format>)
        ensures
            r == self.detected_format(),
    {
        match &self.stage {
            Stage::Detected(Engine::Verbatim(_)) => Some(Format::Verbatim),
            Stage::Detected(Engine::Gz(_)) => Some(Format::Gz),
            Stage::Detected(Engine::Bz(_)) => Some(Format::Bz),
            Stage::Detected(Engine::Zlib(_)) => Some(Format::Zlib),
            Stage::Detected(Engine::Xz(_)) => Some(Format::Xz),
            Stage::Detected(Engine::Zstd(_)) => Some(Format::Zstd),
            _ => None,
        }
    }

    /// Settles on a format if none is yet: looks at the input and starts the
    /// matching codec. Once settled, nothing changes and the input is not
    /// touched. When looking fails, the bytes taken so far stay buffered for
    /// the next try.
    fn detect(&mut self) -> (r: Result<(), Error>)
        ensures
            detect_step(*old(self), *final(self), r is Ok),
    {
        let mut stage = Stage::Spent;
        std::mem::swap(&mut self.stage, &mut stage);
        match stage {
            Stage::Undetected(mut m) => {
                let ghost m0 = m;
                match sniff_format(&mut m, self.fail_on_unknown_format) {
                    Ok(format) => {
                        let ghost sniffed = m;
                        proof {
                            self.prefix = Ghost(sniffed.leading());
                            self.prefix_ended = Ghost(sniffed.source_ended());
                            self.handed = Ghost(sniffed.pending());
                            if m0.pending() == m0.sniffed() {
                                lemma_took_keeps_all(m0, sniffed);
                            }
                        }
                        match Engine::start(m, format) {
                            Ok(e) => {
                                self.stage = Stage::Detected(e);
                                proof {
                                    assert(settled(m0, *self, old(self).strict()));
                                }
                                Ok(())
                            },
                            Err(e) => Err(e),
                        }
                    },
                    Err(e) => {
                        self.stage = Stage::Undetected(m);
                        Err(e)
                    },
                }
            },
            Stage::Detected(e) => {
                self.stage = Stage::Detected(e);
                Ok(())
            },
            Stage::Spent => Err(other_error("the decoder lost its input stream")),
        }
    }

    /// Get the input stream format.
    ///
    /// The format is detected automatically when the data is read from the
    /// decoder. If nothing was read before calling this method, a small amount
    /// of data is read from the stream to detect the format. If the format has
    /// already been detected, this method merely returns it.
    pub fn kind(&mut self) -> (r: Result<Format, Error>)
        ensures
            detect_step(*old(self), *final(self), r is Ok),
            r is Ok ==> final(self).detected_format() == Some(r->Ok_0),
    {
        self.detect()?;
        match self.get_kind() {
            Some(f) => Ok(f),
            None => Err(other_error("the decoder lost its input stream")),
        }
    }

    /// Get immutable reference to the underlying reader.
    pub fn get_ref(&self) -> (r: &R)
        requires
            self.holds_source(),
        ensures
            self.undetected() is Some ==> *r == self.undetected()->Some_0.source(),
            self.verbatim() is Some ==> *r == self.verbatim()->Some_0.source(),
    {
        match &self.stage {
            Stage::Undetected(m) => m.get_ref(),
            Stage::Detected(e) => e.get_ref(),
            Stage::Spent => unreached(),
        }
    }

    /// Get mutable reference to the underlying reader.
    pub fn get_mut(&mut self) -> (r: &mut R)
        requires
            old(self).holds_source(),
        ensures
            final(self).holds_source(),
            final(self).detected_format() == old(self).detected_format(),
            final(self).strict() == old(self).strict(),
            same_record(*old(self), *final(self)),
            old(self).undetected() is Some ==> {
                let (before, after) = (old(self).undetected()->Some_0, final(self).undetected()->Some_0);
                &&& final(self).undetected() is Some
                &&& *r == before.source()
                &&& *final(r) == after.source()
                &&& after.pending() == before.pending()
                &&& after.sniffed() == before.sniffed()
            },
            old(self).verbatim() is Some ==> {
                let (before, after) = (old(self).verbatim()->Some_0, final(self).verbatim()->Some_0);
                &&& final(self).verbatim() is Some
                &&& *r == before.source()
                &&& *final(r) == after.source()
                &&& after.pending() == before.pending()
            },
    {
        match &mut self.stage {
            Stage::Undetected(m) => m.get_mut(),
            Stage::Detected(e) => e.get_mut(),
            Stage::Spent => unreached(),
        }
    }

    /// Whether the decoder still holds its input; `get_ref`, `get_mut`,
    /// `into_inner` and `into_parts` need it.
    pub fn has_source(&self) -> (r: bool)
        ensures
            r == self.holds_source(),
    {
        !matches!(self.stage, Stage::Spent)
    }

    /// The underlying reader and the bytes taken from it that nobody was
    /// handed yet: the lookahead bytes, which the reader no longer holds.
    pub fn into_parts(self) -> (r: (R, Vec<u8>))
        requires
            self.holds_source(),
        ensures
            self.undetected() is Some ==> r.0 == self.undetected()->Some_0.source() && r.1@
                == self.undetected()->Some_0.pending(),
            self.verbatim() is Some ==> r.0 == self.verbatim()->Some_0.source() && r.1@
                == self.verbatim()->Some_0.pending(),
    {
        match self.stage {
            Stage::Undetected(m) => m.into_parts(),
            Stage::Detected(e) => e.into_reader().into_parts(),
            Stage::Spent => unreached(),
        }
    }

    /// Return the underlying reader. Lookahead bytes not yet handed out are
    /// dropped; `into_parts` returns them as well.
    pub fn into_inner(self) -> (r: R)
        requires
            self.holds_source(),
        ensures
            self.undetected() is Some ==> r == self.undetected()->Some_0.source(),
            self.verbatim() is Some ==> r == self.verbatim()->Some_0.source(),
    {
        match self.stage {
            Stage::Undetected(m) => m.into_inner(),
            Stage::Detected(e) => e.into_reader().into_inner(),
            Stage::Spent => unreached(),
        }
    }
}

/// Whether two decoders hold the same record of how the format was settled.
pub open spec fn same_record<R: Read>(a: AnyDecoder<R>, b: AnyDecoder<R>) -> bool {
    &&& a.prefix() == b.prefix()
    &&& a.prefix_is_whole_stream() == b.prefix_is_whole_stream()
    &&& a.handed_over() == b.handed_over()
}

/// What a decoder that settled its format from the reader `m0` records:
/// - the format is what its prefix resolves to;
/// - the prefix is `MAX_MAGIC_BYTES` long, or the stream ended within it;
/// - the bytes handed to the codec begin with those `m0` had buffered;
/// - where `m0` had handed nothing out, they are the prefix itself, or
///   nothing, when the prefix was looked at in the source.
pub open spec fn settled<R: Read>(m0: MagicReader<R>, after: AnyDecoder<R>, strict: bool) -> bool {
    &&& after.detected_format() == resolved(after.prefix(), strict)
    &&& after.prefix().len() == MAX_MAGIC_BYTES || after.prefix_is_whole_stream()
    &&& m0.pending().len() <= after.handed_over().len()
    &&& after.handed_over().subrange(0, m0.pending().len() as int) == m0.pending()
    &&& m0.pending() == m0.sniffed() ==> (after.handed_over() == after.prefix() || (
    after.handed_over().len() == 0 && after.prefix().len() == MAX_MAGIC_BYTES))
}

/// What one step that settles the format leaves behind, from `before` to
/// `after`, given whether it succeeded:
/// - a decoder that had settled stays exactly as it was, and the step succeeds;
/// - one without input stays so, and the step fails;
/// - an undetected one with `MAX_MAGIC_BYTES` already taken fails exactly when
///   they resolve to no format, unless the zstd codec fails to start;
/// - an undetected one that succeeds has settled as `settled` says, and holds
///   its input; when it settled on `Verbatim`, its reader holds buffered
///   exactly the bytes handed over;
/// - an undetected one that fails has settled on nothing and, if it still
///   holds its input, only took bytes into the buffer;
/// - the setting for unknown input is kept.
pub open spec fn detect_step<R: Read>(before: AnyDecoder<R>, after: AnyDecoder<R>, ok: bool) -> bool {
    &&& after.strict() == before.strict()
    &&& before.detected_format() is Some ==> ok && after == before
    &&& !before.holds_source() ==> !ok && !after.holds_source()
    &&& ok ==> after.detected_format() is Some && after.holds_source()
    &&& !ok ==> after.detected_format() is None
    &&& before.undetected() is Some ==> {
        let m0 = before.undetected()->Some_0;
        &&& ok ==> settled(m0, after, before.strict())
        &&& m0.sniffed().len() == MAX_MAGIC_BYTES ==> {
            let f = resolved(m0.sniffed(), before.strict());
            &&& f is None ==> !ok
            &&& f is Some && f != Some(Format::Zstd) ==> ok
        }
        &&& ok ==> (after.verbatim() is Some <==> after.detected_format() == Some(Format::Verbatim))
        &&& ok && after.verbatim() is Some ==> after.verbatim()->Some_0.pending()
            == after.handed_over()
        &&& !ok && after.holds_source() ==> after.undetected() is Some && only_took(
            m0,
            after.undetected()->Some_0,
        )
    }
}

/// What a read-shaped call leaves behind, from `before` to `after`: the
/// setting for unknown input is kept; a settled format, and its record, stay;
/// a format settled on now was settled as `settled` says; a decoder that
/// reads verbatim keeps doing so.
pub open spec fn read_step<R: Read>(before: AnyDecoder<R>, after: AnyDecoder<R>) -> bool {
    &&& after.strict() == before.strict()
    &&& before.detected_format() is Some ==> after.detected_format() == before.detected_format()
        && same_record(before, after)
    &&& after.detected_format() is Some ==> after.holds_source()
    &&& !before.holds_source() ==> !after.holds_source()
    &&& before.undetected() is Some && after.detected_format() is Some ==> settled(
        before.undetected()->Some_0,
        after,
        before.strict(),
    )
    &&& before.verbatim() is Some ==> after.verbatim() is Some
}

/// The bytes a read-shaped call from `before` to `after` serves first, when it
/// reads verbatim: those buffered before it, or, if it settled the format
/// itself, those handed over.
pub open spec fn replayed<R: Read>(before: AnyDecoder<R>, after: AnyDecoder<R>) -> Seq<u8> {
    if before.verbatim() is Some {
        before.verbatim()->Some_0.pending()
    } else {
        after.handed_over()
    }
}

impl<R: Read> AnyDecoder<R> {
    /// A single read of decoded bytes; settles the format first if needed.
    /// Reading verbatim, it serves the buffered bytes first, then the source.
    pub fn read_decoded(&mut self, buf: &mut [u8]) -> (r: Result<usize, Error>)
        ensures
            read_step(*old(self), *final(self)),
            final(buf)@.len() == old(buf)@.len(),
            final(self).detected_format() is None ==> r is Err && final(buf)@ == old(buf)@,
            r is Ok ==> final(self).detected_format() is Some,
            !old(self).holds_source() ==> r is Err,
            final(self).verbatim() is Some && r is Ok ==> r->Ok_0 <= old(buf)@.len() && in_order(
                replayed(*old(self), *final(self)),
                final(buf)@.subrange(0, r->Ok_0 as int),
                final(self).verbatim()->Some_0.pending(),
            ),
            old(self).verbatim() is Some && old(self).verbatim()->Some_0.pending().len() > 0
                ==> r is Ok,
    {
        if let Err(e) = self.detect() {
            return Err(e);
        }
        match &mut self.stage {
            Stage::Detected(e) => e.read_some(buf),
            _ => Err(other_error("the decoder lost its input stream")),
        }
    }

    /// Fills all of `buf` with decoded bytes; settles the format first if
    /// needed. Reading verbatim, the buffered bytes come first, and the source
    /// is not touched while they fill `buf`.
    pub fn read_exact_decoded(&mut self, buf: &mut [u8]) -> (r: Result<(), Error>)
        ensures
            read_step(*old(self), *final(self)),
            final(buf)@.len() == old(buf)@.len(),
            final(self).detected_format() is None ==> r is Err && final(buf)@ == old(buf)@,
            r is Ok ==> final(self).detected_format() is Some,
            !old(self).holds_source() ==> r is Err,
            final(self).verbatim() is Some && r is Ok ==> in_order(
                replayed(*old(self), *final(self)),
                final(buf)@,
                final(self).verbatim()->Some_0.pending(),
            ),
            old(self).verbatim() is Some ==> {
                let (before, after) = (old(self).verbatim()->Some_0, final(self).verbatim()->Some_0);
                old(buf)@.len() <= before.pending().len() ==> r is Ok && after.source()
                    == before.source()
            },
    {
        if let Err(e) = self.detect() {
            return Err(e);
        }
        match &mut self.stage {
            Stage::Detected(e) => e.read_exact(buf),
            _ => Err(other_error("the decoder lost its input stream")),
        }
    }

    /// Appends the decoded rest of the stream to `buf`; settles the format
    /// first if needed. Reading verbatim, the buffered bytes come first.
    pub fn read_to_end_decoded(&mut self, buf: &mut Vec<u8>) -> (r: Result<usize, Error>)
        ensures
            read_step(*old(self), *final(self)),
            final(self).detected_format() is None ==> r is Err && final(buf)@ == old(buf)@,
            r is Ok ==> final(self).detected_format() is Some,
            !old(self).holds_source() ==> r is Err,
            final(buf)@.len() >= old(buf)@.len(),
            final(buf)@.subrange(0, old(buf)@.len() as int) == old(buf)@,
            r is Ok ==> final(buf)@.len() == old(buf)@.len() + r->Ok_0,
            final(self).verbatim() is Some && r is Ok ==> in_order(
                replayed(*old(self), *final(self)),
                final(buf)@.subrange(old(buf)@.len() as int, final(buf)@.len() as int),
                final(self).verbatim()->Some_0.pending(),
            ),
            final(self).verbatim() is Some ==> {
                let k = (old(buf)@.len() + replayed(*old(self), *final(self)).len()) as int;
                &&& k <= final(buf)@.len()
                &&& final(buf)@.subrange(0, k) == old(buf)@ + replayed(*old(self), *final(self))
            },
    {
        if let Err(e) = self.detect() {
            proof {
                assert(buf@.subrange(0, buf@.len() as int) =~= buf@);
            }
            return Err(e);
        }
        match &mut self.stage {
            Stage::Detected(e) => e.read_to_end(buf),
            _ => {
                proof {
                    assert(buf@.subrange(0, buf@.len() as int) =~= buf@);
                }
                Err(other_error("the decoder lost its input stream"))
            },
        }
    }

    /// Appends the decoded rest of the stream to `buf` as text; settles the
    /// format first if needed. Reading verbatim with bytes buffered, those and
    /// the rest of the stream are checked as UTF-8 as a whole.
    pub fn read_to_string_decoded(&mut self, buf: &mut String) -> (r: Result<usize, Error>)
        ensures
            read_step(*old(self), *final(self)),
            final(self).detected_format() is None ==> r is Err && final(buf)@ == old(buf)@,
            r is Ok ==> final(self).detected_format() is Some,
            !old(self).holds_source() ==> r is Err,
            final(buf)@.len() >= old(buf)@.len(),
            final(buf)@.subrange(0, old(buf)@.len() as int) == old(buf)@,
            final(self).verbatim() is Some && replayed(*old(self), *final(self)).len() > 0 ==> {
                &&& r is Ok ==> exists|bytes: Seq<u8>|
                    #[trigger] valid_utf8(bytes) && bytes.len() == r->Ok_0 && in_order(
                        replayed(*old(self), *final(self)),
                        bytes,
                        final(self).verbatim()->Some_0.pending(),
                    ) && final(buf)@ == old(buf)@ + decode_utf8(bytes)
                &&& r is Err ==> final(buf)@ == old(buf)@
            },
    {
        if let Err(e) = self.detect() {
            proof {
                assert(buf@.subrange(0, buf@.len() as int) =~= buf@);
            }
            return Err(e);
        }
        match &mut self.stage {
            Stage::Detected(e) => e.read_to_string(buf),
            _ => {
                proof {
                    assert(buf@.subrange(0, buf@.len() as int) =~= buf@);
                }
                Err(other_error("the decoder lost its input stream"))
            },
        }
    }

    /// A vectored read of decoded bytes; settles the format first if needed.
    pub fn read_vectored_decoded(&mut self, bufs: &mut [IoSliceMut<'_>]) -> (r: Result<
        usize,
        Error,
    >)
        ensures
            read_step(*old(self), *final(self)),
            final(self).detected_format() is None ==> r is Err,
            r is Ok ==> final(self).detected_format() is Some,
            !old(self).holds_source() ==> r is Err,
    {
        if let Err(e) = self.detect() {
            return Err(e);
        }
        match &mut self.stage {
            Stage::Detected(e) => e.read_vectored(bufs),
            _ => Err(other_error("the decoder lost its input stream")),
        }
    }
}

impl<R: Read> Read for AnyDecoder<R> {
    fn read(&mut self, buf: &mut [u8]) -> Result<usize, Error> {
        self.read_decoded(buf)
    }

    fn read_vectored(&mut self, bufs: &mut [IoSliceMut<'_>]) -> Result<usize, Error> {
        self.read_vectored_decoded(bufs)
    }

    fn read_to_end(&mut self, buf: &mut Vec<u8>) -> Result<usize, Error> {
        self.read_to_end_decoded(buf)
    }

    fn read_to_string(&mut self, buf: &mut String) -> Result<usize, Error> {
        self.read_to_string_decoded(buf)
    }

    fn read_exact(&mut self, buf: &mut [u8]) -> Result<(), Error> {
        self.read_exact_decoded(buf)
    }
}

/// Once a query has settled the format, further queries return the same
/// format and leave the decoder, and so its input, untouched.
pub proof fn lemma_detection_is_idempotent<R: Read>(
    d0: AnyDecoder<R>,
    d1: AnyDecoder<R>,
    d2: AnyDecoder<R>,
    ok2: bool,
)
    requires
        detect_step(d0, d1, true),
        detect_step(d1, d2, ok2),
    ensures
        ok2,
        d2 == d1,
        d2.detected_format() == d1.detected_format(),
        d1.detected_format() is Some,
{
}

/// Reads keep the format that a query settled, and a later query returns it
/// without touching the input; a read that settles the format itself leaves
/// a query nothing to do either.
pub proof fn lemma_format_survives_reads<R: Read>(
    d0: AnyDecoder<R>,
    d1: AnyDecoder<R>,
    d2: AnyDecoder<R>,
    ok2: bool,
)
    requires
        read_step(d0, d1),
        d1.detected_format() is Some,
        detect_step(d1, d2, ok2),
    ensures
        ok2,
        d2 == d1,
        d0.detected_format() is Some ==> d2.detected_format() == d0.detected_format(),
{
}

/// Two fresh decoders with the same setting for unknown input that settled on
/// leading bytes that agree in their first `MAX_MAGIC_BYTES` settle on the
/// same format, however their sources delivered those bytes.
pub proof fn lemma_format_depends_on_prefix<R: Read>(
    d0: AnyDecoder<R>,
    d1: AnyDecoder<R>,
    e0: AnyDecoder<R>,
    e1: AnyDecoder<R>,
)
    requires
        d0.undetected() is Some,
        e0.undetected() is Some,
        d0.strict() == e0.strict(),
        detect_step(d0, d1, true),
        detect_step(e0, e1, true),
        d1.prefix() == e1.prefix(),
    ensures
        d1.detected_format() == e1.detected_format(),
{
}

} // verus!
