//! Compression levels: an intent that each codec maps to its own scale.
use crate::format::Format;
use bzip2::Compression as Bzip2Level;
use flate2::Compression as DeflateLevel;
use vstd::prelude::*;

verus! {

/// flate2's compression level, held opaque.
#[verifier::external_type_specification]
#[verifier::external_body]
pub struct ExFlate2Compression(DeflateLevel);

/// bzip2's compression level, held opaque.
#[verifier::external_type_specification]
#[verifier::external_body]
pub struct ExBzip2Compression(Bzip2Level);

/// Relies on `flate2::Compression::fast`: the deflate level for speed.
pub assume_specification[ DeflateLevel::fast ]() -> DeflateLevel;

/// Relies on `flate2::Compression::best`: the deflate level for size.
pub assume_specification[ DeflateLevel::best ]() -> DeflateLevel;

/// Relies on `flate2::Compression::default`: the deflate level for balance.
pub assume_specification[ <DeflateLevel as core::default::Default>::default ]() -> DeflateLevel;

/// Relies on `flate2::Compression::new`: the deflate level `level`.
pub assume_specification[ DeflateLevel::new ](level: u32) -> DeflateLevel;

/// Relies on `bzip2::Compression::fast`: the bzip2 level for speed.
pub assume_specification[ Bzip2Level::fast ]() -> Bzip2Level;

/// Relies on `bzip2::Compression::best`: the bzip2 level for size.
pub assume_specification[ Bzip2Level::best ]() -> Bzip2Level;

/// Relies on `bzip2::Compression::default`: the bzip2 level for balance.
pub assume_specification[ <Bzip2Level as core::default::Default>::default ]() -> Bzip2Level;

/// Relies on `bzip2::Compression::new`: the bzip2 level `level`.
pub assume_specification[ Bzip2Level::new ](level: u32) -> Bzip2Level;

/// Compression level.
#[derive(Clone, Copy, PartialEq, Eq, Structural, PartialOrd, Ord, Hash, Debug)]
pub enum Compression {
    /// Usually the lowest compression level.
    Fast,
    /// Usually some medium compression level.
    Default,
    /// Usually the highest compression level.
    Best,
    /// Concrete compression level.
    ///
    /// Its meaning depends on the encoder being used.
    Level(u32),
}

impl Default for Compression {
    fn default() -> (r: Self)
        ensures
            r == Compression::Default,
    {
        Compression::Default
    }
}

/// Specific compression level for each output format.
#[derive(Clone, Copy, Debug)]
pub enum CompressionLevel {
    /// No compression.
    Verbatim,
    /// Gzip compression level.
    Gz(DeflateLevel),
    /// Bzip2 compression level.
    Bz(Bzip2Level),
    /// Zlib compression level.
    Zlib(DeflateLevel),
    /// XZ compression level (1–9).
    Xz(u32),
    /// Zstd compression level (1–22, 0 means default compression).
    Zstd(i32),
}

/// Whether `compression` names an explicit level that the codec of `format`
/// refuses: deflate takes at most 10, bzip2 1 to 9, xz 0 to 9 with at most its
/// "extreme" flag.
pub open spec fn refused_level(format: Format, compression: Compression) -> bool {
    match compression {
        Compression::Level(i) => match format {
            Format::Gz | Format::Zlib => i > 10,
            Format::Bz => i < 1 || i > 9,
            Format::Xz => i % 0x8000_0000 > 9,
            _ => false,
        },
        _ => false,
    }
}

impl Compression {
    /// The xz preset for this level.
    pub open spec fn xz_level(self) -> u32 {
        match self {
            Compression::Fast => 1,
            Compression::Default => 5,
            Compression::Best => 9,
            Compression::Level(i) => i,
        }
    }

    /// The zstd level for this level; an explicit level is taken as `i32`.
    pub open spec fn zstd_level(self) -> i32 {
        match self {
            Compression::Fast => 1,
            Compression::Default => 0,
            Compression::Best => 22,
            Compression::Level(i) => i as i32,
        }
    }

    /// Convert to specific compression level used by the underlying encoder.
    pub fn to_level(self, encoder: Format) -> (r: CompressionLevel)
        ensures
            encoder == Format::Verbatim <==> r is Verbatim,
            encoder == Format::Gz <==> r is Gz,
            encoder == Format::Bz <==> r is Bz,
            encoder == Format::Zlib <==> r is Zlib,
            encoder == Format::Xz <==> r == CompressionLevel::Xz(self.xz_level()),
            encoder == Format::Zstd <==> r == CompressionLevel::Zstd(self.zstd_level()),
    {
        match encoder {
            Format::Verbatim => CompressionLevel::Verbatim,
            Format::Gz => CompressionLevel::Gz(self.to_flate2()),
            Format::Bz => CompressionLevel::Bz(self.to_bzip2()),
            Format::Zlib => CompressionLevel::Zlib(self.to_flate2()),
            Format::Xz => CompressionLevel::Xz(self.to_xz()),
            Format::Zstd => CompressionLevel::Zstd(self.to_zstd()),
        }
    }

    /// The deflate level for this level.
    pub(crate) fn to_flate2(self) -> DeflateLevel {
        match self {
            Compression::Fast => DeflateLevel::fast(),
            Compression::Default => DeflateLevel::default(),
            Compression::Best => DeflateLevel::best(),
            Compression::Level(i) => DeflateLevel::new(i),
        }
    }

    /// The bzip2 level for this level.
    pub(crate) fn to_bzip2(self) -> Bzip2Level {
        match self {
            Compression::Fast => Bzip2Level::fast(),
            Compression::Default => Bzip2Level::default(),
            Compression::Best => Bzip2Level::best(),
            Compression::Level(i) => Bzip2Level::new(i),
        }
    }

    /// The level for an encoder of `format`, or `None` where its codec
    /// refuses an explicit level: deflate takes at most 10, bzip2 1 to 9, and
    /// xz a preset of 0 to 9 with at most its "extreme" flag (the top bit).
    /// `Fast`, `Default` and `Best` are the codecs' own presets and always given.
    pub fn encoder_level(self, format: Format) -> (r: Option<CompressionLevel>)
        ensures
            r is None <==> refused_level(format, self),
            format == Format::Verbatim ==> r == Some(CompressionLevel::Verbatim),
            format == Format::Xz && r is Some ==> r == Some(CompressionLevel::Xz(self.xz_level())),
            format == Format::Zstd ==> r == Some(CompressionLevel::Zstd(self.zstd_level())),
            r is Some ==> (format == Format::Gz <==> r->Some_0 is Gz),
            r is Some ==> (format == Format::Bz <==> r->Some_0 is Bz),
            r is Some ==> (format == Format::Zlib <==> r->Some_0 is Zlib),
    {
        if let Compression::Level(i) = self {
            let refused = match format {
                Format::Gz | Format::Zlib => i > 10,
                Format::Bz => i < 1 || i > 9,
                Format::Xz => i % 0x8000_0000 > 9,
                _ => false,
            };
            if refused {
                return None;
            }
        }
        Some(self.to_level(format))
    }

    /// The xz preset for this level.
    pub fn to_xz(self) -> (r: u32)
        ensures
            r == self.xz_level(),
    {
        match self {
            Compression::Fast => 1,
            Compression::Default => 5,
            Compression::Best => 9,
            Compression::Level(i) => i,
        }
    }

    /// The zstd level for this level; an explicit level is taken as `i32`.
    pub fn to_zstd(self) -> (r: i32)
        ensures
            r == self.zstd_level(),
    {
        match self {
            Compression::Fast => 1,
            Compression::Default => 0,
            Compression::Best => 22,
            Compression::Level(i) => i as i32,
        }
    }
}

} // verus!
