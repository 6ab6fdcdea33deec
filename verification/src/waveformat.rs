//! The WAV `fmt ` chunk: `WAVEFORMAT`, `WAVEFORMATEX` and
//! `WAVEFORMATEXTENSIBLE`.
//!
//! ```text
//! +0   wFormatTag      : u16     +2  nChannels     : u16
//! +4   nSamplesPerSec  : u32     +8  nAvgBytesPerSec : u32
//! +12  nBlockAlign     : u16     +14 wBitsPerSample : u16
//! +16  cbSize          : u16     (WAVEFORMATEX: extension length)
//! +18  wValidBitsPerSample : u16 (WAVEFORMATEXTENSIBLE tail …)
//! +20  dwChannelMask   : u32
//! +24  SubFormat       : GUID (16 bytes, mixed-endian)
//! ```
use vstd::prelude::*;

use crate::error::{Error, Result};
use crate::le::{copy_range, count_ones_u32, le_u16, le_u32, popcount, read_u16, read_u32};
use crate::text::{hex_text, push_char, push_hex};

verus! {

/// `wFormatTag` of integer PCM.
pub const WAVE_FORMAT_PCM: u16 = 0x0001;

/// `wFormatTag` of Microsoft ADPCM.
pub const WAVE_FORMAT_ADPCM: u16 = 0x0002;

/// `wFormatTag` of IEEE floating-point PCM.
pub const WAVE_FORMAT_IEEE_FLOAT: u16 = 0x0003;

/// `wFormatTag` of G.711 A-law.
pub const WAVE_FORMAT_ALAW: u16 = 0x0006;

/// `wFormatTag` of G.711 μ-law.
pub const WAVE_FORMAT_MULAW: u16 = 0x0007;

/// `wFormatTag` of the extensible descriptor; the codec is named by the
/// sub-format GUID.
pub const WAVE_FORMAT_EXTENSIBLE: u16 = 0xFFFE;

/// A 128-bit GUID in its wire layout: `data1`..`data3` little-endian,
/// `data4` verbatim.
#[derive(Clone, Copy, Debug, PartialEq, Eq, Hash)]
pub struct Guid {
    /// First 32-bit component.
    pub data1: u32,
    /// Second 16-bit component.
    pub data2: u16,
    /// Third 16-bit component.
    pub data3: u16,
    /// Final 8 bytes.
    pub data4: [u8; 8],
}

/// The tail bytes of the `xxxxxxxx-0000-0010-8000-00aa00389b71`
/// template every `DEFINE_WAVEFORMATEX_GUID(tag)` sub-format follows.
pub open spec fn template_data4() -> Seq<u8> {
    seq![0x80u8, 0x00u8, 0x00u8, 0xaau8, 0x00u8, 0x38u8, 0x9bu8, 0x71u8]
}

/// The `DEFINE_WAVEFORMATEX_GUID` base template (`Data1` zero).
#[allow(non_snake_case)]
pub fn KSDATAFORMAT_SUBTYPE_WAVEFORMATEX_BASE() -> (g: Guid)
    ensures
        g.data1 == 0 && g.data2 == 0 && g.data3 == 0x0010 && g.data4@ == template_data4(),
{
    let g = Guid {
        data1: 0x0000_0000,
        data2: 0x0000,
        data3: 0x0010,
        data4: [0x80, 0x00, 0x00, 0xaa, 0x00, 0x38, 0x9b, 0x71],
    };
    assert(g.data4@ =~= template_data4());
    g
}

/// The GUID whose wire bytes start at `b[off]`.
pub open spec fn guid_at(b: Seq<u8>, off: int) -> Guid {
    Guid {
        data1: le_u32(b, off),
        data2: le_u16(b, off + 4),
        data3: le_u16(b, off + 6),
        data4: [
            b[off + 8],
            b[off + 9],
            b[off + 10],
            b[off + 11],
            b[off + 12],
            b[off + 13],
            b[off + 14],
            b[off + 15],
        ],
    }
}

/// The GUID follows the `DEFINE_WAVEFORMATEX_GUID` template.
pub open spec fn is_template_guid(g: Guid) -> bool {
    g.data2 == 0 && g.data3 == 0x0010 && g.data4@ == template_data4() && g.data1 <= 0xFFFF
}

/// The canonical `xxxxxxxx-xxxx-xxxx-xxxx-xxxxxxxxxxxx` text of a GUID.
pub open spec fn guid_text(g: Guid) -> Seq<char> {
    hex_text(g.data1 as int, 8) + seq!['-'] + hex_text(g.data2 as int, 4) + seq!['-'] + hex_text(
        g.data3 as int,
        4,
    ) + seq!['-'] + hex_text(g.data4[0] as int, 2) + hex_text(g.data4[1] as int, 2) + seq!['-']
        + hex_text(g.data4[2] as int, 2) + hex_text(g.data4[3] as int, 2) + hex_text(
        g.data4[4] as int,
        2,
    ) + hex_text(g.data4[5] as int, 2) + hex_text(g.data4[6] as int, 2) + hex_text(
        g.data4[7] as int,
        2,
    )
}

impl Guid {
    /// Decode a GUID from its 16 wire bytes.
    pub fn from_le_wire(b: &[u8; 16]) -> (g: Self)
        ensures
            g == guid_at(b@, 0),
    {
        let s = b.as_slice();
        Guid {
            data1: read_u32(s, 0),
            data2: read_u16(s, 4),
            data3: read_u16(s, 6),
            data4: [b[8], b[9], b[10], b[11], b[12], b[13], b[14], b[15]],
        }
    }

    /// `true` if the GUID follows the `DEFINE_WAVEFORMATEX_GUID`
    /// template (every field but the low word of `data1` fixed).
    pub fn is_waveformatex_derived(&self) -> (r: bool)
        ensures
            r == is_template_guid(*self),
    {
        let d = &self.data4;
        let tail = d[0] == 0x80 && d[1] == 0x00 && d[2] == 0x00 && d[3] == 0xaa && d[4] == 0x00
            && d[5] == 0x38 && d[6] == 0x9b && d[7] == 0x71;
        proof {
            if tail {
                assert(d@ =~= template_data4());
            }
            if d@ == template_data4() {
                assert(d@[0] == 0x80 && d@[3] == 0xaa && d@[5] == 0x38 && d@[6] == 0x9b && d@[7]
                    == 0x71);
                assert(d@[1] == 0 && d@[2] == 0 && d@[4] == 0);
            }
        }
        self.data2 == 0 && self.data3 == 0x0010 && tail && self.data1 <= 0xFFFF
    }

    /// The legacy `wFormatTag` of a template-derived sub-format.
    pub fn waveformatex_tag(&self) -> (r: Option<u16>)
        ensures
            r == (if is_template_guid(*self) {
                Some(self.data1 as u16)
            } else {
                None
            }),
    {
        if self.is_waveformatex_derived() {
            Some(self.data1 as u16)
        } else {
            None
        }
    }

    /// The canonical lower-case hyphenated text of the GUID.
    pub fn to_hyphenated(&self) -> (s: String)
        ensures
            s@ == guid_text(*self),
    {
        let mut s = String::new();
        push_hex(&mut s, self.data1, 8);
        push_char(&mut s, '-');
        push_hex(&mut s, self.data2 as u32, 4);
        push_char(&mut s, '-');
        push_hex(&mut s, self.data3 as u32, 4);
        push_char(&mut s, '-');
        push_hex(&mut s, self.data4[0] as u32, 2);
        push_hex(&mut s, self.data4[1] as u32, 2);
        push_char(&mut s, '-');
        push_hex(&mut s, self.data4[2] as u32, 2);
        push_hex(&mut s, self.data4[3] as u32, 2);
        push_hex(&mut s, self.data4[4] as u32, 2);
        push_hex(&mut s, self.data4[5] as u32, 2);
        push_hex(&mut s, self.data4[6] as u32, 2);
        push_hex(&mut s, self.data4[7] as u32, 2);
        assert(s@ =~= guid_text(*self));
        s
    }
}

/// The `WAVEFORMATEXTENSIBLE` tail.
#[derive(Clone, Copy, Debug, PartialEq, Eq)]
pub struct ExtensibleFields {
    /// The `Samples` union (valid bits / samples per block / reserved).
    pub samples: u16,
    /// Speaker-position bitmap.
    pub channel_mask: u32,
    /// Codec-identifying sub-format GUID.
    pub sub_format: Guid,
}

/// The content of a `fmt ` body.
pub struct WaveFormatModel {
    pub format_tag: u16,
    pub channels: u16,
    pub sample_rate: u32,
    pub avg_bytes_per_sec: u32,
    pub block_align: u16,
    pub bits_per_sample: u16,
    pub extension: Seq<u8>,
    pub extensible: Option<ExtensibleFields>,
}

/// A decoded `fmt ` body.
#[derive(Clone, Debug, PartialEq, Eq)]
pub struct WaveFormat {
    /// `wFormatTag`.
    pub format_tag: u16,
    /// `nChannels`.
    pub channels: u16,
    /// `nSamplesPerSec`.
    pub sample_rate: u32,
    /// `nAvgBytesPerSec`.
    pub avg_bytes_per_sec: u32,
    /// `nBlockAlign`.
    pub block_align: u16,
    /// `wBitsPerSample`.
    pub bits_per_sample: u16,
    /// The `cbSize`-counted extension bytes (empty without `cbSize`).
    pub extension: Vec<u8>,
    /// The extensible tail, for `format_tag == WAVE_FORMAT_EXTENSIBLE`.
    pub extensible: Option<ExtensibleFields>,
}

impl View for WaveFormat {
    type V = WaveFormatModel;

    open spec fn view(&self) -> WaveFormatModel {
        WaveFormatModel {
            format_tag: self.format_tag,
            channels: self.channels,
            sample_rate: self.sample_rate,
            avg_bytes_per_sec: self.avg_bytes_per_sec,
            block_align: self.block_align,
            bits_per_sample: self.bits_per_sample,
            extension: self.extension@,
            extensible: self.extensible,
        }
    }
}

/// The extension bytes of a `fmt ` body: the `cbSize` bytes after the
/// 18-byte `WAVEFORMATEX` header, none for a shorter body.
pub open spec fn fmt_extension(b: Seq<u8>) -> Seq<u8> {
    if b.len() >= 18 {
        b.subrange(18, 18 + le_u16(b, 16))
    } else {
        Seq::empty()
    }
}

/// `true` if `b` is a `fmt ` body that [`WaveFormat::parse`] accepts:
/// the 16-byte prefix is present, `cbSize` (when present) fits, and an
/// extensible descriptor has its 22-byte tail.
pub open spec fn fmt_parse_ok(b: Seq<u8>) -> bool {
    &&& b.len() >= 16
    &&& b.len() >= 18 ==> le_u16(b, 16) <= b.len() - 18
    &&& le_u16(b, 0) == WAVE_FORMAT_EXTENSIBLE ==> fmt_extension(b).len() >= 22
}

/// The content of a `fmt ` body that [`WaveFormat::parse`] accepts.
pub open spec fn fmt_model_of(b: Seq<u8>) -> WaveFormatModel {
    let ext = fmt_extension(b);
    WaveFormatModel {
        format_tag: le_u16(b, 0),
        channels: le_u16(b, 2),
        sample_rate: le_u32(b, 4),
        avg_bytes_per_sec: le_u32(b, 8),
        block_align: le_u16(b, 12),
        bits_per_sample: le_u16(b, 14),
        extension: ext,
        extensible: if le_u16(b, 0) == WAVE_FORMAT_EXTENSIBLE {
            Some(
                ExtensibleFields {
                    samples: le_u16(ext, 0),
                    channel_mask: le_u32(ext, 2),
                    sub_format: guid_at(ext, 6),
                },
            )
        } else {
            None
        },
    }
}

impl WaveFormat {
    /// Decode a `fmt ` body; see [`fmt_parse_ok`] for when it fails.
    pub fn parse(body: &[u8]) -> (r: Result<Self>)
        ensures
            r is Ok <==> fmt_parse_ok(body@),
            r matches Ok(f) ==> f@ == fmt_model_of(body@),
    {
        let blen = body.len();
        if blen < 16 {
            return Err(Error::invalid("RIFF fmt: body shorter than the 16-byte WAVEFORMAT prefix"));
        }
        let format_tag = read_u16(body, 0);
        let channels = read_u16(body, 2);
        let sample_rate = read_u32(body, 4);
        let avg_bytes_per_sec = read_u32(body, 8);
        let block_align = read_u16(body, 12);
        let bits_per_sample = read_u16(body, 14);
        let extension = if blen >= 18 {
            let cb_size = read_u16(body, 16) as usize;
            if cb_size > blen - 18 {
                return Err(Error::invalid("RIFF fmt: cbSize over-runs the fmt body length"));
            }
            copy_range(body, 18, 18 + cb_size)
        } else {
            Vec::new()
        };
        assert(extension@ =~= fmt_extension(body@));
        let extensible = if format_tag == WAVE_FORMAT_EXTENSIBLE {
            if extension.len() < 22 {
                return Err(
                    Error::invalid("RIFF fmt: WAVE_FORMAT_EXTENSIBLE needs a 22-byte extension tail"),
                );
            }
            let e = extension.as_slice();
            let samples = read_u16(e, 0);
            let channel_mask = read_u32(e, 2);
            let sub_format = Guid {
                data1: read_u32(e, 6),
                data2: read_u16(e, 10),
                data3: read_u16(e, 12),
                data4: [e[14], e[15], e[16], e[17], e[18], e[19], e[20], e[21]],
            };
            Some(ExtensibleFields { samples, channel_mask, sub_format })
        } else {
            None
        };
        Ok(
            WaveFormat {
                format_tag,
                channels,
                sample_rate,
                avg_bytes_per_sec,
                block_align,
                bits_per_sample,
                extension,
                extensible,
            },
        )
    }

    /// `true` for the extensible form (a parsed tail is present).
    pub fn is_extensible(&self) -> (r: bool)
        ensures
            r == self.extensible is Some,
    {
        self.extensible.is_some()
    }

    /// The effective format tag: `format_tag` for a plain descriptor, the
    /// legacy tag of a template sub-format for an extensible one, `None`
    /// for an extensible descriptor with a non-template sub-format.
    pub fn effective_format_tag(&self) -> (r: Option<u16>)
        ensures
            r == (match self.extensible {
                Some(ext) => if is_template_guid(ext.sub_format) {
                    Some(ext.sub_format.data1 as u16)
                } else {
                    None
                },
                None => Some(self.format_tag),
            }),
    {
        match &self.extensible {
            Some(ext) => ext.sub_format.waveformatex_tag(),
            None => Some(self.format_tag),
        }
    }

    /// The number of speakers in the channel mask of an extensible
    /// descriptor; `None` otherwise.
    pub fn channel_mask_count(&self) -> (r: Option<u32>)
        ensures
            r == (match self.extensible {
                Some(ext) => Some(popcount(ext.channel_mask as nat) as u32),
                None => None,
            }),
    {
        match &self.extensible {
            Some(ext) => Some(count_ones_u32(ext.channel_mask)),
            None => None,
        }
    }
}

} // verus!
