//! Named `KSDATAFORMAT_SUBTYPE_*` sub-format GUIDs.
//!
//! A `WAVEFORMATEXTENSIBLE` descriptor names its codec by a 128-bit
//! `SubFormat` GUID. Two families share one tail
//! (`-0010-8000-00aa00389b71`):
//!
//! 1. `WAVEFORMATEX`-derived GUIDs, `Data2 == 0x0000`, whose `Data1` low
//!    word is the legacy `wFormatTag`;
//! 2. IEC 61937 compressed-passthrough GUIDs, `Data2 == 0x0cea` (CEA),
//!    whose `Data1` low word is a CEA-861 stream-type index.
//!
//! [`KsSubtype::resolve`] sorts a GUID into one of them and the
//! catalogue functions give the published symbolic name and a short
//! description of the catalogued members.
use vstd::prelude::*;

use crate::waveformat::{
    template_data4, Guid, KSDATAFORMAT_SUBTYPE_WAVEFORMATEX_BASE, WAVE_FORMAT_ADPCM, WAVE_FORMAT_ALAW,
    WAVE_FORMAT_IEEE_FLOAT, WAVE_FORMAT_MULAW, WAVE_FORMAT_PCM,
};

verus! {

/// The `Data2` discriminator of the IEC 61937 passthrough family.
pub const IEC61937_DATA2: u16 = 0x0cea;

/// The GUID built from the shared template with the given `Data1` and
/// `Data2`.
pub open spec fn template_guid(g: Guid, data1: u32, data2: u16) -> bool {
    g.data1 == data1 && g.data2 == data2 && g.data3 == 0x0010 && g.data4@ == template_data4()
}

/// `DEFINE_WAVEFORMATEX_GUID(tag)`: the base template with the tag in
/// the `Data1` low word.
pub fn waveformatex_guid(tag: u16) -> (g: Guid)
    ensures
        template_guid(g, tag as u32, 0),
{
    let base = KSDATAFORMAT_SUBTYPE_WAVEFORMATEX_BASE();
    Guid { data1: tag as u32, data2: base.data2, data3: base.data3, data4: base.data4 }
}

/// The IEC 61937 passthrough GUID of a CEA-861 stream-type index.
pub fn iec61937_guid(stream_type_index: u16) -> (g: Guid)
    ensures
        template_guid(g, stream_type_index as u32, IEC61937_DATA2),
{
    let base = KSDATAFORMAT_SUBTYPE_WAVEFORMATEX_BASE();
    Guid { data1: stream_type_index as u32, data2: IEC61937_DATA2, data3: base.data3, data4: base.data4 }
}

/// A sub-format GUID sorted into its family.
#[derive(Clone, Copy, Debug, PartialEq, Eq)]
pub enum KsSubtype {
    /// A `WAVEFORMATEX`-derived sub-format with its legacy tag.
    WaveFormatEx {
        /// The legacy `WAVE_FORMAT_*` tag.
        tag: u16,
    },
    /// An IEC 61937 passthrough sub-format with its CEA-861 index.
    Iec61937 {
        /// CEA-861 stream-type index.
        cea861_type: u16,
    },
    /// A GUID that follows neither template.
    Other(Guid),
}

/// The GUID ends in the shared template tail and its `Data1` fits in
/// 16 bits.
pub open spec fn has_template_tail(g: Guid) -> bool {
    g.data3 == 0x0010 && g.data4@ == template_data4() && g.data1 <= 0xFFFF
}

/// The family of a GUID.
pub open spec fn subtype_of(g: Guid) -> KsSubtype {
    if has_template_tail(g) && g.data2 == 0 {
        KsSubtype::WaveFormatEx { tag: g.data1 as u16 }
    } else if has_template_tail(g) && g.data2 == IEC61937_DATA2 {
        KsSubtype::Iec61937 { cea861_type: g.data1 as u16 }
    } else {
        KsSubtype::Other(g)
    }
}

/// The catalogue entry of a subtype.
pub open spec fn subtype_entry(s: KsSubtype) -> Option<(Seq<char>, Seq<char>)> {
    match s {
        KsSubtype::WaveFormatEx { tag } => waveformatex_entry(tag),
        KsSubtype::Iec61937 { cea861_type } => iec61937_entry(cea861_type),
        KsSubtype::Other(_) => None,
    }
}

fn template_tail(g: &Guid) -> (r: bool)
    ensures
        r == has_template_tail(*g),
{
    let d = &g.data4;
    let tail = d[0] == 0x80 && d[1] == 0x00 && d[2] == 0x00 && d[3] == 0xaa && d[4] == 0x00
        && d[5] == 0x38 && d[6] == 0x9b && d[7] == 0x71;
    proof {
        if tail {
            assert(d@ =~= template_data4());
        }
        if d@ == template_data4() {
            assert(d@[0] == 0x80 && d@[3] == 0xaa && d@[5] == 0x38 && d@[6] == 0x9b && d@[7]
                == 0x71);
            assert(d@[1] == 0 && d@[2] == 0 && d@[4] == 0);
        }
    }
    g.data3 == 0x0010 && tail && g.data1 <= 0xFFFF
}

impl KsSubtype {
    /// Sort a decoded sub-format GUID into its family.
    pub fn resolve(guid: &Guid) -> (s: Self)
        ensures
            s == subtype_of(*guid),
    {
        let tail_matches = template_tail(guid);
        if tail_matches && guid.data2 == 0 {
            KsSubtype::WaveFormatEx { tag: guid.data1 as u16 }
        } else if tail_matches && guid.data2 == IEC61937_DATA2 {
            KsSubtype::Iec61937 { cea861_type: guid.data1 as u16 }
        } else {
            KsSubtype::Other(*guid)
        }
    }

    /// The published `KSDATAFORMAT_SUBTYPE_*` name, where catalogued.
    pub fn symbolic_name(&self) -> (r: Option<&'static str>)
        ensures
            r is None <==> subtype_entry(*self) is None,
            r matches Some(n) ==> subtype_entry(*self).unwrap().0 == n@,
    {
        let e = match self {
            KsSubtype::WaveFormatEx { tag } => waveformatex_name(*tag),
            KsSubtype::Iec61937 { cea861_type } => iec61937_name(*cea861_type),
            KsSubtype::Other(_) => None,
        };
        match e {
            Some((name, _)) => Some(name),
            None => None,
        }
    }

    /// A short description of the codec, where catalogued.
    pub fn description(&self) -> (r: Option<&'static str>)
        ensures
            r is None <==> subtype_entry(*self) is None,
            r matches Some(d) ==> subtype_entry(*self).unwrap().1 == d@,
    {
        let e = match self {
            KsSubtype::WaveFormatEx { tag } => waveformatex_name(*tag),
            KsSubtype::Iec61937 { cea861_type } => iec61937_name(*cea861_type),
            KsSubtype::Other(_) => None,
        };
        match e {
            Some((_, desc)) => Some(desc),
            None => None,
        }
    }
}

/// The catalogued name and description of a `WAVEFORMATEX`-derived tag.
pub open spec fn waveformatex_entry(tag: u16) -> Option<(Seq<char>, Seq<char>)> {
    match tag {
        0x0000u16 => Some(("KSDATAFORMAT_SUBTYPE_WAVEFORMATEX"@, "Generic base template"@)),
        0x0001u16 => Some(("KSDATAFORMAT_SUBTYPE_PCM"@, "Linear PCM"@)),
        0x0002u16 => Some(("KSDATAFORMAT_SUBTYPE_ADPCM"@, "Microsoft ADPCM"@)),
        0x0003u16 => Some(("KSDATAFORMAT_SUBTYPE_IEEE_FLOAT"@, "IEEE 32-/64-bit float PCM"@)),
        0x0006u16 => Some(("KSDATAFORMAT_SUBTYPE_ALAW"@, "A-law companded"@)),
        0x0007u16 => Some(("KSDATAFORMAT_SUBTYPE_MULAW"@, "Mu-law companded"@)),
        0x0008u16 => Some(("KSDATAFORMAT_SUBTYPE_DTS"@, "DTS (in WAVEFORMATEX framing)"@)),
        0x0009u16 => Some(("KSDATAFORMAT_SUBTYPE_DRM"@, "DRM-protected audio"@)),
        0x0050u16 => Some(("KSDATAFORMAT_SUBTYPE_MPEG"@, "MPEG-1 audio (Layer 1/2)"@)),
        0x0092u16 => Some(("KSDATAFORMAT_SUBTYPE_DOLBY_AC3_SPDIF"@, "Dolby AC-3 over S/PDIF"@)),
        _ => None,
    }
}

/// The catalogued name and description of an IEC 61937 stream type.
pub open spec fn iec61937_entry(cea861_type: u16) -> Option<(Seq<char>, Seq<char>)> {
    match cea861_type {
        0x03u16 => Some(("KSDATAFORMAT_SUBTYPE_IEC61937_MPEG1"@, "MPEG-1 (Layer 1 & 2)"@)),
        0x04u16 => Some(("KSDATAFORMAT_SUBTYPE_IEC61937_MPEG2"@, "MPEG-2 (multichannel)"@)),
        0x05u16 => Some(("KSDATAFORMAT_SUBTYPE_IEC61937_MPEG3"@, "MPEG (Layer 3)"@)),
        0x06u16 => Some(("KSDATAFORMAT_SUBTYPE_IEC61937_AAC"@, "MPEG-2/4 AAC in ADTS"@)),
        0x08u16 => Some(("KSDATAFORMAT_SUBTYPE_IEC61937_ATRAC"@, "Sony ATRAC"@)),
        0x09u16 => Some(("KSDATAFORMAT_SUBTYPE_IEC61937_ONE_BIT_AUDIO"@, "One-bit audio"@)),
        0x0au16 => Some(
            ("KSDATAFORMAT_SUBTYPE_IEC61937_DOLBY_DIGITAL_PLUS"@, "Dolby Digital Plus (E-AC-3)"@),
        ),
        0x0bu16 => Some(("KSDATAFORMAT_SUBTYPE_IEC61937_DTS_HD"@, "DTS-HD (24-bit / 96 kHz)"@)),
        0x0cu16 => Some(("KSDATAFORMAT_SUBTYPE_IEC61937_DOLBY_MLP"@, "MAT (MLP) — Dolby TrueHD"@)),
        0x0du16 => Some(("KSDATAFORMAT_SUBTYPE_IEC61937_DST"@, "Direct Stream Transport"@)),
        _ => None,
    }
}

/// The catalogued symbolic name and description of a
/// `WAVEFORMATEX`-derived tag.
pub fn waveformatex_name(tag: u16) -> (r: Option<(&'static str, &'static str)>)
    ensures
        r is None <==> waveformatex_entry(tag) is None,
        r matches Some(p) ==> waveformatex_entry(tag) == Some((p.0@, p.1@)),
{
    match tag {
        0x0000 => Some(("KSDATAFORMAT_SUBTYPE_WAVEFORMATEX", "Generic base template")),
        0x0001 => Some(("KSDATAFORMAT_SUBTYPE_PCM", "Linear PCM")),
        0x0002 => Some(("KSDATAFORMAT_SUBTYPE_ADPCM", "Microsoft ADPCM")),
        0x0003 => Some(("KSDATAFORMAT_SUBTYPE_IEEE_FLOAT", "IEEE 32-/64-bit float PCM")),
        0x0006 => Some(("KSDATAFORMAT_SUBTYPE_ALAW", "A-law companded")),
        0x0007 => Some(("KSDATAFORMAT_SUBTYPE_MULAW", "Mu-law companded")),
        0x0008 => Some(("KSDATAFORMAT_SUBTYPE_DTS", "DTS (in WAVEFORMATEX framing)")),
        0x0009 => Some(("KSDATAFORMAT_SUBTYPE_DRM", "DRM-protected audio")),
        0x0050 => Some(("KSDATAFORMAT_SUBTYPE_MPEG", "MPEG-1 audio (Layer 1/2)")),
        0x0092 => Some(("KSDATAFORMAT_SUBTYPE_DOLBY_AC3_SPDIF", "Dolby AC-3 over S/PDIF")),
        _ => None,
    }
}

/// The catalogued symbolic name and description of an IEC 61937
/// passthrough sub-format, by CEA-861 stream-type index.
pub fn iec61937_name(cea861_type: u16) -> (r: Option<(&'static str, &'static str)>)
    ensures
        r is None <==> iec61937_entry(cea861_type) is None,
        r matches Some(p) ==> iec61937_entry(cea861_type) == Some((p.0@, p.1@)),
{
    match cea861_type {
        0x03 => Some(("KSDATAFORMAT_SUBTYPE_IEC61937_MPEG1", "MPEG-1 (Layer 1 & 2)")),
        0x04 => Some(("KSDATAFORMAT_SUBTYPE_IEC61937_MPEG2", "MPEG-2 (multichannel)")),
        0x05 => Some(("KSDATAFORMAT_SUBTYPE_IEC61937_MPEG3", "MPEG (Layer 3)")),
        0x06 => Some(("KSDATAFORMAT_SUBTYPE_IEC61937_AAC", "MPEG-2/4 AAC in ADTS")),
        0x08 => Some(("KSDATAFORMAT_SUBTYPE_IEC61937_ATRAC", "Sony ATRAC")),
        0x09 => Some(("KSDATAFORMAT_SUBTYPE_IEC61937_ONE_BIT_AUDIO", "One-bit audio")),
        0x0a => Some(
            ("KSDATAFORMAT_SUBTYPE_IEC61937_DOLBY_DIGITAL_PLUS", "Dolby Digital Plus (E-AC-3)"),
        ),
        0x0b => Some(("KSDATAFORMAT_SUBTYPE_IEC61937_DTS_HD", "DTS-HD (24-bit / 96 kHz)")),
        0x0c => Some(("KSDATAFORMAT_SUBTYPE_IEC61937_DOLBY_MLP", "MAT (MLP) — Dolby TrueHD")),
        0x0d => Some(("KSDATAFORMAT_SUBTYPE_IEC61937_DST", "Direct Stream Transport")),
        _ => None,
    }
}

/// The symbolic name of a catalogue entry.
pub open spec fn entry_name(e: Option<(Seq<char>, Seq<char>)>) -> Seq<char> {
    e.unwrap().0
}

/// The last two characters and the length of a symbolic name.
pub open spec fn name_key(s: Seq<char>) -> (nat, char, char) {
    (s.len(), s[s.len() - 1], s[s.len() - 2])
}

/// The `WAVEFORMATEX` catalogue: exactly the listed legacy tags are
/// catalogued, each under the `KSDATAFORMAT_SUBTYPE_*` symbol that the
/// Windows headers publish for that `WAVE_FORMAT_*` tag (`0x0008` is DTS,
/// `0x0009` DRM, …); every symbol carries the `KSDATAFORMAT_SUBTYPE_`
/// prefix, and no two tags share a symbol.
#[verifier::rlimit(100)]
#[verifier::spinoff_prover]
pub proof fn lemma_waveformatex_catalogue(tag: u16, other: u16)
    ensures
        waveformatex_entry(tag) is Some <==> (
            tag == 0x0000u16 || tag == 0x0001u16 || tag == 0x0002u16 || tag == 0x0003u16
            || tag == 0x0006u16 || tag == 0x0007u16 || tag == 0x0008u16 || tag == 0x0009u16
            || tag == 0x0050u16 || tag == 0x0092u16
        ),
        waveformatex_entry(tag) matches Some(e) ==> e.0.len() > 21 && e.0.subrange(0, 21)
            == "KSDATAFORMAT_SUBTYPE_"@,
        (waveformatex_entry(tag) is Some && waveformatex_entry(other) is Some
            && entry_name(waveformatex_entry(tag)) == entry_name(waveformatex_entry(other)))
            ==> tag == other,
        entry_name(waveformatex_entry(0x0000u16)) == "KSDATAFORMAT_SUBTYPE_WAVEFORMATEX"@,
        entry_name(waveformatex_entry(WAVE_FORMAT_PCM)) == "KSDATAFORMAT_SUBTYPE_PCM"@,
        entry_name(waveformatex_entry(WAVE_FORMAT_ADPCM)) == "KSDATAFORMAT_SUBTYPE_ADPCM"@,
        entry_name(waveformatex_entry(WAVE_FORMAT_IEEE_FLOAT))
            == "KSDATAFORMAT_SUBTYPE_IEEE_FLOAT"@,
        entry_name(waveformatex_entry(WAVE_FORMAT_ALAW)) == "KSDATAFORMAT_SUBTYPE_ALAW"@,
        entry_name(waveformatex_entry(WAVE_FORMAT_MULAW)) == "KSDATAFORMAT_SUBTYPE_MULAW"@,
        entry_name(waveformatex_entry(0x0008u16)) == "KSDATAFORMAT_SUBTYPE_DTS"@,
        entry_name(waveformatex_entry(0x0009u16)) == "KSDATAFORMAT_SUBTYPE_DRM"@,
        entry_name(waveformatex_entry(0x0050u16)) == "KSDATAFORMAT_SUBTYPE_MPEG"@,
        entry_name(waveformatex_entry(0x0092u16)) == "KSDATAFORMAT_SUBTYPE_DOLBY_AC3_SPDIF"@,
{
    reveal_strlit("KSDATAFORMAT_SUBTYPE_");
    reveal_strlit("KSDATAFORMAT_SUBTYPE_WAVEFORMATEX");
    reveal_strlit("KSDATAFORMAT_SUBTYPE_PCM");
    reveal_strlit("KSDATAFORMAT_SUBTYPE_ADPCM");
    reveal_strlit("KSDATAFORMAT_SUBTYPE_IEEE_FLOAT");
    reveal_strlit("KSDATAFORMAT_SUBTYPE_ALAW");
    reveal_strlit("KSDATAFORMAT_SUBTYPE_MULAW");
    reveal_strlit("KSDATAFORMAT_SUBTYPE_DTS");
    reveal_strlit("KSDATAFORMAT_SUBTYPE_DRM");
    reveal_strlit("KSDATAFORMAT_SUBTYPE_MPEG");
    reveal_strlit("KSDATAFORMAT_SUBTYPE_DOLBY_AC3_SPDIF");
    assert(name_key("KSDATAFORMAT_SUBTYPE_WAVEFORMATEX"@) == (33nat, 'X', 'E'));
    assert(name_key("KSDATAFORMAT_SUBTYPE_PCM"@) == (24nat, 'M', 'C'));
    assert(name_key("KSDATAFORMAT_SUBTYPE_ADPCM"@) == (26nat, 'M', 'C'));
    assert(name_key("KSDATAFORMAT_SUBTYPE_IEEE_FLOAT"@) == (31nat, 'T', 'A'));
    assert(name_key("KSDATAFORMAT_SUBTYPE_ALAW"@) == (25nat, 'W', 'A'));
    assert(name_key("KSDATAFORMAT_SUBTYPE_MULAW"@) == (26nat, 'W', 'A'));
    assert(name_key("KSDATAFORMAT_SUBTYPE_DTS"@) == (24nat, 'S', 'T'));
    assert(name_key("KSDATAFORMAT_SUBTYPE_DRM"@) == (24nat, 'M', 'R'));
    assert(name_key("KSDATAFORMAT_SUBTYPE_MPEG"@) == (25nat, 'G', 'E'));
    assert(name_key("KSDATAFORMAT_SUBTYPE_DOLBY_AC3_SPDIF"@) == (36nat, 'F', 'I'));
    assert("KSDATAFORMAT_SUBTYPE_WAVEFORMATEX"@.subrange(0, 21) =~= "KSDATAFORMAT_SUBTYPE_"@);
    assert("KSDATAFORMAT_SUBTYPE_PCM"@.subrange(0, 21) =~= "KSDATAFORMAT_SUBTYPE_"@);
    assert("KSDATAFORMAT_SUBTYPE_ADPCM"@.subrange(0, 21) =~= "KSDATAFORMAT_SUBTYPE_"@);
    assert("KSDATAFORMAT_SUBTYPE_IEEE_FLOAT"@.subrange(0, 21) =~= "KSDATAFORMAT_SUBTYPE_"@);
    assert("KSDATAFORMAT_SUBTYPE_ALAW"@.subrange(0, 21) =~= "KSDATAFORMAT_SUBTYPE_"@);
    assert("KSDATAFORMAT_SUBTYPE_MULAW"@.subrange(0, 21) =~= "KSDATAFORMAT_SUBTYPE_"@);
    assert("KSDATAFORMAT_SUBTYPE_DTS"@.subrange(0, 21) =~= "KSDATAFORMAT_SUBTYPE_"@);
    assert("KSDATAFORMAT_SUBTYPE_DRM"@.subrange(0, 21) =~= "KSDATAFORMAT_SUBTYPE_"@);
    assert("KSDATAFORMAT_SUBTYPE_MPEG"@.subrange(0, 21) =~= "KSDATAFORMAT_SUBTYPE_"@);
    assert("KSDATAFORMAT_SUBTYPE_DOLBY_AC3_SPDIF"@.subrange(0, 21) =~= "KSDATAFORMAT_SUBTYPE_"@);
}

/// The IEC 61937 catalogue: exactly the listed CEA-861 stream types are
/// catalogued, each under its published
/// `KSDATAFORMAT_SUBTYPE_IEC61937_*` symbol; every symbol carries the
/// `KSDATAFORMAT_SUBTYPE_` prefix, and no two stream types share a
/// symbol.
#[verifier::rlimit(100)]
#[verifier::spinoff_prover]
pub proof fn lemma_iec61937_catalogue(cea861_type: u16, other: u16)
    ensures
        iec61937_entry(cea861_type) is Some <==> (
            cea861_type == 0x0003u16 || cea861_type == 0x0004u16 || cea861_type == 0x0005u16
            || cea861_type == 0x0006u16 || cea861_type == 0x0008u16 || cea861_type == 0x0009u16
            || cea861_type == 0x000au16 || cea861_type == 0x000bu16 || cea861_type == 0x000cu16
            || cea861_type == 0x000du16
        ),
        iec61937_entry(cea861_type) matches Some(e) ==> e.0.len() > 21 && e.0.subrange(0, 21)
            == "KSDATAFORMAT_SUBTYPE_"@,
        (iec61937_entry(cea861_type) is Some && iec61937_entry(other) is Some
            && entry_name(iec61937_entry(cea861_type)) == entry_name(iec61937_entry(other)))
            ==> cea861_type == other,
        entry_name(iec61937_entry(0x0003u16)) == "KSDATAFORMAT_SUBTYPE_IEC61937_MPEG1"@,
        entry_name(iec61937_entry(0x0004u16)) == "KSDATAFORMAT_SUBTYPE_IEC61937_MPEG2"@,
        entry_name(iec61937_entry(0x0005u16)) == "KSDATAFORMAT_SUBTYPE_IEC61937_MPEG3"@,
        entry_name(iec61937_entry(0x0006u16)) == "KSDATAFORMAT_SUBTYPE_IEC61937_AAC"@,
        entry_name(iec61937_entry(0x0008u16)) == "KSDATAFORMAT_SUBTYPE_IEC61937_ATRAC"@,
        entry_name(iec61937_entry(0x0009u16)) == "KSDATAFORMAT_SUBTYPE_IEC61937_ONE_BIT_AUDIO"@,
        entry_name(iec61937_entry(0x000au16))
            == "KSDATAFORMAT_SUBTYPE_IEC61937_DOLBY_DIGITAL_PLUS"@,
        entry_name(iec61937_entry(0x000bu16)) == "KSDATAFORMAT_SUBTYPE_IEC61937_DTS_HD"@,
        entry_name(iec61937_entry(0x000cu16)) == "KSDATAFORMAT_SUBTYPE_IEC61937_DOLBY_MLP"@,
        entry_name(iec61937_entry(0x000du16)) == "KSDATAFORMAT_SUBTYPE_IEC61937_DST"@,
{
    reveal_strlit("KSDATAFORMAT_SUBTYPE_");
    reveal_strlit("KSDATAFORMAT_SUBTYPE_IEC61937_MPEG1");
    reveal_strlit("KSDATAFORMAT_SUBTYPE_IEC61937_MPEG2");
    reveal_strlit("KSDATAFORMAT_SUBTYPE_IEC61937_MPEG3");
    reveal_strlit("KSDATAFORMAT_SUBTYPE_IEC61937_AAC");
    reveal_strlit("KSDATAFORMAT_SUBTYPE_IEC61937_ATRAC");
    reveal_strlit("KSDATAFORMAT_SUBTYPE_IEC61937_ONE_BIT_AUDIO");
    reveal_strlit("KSDATAFORMAT_SUBTYPE_IEC61937_DOLBY_DIGITAL_PLUS");
    reveal_strlit("KSDATAFORMAT_SUBTYPE_IEC61937_DTS_HD");
    reveal_strlit("KSDATAFORMAT_SUBTYPE_IEC61937_DOLBY_MLP");
    reveal_strlit("KSDATAFORMAT_SUBTYPE_IEC61937_DST");
    assert(name_key("KSDATAFORMAT_SUBTYPE_IEC61937_MPEG1"@) == (35nat, '1', 'G'));
    assert(name_key("KSDATAFORMAT_SUBTYPE_IEC61937_MPEG2"@) == (35nat, '2', 'G'));
    assert(name_key("KSDATAFORMAT_SUBTYPE_IEC61937_MPEG3"@) == (35nat, '3', 'G'));
    assert(name_key("KSDATAFORMAT_SUBTYPE_IEC61937_AAC"@) == (33nat, 'C', 'A'));
    assert(name_key("KSDATAFORMAT_SUBTYPE_IEC61937_ATRAC"@) == (35nat, 'C', 'A'));
    assert(name_key("KSDATAFORMAT_SUBTYPE_IEC61937_ONE_BIT_AUDIO"@) == (43nat, 'O', 'I'));
    assert(name_key("KSDATAFORMAT_SUBTYPE_IEC61937_DOLBY_DIGITAL_PLUS"@) == (48nat, 'S', 'U'));
    assert(name_key("KSDATAFORMAT_SUBTYPE_IEC61937_DTS_HD"@) == (36nat, 'D', 'H'));
    assert(name_key("KSDATAFORMAT_SUBTYPE_IEC61937_DOLBY_MLP"@) == (39nat, 'P', 'L'));
    assert(name_key("KSDATAFORMAT_SUBTYPE_IEC61937_DST"@) == (33nat, 'T', 'S'));
    assert("KSDATAFORMAT_SUBTYPE_IEC61937_MPEG1"@.subrange(0, 21) =~= "KSDATAFORMAT_SUBTYPE_"@);
    assert("KSDATAFORMAT_SUBTYPE_IEC61937_MPEG2"@.subrange(0, 21) =~= "KSDATAFORMAT_SUBTYPE_"@);
    assert("KSDATAFORMAT_SUBTYPE_IEC61937_MPEG3"@.subrange(0, 21) =~= "KSDATAFORMAT_SUBTYPE_"@);
    assert("KSDATAFORMAT_SUBTYPE_IEC61937_AAC"@.subrange(0, 21) =~= "KSDATAFORMAT_SUBTYPE_"@);
    assert("KSDATAFORMAT_SUBTYPE_IEC61937_ATRAC"@.subrange(0, 21) =~= "KSDATAFORMAT_SUBTYPE_"@);
    assert("KSDATAFORMAT_SUBTYPE_IEC61937_ONE_BIT_AUDIO"@.subrange(0, 21)
        =~= "KSDATAFORMAT_SUBTYPE_"@);
    assert("KSDATAFORMAT_SUBTYPE_IEC61937_DOLBY_DIGITAL_PLUS"@.subrange(0, 21)
        =~= "KSDATAFORMAT_SUBTYPE_"@);
    assert("KSDATAFORMAT_SUBTYPE_IEC61937_DTS_HD"@.subrange(0, 21) =~= "KSDATAFORMAT_SUBTYPE_"@);
    assert("KSDATAFORMAT_SUBTYPE_IEC61937_DOLBY_MLP"@.subrange(0, 21) =~= "KSDATAFORMAT_SUBTYPE_"@);
    assert("KSDATAFORMAT_SUBTYPE_IEC61937_DST"@.subrange(0, 21) =~= "KSDATAFORMAT_SUBTYPE_"@);
}

/// A template GUID sorts back into the family it was built for: the
/// `WAVEFORMATEX` family gives back the tag, the IEC 61937 family the
/// stream-type index.
pub proof fn lemma_template_guids_resolve(g: Guid, h: Guid, tag: u16, index: u16)
    requires
        template_guid(g, tag as u32, 0),
        template_guid(h, index as u32, IEC61937_DATA2),
    ensures
        subtype_of(g) == (KsSubtype::WaveFormatEx { tag }),
        subtype_of(h) == (KsSubtype::Iec61937 { cea861_type: index }),
{
}

} // verus!
