use vstd::prelude::*;

pub mod acid;
pub mod adtl;
pub mod bext;
pub mod bundle;
pub mod channels;
pub mod chna;
pub mod chunk;
pub mod cset;
pub mod ctoc;
pub mod cue;
pub mod ds64;
pub mod error;
pub mod fact;
pub mod fourcc;
pub mod id3;
pub mod info;
pub mod inst;
pub mod le;
pub mod padding;
pub mod plst;
pub mod records;
pub mod smpl;
pub mod subtype;
pub mod search;
pub mod sxml;
pub mod text;
pub mod tree;
pub mod walk;
pub mod wave;
pub mod waveformat;
pub mod wavl;


pub use acid::{
    Acid, ACID_LEN, FLAG_DISK_BASED, FLAG_HIGH_OCTAVE, FLAG_ONE_SHOT, FLAG_ROOT_NOTE_SET,
    FLAG_STRETCH, FOURCC_ACID,
};
pub use adtl::{
    AdtlEntry, AdtlList, EmbeddedFile, LabeledText, FILE_PREFIX_LEN, FOURCC_ADTL, FOURCC_FILE,
    FOURCC_LABL, FOURCC_LTXT, FOURCC_NOTE, LTXT_PREFIX_LEN,
};
pub use bext::{
    BroadcastExtension, Loudness, BEXT_PREFIX_LEN, DESCRIPTION_LEN, ORIGINATION_DATE_LEN,
    ORIGINATION_TIME_LEN, ORIGINATOR_LEN, ORIGINATOR_REFERENCE_LEN, RESERVED_LEN, UMID_LEN,
};
pub use channels::{
    ChannelMask, SpeakerPosition, StandardLayout, SPEAKER_ALL, SPEAKER_RESERVED_MASK,
    SPEAKER_STANDARD_MASK,
};
pub use chna::{
    AudioId, ChannelAllocation, AUDIO_ID_LEN, CHNA_PREFIX_LEN, FOURCC_CHNA, PACK_REF_LEN,
    TRACK_REF_LEN, UID_LEN,
};
pub use chunk::{
    encode_chunk, read_chunk_header, read_form_type, skip_chunk, skip_pad, write_chunk_header,
    ChunkHeader, FOURCC_LIST, FOURCC_RIFF,
};
pub use cset::{
    country_name, country_name_defaulted, language_name, language_name_defaulted, CharacterSet,
    CSET_LEN, DEFAULT_COUNTRY, DEFAULT_DIALECT, DEFAULT_LANGUAGE, FOURCC_CSET,
};
pub use cue::{CueChunk, CuePoint, CUE_POINT_LEN, FOURCC_CUE};
pub use ds64::{
    is_rf64_magic, is_sentinel, ChunkSize64, DataSize64, CHUNK_SIZE64_LEN, DS64_PREFIX_LEN,
    FOURCC_BW64, FOURCC_DS64, FOURCC_RF64, SIZE_SENTINEL,
};
pub use error::{Error, Result};
pub use fact::{Fact, FACT_MIN_LEN, FOURCC_FACT};
pub use fourcc::{fourcc_bytes, fourcc_to_string, is_printable_fourcc};
pub use id3::{
    build_id3v2_header, is_id3_fourcc, parse_id3v2_header, Id3Chunk, Id3v2Header, FOURCC_ID3,
    FOURCC_ID3_UPPER, ID3V2_HEADER_LEN, ID3V2_MAGIC, ID3_FLAG_EXPERIMENTAL,
    ID3_FLAG_EXTENDED_HEADER, ID3_FLAG_FOOTER, ID3_FLAG_UNSYNCHRONISATION,
};
pub use info::{zstr_bytes, zstr_value, InfoList, InfoTag};
pub use inst::{Inst, FOURCC_INST, INST_LEN};
pub use padding::{is_padding_fourcc, Junk, DS64_RESERVATION_LEN, FOURCC_JUNK, FOURCC_PAD};
pub use plst::{PlaySegment, Playlist, FOURCC_PLST, PLAY_SEGMENT_LEN};
pub use smpl::{
    SampleLoop, Smpl, FOURCC_SMPL, SAMPLE_LOOP_LEN, SMPL_HEADER_LEN, SMPTE_FORMAT_NONE,
};
pub use subtype::{
    iec61937_guid, iec61937_name, waveformatex_guid, waveformatex_name, KsSubtype, IEC61937_DATA2,
};
pub use sxml::{
    AlignmentPoint, AxmlChunk, BxmlChunk, SubXmlChunk, SxmlChunk, ALIGNMENT_POINT_LEN,
    FMT_TYPE_GZIP, FMT_TYPE_UNCOMPRESSED, FOURCC_AXML, FOURCC_BXML, FOURCC_SXML,
    SUB_XML_HEADER_LEN,
};
pub use walk::{ChunkRef, Walker};
pub use waveformat::{
    ExtensibleFields, Guid, WaveFormat, KSDATAFORMAT_SUBTYPE_WAVEFORMATEX_BASE, WAVE_FORMAT_ADPCM,
    WAVE_FORMAT_ALAW, WAVE_FORMAT_EXTENSIBLE, WAVE_FORMAT_IEEE_FLOAT, WAVE_FORMAT_MULAW,
    WAVE_FORMAT_PCM,
};
pub use wavl::{
    Silence, WaveDataList, WaveSegment, FOURCC_DATA, FOURCC_SLNT, FOURCC_WAVL, SLNT_LEN,
};
pub use bundle::{Bundle, FORM_BND};
pub use ctoc::{CtocChunk, CtocEntry};
pub use tree::{ByteOrder, RiffChunk, RiffTree, MAX_DEPTH};
pub use wave::{WaveFile, FORM_WAVE};

verus! {
} // verus!
