//! The `LIST INFO` metadata list.
//!
//! An `INFO` list is a `LIST` chunk whose list type is `INFO`; each
//! child chunk's FourCC names a field (`INAM`, `IART`, `ICOP`, …) and
//! its body is a ZSTR: text terminated by a `0x00` byte. [`InfoTag`]
//! names the 23 baseline tags registered with RIFF in 1991 and 38
//! extended tags seen in production files; [`InfoList`] keeps the
//! `(tag, value)` pairs in wire order, duplicates and unknown codes
//! included.
use vstd::prelude::*;

use crate::chunk::{chunk_bytes, encode_chunk, fourcc_eq, list_id, FOURCC_LIST};
use crate::error::{Error, Result};
use crate::le::{copy_range, push_slice};
use crate::records::{concat, lemma_concat_push, lemma_sub};
use crate::text::{before_nul, lemma_first_nul, lemma_zstr_text_roundtrip, lossy_text, nul_position, zstr_text};
use crate::walk::{chunks_bytes, lemma_walk_encoded, read_children, walk_items, walker_items, Walker};
use vstd::utf8::encode_utf8;

verus! {

/// A four-character `INFO` sub-ID.
#[derive(Clone, Copy, Debug, PartialEq, Eq, Hash)]
pub struct InfoTag(pub [u8; 4]);

impl InfoTag {
    /// Archival Location. Indicates where the subject of the file is
    /// archived.
    #[allow(non_snake_case)]
    pub fn IARL() -> (r: InfoTag)
        ensures
            r == InfoTag([0x49, 0x41, 0x52, 0x4C]),
    {
        InfoTag([0x49, 0x41, 0x52, 0x4C])
    }

    /// Artist. Lists the artist of the original subject of the file.
    #[allow(non_snake_case)]
    pub fn IART() -> (r: InfoTag)
        ensures
            r == InfoTag([0x49, 0x41, 0x52, 0x54]),
    {
        InfoTag([0x49, 0x41, 0x52, 0x54])
    }

    /// Commissioned. Lists the name of the person or organization that
    /// commissioned the subject of the file.
    #[allow(non_snake_case)]
    pub fn ICMS() -> (r: InfoTag)
        ensures
            r == InfoTag([0x49, 0x43, 0x4D, 0x53]),
    {
        InfoTag([0x49, 0x43, 0x4D, 0x53])
    }

    /// Comments. Provides general comments about the file or its
    /// subject.
    #[allow(non_snake_case)]
    pub fn ICMT() -> (r: InfoTag)
        ensures
            r == InfoTag([0x49, 0x43, 0x4D, 0x54]),
    {
        InfoTag([0x49, 0x43, 0x4D, 0x54])
    }

    /// Copyright. Records the copyright information for the file.
    #[allow(non_snake_case)]
    pub fn ICOP() -> (r: InfoTag)
        ensures
            r == InfoTag([0x49, 0x43, 0x4F, 0x50]),
    {
        InfoTag([0x49, 0x43, 0x4F, 0x50])
    }

    /// Creation date. The date the subject of the file was created, in
    /// year-month-day form (e.g. `1553-05-03`).
    #[allow(non_snake_case)]
    pub fn ICRD() -> (r: InfoTag)
        ensures
            r == InfoTag([0x49, 0x43, 0x52, 0x44]),
    {
        InfoTag([0x49, 0x43, 0x52, 0x44])
    }

    /// Cropped. Describes whether (and how) an image has been cropped.
    #[allow(non_snake_case)]
    pub fn ICRP() -> (r: InfoTag)
        ensures
            r == InfoTag([0x49, 0x43, 0x52, 0x50]),
    {
        InfoTag([0x49, 0x43, 0x52, 0x50])
    }

    /// Dimensions. The size of the original subject of the file.
    #[allow(non_snake_case)]
    pub fn IDIM() -> (r: InfoTag)
        ensures
            r == InfoTag([0x49, 0x44, 0x49, 0x4D]),
    {
        InfoTag([0x49, 0x44, 0x49, 0x4D])
    }

    /// Dots Per Inch. The DPI setting of the digitizer used to produce
    /// the file.
    #[allow(non_snake_case)]
    pub fn IDPI() -> (r: InfoTag)
        ensures
            r == InfoTag([0x49, 0x44, 0x50, 0x49]),
    {
        InfoTag([0x49, 0x44, 0x50, 0x49])
    }

    /// Engineer. The name of the engineer who worked on the file.
    #[allow(non_snake_case)]
    pub fn IENG() -> (r: InfoTag)
        ensures
            r == InfoTag([0x49, 0x45, 0x4E, 0x47]),
    {
        InfoTag([0x49, 0x45, 0x4E, 0x47])
    }

    /// Genre. Describes the original work (e.g. `landscape`,
    /// `portrait`).
    #[allow(non_snake_case)]
    pub fn IGNR() -> (r: InfoTag)
        ensures
            r == InfoTag([0x49, 0x47, 0x4E, 0x52]),
    {
        InfoTag([0x49, 0x47, 0x4E, 0x52])
    }

    /// Keywords. A list of keywords referring to the file or subject.
    #[allow(non_snake_case)]
    pub fn IKEY() -> (r: InfoTag)
        ensures
            r == InfoTag([0x49, 0x4B, 0x45, 0x59]),
    {
        InfoTag([0x49, 0x4B, 0x45, 0x59])
    }

    /// Lightness. The lightness-setting changes on the digitizer
    /// required to produce the file.
    #[allow(non_snake_case)]
    pub fn ILGT() -> (r: InfoTag)
        ensures
            r == InfoTag([0x49, 0x4C, 0x47, 0x54]),
    {
        InfoTag([0x49, 0x4C, 0x47, 0x54])
    }

    /// Medium. Describes the original subject of the file (e.g.
    /// `computer image`, `drawing`).
    #[allow(non_snake_case)]
    pub fn IMED() -> (r: InfoTag)
        ensures
            r == InfoTag([0x49, 0x4D, 0x45, 0x44]),
    {
        InfoTag([0x49, 0x4D, 0x45, 0x44])
    }

    /// Name. The title of the subject of the file.
    #[allow(non_snake_case)]
    pub fn INAM() -> (r: InfoTag)
        ensures
            r == InfoTag([0x49, 0x4E, 0x41, 0x4D]),
    {
        InfoTag([0x49, 0x4E, 0x41, 0x4D])
    }

    /// Palette Setting. The number of colors requested when digitizing
    /// an image.
    #[allow(non_snake_case)]
    pub fn IPLT() -> (r: InfoTag)
        ensures
            r == InfoTag([0x49, 0x50, 0x4C, 0x54]),
    {
        InfoTag([0x49, 0x50, 0x4C, 0x54])
    }

    /// Product. The name of the title the file was originally intended
    /// for.
    #[allow(non_snake_case)]
    pub fn IPRD() -> (r: InfoTag)
        ensures
            r == InfoTag([0x49, 0x50, 0x52, 0x44]),
    {
        InfoTag([0x49, 0x50, 0x52, 0x44])
    }

    /// Subject. Describes the contents of the file.
    #[allow(non_snake_case)]
    pub fn ISBJ() -> (r: InfoTag)
        ensures
            r == InfoTag([0x49, 0x53, 0x42, 0x4A]),
    {
        InfoTag([0x49, 0x53, 0x42, 0x4A])
    }

    /// Software. The name of the software package used to create the
    /// file.
    #[allow(non_snake_case)]
    pub fn ISFT() -> (r: InfoTag)
        ensures
            r == InfoTag([0x49, 0x53, 0x46, 0x54]),
    {
        InfoTag([0x49, 0x53, 0x46, 0x54])
    }

    /// Sharpness. The sharpness-setting changes for the digitizer
    /// required to produce the file.
    #[allow(non_snake_case)]
    pub fn ISHP() -> (r: InfoTag)
        ensures
            r == InfoTag([0x49, 0x53, 0x48, 0x50]),
    {
        InfoTag([0x49, 0x53, 0x48, 0x50])
    }

    /// Source. The name of the person or organization who supplied the
    /// original subject of the file.
    #[allow(non_snake_case)]
    pub fn ISRC() -> (r: InfoTag)
        ensures
            r == InfoTag([0x49, 0x53, 0x52, 0x43]),
    {
        InfoTag([0x49, 0x53, 0x52, 0x43])
    }

    /// Source Form. The original form of the digitized material (e.g.
    /// `slide`, `paper`, `map`).
    #[allow(non_snake_case)]
    pub fn ISRF() -> (r: InfoTag)
        ensures
            r == InfoTag([0x49, 0x53, 0x52, 0x46]),
    {
        InfoTag([0x49, 0x53, 0x52, 0x46])
    }

    /// Technician. The technician who digitized the subject file.
    #[allow(non_snake_case)]
    pub fn ITCH() -> (r: InfoTag)
        ensures
            r == InfoTag([0x49, 0x54, 0x43, 0x48]),
    {
        InfoTag([0x49, 0x54, 0x43, 0x48])
    }

    /// First Language. The primary audio-stream language (`IAS1`–`IAS9`
    /// enumerate up to nine parallel-stream languages).
    #[allow(non_snake_case)]
    pub fn IAS1() -> (r: InfoTag)
        ensures
            r == InfoTag([0x49, 0x41, 0x53, 0x31]),
    {
        InfoTag([0x49, 0x41, 0x53, 0x31])
    }

    /// Second Language. See [`InfoTag::IAS1`].
    #[allow(non_snake_case)]
    pub fn IAS2() -> (r: InfoTag)
        ensures
            r == InfoTag([0x49, 0x41, 0x53, 0x32]),
    {
        InfoTag([0x49, 0x41, 0x53, 0x32])
    }

    /// Third Language. See [`InfoTag::IAS1`].
    #[allow(non_snake_case)]
    pub fn IAS3() -> (r: InfoTag)
        ensures
            r == InfoTag([0x49, 0x41, 0x53, 0x33]),
    {
        InfoTag([0x49, 0x41, 0x53, 0x33])
    }

    /// Fourth Language. See [`InfoTag::IAS1`].
    #[allow(non_snake_case)]
    pub fn IAS4() -> (r: InfoTag)
        ensures
            r == InfoTag([0x49, 0x41, 0x53, 0x34]),
    {
        InfoTag([0x49, 0x41, 0x53, 0x34])
    }

    /// Fifth Language. See [`InfoTag::IAS1`].
    #[allow(non_snake_case)]
    pub fn IAS5() -> (r: InfoTag)
        ensures
            r == InfoTag([0x49, 0x41, 0x53, 0x35]),
    {
        InfoTag([0x49, 0x41, 0x53, 0x35])
    }

    /// Sixth Language. See [`InfoTag::IAS1`].
    #[allow(non_snake_case)]
    pub fn IAS6() -> (r: InfoTag)
        ensures
            r == InfoTag([0x49, 0x41, 0x53, 0x36]),
    {
        InfoTag([0x49, 0x41, 0x53, 0x36])
    }

    /// Seventh Language. See [`InfoTag::IAS1`].
    #[allow(non_snake_case)]
    pub fn IAS7() -> (r: InfoTag)
        ensures
            r == InfoTag([0x49, 0x41, 0x53, 0x37]),
    {
        InfoTag([0x49, 0x41, 0x53, 0x37])
    }

    /// Eighth Language. See [`InfoTag::IAS1`].
    #[allow(non_snake_case)]
    pub fn IAS8() -> (r: InfoTag)
        ensures
            r == InfoTag([0x49, 0x41, 0x53, 0x38]),
    {
        InfoTag([0x49, 0x41, 0x53, 0x38])
    }

    /// Ninth Language. See [`InfoTag::IAS1`].
    #[allow(non_snake_case)]
    pub fn IAS9() -> (r: InfoTag)
        ensures
            r == InfoTag([0x49, 0x41, 0x53, 0x39]),
    {
        InfoTag([0x49, 0x41, 0x53, 0x39])
    }

    /// Base URL. The base address for the file's More-Info links.
    #[allow(non_snake_case)]
    pub fn IBSU() -> (r: InfoTag)
        ensures
            r == InfoTag([0x49, 0x42, 0x53, 0x55]),
    {
        InfoTag([0x49, 0x42, 0x53, 0x55])
    }

    /// Default Audio Stream. Which audio stream plays by default.
    #[allow(non_snake_case)]
    pub fn ICAS() -> (r: InfoTag)
        ensures
            r == InfoTag([0x49, 0x43, 0x41, 0x53]),
    {
        InfoTag([0x49, 0x43, 0x41, 0x53])
    }

    /// ICC Profile. A raw embedded ICC colour profile (binary body, not
    /// a ZSTR).
    #[allow(non_snake_case)]
    pub fn ICCP() -> (r: InfoTag)
        ensures
            r == InfoTag([0x49, 0x43, 0x43, 0x50]),
    {
        InfoTag([0x49, 0x43, 0x43, 0x50])
    }

    /// Costume Designer.
    #[allow(non_snake_case)]
    pub fn ICDS() -> (r: InfoTag)
        ensures
            r == InfoTag([0x49, 0x43, 0x44, 0x53]),
    {
        InfoTag([0x49, 0x43, 0x44, 0x53])
    }

    /// Cinematographer.
    #[allow(non_snake_case)]
    pub fn ICNM() -> (r: InfoTag)
        ensures
            r == InfoTag([0x49, 0x43, 0x4E, 0x4D]),
    {
        InfoTag([0x49, 0x43, 0x4E, 0x4D])
    }

    /// Country. The country of origin.
    #[allow(non_snake_case)]
    pub fn ICNT() -> (r: InfoTag)
        ensures
            r == InfoTag([0x49, 0x43, 0x4E, 0x54]),
    {
        InfoTag([0x49, 0x43, 0x4E, 0x54])
    }

    /// Date/Time Original. The original digitization date-time.
    #[allow(non_snake_case)]
    pub fn IDIT() -> (r: InfoTag)
        ensures
            r == InfoTag([0x49, 0x44, 0x49, 0x54]),
    {
        InfoTag([0x49, 0x44, 0x49, 0x54])
    }

    /// Distributed By.
    #[allow(non_snake_case)]
    pub fn IDST() -> (r: InfoTag)
        ensures
            r == InfoTag([0x49, 0x44, 0x53, 0x54]),
    {
        InfoTag([0x49, 0x44, 0x53, 0x54])
    }

    /// Edited By.
    #[allow(non_snake_case)]
    pub fn IEDT() -> (r: InfoTag)
        ensures
            r == InfoTag([0x49, 0x45, 0x44, 0x54]),
    {
        InfoTag([0x49, 0x45, 0x44, 0x54])
    }

    /// Encoded By. The name of the person or tool that encoded the file.
    #[allow(non_snake_case)]
    pub fn IENC() -> (r: InfoTag)
        ensures
            r == InfoTag([0x49, 0x45, 0x4E, 0x43]),
    {
        InfoTag([0x49, 0x45, 0x4E, 0x43])
    }

    /// Logo URL.
    #[allow(non_snake_case)]
    pub fn ILGU() -> (r: InfoTag)
        ensures
            r == InfoTag([0x49, 0x4C, 0x47, 0x55]),
    {
        InfoTag([0x49, 0x4C, 0x47, 0x55])
    }

    /// Logo Icon URL.
    #[allow(non_snake_case)]
    pub fn ILIU() -> (r: InfoTag)
        ensures
            r == InfoTag([0x49, 0x4C, 0x49, 0x55]),
    {
        InfoTag([0x49, 0x4C, 0x49, 0x55])
    }

    /// Language. The content language.
    #[allow(non_snake_case)]
    pub fn ILNG() -> (r: InfoTag)
        ensures
            r == InfoTag([0x49, 0x4C, 0x4E, 0x47]),
    {
        InfoTag([0x49, 0x4C, 0x4E, 0x47])
    }

    /// More-Info Banner Image.
    #[allow(non_snake_case)]
    pub fn IMBI() -> (r: InfoTag)
        ensures
            r == InfoTag([0x49, 0x4D, 0x42, 0x49]),
    {
        InfoTag([0x49, 0x4D, 0x42, 0x49])
    }

    /// More-Info Banner URL.
    #[allow(non_snake_case)]
    pub fn IMBU() -> (r: InfoTag)
        ensures
            r == InfoTag([0x49, 0x4D, 0x42, 0x55]),
    {
        InfoTag([0x49, 0x4D, 0x42, 0x55])
    }

    /// More-Info Text.
    #[allow(non_snake_case)]
    pub fn IMIT() -> (r: InfoTag)
        ensures
            r == InfoTag([0x49, 0x4D, 0x49, 0x54]),
    {
        InfoTag([0x49, 0x4D, 0x49, 0x54])
    }

    /// More-Info URL.
    #[allow(non_snake_case)]
    pub fn IMIU() -> (r: InfoTag)
        ensures
            r == InfoTag([0x49, 0x4D, 0x49, 0x55]),
    {
        InfoTag([0x49, 0x4D, 0x49, 0x55])
    }

    /// Music By.
    #[allow(non_snake_case)]
    pub fn IMUS() -> (r: InfoTag)
        ensures
            r == InfoTag([0x49, 0x4D, 0x55, 0x53]),
    {
        InfoTag([0x49, 0x4D, 0x55, 0x53])
    }

    /// Production Designer.
    #[allow(non_snake_case)]
    pub fn IPDS() -> (r: InfoTag)
        ensures
            r == InfoTag([0x49, 0x50, 0x44, 0x53]),
    {
        InfoTag([0x49, 0x50, 0x44, 0x53])
    }

    /// Produced By.
    #[allow(non_snake_case)]
    pub fn IPRO() -> (r: InfoTag)
        ensures
            r == InfoTag([0x49, 0x50, 0x52, 0x4F]),
    {
        InfoTag([0x49, 0x50, 0x52, 0x4F])
    }

    /// Ripped By.
    #[allow(non_snake_case)]
    pub fn IRIP() -> (r: InfoTag)
        ensures
            r == InfoTag([0x49, 0x52, 0x49, 0x50]),
    {
        InfoTag([0x49, 0x52, 0x49, 0x50])
    }

    /// Rating.
    #[allow(non_snake_case)]
    pub fn IRTD() -> (r: InfoTag)
        ensures
            r == InfoTag([0x49, 0x52, 0x54, 0x44]),
    {
        InfoTag([0x49, 0x52, 0x54, 0x44])
    }

    /// Secondary Genre.
    #[allow(non_snake_case)]
    pub fn ISGN() -> (r: InfoTag)
        ensures
            r == InfoTag([0x49, 0x53, 0x47, 0x4E]),
    {
        InfoTag([0x49, 0x53, 0x47, 0x4E])
    }

    /// Time Code. An SMPTE time code string.
    #[allow(non_snake_case)]
    pub fn ISMP() -> (r: InfoTag)
        ensures
            r == InfoTag([0x49, 0x53, 0x4D, 0x50]),
    {
        InfoTag([0x49, 0x53, 0x4D, 0x50])
    }

    /// Production Studio.
    #[allow(non_snake_case)]
    pub fn ISTD() -> (r: InfoTag)
        ensures
            r == InfoTag([0x49, 0x53, 0x54, 0x44]),
    {
        InfoTag([0x49, 0x53, 0x54, 0x44])
    }

    /// Starring. The featured performers.
    #[allow(non_snake_case)]
    pub fn ISTR() -> (r: InfoTag)
        ensures
            r == InfoTag([0x49, 0x53, 0x54, 0x52]),
    {
        InfoTag([0x49, 0x53, 0x54, 0x52])
    }

    /// Track Number.
    #[allow(non_snake_case)]
    pub fn ITRK() -> (r: InfoTag)
        ensures
            r == InfoTag([0x49, 0x54, 0x52, 0x4B]),
    {
        InfoTag([0x49, 0x54, 0x52, 0x4B])
    }

    /// Watermark URL.
    #[allow(non_snake_case)]
    pub fn IWMU() -> (r: InfoTag)
        ensures
            r == InfoTag([0x49, 0x57, 0x4D, 0x55]),
    {
        InfoTag([0x49, 0x57, 0x4D, 0x55])
    }

    /// Written By.
    #[allow(non_snake_case)]
    pub fn IWRI() -> (r: InfoTag)
        ensures
            r == InfoTag([0x49, 0x57, 0x52, 0x49]),
    {
        InfoTag([0x49, 0x57, 0x52, 0x49])
    }

    /// The 23 baseline tags, in their registered order.
    #[allow(non_snake_case)]
    pub fn BASELINE() -> (r: [InfoTag; 23])
        ensures
            r@ == baseline_tags(),
    {
        let r = [
        InfoTag([0x49, 0x41, 0x52, 0x4C]),
        InfoTag([0x49, 0x41, 0x52, 0x54]),
        InfoTag([0x49, 0x43, 0x4D, 0x53]),
        InfoTag([0x49, 0x43, 0x4D, 0x54]),
        InfoTag([0x49, 0x43, 0x4F, 0x50]),
        InfoTag([0x49, 0x43, 0x52, 0x44]),
        InfoTag([0x49, 0x43, 0x52, 0x50]),
        InfoTag([0x49, 0x44, 0x49, 0x4D]),
        InfoTag([0x49, 0x44, 0x50, 0x49]),
        InfoTag([0x49, 0x45, 0x4E, 0x47]),
        InfoTag([0x49, 0x47, 0x4E, 0x52]),
        InfoTag([0x49, 0x4B, 0x45, 0x59]),
        InfoTag([0x49, 0x4C, 0x47, 0x54]),
        InfoTag([0x49, 0x4D, 0x45, 0x44]),
        InfoTag([0x49, 0x4E, 0x41, 0x4D]),
        InfoTag([0x49, 0x50, 0x4C, 0x54]),
        InfoTag([0x49, 0x50, 0x52, 0x44]),
        InfoTag([0x49, 0x53, 0x42, 0x4A]),
        InfoTag([0x49, 0x53, 0x46, 0x54]),
        InfoTag([0x49, 0x53, 0x48, 0x50]),
        InfoTag([0x49, 0x53, 0x52, 0x43]),
        InfoTag([0x49, 0x53, 0x52, 0x46]),
        InfoTag([0x49, 0x54, 0x43, 0x48]),
        ];
        assert(r@ =~= baseline_tags());
        r
    }

    /// The 38 extended tags, in ascending FourCC order.
    #[allow(non_snake_case)]
    pub fn EXTENDED() -> (r: [InfoTag; 38])
        ensures
            r@ == extended_tags(),
    {
        let r = [
        InfoTag([0x49, 0x41, 0x53, 0x31]),
        InfoTag([0x49, 0x41, 0x53, 0x32]),
        InfoTag([0x49, 0x41, 0x53, 0x33]),
        InfoTag([0x49, 0x41, 0x53, 0x34]),
        InfoTag([0x49, 0x41, 0x53, 0x35]),
        InfoTag([0x49, 0x41, 0x53, 0x36]),
        InfoTag([0x49, 0x41, 0x53, 0x37]),
        InfoTag([0x49, 0x41, 0x53, 0x38]),
        InfoTag([0x49, 0x41, 0x53, 0x39]),
        InfoTag([0x49, 0x42, 0x53, 0x55]),
        InfoTag([0x49, 0x43, 0x41, 0x53]),
        InfoTag([0x49, 0x43, 0x43, 0x50]),
        InfoTag([0x49, 0x43, 0x44, 0x53]),
        InfoTag([0x49, 0x43, 0x4E, 0x4D]),
        InfoTag([0x49, 0x43, 0x4E, 0x54]),
        InfoTag([0x49, 0x44, 0x49, 0x54]),
        InfoTag([0x49, 0x44, 0x53, 0x54]),
        InfoTag([0x49, 0x45, 0x44, 0x54]),
        InfoTag([0x49, 0x45, 0x4E, 0x43]),
        InfoTag([0x49, 0x4C, 0x47, 0x55]),
        InfoTag([0x49, 0x4C, 0x49, 0x55]),
        InfoTag([0x49, 0x4C, 0x4E, 0x47]),
        InfoTag([0x49, 0x4D, 0x42, 0x49]),
        InfoTag([0x49, 0x4D, 0x42, 0x55]),
        InfoTag([0x49, 0x4D, 0x49, 0x54]),
        InfoTag([0x49, 0x4D, 0x49, 0x55]),
        InfoTag([0x49, 0x4D, 0x55, 0x53]),
        InfoTag([0x49, 0x50, 0x44, 0x53]),
        InfoTag([0x49, 0x50, 0x52, 0x4F]),
        InfoTag([0x49, 0x52, 0x49, 0x50]),
        InfoTag([0x49, 0x52, 0x54, 0x44]),
        InfoTag([0x49, 0x53, 0x47, 0x4E]),
        InfoTag([0x49, 0x53, 0x4D, 0x50]),
        InfoTag([0x49, 0x53, 0x54, 0x44]),
        InfoTag([0x49, 0x53, 0x54, 0x52]),
        InfoTag([0x49, 0x54, 0x52, 0x4B]),
        InfoTag([0x49, 0x57, 0x4D, 0x55]),
        InfoTag([0x49, 0x57, 0x52, 0x49]),
        ];
        assert(r@ =~= extended_tags());
        r
    }

    /// The raw four-character code.
    pub fn fourcc(&self) -> (r: [u8; 4])
        ensures
            r == self.0,
    {
        self.0
    }

    /// `true` for one of the 23 baseline tags.
    pub fn is_baseline(&self) -> (r: bool)
        ensures
            r == baseline_label(self.0) is Some,
    {
        baseline_label_of(self.0).is_some()
    }

    /// `true` for one of the 38 extended tags.
    pub fn is_extended(&self) -> (r: bool)
        ensures
            r == extended_label(self.0) is Some,
    {
        extended_label_of(self.0).is_some()
    }

    /// `true` for a baseline or an extended tag.
    pub fn is_registered(&self) -> (r: bool)
        ensures
            r == info_label(self.0) is Some,
    {
        self.is_baseline() || self.is_extended()
    }

    /// The field name of a registered tag; `None` for any other code.
    pub fn label(&self) -> (r: Option<&'static str>)
        ensures
            r is None <==> info_label(self.0) is None,
            r matches Some(s) ==> info_label(self.0) == Some(s@),
    {
        match baseline_label_of(self.0) {
            Some(s) => Some(s),
            None => extended_label_of(self.0),
        }
    }
}

/// The 23 baseline tags.
pub open spec fn baseline_tags() -> Seq<InfoTag> {
    seq![
        InfoTag([0x49, 0x41, 0x52, 0x4C]),
        InfoTag([0x49, 0x41, 0x52, 0x54]),
        InfoTag([0x49, 0x43, 0x4D, 0x53]),
        InfoTag([0x49, 0x43, 0x4D, 0x54]),
        InfoTag([0x49, 0x43, 0x4F, 0x50]),
        InfoTag([0x49, 0x43, 0x52, 0x44]),
        InfoTag([0x49, 0x43, 0x52, 0x50]),
        InfoTag([0x49, 0x44, 0x49, 0x4D]),
        InfoTag([0x49, 0x44, 0x50, 0x49]),
        InfoTag([0x49, 0x45, 0x4E, 0x47]),
        InfoTag([0x49, 0x47, 0x4E, 0x52]),
        InfoTag([0x49, 0x4B, 0x45, 0x59]),
        InfoTag([0x49, 0x4C, 0x47, 0x54]),
        InfoTag([0x49, 0x4D, 0x45, 0x44]),
        InfoTag([0x49, 0x4E, 0x41, 0x4D]),
        InfoTag([0x49, 0x50, 0x4C, 0x54]),
        InfoTag([0x49, 0x50, 0x52, 0x44]),
        InfoTag([0x49, 0x53, 0x42, 0x4A]),
        InfoTag([0x49, 0x53, 0x46, 0x54]),
        InfoTag([0x49, 0x53, 0x48, 0x50]),
        InfoTag([0x49, 0x53, 0x52, 0x43]),
        InfoTag([0x49, 0x53, 0x52, 0x46]),
        InfoTag([0x49, 0x54, 0x43, 0x48]),
    ]
}

/// The 38 extended tags.
pub open spec fn extended_tags() -> Seq<InfoTag> {
    seq![
        InfoTag([0x49, 0x41, 0x53, 0x31]),
        InfoTag([0x49, 0x41, 0x53, 0x32]),
        InfoTag([0x49, 0x41, 0x53, 0x33]),
        InfoTag([0x49, 0x41, 0x53, 0x34]),
        InfoTag([0x49, 0x41, 0x53, 0x35]),
        InfoTag([0x49, 0x41, 0x53, 0x36]),
        InfoTag([0x49, 0x41, 0x53, 0x37]),
        InfoTag([0x49, 0x41, 0x53, 0x38]),
        InfoTag([0x49, 0x41, 0x53, 0x39]),
        InfoTag([0x49, 0x42, 0x53, 0x55]),
        InfoTag([0x49, 0x43, 0x41, 0x53]),
        InfoTag([0x49, 0x43, 0x43, 0x50]),
        InfoTag([0x49, 0x43, 0x44, 0x53]),
        InfoTag([0x49, 0x43, 0x4E, 0x4D]),
        InfoTag([0x49, 0x43, 0x4E, 0x54]),
        InfoTag([0x49, 0x44, 0x49, 0x54]),
        InfoTag([0x49, 0x44, 0x53, 0x54]),
        InfoTag([0x49, 0x45, 0x44, 0x54]),
        InfoTag([0x49, 0x45, 0x4E, 0x43]),
        InfoTag([0x49, 0x4C, 0x47, 0x55]),
        InfoTag([0x49, 0x4C, 0x49, 0x55]),
        InfoTag([0x49, 0x4C, 0x4E, 0x47]),
        InfoTag([0x49, 0x4D, 0x42, 0x49]),
        InfoTag([0x49, 0x4D, 0x42, 0x55]),
        InfoTag([0x49, 0x4D, 0x49, 0x54]),
        InfoTag([0x49, 0x4D, 0x49, 0x55]),
        InfoTag([0x49, 0x4D, 0x55, 0x53]),
        InfoTag([0x49, 0x50, 0x44, 0x53]),
        InfoTag([0x49, 0x50, 0x52, 0x4F]),
        InfoTag([0x49, 0x52, 0x49, 0x50]),
        InfoTag([0x49, 0x52, 0x54, 0x44]),
        InfoTag([0x49, 0x53, 0x47, 0x4E]),
        InfoTag([0x49, 0x53, 0x4D, 0x50]),
        InfoTag([0x49, 0x53, 0x54, 0x44]),
        InfoTag([0x49, 0x53, 0x54, 0x52]),
        InfoTag([0x49, 0x54, 0x52, 0x4B]),
        InfoTag([0x49, 0x57, 0x4D, 0x55]),
        InfoTag([0x49, 0x57, 0x52, 0x49]),
    ]
}

/// The field name of a baseline tag.
pub open spec fn baseline_label(id: [u8; 4]) -> Option<Seq<char>> {
    match (id[0], id[1], id[2], id[3]) {
        (0x49u8, 0x41u8, 0x52u8, 0x4Cu8) => Some("Archival Location"@),  // IARL
        (0x49u8, 0x41u8, 0x52u8, 0x54u8) => Some("Artist"@),  // IART
        (0x49u8, 0x43u8, 0x4Du8, 0x53u8) => Some("Commissioned"@),  // ICMS
        (0x49u8, 0x43u8, 0x4Du8, 0x54u8) => Some("Comments"@),  // ICMT
        (0x49u8, 0x43u8, 0x4Fu8, 0x50u8) => Some("Copyright"@),  // ICOP
        (0x49u8, 0x43u8, 0x52u8, 0x44u8) => Some("Creation Date"@),  // ICRD
        (0x49u8, 0x43u8, 0x52u8, 0x50u8) => Some("Cropped"@),  // ICRP
        (0x49u8, 0x44u8, 0x49u8, 0x4Du8) => Some("Dimensions"@),  // IDIM
        (0x49u8, 0x44u8, 0x50u8, 0x49u8) => Some("Dots Per Inch"@),  // IDPI
        (0x49u8, 0x45u8, 0x4Eu8, 0x47u8) => Some("Engineer"@),  // IENG
        (0x49u8, 0x47u8, 0x4Eu8, 0x52u8) => Some("Genre"@),  // IGNR
        (0x49u8, 0x4Bu8, 0x45u8, 0x59u8) => Some("Keywords"@),  // IKEY
        (0x49u8, 0x4Cu8, 0x47u8, 0x54u8) => Some("Lightness"@),  // ILGT
        (0x49u8, 0x4Du8, 0x45u8, 0x44u8) => Some("Medium"@),  // IMED
        (0x49u8, 0x4Eu8, 0x41u8, 0x4Du8) => Some("Name"@),  // INAM
        (0x49u8, 0x50u8, 0x4Cu8, 0x54u8) => Some("Palette Setting"@),  // IPLT
        (0x49u8, 0x50u8, 0x52u8, 0x44u8) => Some("Product"@),  // IPRD
        (0x49u8, 0x53u8, 0x42u8, 0x4Au8) => Some("Subject"@),  // ISBJ
        (0x49u8, 0x53u8, 0x46u8, 0x54u8) => Some("Software"@),  // ISFT
        (0x49u8, 0x53u8, 0x48u8, 0x50u8) => Some("Sharpness"@),  // ISHP
        (0x49u8, 0x53u8, 0x52u8, 0x43u8) => Some("Source"@),  // ISRC
        (0x49u8, 0x53u8, 0x52u8, 0x46u8) => Some("Source Form"@),  // ISRF
        (0x49u8, 0x54u8, 0x43u8, 0x48u8) => Some("Technician"@),  // ITCH
        _ => None,
    }
}

/// The field name of an extended tag.
pub open spec fn extended_label(id: [u8; 4]) -> Option<Seq<char>> {
    match (id[0], id[1], id[2], id[3]) {
        (0x49u8, 0x41u8, 0x53u8, 0x31u8) => Some("First Language"@),  // IAS1
        (0x49u8, 0x41u8, 0x53u8, 0x32u8) => Some("Second Language"@),  // IAS2
        (0x49u8, 0x41u8, 0x53u8, 0x33u8) => Some("Third Language"@),  // IAS3
        (0x49u8, 0x41u8, 0x53u8, 0x34u8) => Some("Fourth Language"@),  // IAS4
        (0x49u8, 0x41u8, 0x53u8, 0x35u8) => Some("Fifth Language"@),  // IAS5
        (0x49u8, 0x41u8, 0x53u8, 0x36u8) => Some("Sixth Language"@),  // IAS6
        (0x49u8, 0x41u8, 0x53u8, 0x37u8) => Some("Seventh Language"@),  // IAS7
        (0x49u8, 0x41u8, 0x53u8, 0x38u8) => Some("Eighth Language"@),  // IAS8
        (0x49u8, 0x41u8, 0x53u8, 0x39u8) => Some("Ninth Language"@),  // IAS9
        (0x49u8, 0x42u8, 0x53u8, 0x55u8) => Some("Base URL"@),  // IBSU
        (0x49u8, 0x43u8, 0x41u8, 0x53u8) => Some("Default Audio Stream"@),  // ICAS
        (0x49u8, 0x43u8, 0x43u8, 0x50u8) => Some("ICC Profile"@),  // ICCP
        (0x49u8, 0x43u8, 0x44u8, 0x53u8) => Some("Costume Designer"@),  // ICDS
        (0x49u8, 0x43u8, 0x4Eu8, 0x4Du8) => Some("Cinematographer"@),  // ICNM
        (0x49u8, 0x43u8, 0x4Eu8, 0x54u8) => Some("Country"@),  // ICNT
        (0x49u8, 0x44u8, 0x49u8, 0x54u8) => Some("Date/Time Original"@),  // IDIT
        (0x49u8, 0x44u8, 0x53u8, 0x54u8) => Some("Distributed By"@),  // IDST
        (0x49u8, 0x45u8, 0x44u8, 0x54u8) => Some("Edited By"@),  // IEDT
        (0x49u8, 0x45u8, 0x4Eu8, 0x43u8) => Some("Encoded By"@),  // IENC
        (0x49u8, 0x4Cu8, 0x47u8, 0x55u8) => Some("Logo URL"@),  // ILGU
        (0x49u8, 0x4Cu8, 0x49u8, 0x55u8) => Some("Logo Icon URL"@),  // ILIU
        (0x49u8, 0x4Cu8, 0x4Eu8, 0x47u8) => Some("Language"@),  // ILNG
        (0x49u8, 0x4Du8, 0x42u8, 0x49u8) => Some("More Info Banner Image"@),  // IMBI
        (0x49u8, 0x4Du8, 0x42u8, 0x55u8) => Some("More Info Banner URL"@),  // IMBU
        (0x49u8, 0x4Du8, 0x49u8, 0x54u8) => Some("More Info Text"@),  // IMIT
        (0x49u8, 0x4Du8, 0x49u8, 0x55u8) => Some("More Info URL"@),  // IMIU
        (0x49u8, 0x4Du8, 0x55u8, 0x53u8) => Some("Music By"@),  // IMUS
        (0x49u8, 0x50u8, 0x44u8, 0x53u8) => Some("Production Designer"@),  // IPDS
        (0x49u8, 0x50u8, 0x52u8, 0x4Fu8) => Some("Produced By"@),  // IPRO
        (0x49u8, 0x52u8, 0x49u8, 0x50u8) => Some("Ripped By"@),  // IRIP
        (0x49u8, 0x52u8, 0x54u8, 0x44u8) => Some("Rating"@),  // IRTD
        (0x49u8, 0x53u8, 0x47u8, 0x4Eu8) => Some("Secondary Genre"@),  // ISGN
        (0x49u8, 0x53u8, 0x4Du8, 0x50u8) => Some("Time Code"@),  // ISMP
        (0x49u8, 0x53u8, 0x54u8, 0x44u8) => Some("Production Studio"@),  // ISTD
        (0x49u8, 0x53u8, 0x54u8, 0x52u8) => Some("Starring"@),  // ISTR
        (0x49u8, 0x54u8, 0x52u8, 0x4Bu8) => Some("Track Number"@),  // ITRK
        (0x49u8, 0x57u8, 0x4Du8, 0x55u8) => Some("Watermark URL"@),  // IWMU
        (0x49u8, 0x57u8, 0x52u8, 0x49u8) => Some("Written By"@),  // IWRI
        _ => None,
    }
}

/// The field name of a registered tag.
pub open spec fn info_label(id: [u8; 4]) -> Option<Seq<char>> {
    if baseline_label(id) is Some {
        baseline_label(id)
    } else {
        extended_label(id)
    }
}

/// The registered `INFO` tags and their published field names: the 23
/// tags of the 1991 RIFF registry and the 38 extended ones, each FourCC
/// mapped to its field name (`ISFT` is "Software", `ISRC` "Source", …).
pub proof fn lemma_info_registry()
    ensures
        info_label([0x49u8, 0x41u8, 0x52u8, 0x4Cu8]) == Some("Archival Location"@),  // IARL
        info_label([0x49u8, 0x41u8, 0x52u8, 0x54u8]) == Some("Artist"@),  // IART
        info_label([0x49u8, 0x43u8, 0x4Du8, 0x53u8]) == Some("Commissioned"@),  // ICMS
        info_label([0x49u8, 0x43u8, 0x4Du8, 0x54u8]) == Some("Comments"@),  // ICMT
        info_label([0x49u8, 0x43u8, 0x4Fu8, 0x50u8]) == Some("Copyright"@),  // ICOP
        info_label([0x49u8, 0x43u8, 0x52u8, 0x44u8]) == Some("Creation Date"@),  // ICRD
        info_label([0x49u8, 0x43u8, 0x52u8, 0x50u8]) == Some("Cropped"@),  // ICRP
        info_label([0x49u8, 0x44u8, 0x49u8, 0x4Du8]) == Some("Dimensions"@),  // IDIM
        info_label([0x49u8, 0x44u8, 0x50u8, 0x49u8]) == Some("Dots Per Inch"@),  // IDPI
        info_label([0x49u8, 0x45u8, 0x4Eu8, 0x47u8]) == Some("Engineer"@),  // IENG
        info_label([0x49u8, 0x47u8, 0x4Eu8, 0x52u8]) == Some("Genre"@),  // IGNR
        info_label([0x49u8, 0x4Bu8, 0x45u8, 0x59u8]) == Some("Keywords"@),  // IKEY
        info_label([0x49u8, 0x4Cu8, 0x47u8, 0x54u8]) == Some("Lightness"@),  // ILGT
        info_label([0x49u8, 0x4Du8, 0x45u8, 0x44u8]) == Some("Medium"@),  // IMED
        info_label([0x49u8, 0x4Eu8, 0x41u8, 0x4Du8]) == Some("Name"@),  // INAM
        info_label([0x49u8, 0x50u8, 0x4Cu8, 0x54u8]) == Some("Palette Setting"@),  // IPLT
        info_label([0x49u8, 0x50u8, 0x52u8, 0x44u8]) == Some("Product"@),  // IPRD
        info_label([0x49u8, 0x53u8, 0x42u8, 0x4Au8]) == Some("Subject"@),  // ISBJ
        info_label([0x49u8, 0x53u8, 0x46u8, 0x54u8]) == Some("Software"@),  // ISFT
        info_label([0x49u8, 0x53u8, 0x48u8, 0x50u8]) == Some("Sharpness"@),  // ISHP
        info_label([0x49u8, 0x53u8, 0x52u8, 0x43u8]) == Some("Source"@),  // ISRC
        info_label([0x49u8, 0x53u8, 0x52u8, 0x46u8]) == Some("Source Form"@),  // ISRF
        info_label([0x49u8, 0x54u8, 0x43u8, 0x48u8]) == Some("Technician"@),  // ITCH
        info_label([0x49u8, 0x41u8, 0x53u8, 0x31u8]) == Some("First Language"@),  // IAS1
        info_label([0x49u8, 0x41u8, 0x53u8, 0x32u8]) == Some("Second Language"@),  // IAS2
        info_label([0x49u8, 0x41u8, 0x53u8, 0x33u8]) == Some("Third Language"@),  // IAS3
        info_label([0x49u8, 0x41u8, 0x53u8, 0x34u8]) == Some("Fourth Language"@),  // IAS4
        info_label([0x49u8, 0x41u8, 0x53u8, 0x35u8]) == Some("Fifth Language"@),  // IAS5
        info_label([0x49u8, 0x41u8, 0x53u8, 0x36u8]) == Some("Sixth Language"@),  // IAS6
        info_label([0x49u8, 0x41u8, 0x53u8, 0x37u8]) == Some("Seventh Language"@),  // IAS7
        info_label([0x49u8, 0x41u8, 0x53u8, 0x38u8]) == Some("Eighth Language"@),  // IAS8
        info_label([0x49u8, 0x41u8, 0x53u8, 0x39u8]) == Some("Ninth Language"@),  // IAS9
        info_label([0x49u8, 0x42u8, 0x53u8, 0x55u8]) == Some("Base URL"@),  // IBSU
        info_label([0x49u8, 0x43u8, 0x41u8, 0x53u8]) == Some("Default Audio Stream"@),  // ICAS
        info_label([0x49u8, 0x43u8, 0x43u8, 0x50u8]) == Some("ICC Profile"@),  // ICCP
        info_label([0x49u8, 0x43u8, 0x44u8, 0x53u8]) == Some("Costume Designer"@),  // ICDS
        info_label([0x49u8, 0x43u8, 0x4Eu8, 0x4Du8]) == Some("Cinematographer"@),  // ICNM
        info_label([0x49u8, 0x43u8, 0x4Eu8, 0x54u8]) == Some("Country"@),  // ICNT
        info_label([0x49u8, 0x44u8, 0x49u8, 0x54u8]) == Some("Date/Time Original"@),  // IDIT
        info_label([0x49u8, 0x44u8, 0x53u8, 0x54u8]) == Some("Distributed By"@),  // IDST
        info_label([0x49u8, 0x45u8, 0x44u8, 0x54u8]) == Some("Edited By"@),  // IEDT
        info_label([0x49u8, 0x45u8, 0x4Eu8, 0x43u8]) == Some("Encoded By"@),  // IENC
        info_label([0x49u8, 0x4Cu8, 0x47u8, 0x55u8]) == Some("Logo URL"@),  // ILGU
        info_label([0x49u8, 0x4Cu8, 0x49u8, 0x55u8]) == Some("Logo Icon URL"@),  // ILIU
        info_label([0x49u8, 0x4Cu8, 0x4Eu8, 0x47u8]) == Some("Language"@),  // ILNG
        info_label([0x49u8, 0x4Du8, 0x42u8, 0x49u8]) == Some("More Info Banner Image"@),  // IMBI
        info_label([0x49u8, 0x4Du8, 0x42u8, 0x55u8]) == Some("More Info Banner URL"@),  // IMBU
        info_label([0x49u8, 0x4Du8, 0x49u8, 0x54u8]) == Some("More Info Text"@),  // IMIT
        info_label([0x49u8, 0x4Du8, 0x49u8, 0x55u8]) == Some("More Info URL"@),  // IMIU
        info_label([0x49u8, 0x4Du8, 0x55u8, 0x53u8]) == Some("Music By"@),  // IMUS
        info_label([0x49u8, 0x50u8, 0x44u8, 0x53u8]) == Some("Production Designer"@),  // IPDS
        info_label([0x49u8, 0x50u8, 0x52u8, 0x4Fu8]) == Some("Produced By"@),  // IPRO
        info_label([0x49u8, 0x52u8, 0x49u8, 0x50u8]) == Some("Ripped By"@),  // IRIP
        info_label([0x49u8, 0x52u8, 0x54u8, 0x44u8]) == Some("Rating"@),  // IRTD
        info_label([0x49u8, 0x53u8, 0x47u8, 0x4Eu8]) == Some("Secondary Genre"@),  // ISGN
        info_label([0x49u8, 0x53u8, 0x4Du8, 0x50u8]) == Some("Time Code"@),  // ISMP
        info_label([0x49u8, 0x53u8, 0x54u8, 0x44u8]) == Some("Production Studio"@),  // ISTD
        info_label([0x49u8, 0x53u8, 0x54u8, 0x52u8]) == Some("Starring"@),  // ISTR
        info_label([0x49u8, 0x54u8, 0x52u8, 0x4Bu8]) == Some("Track Number"@),  // ITRK
        info_label([0x49u8, 0x57u8, 0x4Du8, 0x55u8]) == Some("Watermark URL"@),  // IWMU
        info_label([0x49u8, 0x57u8, 0x52u8, 0x49u8]) == Some("Written By"@),  // IWRI
{
}

/// Three characters' worth of a field name: its length, its third
/// character and its next-to-last character.
pub open spec fn label_key(s: Seq<char>) -> (nat, char, char) {
    (s.len(), s[2], s[s.len() - 2])
}

/// Distinct registered tags carry distinct field names: a field name
/// identifies its tag.
#[verifier::rlimit(100)]
#[verifier::spinoff_prover]
pub proof fn lemma_info_label_injective(a: [u8; 4], b: [u8; 4])
    requires
        info_label(a) is Some,
        info_label(a) == info_label(b),
    ensures
        a@ == b@,
{
    reveal_strlit("Archival Location");
    reveal_strlit("Artist");
    reveal_strlit("Commissioned");
    reveal_strlit("Comments");
    reveal_strlit("Copyright");
    reveal_strlit("Creation Date");
    reveal_strlit("Cropped");
    reveal_strlit("Dimensions");
    reveal_strlit("Dots Per Inch");
    reveal_strlit("Engineer");
    reveal_strlit("Genre");
    reveal_strlit("Keywords");
    reveal_strlit("Lightness");
    reveal_strlit("Medium");
    reveal_strlit("Name");
    reveal_strlit("Palette Setting");
    reveal_strlit("Product");
    reveal_strlit("Subject");
    reveal_strlit("Software");
    reveal_strlit("Sharpness");
    reveal_strlit("Source");
    reveal_strlit("Source Form");
    reveal_strlit("Technician");
    reveal_strlit("First Language");
    reveal_strlit("Second Language");
    reveal_strlit("Third Language");
    reveal_strlit("Fourth Language");
    reveal_strlit("Fifth Language");
    reveal_strlit("Sixth Language");
    reveal_strlit("Seventh Language");
    reveal_strlit("Eighth Language");
    reveal_strlit("Ninth Language");
    reveal_strlit("Base URL");
    reveal_strlit("Default Audio Stream");
    reveal_strlit("ICC Profile");
    reveal_strlit("Costume Designer");
    reveal_strlit("Cinematographer");
    reveal_strlit("Country");
    reveal_strlit("Date/Time Original");
    reveal_strlit("Distributed By");
    reveal_strlit("Edited By");
    reveal_strlit("Encoded By");
    reveal_strlit("Logo URL");
    reveal_strlit("Logo Icon URL");
    reveal_strlit("Language");
    reveal_strlit("More Info Banner Image");
    reveal_strlit("More Info Banner URL");
    reveal_strlit("More Info Text");
    reveal_strlit("More Info URL");
    reveal_strlit("Music By");
    reveal_strlit("Production Designer");
    reveal_strlit("Produced By");
    reveal_strlit("Ripped By");
    reveal_strlit("Rating");
    reveal_strlit("Secondary Genre");
    reveal_strlit("Time Code");
    reveal_strlit("Production Studio");
    reveal_strlit("Starring");
    reveal_strlit("Track Number");
    reveal_strlit("Watermark URL");
    reveal_strlit("Written By");
    assert(label_key("Archival Location"@) == (17nat, 'c', 'o'));
    assert(label_key("Artist"@) == (6nat, 't', 's'));
    assert(label_key("Commissioned"@) == (12nat, 'm', 'e'));
    assert(label_key("Comments"@) == (8nat, 'm', 't'));
    assert(label_key("Copyright"@) == (9nat, 'p', 'h'));
    assert(label_key("Creation Date"@) == (13nat, 'e', 't'));
    assert(label_key("Cropped"@) == (7nat, 'o', 'e'));
    assert(label_key("Dimensions"@) == (10nat, 'm', 'n'));
    assert(label_key("Dots Per Inch"@) == (13nat, 't', 'c'));
    assert(label_key("Engineer"@) == (8nat, 'g', 'e'));
    assert(label_key("Genre"@) == (5nat, 'n', 'r'));
    assert(label_key("Keywords"@) == (8nat, 'y', 'd'));
    assert(label_key("Lightness"@) == (9nat, 'g', 's'));
    assert(label_key("Medium"@) == (6nat, 'd', 'u'));
    assert(label_key("Name"@) == (4nat, 'm', 'm'));
    assert(label_key("Palette Setting"@) == (15nat, 'l', 'n'));
    assert(label_key("Product"@) == (7nat, 'o', 'c'));
    assert(label_key("Subject"@) == (7nat, 'b', 'c'));
    assert(label_key("Software"@) == (8nat, 'f', 'r'));
    assert(label_key("Sharpness"@) == (9nat, 'a', 's'));
    assert(label_key("Source"@) == (6nat, 'u', 'c'));
    assert(label_key("Source Form"@) == (11nat, 'u', 'r'));
    assert(label_key("Technician"@) == (10nat, 'c', 'a'));
    assert(label_key("First Language"@) == (14nat, 'r', 'g'));
    assert(label_key("Second Language"@) == (15nat, 'c', 'g'));
    assert(label_key("Third Language"@) == (14nat, 'i', 'g'));
    assert(label_key("Fourth Language"@) == (15nat, 'u', 'g'));
    assert(label_key("Fifth Language"@) == (14nat, 'f', 'g'));
    assert(label_key("Sixth Language"@) == (14nat, 'x', 'g'));
    assert(label_key("Seventh Language"@) == (16nat, 'v', 'g'));
    assert(label_key("Eighth Language"@) == (15nat, 'g', 'g'));
    assert(label_key("Ninth Language"@) == (14nat, 'n', 'g'));
    assert(label_key("Base URL"@) == (8nat, 's', 'R'));
    assert(label_key("Default Audio Stream"@) == (20nat, 'f', 'a'));
    assert(label_key("ICC Profile"@) == (11nat, 'C', 'l'));
    assert(label_key("Costume Designer"@) == (16nat, 's', 'e'));
    assert(label_key("Cinematographer"@) == (15nat, 'n', 'e'));
    assert(label_key("Country"@) == (7nat, 'u', 'r'));
    assert(label_key("Date/Time Original"@) == (18nat, 't', 'a'));
    assert(label_key("Distributed By"@) == (14nat, 's', 'B'));
    assert(label_key("Edited By"@) == (9nat, 'i', 'B'));
    assert(label_key("Encoded By"@) == (10nat, 'c', 'B'));
    assert(label_key("Logo URL"@) == (8nat, 'g', 'R'));
    assert(label_key("Logo Icon URL"@) == (13nat, 'g', 'R'));
    assert(label_key("Language"@) == (8nat, 'n', 'g'));
    assert(label_key("More Info Banner Image"@) == (22nat, 'r', 'g'));
    assert(label_key("More Info Banner URL"@) == (20nat, 'r', 'R'));
    assert(label_key("More Info Text"@) == (14nat, 'r', 'x'));
    assert(label_key("More Info URL"@) == (13nat, 'r', 'R'));
    assert(label_key("Music By"@) == (8nat, 's', 'B'));
    assert(label_key("Production Designer"@) == (19nat, 'o', 'e'));
    assert(label_key("Produced By"@) == (11nat, 'o', 'B'));
    assert(label_key("Ripped By"@) == (9nat, 'p', 'B'));
    assert(label_key("Rating"@) == (6nat, 't', 'n'));
    assert(label_key("Secondary Genre"@) == (15nat, 'c', 'r'));
    assert(label_key("Time Code"@) == (9nat, 'm', 'd'));
    assert(label_key("Production Studio"@) == (17nat, 'o', 'i'));
    assert(label_key("Starring"@) == (8nat, 'a', 'n'));
    assert(label_key("Track Number"@) == (12nat, 'a', 'e'));
    assert(label_key("Watermark URL"@) == (13nat, 't', 'R'));
    assert(label_key("Written By"@) == (10nat, 'i', 'B'));
    assert(label_key(info_label(a)->0) == label_key(info_label(b)->0));
    assert(a@ =~= b@);
}

fn baseline_label_of(id: [u8; 4]) -> (r: Option<&'static str>)
    ensures
        r is None <==> baseline_label(id) is None,
        r matches Some(s) ==> baseline_label(id) == Some(s@),
{
    match (id[0], id[1], id[2], id[3]) {
        (0x49u8, 0x41u8, 0x52u8, 0x4Cu8) => Some("Archival Location"),  // IARL
        (0x49u8, 0x41u8, 0x52u8, 0x54u8) => Some("Artist"),  // IART
        (0x49u8, 0x43u8, 0x4Du8, 0x53u8) => Some("Commissioned"),  // ICMS
        (0x49u8, 0x43u8, 0x4Du8, 0x54u8) => Some("Comments"),  // ICMT
        (0x49u8, 0x43u8, 0x4Fu8, 0x50u8) => Some("Copyright"),  // ICOP
        (0x49u8, 0x43u8, 0x52u8, 0x44u8) => Some("Creation Date"),  // ICRD
        (0x49u8, 0x43u8, 0x52u8, 0x50u8) => Some("Cropped"),  // ICRP
        (0x49u8, 0x44u8, 0x49u8, 0x4Du8) => Some("Dimensions"),  // IDIM
        (0x49u8, 0x44u8, 0x50u8, 0x49u8) => Some("Dots Per Inch"),  // IDPI
        (0x49u8, 0x45u8, 0x4Eu8, 0x47u8) => Some("Engineer"),  // IENG
        (0x49u8, 0x47u8, 0x4Eu8, 0x52u8) => Some("Genre"),  // IGNR
        (0x49u8, 0x4Bu8, 0x45u8, 0x59u8) => Some("Keywords"),  // IKEY
        (0x49u8, 0x4Cu8, 0x47u8, 0x54u8) => Some("Lightness"),  // ILGT
        (0x49u8, 0x4Du8, 0x45u8, 0x44u8) => Some("Medium"),  // IMED
        (0x49u8, 0x4Eu8, 0x41u8, 0x4Du8) => Some("Name"),  // INAM
        (0x49u8, 0x50u8, 0x4Cu8, 0x54u8) => Some("Palette Setting"),  // IPLT
        (0x49u8, 0x50u8, 0x52u8, 0x44u8) => Some("Product"),  // IPRD
        (0x49u8, 0x53u8, 0x42u8, 0x4Au8) => Some("Subject"),  // ISBJ
        (0x49u8, 0x53u8, 0x46u8, 0x54u8) => Some("Software"),  // ISFT
        (0x49u8, 0x53u8, 0x48u8, 0x50u8) => Some("Sharpness"),  // ISHP
        (0x49u8, 0x53u8, 0x52u8, 0x43u8) => Some("Source"),  // ISRC
        (0x49u8, 0x53u8, 0x52u8, 0x46u8) => Some("Source Form"),  // ISRF
        (0x49u8, 0x54u8, 0x43u8, 0x48u8) => Some("Technician"),  // ITCH
        _ => None,
    }
}

fn extended_label_of(id: [u8; 4]) -> (r: Option<&'static str>)
    ensures
        r is None <==> extended_label(id) is None,
        r matches Some(s) ==> extended_label(id) == Some(s@),
{
    match (id[0], id[1], id[2], id[3]) {
        (0x49u8, 0x41u8, 0x53u8, 0x31u8) => Some("First Language"),  // IAS1
        (0x49u8, 0x41u8, 0x53u8, 0x32u8) => Some("Second Language"),  // IAS2
        (0x49u8, 0x41u8, 0x53u8, 0x33u8) => Some("Third Language"),  // IAS3
        (0x49u8, 0x41u8, 0x53u8, 0x34u8) => Some("Fourth Language"),  // IAS4
        (0x49u8, 0x41u8, 0x53u8, 0x35u8) => Some("Fifth Language"),  // IAS5
        (0x49u8, 0x41u8, 0x53u8, 0x36u8) => Some("Sixth Language"),  // IAS6
        (0x49u8, 0x41u8, 0x53u8, 0x37u8) => Some("Seventh Language"),  // IAS7
        (0x49u8, 0x41u8, 0x53u8, 0x38u8) => Some("Eighth Language"),  // IAS8
        (0x49u8, 0x41u8, 0x53u8, 0x39u8) => Some("Ninth Language"),  // IAS9
        (0x49u8, 0x42u8, 0x53u8, 0x55u8) => Some("Base URL"),  // IBSU
        (0x49u8, 0x43u8, 0x41u8, 0x53u8) => Some("Default Audio Stream"),  // ICAS
        (0x49u8, 0x43u8, 0x43u8, 0x50u8) => Some("ICC Profile"),  // ICCP
        (0x49u8, 0x43u8, 0x44u8, 0x53u8) => Some("Costume Designer"),  // ICDS
        (0x49u8, 0x43u8, 0x4Eu8, 0x4Du8) => Some("Cinematographer"),  // ICNM
        (0x49u8, 0x43u8, 0x4Eu8, 0x54u8) => Some("Country"),  // ICNT
        (0x49u8, 0x44u8, 0x49u8, 0x54u8) => Some("Date/Time Original"),  // IDIT
        (0x49u8, 0x44u8, 0x53u8, 0x54u8) => Some("Distributed By"),  // IDST
        (0x49u8, 0x45u8, 0x44u8, 0x54u8) => Some("Edited By"),  // IEDT
        (0x49u8, 0x45u8, 0x4Eu8, 0x43u8) => Some("Encoded By"),  // IENC
        (0x49u8, 0x4Cu8, 0x47u8, 0x55u8) => Some("Logo URL"),  // ILGU
        (0x49u8, 0x4Cu8, 0x49u8, 0x55u8) => Some("Logo Icon URL"),  // ILIU
        (0x49u8, 0x4Cu8, 0x4Eu8, 0x47u8) => Some("Language"),  // ILNG
        (0x49u8, 0x4Du8, 0x42u8, 0x49u8) => Some("More Info Banner Image"),  // IMBI
        (0x49u8, 0x4Du8, 0x42u8, 0x55u8) => Some("More Info Banner URL"),  // IMBU
        (0x49u8, 0x4Du8, 0x49u8, 0x54u8) => Some("More Info Text"),  // IMIT
        (0x49u8, 0x4Du8, 0x49u8, 0x55u8) => Some("More Info URL"),  // IMIU
        (0x49u8, 0x4Du8, 0x55u8, 0x53u8) => Some("Music By"),  // IMUS
        (0x49u8, 0x50u8, 0x44u8, 0x53u8) => Some("Production Designer"),  // IPDS
        (0x49u8, 0x50u8, 0x52u8, 0x4Fu8) => Some("Produced By"),  // IPRO
        (0x49u8, 0x52u8, 0x49u8, 0x50u8) => Some("Ripped By"),  // IRIP
        (0x49u8, 0x52u8, 0x54u8, 0x44u8) => Some("Rating"),  // IRTD
        (0x49u8, 0x53u8, 0x47u8, 0x4Eu8) => Some("Secondary Genre"),  // ISGN
        (0x49u8, 0x53u8, 0x4Du8, 0x50u8) => Some("Time Code"),  // ISMP
        (0x49u8, 0x53u8, 0x54u8, 0x44u8) => Some("Production Studio"),  // ISTD
        (0x49u8, 0x53u8, 0x54u8, 0x52u8) => Some("Starring"),  // ISTR
        (0x49u8, 0x54u8, 0x52u8, 0x4Bu8) => Some("Track Number"),  // ITRK
        (0x49u8, 0x57u8, 0x4Du8, 0x55u8) => Some("Watermark URL"),  // IWMU
        (0x49u8, 0x57u8, 0x52u8, 0x49u8) => Some("Written By"),  // IWRI
        _ => None,
    }
}

/// The text bytes of a ZSTR body: everything before its first NUL (the
/// whole body when it has none).
pub fn zstr_bytes(body: &[u8]) -> (r: &[u8])
    ensures
        r@ == before_nul(body@),
{
    let n = nul_position(body);
    proof {
        lemma_first_nul(body@);
    }
    &body[0..n]
}

/// The text of a ZSTR body, invalid UTF-8 replaced by U+FFFD.
pub fn zstr_value(body: &[u8]) -> (r: String)
    ensures
        r@ == lossy_text(before_nul(body@)),
{
    zstr_text(body)
}

/// `INFO` as a view.
pub open spec fn info_id() -> Seq<u8> {
    seq![0x49u8, 0x4Eu8, 0x46u8, 0x4Fu8]
}

const FOURCC_INFO: [u8; 4] = [0x49, 0x4E, 0x46, 0x4F];

/// The `(tag, value)` entries that `INFO` children decode to.
pub open spec fn info_entries_of(items: Seq<([u8; 4], Seq<u8>)>) -> Seq<(InfoTag, Seq<char>)> {
    items.map_values(|it: ([u8; 4], Seq<u8>)| (InfoTag(it.0), lossy_text(before_nul(it.1))))
}

/// The first value stored under `tag`.
pub open spec fn info_get(s: Seq<(InfoTag, Seq<char>)>, tag: InfoTag) -> Option<Seq<char>>
    decreases s.len(),
{
    if s.len() == 0 {
        None
    } else if s[0].0 == tag {
        Some(s[0].1)
    } else {
        info_get(s.drop_first(), tag)
    }
}

/// The ZSTR child chunks an `INFO` list encodes to.
pub open spec fn info_children(s: Seq<(InfoTag, Seq<char>)>) -> Seq<([u8; 4], Seq<u8>)> {
    s.map_values(|p: (InfoTag, Seq<char>)| (p.0.0, encode_utf8(p.1) + seq![0u8]))
}

/// The `LIST INFO` body an `INFO` list encodes to.
pub open spec fn info_body_bytes(s: Seq<(InfoTag, Seq<char>)>) -> Seq<u8> {
    info_id() + chunks_bytes(info_children(s))
}

/// Every value's ZSTR fits a 32-bit `ckSize`.
pub open spec fn info_encodable(s: Seq<(InfoTag, Seq<char>)>) -> bool {
    forall|i: int| 0 <= i < s.len() ==> encode_utf8(#[trigger] s[i].1).len() + 1 <= u32::MAX
}

/// A decoded `LIST INFO` block: `(tag, value)` pairs in wire order,
/// duplicates and unknown codes kept.
#[derive(Clone, Debug, PartialEq, Eq)]
pub struct InfoList {
    entries: Vec<(InfoTag, String)>,
}

impl View for InfoList {
    type V = Seq<(InfoTag, Seq<char>)>;

    closed spec fn view(&self) -> Seq<(InfoTag, Seq<char>)> {
        self.entries@.map_values(|p: (InfoTag, String)| (p.0, p.1@))
    }
}

impl Default for InfoList {
    fn default() -> (r: Self)
        ensures
            r@ == Seq::<(InfoTag, Seq<char>)>::empty(),
    {
        InfoList::new()
    }
}

impl InfoList {
    /// An empty list.
    pub fn new() -> (r: Self)
        ensures
            r@ == Seq::<(InfoTag, Seq<char>)>::empty(),
    {
        let r = InfoList { entries: Vec::new() };
        assert(r@ =~= Seq::<(InfoTag, Seq<char>)>::empty());
        r
    }

    /// Add one tag chunk: its FourCC and its body, decoded as a ZSTR.
    pub fn push_chunk(&mut self, fourcc: [u8; 4], body: &[u8])
        ensures
            final(self)@ == old(self)@.push((InfoTag(fourcc), lossy_text(before_nul(body@)))),
    {
        let v = zstr_value(body);
        self.entries.push((InfoTag(fourcc), v));
        assert(self@ =~= old(self)@.push((InfoTag(fourcc), lossy_text(before_nul(body@)))));
    }

    /// Number of entries.
    pub fn len(&self) -> (r: usize)
        ensures
            r == self@.len(),
    {
        self.entries.len()
    }

    /// `true` when there are no entries.
    pub fn is_empty(&self) -> (r: bool)
        ensures
            r == (self@.len() == 0),
    {
        self.entries.len() == 0
    }

    /// All entries in wire order.
    pub fn entries(&self) -> (r: &[(InfoTag, String)])
        ensures
            r@.map_values(|p: (InfoTag, String)| (p.0, p.1@)) == self@,
    {
        self.entries.as_slice()
    }

    /// The first value stored under `tag`.
    pub fn get(&self, tag: InfoTag) -> (r: Option<&str>)
        ensures
            r is None <==> info_get(self@, tag) is None,
            r matches Some(v) ==> info_get(self@, tag) == Some(v@),
    {
        let mut i: usize = 0;
        assert(self@.subrange(0, self@.len() as int) =~= self@);
        while i < self.entries.len()
            invariant
                i <= self@.len(),
                self@.len() == self.entries@.len(),
                info_get(self@, tag) == info_get(self@.subrange(i as int, self@.len() as int), tag),
            decreases self@.len() - i,
        {
            let ghost rest = self@.subrange(i as int, self@.len() as int);
            assert(rest.drop_first() =~= self@.subrange(i + 1, self@.len() as int));
            assert(rest[0] == self@[i as int]);
            assert(self@[i as int] == (self.entries@[i as int].0, self.entries@[i as int].1@));
            if fourcc_eq(&self.entries[i].0.0, &tag.0) {
                assert(self.entries@[i as int].0.0 =~= tag.0);
                return Some(self.entries[i].1.as_str());
            }
            i += 1;
        }
        None
    }

    /// Append a `(tag, value)` entry, returning the extended list.
    pub fn push(self, tag: InfoTag, value: &str) -> (r: Self)
        ensures
            r@ == self@.push((tag, value@)),
    {
        let mut s = self;
        s.entries.push((tag, value.to_owned()));
        assert(s@ =~= self@.push((tag, value@)));
        s
    }

    /// The `LIST INFO` body: the `INFO` list type, then one ZSTR child
    /// chunk (value bytes plus a NUL) per entry, in order. Fails when a
    /// value is too long for a 32-bit `ckSize`.
    pub fn encode_list_body(&self) -> (r: Result<Vec<u8>>)
        ensures
            r is Ok <==> info_encodable(self@),
            r matches Ok(v) ==> v@ == info_body_bytes(self@),
    {
        let mut out: Vec<u8> = Vec::new();
        push_slice(&mut out, &FOURCC_INFO);
        assert(out@ =~= info_id() + chunks_bytes(info_children(self@.subrange(0, 0))));
        let mut i: usize = 0;
        while i < self.entries.len()
            invariant
                i <= self@.len(),
                self@.len() == self.entries@.len(),
                out@ == info_id() + chunks_bytes(info_children(self@.subrange(0, i as int))),
                forall|j: int| 0 <= j < i ==> encode_utf8(#[trigger] self@[j].1).len() + 1 <= u32::MAX,
            decreases self@.len() - i,
        {
            let tag = self.entries[i].0;
            let b = self.entries[i].1.as_str().as_bytes();
            let mut z = copy_range(b, 0, b.len());
            z.push(0u8);
            assert(self@[i as int] == (self.entries@[i as int].0, self.entries@[i as int].1@));
            assert(b@.subrange(0, b@.len() as int) =~= b@);
            let ghost before = out@;
            let res = encode_chunk(&mut out, &tag.0, z.as_slice());
            if res.is_err() {
                return Err(Error::invalid("RIFF: INFO value exceeds 32-bit ckSize range"));
            }
            proof {
                let f = |it: ([u8; 4], Seq<u8>)| chunk_bytes(it.0@, it.1);
                let c0 = info_children(self@.subrange(0, i as int));
                let c1 = info_children(self@.subrange(0, i + 1));
                let item = (tag.0, encode_utf8(self@[i as int].1) + seq![0u8]);
                assert(c1 =~= c0.push(item));
                assert(c1.map_values(f) =~= c0.map_values(f).push(chunk_bytes(item.0@, item.1)));
                lemma_concat_push(c0.map_values(f), chunk_bytes(item.0@, item.1));
            }
            i += 1;
        }
        assert(self@.subrange(0, self@.len() as int) =~= self@);
        Ok(out)
    }

    /// The whole `LIST INFO` chunk: a `LIST` header around
    /// [`InfoList::encode_list_body`].
    pub fn encode_chunk(&self) -> (r: Result<Vec<u8>>)
        ensures
            r is Ok <==> (info_encodable(self@) && info_body_bytes(self@).len() <= u32::MAX),
            r matches Ok(v) ==> v@ == chunk_bytes(list_id(), info_body_bytes(self@)),
    {
        let body = self.encode_list_body()?;
        let mut out: Vec<u8> = Vec::new();
        encode_chunk(&mut out, &FOURCC_LIST, body.as_slice())?;
        proof {
            assert(FOURCC_LIST@ =~= list_id());
            assert(out@ =~= chunk_bytes(list_id(), info_body_bytes(self@)));
        }
        Ok(out)
    }

    /// Read every child of a walker over a `LIST INFO` body and decode
    /// each as a ZSTR tag. Fails when the walker's list type is not
    /// `INFO`, or when a child cannot be read.
    pub fn collect_from(walker: &mut Walker) -> (r: Result<InfoList>)
        ensures
            final(walker).same_parent(old(walker)),
            r is Ok <==> (old(walker).spec_form_type()@ == info_id() && walker_items(*old(walker))
                is Some),
            r matches Ok(l) ==> (walker_items(*old(walker)) matches Some(items) && l@
                == info_entries_of(items)),
    {
        let ft = walker.form_type();
        proof {
            assert(FOURCC_INFO@ =~= info_id());
        }
        if !fourcc_eq(&ft, &FOURCC_INFO) {
            return Err(Error::invalid("RIFF: collect_from called on a non-INFO LIST"));
        }
        let children = read_children(walker)?;
        let ghost items = children@.map_values(|p: ([u8; 4], Vec<u8>)| (p.0, p.1@));
        let mut list = InfoList::new();
        let mut i: usize = 0;
        while i < children.len()
            invariant
                i <= children@.len(),
                items == children@.map_values(|p: ([u8; 4], Vec<u8>)| (p.0, p.1@)),
                list@ == info_entries_of(items.subrange(0, i as int)),
            decreases children@.len() - i,
        {
            list.push_chunk(children[i].0, children[i].1.as_slice());
            proof {
                assert(items.subrange(0, i + 1) =~= items.subrange(0, i as int).push(items[i as int]));
                assert(info_entries_of(items.subrange(0, i + 1)) =~= info_entries_of(
                    items.subrange(0, i as int),
                ).push((InfoTag(children@[i as int].0), lossy_text(before_nul(children@[i as int].1@)))));
            }
            i += 1;
        }
        assert(items.subrange(0, items.len() as int) =~= items);
        Ok(list)
    }
}

/// An `INFO` list whose values contain no NUL character encodes to a
/// body whose children decode back to the same list: what
/// [`InfoList::encode_list_body`] writes, [`InfoList::collect_from`]
/// reads back.
pub proof fn lemma_info_encode_collect(s: Seq<(InfoTag, Seq<char>)>)
    requires
        info_encodable(s),
        forall|i: int, j: int| 0 <= i < s.len() && 0 <= j < s[i].1.len() ==> #[trigger] s[i].1[j] != '\0',
    ensures
        walk_items(info_body_bytes(s), 4, info_body_bytes(s).len() - 4) == Some(info_children(s)),
        info_entries_of(info_children(s)) == s,
{
    let b = info_body_bytes(s);
    let c = info_children(s);
    let cb = chunks_bytes(c);
    assert(b.subrange(4, 4 + cb.len() as int) =~= cb);
    assert forall|i: int| 0 <= i < c.len() implies (#[trigger] c[i]).1.len() <= u32::MAX by {
        assert(c[i].1.len() == encode_utf8(s[i].1).len() + 1);
    }
    lemma_walk_encoded(b, 4, c);
    let e = info_entries_of(c);
    assert forall|i: int| 0 <= i < s.len() implies #[trigger] e[i] == s[i] by {
        assert forall|j: int| 0 <= j < s[i].1.len() implies s[i].1[j] != '\0' by {
            assert(s[i].1[j] != '\0');
        }
        lemma_zstr_text_roundtrip(s[i].1);
    }
    assert(e =~= s);
}

/// End to end: a walker opened on the `LIST INFO` body that
/// [`InfoList::encode_list_body`] writes for a list whose values contain
/// no NUL (the `INFO` type already consumed, the body's length as its
/// budget) has exactly the list's ZSTR children left to read, and they
/// decode back to the list, so [`InfoList::collect_from`] on it returns
/// the list: wire order, duplicate tags and unknown codes kept.
pub proof fn lemma_info_collect_encoded<'a>(s: Seq<(InfoTag, Seq<char>)>, w: Walker<'a>)
    requires
        info_encodable(s),
        forall|i: int, j: int| 0 <= i < s.len() && 0 <= j < s[i].1.len() ==> #[trigger] s[i].1[j] != '\0',
        w.spec_form_type()@ == info_id(),
        w.spec_consumed() == 4,
        w.spec_payload_len() == info_body_bytes(s).len(),
        4 <= w.spec_pos(),
        w.spec_pos() - 4 + info_body_bytes(s).len() <= w.spec_data().len(),
        w.spec_data().subrange(w.spec_pos() - 4, w.spec_pos() - 4 + info_body_bytes(s).len())
            == info_body_bytes(s),
    ensures
        walker_items(w) == Some(info_children(s)),
        info_entries_of(info_children(s)) == s,
{
    let b = info_body_bytes(s);
    let c = info_children(s);
    let cb = chunks_bytes(c);
    let d = w.spec_data();
    let pos = w.spec_pos() as int;
    lemma_info_encode_collect(s);
    assert(d.subrange(pos, pos + cb.len()) =~= cb) by {
        assert forall|k: int| 0 <= k < cb.len() implies d.subrange(pos, pos + cb.len())[k]
            == cb[k] by {
            assert(d.subrange(pos - 4, pos - 4 + b.len())[k + 4] == b[k + 4]);
        }
    }
    assert forall|i: int| 0 <= i < c.len() implies (#[trigger] c[i]).1.len() <= u32::MAX by {
        assert(c[i].1.len() == encode_utf8(s[i].1).len() + 1);
    }
    lemma_walk_encoded(d, pos, c);
}

/// A value appended with [`InfoList::push`] is what [`InfoList::get`]
/// returns for its tag, unless the list already held that tag (the
/// first entry wins); every other tag reads as before.
pub proof fn lemma_info_get_after_push(
    s: Seq<(InfoTag, Seq<char>)>,
    tag: InfoTag,
    value: Seq<char>,
    other: InfoTag,
)
    requires
        other != tag,
    ensures
        info_get(s.push((tag, value)), tag) == (match info_get(s, tag) {
            Some(v) => Some(v),
            None => Some(value),
        }),
        info_get(s.push((tag, value)), other) == info_get(s, other),
    decreases s.len(),
{
    if s.len() == 0 {
        assert(s.push((tag, value))[0] == (tag, value));
        assert(s.push((tag, value)).drop_first() =~= Seq::<(InfoTag, Seq<char>)>::empty());
        assert(info_get(Seq::<(InfoTag, Seq<char>)>::empty(), other) is None);
    } else {
        lemma_info_get_after_push(s.drop_first(), tag, value, other);
        assert(s.push((tag, value))[0] == s[0]);
        assert(s.push((tag, value)).drop_first() =~= s.drop_first().push((tag, value)));
    }
}

} // verus!
