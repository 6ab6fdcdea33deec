//! The `LIST adtl` associated-data list.
//!
//! Each child of an `adtl` list attaches data to a cue point by its
//! `dwName`:
//!
//! ```text
//! labl( dwName ZSTR )          note( dwName ZSTR )
//! ltxt( dwName dwSampleLength dwPurpose wCountry wLanguage wDialect
//!       wCodePage data... )
//! file( dwName dwMedType data... )
//! ```
//!
//! Unknown children are kept verbatim.
use vstd::prelude::*;

use crate::chunk::fourcc_eq;
use crate::error::{Error, Result};
use crate::le::{copy_range, le_u16, le_u32, read_u16, read_u32};
use crate::text::{before_nul, lossy_text, zstr_text};
use crate::walk::{read_children, walker_items, Walker};

verus! {

/// List type of the associated-data list (`adtl`).
pub const FOURCC_ADTL: [u8; 4] = [0x61, 0x64, 0x74, 0x6C];

/// Label child (`labl`).
pub const FOURCC_LABL: [u8; 4] = [0x6C, 0x61, 0x62, 0x6C];

/// Note child (`note`).
pub const FOURCC_NOTE: [u8; 4] = [0x6E, 0x6F, 0x74, 0x65];

/// Labelled-text child (`ltxt`).
pub const FOURCC_LTXT: [u8; 4] = [0x6C, 0x74, 0x78, 0x74];

/// Embedded-file child (`file`).
pub const FOURCC_FILE: [u8; 4] = [0x66, 0x69, 0x6C, 0x65];

/// Size of the fixed `ltxt` prefix.
pub const LTXT_PREFIX_LEN: usize = 20;

/// Size of the fixed `file` prefix.
pub const FILE_PREFIX_LEN: usize = 8;

/// `adtl` as a view.
pub open spec fn adtl_id() -> Seq<u8> {
    seq![0x61u8, 0x64u8, 0x74u8, 0x6Cu8]
}

/// `labl` as a view.
pub open spec fn labl_id() -> Seq<u8> {
    seq![0x6Cu8, 0x61u8, 0x62u8, 0x6Cu8]
}

/// `note` as a view.
pub open spec fn note_id() -> Seq<u8> {
    seq![0x6Eu8, 0x6Fu8, 0x74u8, 0x65u8]
}

/// `ltxt` as a view.
pub open spec fn ltxt_id() -> Seq<u8> {
    seq![0x6Cu8, 0x74u8, 0x78u8, 0x74u8]
}

/// `file` as a view.
pub open spec fn file_id() -> Seq<u8> {
    seq![0x66u8, 0x69u8, 0x6Cu8, 0x65u8]
}

/// The content of an `ltxt` child.
pub struct LabeledTextModel {
    pub name: u32,
    pub sample_length: u32,
    pub purpose: [u8; 4],
    pub country: u16,
    pub language: u16,
    pub dialect: u16,
    pub code_page: u16,
    pub text: Seq<u8>,
}

/// A decoded `ltxt` child.
#[derive(Clone, Debug, Default, PartialEq, Eq)]
pub struct LabeledText {
    /// The cue point the text belongs to.
    pub name: u32,
    /// Number of samples the text spans.
    pub sample_length: u32,
    /// FourCC purpose of the text.
    pub purpose: [u8; 4],
    /// Country code.
    pub country: u16,
    /// Language code.
    pub language: u16,
    /// Dialect.
    pub dialect: u16,
    /// Code page of the text.
    pub code_page: u16,
    /// The text bytes, verbatim.
    pub text: Vec<u8>,
}

impl View for LabeledText {
    type V = LabeledTextModel;

    open spec fn view(&self) -> LabeledTextModel {
        LabeledTextModel {
            name: self.name,
            sample_length: self.sample_length,
            purpose: self.purpose,
            country: self.country,
            language: self.language,
            dialect: self.dialect,
            code_page: self.code_page,
            text: self.text@,
        }
    }
}

/// The content of an `ltxt` body of at least 20 bytes.
pub open spec fn ltxt_model_of(b: Seq<u8>) -> LabeledTextModel {
    LabeledTextModel {
        name: le_u32(b, 0),
        sample_length: le_u32(b, 4),
        purpose: [b[8], b[9], b[10], b[11]],
        country: le_u16(b, 12),
        language: le_u16(b, 14),
        dialect: le_u16(b, 16),
        code_page: le_u16(b, 18),
        text: b.subrange(20, b.len() as int),
    }
}

impl LabeledText {
    /// Decode an `ltxt` body; it must hold the 20-byte prefix.
    pub fn parse(body: &[u8]) -> (r: Result<Self>)
        ensures
            r is Ok <==> body@.len() >= LTXT_PREFIX_LEN,
            r matches Ok(l) ==> l@ == ltxt_model_of(body@),
    {
        if body.len() < LTXT_PREFIX_LEN {
            return Err(Error::invalid("RIFF: ltxt chunk shorter than 20-byte prefix"));
        }
        Ok(
            LabeledText {
                name: read_u32(body, 0),
                sample_length: read_u32(body, 4),
                purpose: [body[8], body[9], body[10], body[11]],
                country: read_u16(body, 12),
                language: read_u16(body, 14),
                dialect: read_u16(body, 16),
                code_page: read_u16(body, 18),
                text: copy_range(body, LTXT_PREFIX_LEN, body.len()),
            },
        )
    }
}

/// The content of a `file` child.
pub struct EmbeddedFileModel {
    pub name: u32,
    pub med_type: u32,
    pub data: Seq<u8>,
}

/// A decoded `file` child.
#[derive(Clone, Debug, Default, PartialEq, Eq)]
pub struct EmbeddedFile {
    /// The cue point the file belongs to.
    pub name: u32,
    /// FourCC media type.
    pub med_type: u32,
    /// The file bytes.
    pub data: Vec<u8>,
}

impl View for EmbeddedFile {
    type V = EmbeddedFileModel;

    open spec fn view(&self) -> EmbeddedFileModel {
        EmbeddedFileModel { name: self.name, med_type: self.med_type, data: self.data@ }
    }
}

impl EmbeddedFile {
    /// Decode a `file` body; it must hold the 8-byte prefix.
    pub fn parse(body: &[u8]) -> (r: Result<Self>)
        ensures
            r is Ok <==> body@.len() >= FILE_PREFIX_LEN,
            r matches Ok(f) ==> f@ == (EmbeddedFileModel {
                name: le_u32(body@, 0),
                med_type: le_u32(body@, 4),
                data: body@.subrange(8, body@.len() as int),
            }),
    {
        if body.len() < FILE_PREFIX_LEN {
            return Err(Error::invalid("RIFF: file chunk shorter than 8-byte prefix"));
        }
        Ok(
            EmbeddedFile {
                name: read_u32(body, 0),
                med_type: read_u32(body, 4),
                data: copy_range(body, FILE_PREFIX_LEN, body.len()),
            },
        )
    }
}

/// The content of an `adtl` child.
pub enum AdtlEntryModel {
    Label { name: u32, text: Seq<char> },
    Note { name: u32, text: Seq<char> },
    LabeledText(LabeledTextModel),
    File(EmbeddedFileModel),
    Other { fourcc: [u8; 4], body: Seq<u8> },
}

/// One decoded `adtl` child.
#[derive(Clone, Debug, PartialEq, Eq)]
pub enum AdtlEntry {
    /// `labl`: a cue point's label.
    Label {
        /// The cue point.
        name: u32,
        /// The label text.
        text: String,
    },
    /// `note`: a comment on a cue point.
    Note {
        /// The cue point.
        name: u32,
        /// The note text.
        text: String,
    },
    /// `ltxt`: text bound to a span of samples.
    LabeledText(LabeledText),
    /// `file`: an embedded file.
    File(EmbeddedFile),
    /// Any other child, verbatim.
    Other {
        /// The child's FourCC.
        fourcc: [u8; 4],
        /// The child's body.
        body: Vec<u8>,
    },
}

impl View for AdtlEntry {
    type V = AdtlEntryModel;

    open spec fn view(&self) -> AdtlEntryModel {
        match self {
            AdtlEntry::Label { name, text } => AdtlEntryModel::Label { name: *name, text: text@ },
            AdtlEntry::Note { name, text } => AdtlEntryModel::Note { name: *name, text: text@ },
            AdtlEntry::LabeledText(l) => AdtlEntryModel::LabeledText(l@),
            AdtlEntry::File(f) => AdtlEntryModel::File(f@),
            AdtlEntry::Other { fourcc, body } => AdtlEntryModel::Other {
                fourcc: *fourcc,
                body: body@,
            },
        }
    }
}

/// The decoded content of an `adtl` child, or `None` when a `labl` /
/// `note` body is shorter than its 4-byte `dwName`, an `ltxt` body than
/// its 20-byte prefix, or a `file` body than its 8-byte prefix.
pub open spec fn adtl_entry_of(fourcc: [u8; 4], b: Seq<u8>) -> Option<AdtlEntryModel> {
    if fourcc@ == labl_id() || fourcc@ == note_id() {
        if b.len() < 4 {
            None
        } else {
            let name = le_u32(b, 0);
            let text = lossy_text(before_nul(b.subrange(4, b.len() as int)));
            if fourcc@ == labl_id() {
                Some(AdtlEntryModel::Label { name, text })
            } else {
                Some(AdtlEntryModel::Note { name, text })
            }
        }
    } else if fourcc@ == ltxt_id() {
        if b.len() < 20 {
            None
        } else {
            Some(AdtlEntryModel::LabeledText(ltxt_model_of(b)))
        }
    } else if fourcc@ == file_id() {
        if b.len() < 8 {
            None
        } else {
            Some(
                AdtlEntryModel::File(
                    EmbeddedFileModel {
                        name: le_u32(b, 0),
                        med_type: le_u32(b, 4),
                        data: b.subrange(8, b.len() as int),
                    },
                ),
            )
        }
    } else {
        Some(AdtlEntryModel::Other { fourcc, body: b })
    }
}

/// The cue point an entry refers to (`None` for an unknown child).
pub open spec fn entry_cue_name(e: AdtlEntryModel) -> Option<u32> {
    match e {
        AdtlEntryModel::Label { name, .. } => Some(name),
        AdtlEntryModel::Note { name, .. } => Some(name),
        AdtlEntryModel::LabeledText(l) => Some(l.name),
        AdtlEntryModel::File(f) => Some(f.name),
        AdtlEntryModel::Other { .. } => None,
    }
}

impl AdtlEntry {
    /// Decode one `adtl` child; see [`adtl_entry_of`] for when it fails.
    pub fn parse(fourcc: [u8; 4], body: &[u8]) -> (r: Result<Self>)
        ensures
            r is Ok <==> adtl_entry_of(fourcc, body@) is Some,
            r matches Ok(e) ==> adtl_entry_of(fourcc, body@) == Some(e@),
    {
        proof {
            assert(FOURCC_LABL@ =~= labl_id());
            assert(FOURCC_NOTE@ =~= note_id());
            assert(FOURCC_LTXT@ =~= ltxt_id());
            assert(FOURCC_FILE@ =~= file_id());
        }
        let is_labl = fourcc_eq(&fourcc, &FOURCC_LABL);
        if is_labl || fourcc_eq(&fourcc, &FOURCC_NOTE) {
            if body.len() < 4 {
                return Err(Error::invalid("RIFF: labl/note chunk shorter than 4-byte dwName"));
            }
            let name = read_u32(body, 0);
            let text = zstr_text(&body[4..body.len()]);
            if is_labl {
                Ok(AdtlEntry::Label { name, text })
            } else {
                Ok(AdtlEntry::Note { name, text })
            }
        } else if fourcc_eq(&fourcc, &FOURCC_LTXT) {
            Ok(AdtlEntry::LabeledText(LabeledText::parse(body)?))
        } else if fourcc_eq(&fourcc, &FOURCC_FILE) {
            Ok(AdtlEntry::File(EmbeddedFile::parse(body)?))
        } else {
            let b = copy_range(body, 0, body.len());
            assert(b@ =~= body@);
            Ok(AdtlEntry::Other { fourcc, body: b })
        }
    }

    /// The cue point this entry refers to.
    pub fn cue_name(&self) -> (r: Option<u32>)
        ensures
            r == entry_cue_name(self@),
            r is None <==> self@ is Other,
    {
        match self {
            AdtlEntry::Label { name, .. } => Some(*name),
            AdtlEntry::Note { name, .. } => Some(*name),
            AdtlEntry::LabeledText(l) => Some(l.name),
            AdtlEntry::File(f) => Some(f.name),
            AdtlEntry::Other { .. } => None,
        }
    }
}

/// The entries of `s` that refer to cue point `name`, in order.
pub open spec fn entries_for_cue(s: Seq<AdtlEntryModel>, name: u32) -> Seq<AdtlEntryModel>
    decreases s.len(),
{
    if s.len() == 0 {
        Seq::empty()
    } else if entry_cue_name(s.last()) == Some(name) {
        entries_for_cue(s.drop_last(), name).push(s.last())
    } else {
        entries_for_cue(s.drop_last(), name)
    }
}

/// Every known child kind (`labl`, `note`, `ltxt`, `file`) refers to the
/// cue point stored in the first four bytes of its body, its `dwName`;
/// any other child refers to none.
pub proof fn lemma_cue_name_of_decoded(fourcc: [u8; 4], b: Seq<u8>)
    requires
        adtl_entry_of(fourcc, b) is Some,
    ensures
        entry_cue_name(adtl_entry_of(fourcc, b)->0) == (if fourcc@ == labl_id() || fourcc@
            == note_id() || fourcc@ == ltxt_id() || fourcc@ == file_id() {
            Some(le_u32(b, 0))
        } else {
            None
        }),
{
}

/// Only an unknown child has no cue point.
pub proof fn lemma_cue_name_none_only_other(e: AdtlEntryModel)
    ensures
        entry_cue_name(e) is None <==> e is Other,
{
}

/// The predicate "the entry refers to cue point `name`".
pub open spec fn refers_to(name: u32) -> spec_fn(AdtlEntryModel) -> bool {
    |e: AdtlEntryModel| entry_cue_name(e) == Some(name)
}

/// The entries for a cue point are exactly the entries that refer to it,
/// in their original order; so an entry is among them exactly when it is
/// in the list and refers to that cue point.
pub proof fn lemma_entries_for_cue_filter(s: Seq<AdtlEntryModel>, name: u32)
    ensures
        entries_for_cue(s, name) == s.filter(refers_to(name)),
        forall|e: AdtlEntryModel|
            #[trigger] entries_for_cue(s, name).contains(e) <==> (s.contains(e) && entry_cue_name(e)
                == Some(name)),
    decreases s.len(),
{
    reveal(Seq::filter);
    if s.len() > 0 {
        lemma_entries_for_cue_filter(s.drop_last(), name);
    }
    let f = s.filter(refers_to(name));
    assert(entries_for_cue(s, name) == f);
    assert forall|e: AdtlEntryModel|
        #[trigger] f.contains(e) <==> (s.contains(e) && entry_cue_name(e) == Some(name)) by {
        if s.contains(e) && entry_cue_name(e) == Some(name) {
            let k = choose|k: int| 0 <= k < s.len() && s[k] == e;
            s.lemma_filter_contains(refers_to(name), k);
        }
        if f.contains(e) {
            s.lemma_filter_contains_rev(refers_to(name), e);
            let k = choose|k: int| 0 <= k < f.len() && f[k] == e;
            s.lemma_filter_pred(refers_to(name), k);
        }
    }
}

/// The text of the first label (`is_note` false) or note (`is_note`
/// true) for cue point `name`.
pub open spec fn first_text(s: Seq<AdtlEntryModel>, name: u32, is_note: bool) -> Option<Seq<char>>
    decreases s.len(),
{
    if s.len() == 0 {
        None
    } else {
        match s[0] {
            AdtlEntryModel::Label { name: n, text } if !is_note && n == name => Some(text),
            AdtlEntryModel::Note { name: n, text } if is_note && n == name => Some(text),
            _ => first_text(s.drop_first(), name, is_note),
        }
    }
}

/// The decoded children, or `None` when one of them fails to decode.
pub open spec fn adtl_entries_of(items: Seq<([u8; 4], Seq<u8>)>) -> Option<Seq<AdtlEntryModel>>
    decreases items.len(),
{
    if items.len() == 0 {
        Some(Seq::empty())
    } else {
        match (adtl_entries_of(items.drop_last()), adtl_entry_of(items.last().0, items.last().1)) {
            (Some(es), Some(e)) => Some(es.push(e)),
            _ => None,
        }
    }
}

/// A decoded `LIST adtl`: its entries in wire order.
#[derive(Clone, Debug, PartialEq, Eq)]
pub struct AdtlList {
    entries: Vec<AdtlEntry>,
}

impl View for AdtlList {
    type V = Seq<AdtlEntryModel>;

    closed spec fn view(&self) -> Seq<AdtlEntryModel> {
        self.entries@.map_values(|e: AdtlEntry| e@)
    }
}

impl Default for AdtlList {
    fn default() -> (r: Self)
        ensures
            r@ == Seq::<AdtlEntryModel>::empty(),
    {
        AdtlList::new()
    }
}

impl AdtlList {
    /// An empty list.
    pub fn new() -> (r: Self)
        ensures
            r@ == Seq::<AdtlEntryModel>::empty(),
    {
        let r = AdtlList { entries: Vec::new() };
        assert(r@ =~= Seq::<AdtlEntryModel>::empty());
        r
    }

    /// Decode one child and append it; on failure the list is unchanged.
    pub fn push_chunk(&mut self, fourcc: [u8; 4], body: &[u8]) -> (r: Result<()>)
        ensures
            r is Ok <==> adtl_entry_of(fourcc, body@) is Some,
            r is Ok ==> final(self)@ == old(self)@.push(adtl_entry_of(fourcc, body@)->0),
            r is Err ==> final(self)@ == old(self)@,
    {
        let e = AdtlEntry::parse(fourcc, body)?;
        self.entries.push(e);
        assert(self@ =~= old(self)@.push(adtl_entry_of(fourcc, body@)->0));
        Ok(())
    }

    /// All entries in wire order.
    pub fn entries(&self) -> (r: &[AdtlEntry])
        ensures
            r@.map_values(|e: AdtlEntry| e@) == self@,
    {
        self.entries.as_slice()
    }

    /// Number of entries.
    pub fn len(&self) -> (r: usize)
        ensures
            r == self@.len(),
    {
        self.entries.len()
    }

    /// `true` when there are no entries.
    pub fn is_empty(&self) -> (r: bool)
        ensures
            r == (self@.len() == 0),
    {
        self.entries.len() == 0
    }

    /// The entries that refer to cue point `name`, in order.
    pub fn by_cue_name(&self, name: u32) -> (r: Vec<&AdtlEntry>)
        ensures
            r@.map_values(|e: &AdtlEntry| e@) == entries_for_cue(self@, name),
    {
        let mut out: Vec<&AdtlEntry> = Vec::new();
        let mut i: usize = 0;
        while i < self.entries.len()
            invariant
                i <= self@.len(),
                self@.len() == self.entries@.len(),
                out@.map_values(|e: &AdtlEntry| e@) == entries_for_cue(
                    self@.subrange(0, i as int),
                    name,
                ),
            decreases self@.len() - i,
        {
            let e = &self.entries[i];
            proof {
                assert(self@.subrange(0, i + 1).drop_last() =~= self@.subrange(0, i as int));
                assert(self@.subrange(0, i + 1).last() == e@);
            }
            let ghost before = out@.map_values(|e: &AdtlEntry| e@);
            if e.cue_name() == Some(name) {
                out.push(e);
                assert(out@.map_values(|e: &AdtlEntry| e@) =~= before.push(e@));
            }
            i += 1;
        }
        assert(self@.subrange(0, self@.len() as int) =~= self@);
        out
    }

    fn first_text_of(&self, name: u32, is_note: bool) -> (r: Option<&str>)
        ensures
            r is None <==> first_text(self@, name, is_note) is None,
            r matches Some(t) ==> first_text(self@, name, is_note) == Some(t@),
    {
        let mut i: usize = 0;
        assert(self@.subrange(0, self@.len() as int) =~= self@);
        while i < self.entries.len()
            invariant
                i <= self@.len(),
                self@.len() == self.entries@.len(),
                first_text(self@, name, is_note) == first_text(
                    self@.subrange(i as int, self@.len() as int),
                    name,
                    is_note,
                ),
            decreases self@.len() - i,
        {
            let ghost rest = self@.subrange(i as int, self@.len() as int);
            assert(rest.drop_first() =~= self@.subrange(i + 1, self@.len() as int));
            assert(rest[0] == self.entries@[i as int]@);
            match &self.entries[i] {
                AdtlEntry::Label { name: n, text } => {
                    if !is_note && *n == name {
                        return Some(text.as_str());
                    }
                },
                AdtlEntry::Note { name: n, text } => {
                    if is_note && *n == name {
                        return Some(text.as_str());
                    }
                },
                _ => {},
            }
            i += 1;
        }
        None
    }

    /// The text of the first label for cue point `name`.
    pub fn label(&self, name: u32) -> (r: Option<&str>)
        ensures
            r is None <==> first_text(self@, name, false) is None,
            r matches Some(t) ==> first_text(self@, name, false) == Some(t@),
    {
        self.first_text_of(name, false)
    }

    /// The text of the first note for cue point `name`.
    pub fn note(&self, name: u32) -> (r: Option<&str>)
        ensures
            r is None <==> first_text(self@, name, true) is None,
            r matches Some(t) ==> first_text(self@, name, true) == Some(t@),
    {
        self.first_text_of(name, true)
    }

    /// Read and decode every child of a walker over a `LIST adtl` body.
    /// Fails when the walker's list type is not `adtl`, when a child
    /// cannot be read, or when a child fails to decode.
    pub fn collect_from(walker: &mut Walker) -> (r: Result<AdtlList>)
        ensures
            final(walker).same_parent(old(walker)),
            r is Ok <==> (old(walker).spec_form_type()@ == adtl_id() && (walker_items(*old(walker))
                matches Some(items) && adtl_entries_of(items) is Some)),
            r matches Ok(l) ==> (walker_items(*old(walker)) matches Some(items)
                && adtl_entries_of(items) == Some(l@)),
    {
        let ft = walker.form_type();
        proof {
            assert(FOURCC_ADTL@ =~= adtl_id());
        }
        if !fourcc_eq(&ft, &FOURCC_ADTL) {
            return Err(Error::invalid("RIFF: collect_from called on a non-adtl LIST"));
        }
        let children = read_children(walker)?;
        let ghost items = children@.map_values(|p: ([u8; 4], Vec<u8>)| (p.0, p.1@));
        let mut list = AdtlList::new();
        let mut i: usize = 0;
        while i < children.len()
            invariant
                i <= children@.len(),
                items == children@.map_values(|p: ([u8; 4], Vec<u8>)| (p.0, p.1@)),
                walker.same_parent(old(walker)),
                walker_items(*old(walker)) == Some(items),
                adtl_entries_of(items.subrange(0, i as int)) == Some(list@),
            decreases children@.len() - i,
        {
            proof {
                assert(items.subrange(0, i + 1).drop_last() =~= items.subrange(0, i as int));
            }
            let res = list.push_chunk(children[i].0, children[i].1.as_slice());
            if res.is_err() {
                proof {
                    lemma_entries_of_extend_none(items, i as int);
                }
                return Err(Error::invalid("RIFF: adtl child fails to decode"));
            }
            i += 1;
        }
        assert(items.subrange(0, items.len() as int) =~= items);
        Ok(list)
    }
}

/// If a child fails to decode, the whole list fails.
proof fn lemma_entries_of_extend_none(items: Seq<([u8; 4], Seq<u8>)>, i: int)
    requires
        0 <= i < items.len(),
        adtl_entries_of(items.subrange(0, i + 1)) is None,
    ensures
        adtl_entries_of(items) is None,
    decreases items.len() - i,
{
    if i + 1 < items.len() {
        assert(items.subrange(0, i + 2).drop_last() =~= items.subrange(0, i + 1));
        lemma_entries_of_extend_none(items, i + 1);
    } else {
        assert(items.subrange(0, i + 1) =~= items);
    }
}

} // verus!
