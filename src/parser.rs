use vstd::prelude::*;

use crate::entries::{
    entries_from, entries_view, lemma_stream_count, meets_unnamed, read_entries, EntryModel,
    MetalLibraryEntry,
};
use crate::source::{fits, le_at, window, ByteSource, DecodeError};

verus! {

/// Where a container keeps its entry index and its bodies.
#[derive(Debug, Clone, Copy, PartialEq, Eq, Structural)]
pub struct HeaderInformation {
    /// Absolute offset of the first entry-header record.
    pub entry_headers_offset: u64,
    /// Absolute offset of the section that holds the entry bodies.
    pub entry_bodies_offset: u64,
    /// The number of entries that the container declares.
    pub number_of_entries: u32,
}

/// The four bytes that open every container: `MTLB`.
pub open spec fn magic() -> Seq<u8> {
    seq![0x4du8, 0x54u8, 0x4cu8, 0x42u8]
}

/// Absolute offset of the field that points at the entry count.
pub const ENTRY_COUNT_POINTER_AT: u64 = 0x18;

/// Absolute offset of the field that points at the entry bodies.
pub const ENTRY_BODIES_POINTER_AT: u64 = 0x48;

/// The header of the container `data`: the entry count lies where the `u32`
/// at `ENTRY_COUNT_POINTER_AT` points, the first record just after it, and the
/// bodies where the `u32` at `ENTRY_BODIES_POINTER_AT` points.
pub open spec fn header_of(data: Seq<u8>) -> Result<HeaderInformation, DecodeError> {
    if !fits(data, ENTRY_COUNT_POINTER_AT as int, 4) || !fits(data, ENTRY_BODIES_POINTER_AT as int, 4) {
        Err(DecodeError::UnexpectedEof)
    } else {
        let count_at = le_at(data, ENTRY_COUNT_POINTER_AT as int, 4) as int;
        if !fits(data, count_at, 4) {
            Err(DecodeError::UnexpectedEof)
        } else {
            Ok(
                HeaderInformation {
                    entry_headers_offset: (count_at + 4) as u64,
                    entry_bodies_offset: le_at(data, ENTRY_BODIES_POINTER_AT as int, 4) as u64,
                    number_of_entries: le_at(data, count_at, 4) as u32,
                },
            )
        }
    }
}

impl HeaderInformation {
    /// Decodes the header of the container in `source`; the cursor is left at
    /// the first entry-header record.
    pub fn from_reader(source: &mut ByteSource) -> (r: Result<HeaderInformation, DecodeError>)
        ensures
            final(source).data() == old(source).data(),
            r == header_of(old(source).data()),
            r is Ok ==> final(source).pos() == r->Ok_0.entry_headers_offset,
    {
        source.seek(ENTRY_COUNT_POINTER_AT);
        let count_at = source.read_u32_le()? as u64;
        source.seek(ENTRY_BODIES_POINTER_AT);
        let bodies_at = source.read_u32_le()? as u64;
        source.seek(count_at);
        let number_of_entries = source.read_u32_le()?;
        Ok(
            HeaderInformation {
                entry_headers_offset: count_at + 4,
                entry_bodies_offset: bodies_at,
                number_of_entries,
            },
        )
    }
}

/// The decoded entry index of a container: its header and its entry summaries
/// in the order of the file.
#[derive(Debug)]
pub struct MetalLibrary {
    pub header: HeaderInformation,
    pub entry_stubs: Vec<MetalLibraryEntry>,
}

/// What a decoded library holds.
pub struct LibraryModel {
    pub header: HeaderInformation,
    pub entries: Seq<EntryModel>,
}

impl View for MetalLibrary {
    type V = LibraryModel;

    open spec fn view(&self) -> LibraryModel {
        LibraryModel { header: self.header, entries: entries_view(self.entry_stubs@) }
    }
}

/// The library of the container `data`: its header, and the entry stream
/// drained from the first record, asked for as many entries as the header declares.
pub open spec fn library_of(data: Seq<u8>) -> Result<LibraryModel, DecodeError> {
    match header_of(data) {
        Err(e) => Err(e),
        Ok(h) => match entries_from(
            data,
            h.entry_headers_offset as int,
            h.number_of_entries as nat,
        ) {
            Err(e) => Err(e),
            Ok(entries) => Ok(LibraryModel { header: h, entries }),
        },
    }
}

/// The library of a container holds as many entries as its header declares,
/// or fewer only when the entry stream met a record without a name; never more.
pub proof fn lemma_library_count(data: Seq<u8>)
    requires
        library_of(data) is Ok,
    ensures
        library_of(data)->Ok_0.entries.len() <= library_of(data)->Ok_0.header.number_of_entries,
        library_of(data)->Ok_0.entries.len() < library_of(data)->Ok_0.header.number_of_entries
            <==> meets_unnamed(
            data,
            library_of(data)->Ok_0.header.entry_headers_offset as int,
            library_of(data)->Ok_0.header.number_of_entries as nat,
        ),
{
    let h = header_of(data)->Ok_0;
    lemma_stream_count(data, h.entry_headers_offset as int, h.number_of_entries as nat);
}

impl MetalLibrary {
    /// A library with `header` and the given entries, or none yet, with room
    /// for as many as the header declares.
    pub fn create(header: HeaderInformation, entries: Option<Vec<MetalLibraryEntry>>) -> (r: Self)
        ensures
            r@.header == header,
            r@.entries == match entries {
                Some(v) => entries_view(v@),
                None => Seq::<EntryModel>::empty(),
            },
    {
        let entry_stubs = match entries {
            Some(v) => v,
            None => {
                let v: Vec<MetalLibraryEntry> = Vec::with_capacity(header.number_of_entries as usize);
                proof {
                    assert(entries_view(v@) =~= Seq::<EntryModel>::empty());
                }
                v
            },
        };
        MetalLibrary { header, entry_stubs }
    }

    /// The index of the first entry named `name`, if any entry has that name.
    pub fn find_entry(&self, name: &str) -> (r: Option<usize>)
        ensures
            match r {
                Some(i) => {
                    &&& i < self@.entries.len()
                    &&& self@.entries[i as int].name == name@
                    &&& forall|j: int| 0 <= j < i ==> self@.entries[j].name != name@
                },
                None => forall|j: int| 0 <= j < self@.entries.len() ==> self@.entries[j].name != name@,
            },
    {
        let wanted = name.to_owned();
        let mut i: usize = 0;
        while i < self.entry_stubs.len()
            invariant
                wanted@ == name@,
                i <= self.entry_stubs@.len(),
                forall|j: int| 0 <= j < i ==> self@.entries[j].name != name@,
            decreases self.entry_stubs@.len() - i,
        {
            if self.entry_stubs[i].name == wanted {
                return Some(i);
            }
            i = i + 1;
        }
        None
    }
}

/// How far a `Parser` has read its container.
pub enum ParsingState {
    /// Nothing has been read yet.
    Initial,
    /// The header has been read.
    Header(HeaderInformation),
    /// The entry index has been read.
    EntryStubs(MetalLibrary),
}

/// What a parser has read so far.
pub enum StageModel {
    Initial,
    Header(HeaderInformation),
    EntryStubs(LibraryModel),
}

impl View for ParsingState {
    type V = StageModel;

    open spec fn view(&self) -> StageModel {
        match self {
            ParsingState::Initial => StageModel::Initial,
            ParsingState::Header(h) => StageModel::Header(*h),
            ParsingState::EntryStubs(lib) => StageModel::EntryStubs(lib@),
        }
    }
}

/// What a parser in stage `stage` has kept is what the container `data` holds.
pub open spec fn kept_matches(data: Seq<u8>, stage: StageModel) -> bool {
    match stage {
        StageModel::Initial => true,
        StageModel::Header(h) => header_of(data) == Ok::<HeaderInformation, DecodeError>(h),
        StageModel::EntryStubs(lib) => library_of(data) == Ok::<LibraryModel, DecodeError>(lib),
    }
}

/// A parser over one container. It reads the header and the entry index at
/// most once each and keeps what it read.
pub struct Parser {
    source: ByteSource,
    state: ParsingState,
}

impl Parser {
    /// The bytes of the container.
    pub closed spec fn data(&self) -> Seq<u8> {
        self.source.data()
    }

    /// Where the cursor of the container stands.
    pub closed spec fn pos(&self) -> int {
        self.source.pos()
    }

    /// What the parser has read so far.
    pub closed spec fn stage(&self) -> StageModel {
        self.state@
    }

    /// What the parser keeps is what the container holds.
    #[verifier::type_invariant]
    closed spec fn inv(&self) -> bool {
        kept_matches(self.source.data(), self.state@)
    }

    /// A parser over the container in `source`, which has read nothing yet.
    pub fn new(source: ByteSource) -> (r: Parser)
        ensures
            r.data() == source.data(),
            r.pos() == source.pos(),
            r.stage() == StageModel::Initial,
    {
        Parser { source, state: ParsingState::Initial }
    }

    /// Whether the container in `source` opens with the signature `MTLB`.
    /// Reads the first four bytes and leaves the cursor after them.
    pub fn is_metal_library_file(source: &mut ByteSource) -> (r: Result<bool, DecodeError>)
        ensures
            final(source).data() == old(source).data(),
            r is Ok <==> old(source).data().len() >= 4,
            r is Ok ==> r->Ok_0 == (window(old(source).data(), 0, 4) == magic())
                && final(source).pos() == 4,
            r is Err ==> r->Err_0 == DecodeError::UnexpectedEof,
    {
        source.seek(0);
        let bytes = source.read_bytes(4)?;
        // MTLB
        let r = bytes[0] == 0x4d && bytes[1] == 0x54 && bytes[2] == 0x4c && bytes[3] == 0x42;
        proof {
            if r {
                assert(bytes@ =~= magic());
            } else {
                assert(magic()[0] == 0x4d && magic()[1] == 0x54 && magic()[2] == 0x4c
                    && magic()[3] == 0x42);
            }
        }
        Ok(r)
    }

    /// The header of the container, read on the first call and kept.
    pub fn header(&mut self) -> (r: Result<HeaderInformation, DecodeError>)
        ensures
            final(self).data() == old(self).data(),
            r == header_of(old(self).data()),
            old(self).stage() is Initial ==> final(self).stage() == match r {
                Ok(h) => StageModel::Header(h),
                Err(_) => StageModel::Initial,
            },
            !(old(self).stage() is Initial) ==> *final(self) == *old(self),
    {
        proof {
            use_type_invariant(&*self);
        }
        match &self.state {
            ParsingState::Header(h) => {
                return Ok(*h);
            },
            ParsingState::EntryStubs(lib) => {
                return Ok(lib.header);
            },
            ParsingState::Initial => {},
        }
        let (mut source, state) = self.take_parts();
        let r = HeaderInformation::from_reader(&mut source);
        match r {
            Ok(h) => self.restore(source, ParsingState::Header(h)),
            Err(_) => self.restore(source, state),
        }
        r
    }

    /// The entry index of the container, read on the first call and kept;
    /// reads the header first if that has not been done.
    pub fn library(&mut self) -> (r: Result<&MetalLibrary, DecodeError>)
        ensures
            final(self).data() == old(self).data(),
            r is Ok <==> library_of(old(self).data()) is Ok,
            r is Ok ==> r->Ok_0@ == library_of(old(self).data())->Ok_0
                && final(self).stage() == StageModel::EntryStubs(r->Ok_0@),
            r is Err ==> r->Err_0 == library_of(old(self).data())->Err_0
                && final(self).stage() == match header_of(old(self).data()) {
                Ok(h) => StageModel::Header(h),
                Err(_) => StageModel::Initial,
            },
            old(self).stage() is EntryStubs ==> *final(self) == *old(self),
    {
        proof {
            use_type_invariant(&*self);
        }
        let h = self.header()?;
        if let ParsingState::Header(_) = self.state {
            let (mut source, state) = self.take_parts();
            source.seek(h.entry_headers_offset);
            match read_entries(&mut source, h.number_of_entries) {
                Ok(stubs) => {
                    let lib = MetalLibrary::create(h, Some(stubs));
                    self.restore(source, ParsingState::EntryStubs(lib));
                },
                Err(e) => {
                    self.restore(source, state);
                    return Err(e);
                },
            }
        }
        match &self.state {
            ParsingState::EntryStubs(lib) => Ok(lib),
            _ => unreached(),
        }
    }

    /// Reads `length` bytes at the absolute offset `offset` of the container.
    /// What the parser has kept stays as it is.
    pub fn read_from_offset(&mut self, offset: u64, length: u64) -> (r: Result<Vec<u8>, DecodeError>)
        ensures
            final(self).data() == old(self).data(),
            final(self).stage() == old(self).stage(),
            r is Ok <==> fits(old(self).data(), offset as int, length as int),
            r is Ok ==> r->Ok_0@ == window(old(self).data(), offset as int, length as int),
            r is Err ==> r->Err_0 == DecodeError::UnexpectedEof,
    {
        let (mut source, state) = self.take_parts();
        source.seek(offset);
        let r = source.read_bytes(length);
        self.restore(source, state);
        r
    }

    /// Reads the body of `entry`: `body_size` bytes that start `body_offset`
    /// bytes into the section of entry bodies. Reads the header first if that
    /// has not been done.
    pub fn read_entry_body(&mut self, entry: &MetalLibraryEntry) -> (r: Result<Vec<u8>, DecodeError>)
        ensures
            final(self).data() == old(self).data(),
            !(old(self).stage() is Initial) ==> final(self).stage() == old(self).stage(),
            match header_of(old(self).data()) {
                Err(e) => r == Err::<Vec<u8>, DecodeError>(e),
                Ok(h) => {
                    let start = h.entry_bodies_offset + entry.body_offset;
                    &&& r is Ok <==> fits(old(self).data(), start, entry.body_size as int)
                    &&& r is Ok ==> r->Ok_0@ == window(
                        old(self).data(),
                        start,
                        entry.body_size as int,
                    )
                    &&& r is Err ==> r->Err_0 == DecodeError::UnexpectedEof
                },
            },
    {
        let h = self.header()?;
        let size = self.source.len() as u64;
        if entry.body_offset > size || h.entry_bodies_offset > size - entry.body_offset {
            return Err(DecodeError::UnexpectedEof);
        }
        self.read_from_offset(h.entry_bodies_offset + entry.body_offset, entry.body_size)
    }

    /// Takes the source and the state out of the parser, leaving it with an
    /// empty source that has read nothing.
    fn take_parts(&mut self) -> (r: (ByteSource, ParsingState))
        ensures
            r.0 == old(self).source,
            r.1 == old(self).state,
            kept_matches(r.0.data(), r.1@),
            final(self).state@ is Initial,
    {
        proof {
            use_type_invariant(&*self);
        }
        let mut state = ParsingState::Initial;
        std::mem::swap(&mut self.state, &mut state);
        let mut source = ByteSource::new(Vec::new());
        std::mem::swap(&mut self.source, &mut source);
        (source, state)
    }

    /// Puts a source and a state that agree back into the parser.
    fn restore(&mut self, source: ByteSource, state: ParsingState)
        requires
            old(self).state@ is Initial,
            kept_matches(source.data(), state@),
        ensures
            final(self).source == source,
            final(self).state == state,
    {
        self.source = source;
        self.state = state;
    }
}

} // verus!
