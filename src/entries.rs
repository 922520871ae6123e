use vstd::prelude::*;

use crate::source::{fits, le_at, window, ByteSource, DecodeError};
use crate::tags::{
    end_code, lemma_tag_advances, name_code, offset_code, read_tag, size_code, tag_at, EntryHeaderTag,
    TagModel,
};

verus! {

/// The summary of one shader function: its name and where its body lies.
#[derive(Debug, Clone)]
pub struct MetalLibraryEntry {
    pub name: String,
    pub body_size: u64,
    pub body_offset: u64,
}

/// What an entry summary holds.
pub struct EntryModel {
    pub name: Seq<char>,
    pub body_size: u64,
    pub body_offset: u64,
}

impl View for MetalLibraryEntry {
    type V = EntryModel;

    open spec fn view(&self) -> EntryModel {
        EntryModel { name: self.name@, body_size: self.body_size, body_offset: self.body_offset }
    }
}

/// The models of a sequence of entry summaries.
pub open spec fn entries_view(v: Seq<MetalLibraryEntry>) -> Seq<EntryModel> {
    v.map_values(|e: MetalLibraryEntry| e@)
}

/// Folds the tags from `pos` up to the closing `ENDT`: the last name, size and
/// offset seen win, a size or offset never seen stays as given, other tags are
/// passed over. Gives no entry if no name was seen, and the position after `ENDT`.
pub open spec fn fold_tags(
    data: Seq<u8>,
    pos: int,
    name: Option<Seq<char>>,
    size: u64,
    offset: u64,
) -> Result<(Option<EntryModel>, int), DecodeError>
    decreases data.len() - pos,
{
    match tag_at(data, pos) {
        Err(e) => Err(e),
        Ok((TagModel::End, next)) => Ok(
            (
                match name {
                    Some(n) => Some(EntryModel { name: n, body_size: size, body_offset: offset }),
                    None => None,
                },
                next,
            ),
        ),
        Ok((TagModel::Name(n), next)) => fold_tags(data, next, Some(n), size, offset),
        Ok((TagModel::Size(s), next)) => fold_tags(data, next, name, s, offset),
        Ok((TagModel::Offset(o), next)) => fold_tags(data, next, name, size, o),
        Ok((TagModel::Other(_, _), next)) => fold_tags(data, next, name, size, offset),
    }
}

/// The entry-header record at `pos`: a four-byte size field, then tags up to
/// `ENDT`, with size and offset 0 where no tag gives them.
pub open spec fn entry_at(data: Seq<u8>, pos: int) -> Result<(Option<EntryModel>, int), DecodeError> {
    if !fits(data, pos, 4) {
        Err(DecodeError::UnexpectedEof)
    } else {
        fold_tags(data, pos + 4, None, 0, 0)
    }
}

/// The entry stream from `pos`, asked for `n` entries: it stops after `n`
/// entries, or before, at the first record without a name.
pub open spec fn entries_from(data: Seq<u8>, pos: int, n: nat) -> Result<Seq<EntryModel>, DecodeError>
    decreases n,
{
    if n == 0 {
        Ok(Seq::empty())
    } else {
        match entry_at(data, pos) {
            Err(e) => Err(e),
            Ok((None, _)) => Ok(Seq::empty()),
            Ok((Some(entry), next)) => match entries_from(data, next, (n - 1) as nat) {
                Err(e) => Err(e),
                Ok(rest) => Ok(seq![entry] + rest),
            },
        }
    }
}

/// Whether the entry stream from `pos`, asked for `n` entries, meets a record
/// without a name: one of its first `n` records has none, and all records
/// before that one decode to named entries.
pub open spec fn meets_unnamed(data: Seq<u8>, pos: int, n: nat) -> bool
    decreases n,
{
    n > 0 && match entry_at(data, pos) {
        Ok((None, _)) => true,
        Ok((Some(_), next)) => meets_unnamed(data, next, (n - 1) as nat),
        Err(_) => false,
    }
}

/// The entry stream never yields more entries than it is asked for, and it
/// yields fewer exactly when it meets a record without a name.
pub proof fn lemma_stream_count(data: Seq<u8>, pos: int, n: nat)
    requires
        entries_from(data, pos, n) is Ok,
    ensures
        entries_from(data, pos, n)->Ok_0.len() <= n,
        entries_from(data, pos, n)->Ok_0.len() < n <==> meets_unnamed(data, pos, n),
    decreases n,
{
    if n > 0 {
        if let Ok((Some(_), next)) = entry_at(data, pos) {
            lemma_stream_count(data, next, (n - 1) as nat);
        }
    }
}

/// A record whose first tag is `ENDT` gives no entry, and an entry stream that
/// starts with such a record yields nothing, however many entries it is asked for.
pub proof fn lemma_unnamed_record_ends_stream(data: Seq<u8>, pos: int, n: nat)
    requires
        fits(data, pos, 8),
        window(data, pos + 4, 4) == end_code(),
    ensures
        entry_at(data, pos) == Ok::<(Option<EntryModel>, int), DecodeError>((None, pos + 8)),
        entries_from(data, pos, n) == Ok::<Seq<EntryModel>, DecodeError>(Seq::empty()),
{
    assert(tag_at(data, pos + 4) == Ok::<(TagModel, int), DecodeError>((TagModel::End, pos + 8)));
}

/// A tag whose code is none of `ENDT`, `NAME`, `MDSZ` and `OFFT` is stepped
/// over whole: folding a record from it gives what folding from the next tag
/// gives, with the same name, size and offset.
pub proof fn lemma_unknown_tag_skipped(
    data: Seq<u8>,
    pos: int,
    name: Option<Seq<char>>,
    size: u64,
    offset: u64,
)
    requires
        fits(data, pos, 6),
        window(data, pos, 4) != end_code(),
        window(data, pos, 4) != name_code(),
        window(data, pos, 4) != size_code(),
        window(data, pos, 4) != offset_code(),
        fits(data, pos + 6, le_at(data, pos + 4, 2) as int),
    ensures
        fold_tags(data, pos, name, size, offset) == fold_tags(
            data,
            pos + 6 + le_at(data, pos + 4, 2),
            name,
            size,
            offset,
        ),
{
}

/// The name that an optional `String` holds, as characters.
pub open spec fn name_view(name: Option<String>) -> Option<Seq<char>> {
    match name {
        Some(s) => Some(s@),
        None => None,
    }
}

/// Reads the entry-header record at the cursor and leaves the cursor after its
/// `ENDT`. Gives `None` for a record without a name.
pub fn read_entry(source: &mut ByteSource) -> (r: Result<Option<MetalLibraryEntry>, DecodeError>)
    ensures
        final(source).data() == old(source).data(),
        r is Ok <==> entry_at(old(source).data(), old(source).pos()) is Ok,
        r is Ok ==> entry_at(old(source).data(), old(source).pos())->Ok_0 == (
            match r->Ok_0 {
                Some(e) => Some(e@),
                None => None,
            },
            final(source).pos(),
        ),
        r is Err ==> r->Err_0 == entry_at(old(source).data(), old(source).pos())->Err_0,
{
    let ghost data = source.data();
    let ghost start = source.pos();
    source.skip(4)?;
    let mut name: Option<String> = None;
    let mut body_size: u64 = 0;
    let mut body_offset: u64 = 0;
    loop
        invariant
            source.data() == data,
            data == old(source).data(),
            start == old(source).pos(),
            fits(data, start, 4),
            fold_tags(data, source.pos(), name_view(name), body_size, body_offset) == fold_tags(
                data,
                start + 4,
                None,
                0,
                0,
            ),
        decreases data.len() - source.pos(),
    {
        let ghost here = source.pos();
        let tag = match read_tag(source) {
            Ok(t) => t,
            Err(e) => {
                return Err(e);
            },
        };
        proof {
            lemma_tag_advances(data, here);
        }
        match tag {
            EntryHeaderTag::End => {
                return Ok(
                    match name {
                        Some(n) => Some(MetalLibraryEntry { name: n, body_size, body_offset }),
                        None => None,
                    },
                );
            },
            EntryHeaderTag::Name(n) => {
                name = Some(n);
            },
            EntryHeaderTag::Size(s) => {
                body_size = s;
            },
            EntryHeaderTag::Offset(o) => {
                body_offset = o;
            },
            EntryHeaderTag::Other(_) => {},
        }
    }
}

/// Drains the entry stream at the cursor: reads records until `count` entries
/// were read or a record without a name ends the stream.
pub fn read_entries(source: &mut ByteSource, count: u32) -> (r: Result<Vec<MetalLibraryEntry>, DecodeError>)
    ensures
        final(source).data() == old(source).data(),
        r is Ok <==> entries_from(old(source).data(), old(source).pos(), count as nat) is Ok,
        r is Ok ==> entries_view(r->Ok_0@) == entries_from(
            old(source).data(),
            old(source).pos(),
            count as nat,
        )->Ok_0,
        r is Err ==> r->Err_0 == entries_from(
            old(source).data(),
            old(source).pos(),
            count as nat,
        )->Err_0,
{
    let ghost data = source.data();
    let ghost start = source.pos();
    let mut stubs: Vec<MetalLibraryEntry> = Vec::new();
    let mut read: u32 = 0;
    loop
        invariant
            source.data() == data,
            data == old(source).data(),
            start == old(source).pos(),
            read <= count,
            entries_from(data, start, count as nat) == match entries_from(
                data,
                source.pos(),
                (count - read) as nat,
            ) {
                Ok(rest) => Ok(entries_view(stubs@) + rest),
                Err(e) => Err(e),
            },
        decreases count - read,
    {
        if read == count {
            proof {
                assert(entries_view(stubs@) + Seq::<EntryModel>::empty() =~= entries_view(stubs@));
            }
            return Ok(stubs);
        }
        let entry = match read_entry(source) {
            Ok(e) => e,
            Err(e) => {
                return Err(e);
            },
        };
        match entry {
            None => {
                proof {
                    assert(entries_view(stubs@) + Seq::<EntryModel>::empty() =~= entries_view(
                        stubs@,
                    ));
                }
                return Ok(stubs);
            },
            Some(e) => {
                let ghost before = stubs@;
                let ghost model = e@;
                stubs.push(e);
                proof {
                    assert(entries_view(stubs@) =~= entries_view(before).push(model));
                    match entries_from(data, source.pos(), (count - read - 1) as nat) {
                        Ok(rest) => {
                            assert(entries_view(before) + (seq![model] + rest) =~= entries_view(
                                stubs@,
                            ) + rest);
                        },
                        Err(_) => {},
                    }
                }
                read = read + 1;
            },
        }
    }
}

} // verus!
