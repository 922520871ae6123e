use vstd::prelude::*;
use vstd::utf8::{decode_utf8, valid_utf8};

use crate::source::{fits, le_at, le_u64, window, ByteSource, DecodeError};

verus! {

/// The four-byte code that closes an entry-header record: `ENDT`.
pub open spec fn end_code() -> Seq<u8> {
    seq![0x45u8, 0x4eu8, 0x44u8, 0x54u8]
}

/// The code of a tag that holds an entry's name: `NAME`.
pub open spec fn name_code() -> Seq<u8> {
    seq![0x4eu8, 0x41u8, 0x4du8, 0x45u8]
}

/// The code of a tag that holds an entry's body size: `MDSZ`.
pub open spec fn size_code() -> Seq<u8> {
    seq![0x4du8, 0x44u8, 0x53u8, 0x5au8]
}

/// The code of a tag that holds an entry's table of offsets: `OFFT`.
pub open spec fn offset_code() -> Seq<u8> {
    seq![0x4fu8, 0x46u8, 0x46u8, 0x54u8]
}

/// The text that a `NAME` payload carries: its UTF-8 characters without the
/// last one, the terminating NUL.
pub open spec fn name_text(payload: Seq<u8>) -> Seq<char> {
    let text = decode_utf8(payload);
    if text.len() == 0 {
        text
    } else {
        text.drop_last()
    }
}

/// The code and declared payload length of a tag.
#[derive(Debug, Clone, Copy)]
pub struct Tag {
    pub code: [u8; 4],
    pub length: u16,
}

/// One decoded tag of an entry-header record.
#[derive(Debug)]
pub enum EntryHeaderTag {
    Name(String),
    Size(u64),
    Offset(u64),
    End,
    Other(Tag),
}

/// What a tag of an entry-header record says.
pub enum TagModel {
    Name(Seq<char>),
    Size(u64),
    Offset(u64),
    End,
    Other(Seq<u8>, u16),
}

impl View for EntryHeaderTag {
    type V = TagModel;

    open spec fn view(&self) -> TagModel {
        match self {
            EntryHeaderTag::Name(s) => TagModel::Name(s@),
            EntryHeaderTag::Size(n) => TagModel::Size(*n),
            EntryHeaderTag::Offset(n) => TagModel::Offset(*n),
            EntryHeaderTag::End => TagModel::End,
            EntryHeaderTag::Other(t) => TagModel::Other(t.code@, t.length),
        }
    }
}

/// The tag that starts at `pos` in `data`, with the position just after it.
pub open spec fn tag_at(data: Seq<u8>, pos: int) -> Result<(TagModel, int), DecodeError> {
    if !fits(data, pos, 4) {
        Err(DecodeError::UnexpectedEof)
    } else if window(data, pos, 4) == end_code() {
        Ok((TagModel::End, pos + 4))
    } else if !fits(data, pos + 4, 2) {
        Err(DecodeError::UnexpectedEof)
    } else {
        let code = window(data, pos, 4);
        let len = le_at(data, pos + 4, 2) as int;
        let body = pos + 6;
        if code == name_code() {
            if !fits(data, body, len) {
                Err(DecodeError::UnexpectedEof)
            } else if !valid_utf8(window(data, body, len)) {
                Err(DecodeError::InvalidName)
            } else {
                Ok((TagModel::Name(name_text(window(data, body, len))), body + len))
            }
        } else if code == size_code() {
            if !fits(data, body, 8) {
                Err(DecodeError::UnexpectedEof)
            } else {
                Ok((TagModel::Size(le_at(data, body, 8) as u64), body + 8))
            }
        } else if code == offset_code() {
            if !fits(data, body, len) {
                Err(DecodeError::UnexpectedEof)
            } else if len < 24 {
                Err(DecodeError::OffsetTableTooShort)
            } else {
                Ok((TagModel::Offset(le_at(data, body + 16, 8) as u64), body + len))
            }
        } else if !fits(data, body, len) {
            Err(DecodeError::UnexpectedEof)
        } else {
            Ok((TagModel::Other(code, len as u16), body + len))
        }
    }
}

/// A tag never ends before it starts, nor past the end of the data.
pub proof fn lemma_tag_advances(data: Seq<u8>, pos: int)
    requires
        tag_at(data, pos) is Ok,
    ensures
        pos + 4 <= tag_at(data, pos)->Ok_0.1 <= data.len(),
{
}

/// Relies on std's `String::from_utf8`: it succeeds exactly on valid UTF-8 and
/// then holds the decoded characters.
#[verifier::external_body]
fn utf8_string(b: Vec<u8>) -> (r: Option<String>)
    ensures
        r is Some <==> valid_utf8(b@),
        r is Some ==> r->0@ == decode_utf8(b@),
{
    String::from_utf8(b).ok()
}

/// Relies on std's `String::pop`: it removes the last character, if any.
#[verifier::external_body]
fn pop_char(s: &mut String)
    ensures
        old(s)@.len() == 0 ==> final(s)@ == old(s)@,
        old(s)@.len() > 0 ==> final(s)@ == old(s)@.drop_last(),
{
    s.pop();
}

/// Whether `code` is the four bytes `a`, `b`, `c`, `d`.
fn code_is(code: &Vec<u8>, a: u8, b: u8, c: u8, d: u8) -> (r: bool)
    ensures
        r == (code@ == seq![a, b, c, d]),
{
    if code.len() != 4 {
        proof {
            assert(seq![a, b, c, d].len() == 4);
        }
        return false;
    }
    let r = code[0] == a && code[1] == b && code[2] == c && code[3] == d;
    proof {
        if r {
            assert(code@ =~= seq![a, b, c, d]);
        } else {
            assert(seq![a, b, c, d][0] == a);
            assert(seq![a, b, c, d][1] == b);
            assert(seq![a, b, c, d][2] == c);
            assert(seq![a, b, c, d][3] == d);
        }
    }
    r
}

/// Decodes the tag at the cursor and leaves the cursor at the next tag.
pub fn read_tag(source: &mut ByteSource) -> (r: Result<EntryHeaderTag, DecodeError>)
    ensures
        final(source).data() == old(source).data(),
        r is Ok <==> tag_at(old(source).data(), old(source).pos()) is Ok,
        r is Ok ==> (r->Ok_0@, final(source).pos()) == tag_at(
            old(source).data(),
            old(source).pos(),
        )->Ok_0,
        r is Err ==> r->Err_0 == tag_at(old(source).data(), old(source).pos())->Err_0,
{
    let ghost data = source.data();
    let ghost pos = source.pos();
    let code = source.read_bytes(4)?;
    assert(code@ == window(data, pos, 4));
    // ENDT
    if code_is(&code, 0x45, 0x4e, 0x44, 0x54) {
        return Ok(EntryHeaderTag::End);
    }
    let length = source.read_u16_le()?;
    // NAME
    if code_is(&code, 0x4e, 0x41, 0x4d, 0x45) {
        let payload = source.read_bytes(length as u64)?;
        let text = utf8_string(payload);
        match text {
            None => Err(DecodeError::InvalidName),
            Some(mut name) => {
                pop_char(&mut name);
                Ok(EntryHeaderTag::Name(name))
            },
        }
    } else if code_is(&code, 0x4d, 0x44, 0x53, 0x5a) {
        // MDSZ
        let size = source.read_u64_le()?;
        Ok(EntryHeaderTag::Size(size))
    } else if code_is(&code, 0x4f, 0x46, 0x46, 0x54) {
        // OFFT
        let table = source.read_bytes(length as u64)?;
        if length < 24 {
            return Err(DecodeError::OffsetTableTooShort);
        }
        let slot = vstd::slice::slice_subrange(table.as_slice(), 16, 24);
        proof {
            assert(slot@.subrange(0, 8) =~= window(data, pos + 6 + 16, 8));
        }
        Ok(EntryHeaderTag::Offset(le_u64(slot)))
    } else {
        source.skip(length as u64)?;
        let tag = Tag { code: [code[0], code[1], code[2], code[3]], length };
        proof {
            assert(tag.code@ =~= code@);
        }
        Ok(EntryHeaderTag::Other(tag))
    }
}

} // verus!
