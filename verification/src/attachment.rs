//! Binary attachments and their section in a frame.
use crate::buffer;
use crate::buffer::{as_slice, be32_at, be32_bytes, from_utf8_lossy, from_vec, share, slice};
use crate::error::{Failure, ProtocolError};
use crate::json;
use crate::json::{Json, JsonMap, Tree};
use crate::mismatch;
use crate::mismatch::{
    check_text, check_uint, find_fault, length_error, missing_field, unknown_field, with_keys,
    wrong_type,
};
use crate::text::text_eq;
use bytes::Bytes;
use vstd::prelude::*;
use vstd::utf8::*;

verus! {

/// Binary attachment carried alongside JSON params or event data.
#[derive(Debug)]
pub struct FileAttachment {
    /// Attachment identifier referenced from JSON using `{ "$file": "..." }`.
    pub id: String,
    /// Original file name.
    pub name: String,
    /// MIME type supplied by the sender.
    pub content_type: String,
    /// Raw attachment payload bytes.
    pub data: Bytes,
}

/// What a [`FileAttachment`] holds.
pub struct Attachment {
    pub id: Seq<char>,
    pub name: Seq<char>,
    pub content_type: Seq<char>,
    pub data: Seq<u8>,
}

impl View for FileAttachment {
    type V = Attachment;

    open spec fn view(&self) -> Attachment {
        Attachment {
            id: self.id@,
            name: self.name@,
            content_type: self.content_type@,
            data: buffer::contents(self.data),
        }
    }
}

/// A text in a section: one byte with its length in bytes, cut to 8 bits, then
/// its UTF-8 bytes.
pub open spec fn short_text(text: Seq<char>) -> Seq<u8> {
    seq![(encode_utf8(text).len() % 256) as u8] + encode_utf8(text)
}

impl Attachment {
    /// The attachment's section:
    /// `id_len:u8 | id | name_len:u8 | name | ct_len:u8 | ct | data_len:u32 | data`.
    pub open spec fn section(self) -> Seq<u8> {
        short_text(self.id) + short_text(self.name) + short_text(self.content_type) + buffer::be32(
            self.data.len(),
        ) + self.data
    }

    /// The lengths fit in the section's length fields.
    pub open spec fn fits(self) -> bool {
        &&& encode_utf8(self.id).len() <= 255
        &&& encode_utf8(self.name).len() <= 255
        &&& encode_utf8(self.content_type).len() <= 255
        &&& self.data.len() < 0x1_0000_0000
    }
}

/// One text read from the head of `data`: it and what follows it, or the reason
/// why there is none.
pub open spec fn read_short_text(
    data: Seq<u8>,
    no_length: Seq<char>,
    no_text: Seq<char>,
) -> Result<(Seq<char>, Seq<u8>), Seq<char>> {
    if data.len() == 0 {
        Err(no_length)
    } else if 1 + data[0] > data.len() {
        Err(no_text)
    } else {
        Ok(
            (
                buffer::lossy_text(data.subrange(1, 1 + data[0])),
                data.subrange(1 + data[0], data.len() as int),
            ),
        )
    }
}

/// One payload read from the head of `data`: it and what follows it, or the
/// reason why there is none.
pub open spec fn read_payload(data: Seq<u8>) -> Result<(Seq<u8>, Seq<u8>), Seq<char>> {
    if data.len() < 4 {
        Err("truncated data_len"@)
    } else if 4 + buffer::be32_value(data) > data.len() {
        Err("truncated data"@)
    } else {
        Ok(
            (
                data.subrange(4, 4 + buffer::be32_value(data) as int),
                data.subrange(4 + buffer::be32_value(data) as int, data.len() as int),
            ),
        )
    }
}

/// One attachment read from the head of `data`: it and what follows it, or the
/// reason why there is none.
pub open spec fn read_section(data: Seq<u8>) -> Result<(Attachment, Seq<u8>), Seq<char>> {
    match read_short_text(data, "truncated id_len"@, "truncated id"@) {
        Err(reason) => Err(reason),
        Ok((id, data)) => match read_short_text(data, "truncated name_len"@, "truncated name"@) {
            Err(reason) => Err(reason),
            Ok((name, data)) => match read_short_text(
                data,
                "truncated ct_len"@,
                "truncated content_type"@,
            ) {
                Err(reason) => Err(reason),
                Ok((content_type, data)) => match read_payload(data) {
                    Err(reason) => Err(reason),
                    Ok((payload, rest)) => Ok(
                        (Attachment { id, name, content_type, data: payload }, rest),
                    ),
                },
            },
        },
    }
}

fn push_short_text(buf: &mut Vec<u8>, text: &str)
    ensures
        final(buf)@ == old(buf)@ + short_text(text@),
{
    let bytes = text.as_bytes();
    buf.push((bytes.len() % 256) as u8);
    buf.extend_from_slice(bytes);
    proof {
        assert(buf@ == old(buf)@ + short_text(text@));
    }
}

fn take_short_text(
    data: &Bytes,
    pos: usize,
    no_length: &str,
    no_text: &str,
) -> (r: Result<(String, usize), ProtocolError>)
    requires
        pos <= buffer::contents(*data).len(),
    ensures
        match r {
            Ok((text, next)) => {
                &&& pos <= next <= buffer::contents(*data).len()
                &&& read_short_text(
                    buffer::contents(*data).subrange(pos as int, buffer::contents(*data).len() as int),
                    no_length@,
                    no_text@,
                ) == Ok::<(Seq<char>, Seq<u8>), Seq<char>>(
                    (text@, buffer::contents(*data).subrange(next as int, buffer::contents(*data).len() as int)),
                )
            },
            Err(e) => e@ matches Failure::InvalidAttachmentEncoding(reason) && read_short_text(
                buffer::contents(*data).subrange(pos as int, buffer::contents(*data).len() as int),
                no_length@,
                no_text@,
            ) == Err::<(Seq<char>, Seq<u8>), Seq<char>>(reason),
        },
{
    let bytes = as_slice(data);
    let ghost tail = bytes@.subrange(pos as int, bytes@.len() as int);
    if pos >= bytes.len() {
        return Err(ProtocolError::InvalidAttachmentEncoding(no_length.to_owned()));
    }
    let len: usize = bytes[pos] as usize;
    if len > bytes.len() - pos - 1 {
        return Err(ProtocolError::InvalidAttachmentEncoding(no_text.to_owned()));
    }
    let from: usize = pos + 1;
    let to: usize = from + len;
    let text = from_utf8_lossy(&bytes[from..to]);
    proof {
        assert(tail.subrange(1, 1 + tail[0]) =~= bytes@.subrange(from as int, to as int));
        assert(tail.subrange(1 + tail[0], tail.len() as int) =~= bytes@.subrange(
            to as int,
            bytes@.len() as int,
        ));
    }
    Ok((text, to))
}

impl FileAttachment {
    /// Builds a text attachment from a string.
    pub fn inline_text(id: &str, name: &str, content_type: &str, text: &str) -> (r: Self)
        ensures
            r@ == (Attachment {
                id: id@,
                name: name@,
                content_type: content_type@,
                data: encode_utf8(text@),
            }),
    {
        Self::inline_bytes(id, name, content_type, from_vec(text.as_bytes_vec()))
    }

    /// Builds a binary attachment from raw bytes.
    pub fn inline_bytes(id: &str, name: &str, content_type: &str, bytes: Bytes) -> (r: Self)
        ensures
            r@ == (Attachment {
                id: id@,
                name: name@,
                content_type: content_type@,
                data: buffer::contents(bytes),
            }),
    {
        FileAttachment {
            id: id.to_owned(),
            name: name.to_owned(),
            content_type: content_type.to_owned(),
            data: bytes,
        }
    }

    /// Returns the byte length of the attachment payload.
    pub fn size(&self) -> (n: usize)
        ensures
            n == self@.data.len(),
    {
        as_slice(&self.data).len()
    }

    /// Appends this attachment's binary section to `buf`.
    pub fn write_wire(&self, buf: &mut Vec<u8>)
        ensures
            final(buf)@ == old(buf)@ + self@.section(),
    {
        push_short_text(buf, self.id.as_str());
        push_short_text(buf, self.name.as_str());
        push_short_text(buf, self.content_type.as_str());
        let data = as_slice(&self.data);
        buf.extend_from_slice(&be32_bytes(data.len()));
        buf.extend_from_slice(data);
        proof {
            assert(buf@ == old(buf)@ + self@.section());
        }
    }

    /// Parses one attachment binary section from `data`, returning the
    /// attachment and the remaining unconsumed bytes. The payload shares the
    /// buffer of `data`.
    pub fn read_wire(data: &Bytes) -> (r: Result<(Self, Bytes), ProtocolError>)
        ensures
            match r {
                Ok((attachment, rest)) => read_section(buffer::contents(*data)) == Ok::<
                    (Attachment, Seq<u8>),
                    Seq<char>,
                >((attachment@, buffer::contents(rest))),
                Err(e) => e@ matches Failure::InvalidAttachmentEncoding(reason) && read_section(
                    buffer::contents(*data),
                ) == Err::<(Attachment, Seq<u8>), Seq<char>>(reason),
            },
    {
        let ghost whole = buffer::contents(*data);
        proof {
            assert(whole.subrange(0, whole.len() as int) =~= whole);
        }
        let (id, pos) = match take_short_text(data, 0, "truncated id_len", "truncated id") {
            Ok(found) => found,
            Err(e) => return Err(e),
        };
        let (name, pos) = match take_short_text(
            data,
            pos,
            "truncated name_len",
            "truncated name",
        ) {
            Ok(found) => found,
            Err(e) => return Err(e),
        };
        let (content_type, pos) = match take_short_text(
            data,
            pos,
            "truncated ct_len",
            "truncated content_type",
        ) {
            Ok(found) => found,
            Err(e) => return Err(e),
        };
        let bytes = as_slice(data);
        let ghost tail = whole.subrange(pos as int, whole.len() as int);
        if bytes.len() - pos < 4 {
            return Err(ProtocolError::InvalidAttachmentEncoding("truncated data_len".to_owned()));
        }
        let data_len: u32 = be32_at(bytes, pos);
        proof {
            assert(buffer::be32_value(tail) == data_len);
        }
        let from: usize = pos + 4;
        if data_len as u64 > (bytes.len() - from) as u64 {
            return Err(ProtocolError::InvalidAttachmentEncoding("truncated data".to_owned()));
        }
        let to: usize = from + data_len as usize;
        proof {
            assert(tail.subrange(4, 4 + data_len) =~= whole.subrange(from as int, to as int));
            assert(tail.subrange(4 + data_len, tail.len() as int) =~= whole.subrange(
                to as int,
                whole.len() as int,
            ));
        }
        let payload = slice(data, from, to);
        let rest = slice(data, to, bytes.len());
        Ok((FileAttachment { id, name, content_type, data: payload }, rest))
    }
}

impl Clone for FileAttachment {
    fn clone(&self) -> (copy: Self)
        ensures
            copy@ == self@,
    {
        FileAttachment {
            id: self.id.clone(),
            name: self.name.clone(),
            content_type: self.content_type.clone(),
            data: share(&self.data),
        }
    }
}

proof fn lemma_read_short_text(
    text: Seq<char>,
    rest: Seq<u8>,
    no_length: Seq<char>,
    no_text: Seq<char>,
)
    requires
        encode_utf8(text).len() <= 255,
    ensures
        read_short_text(short_text(text) + rest, no_length, no_text) == Ok::<
            (Seq<char>, Seq<u8>),
            Seq<char>,
        >((text, rest)),
{
    let bytes = encode_utf8(text);
    let data = short_text(text) + rest;
    encode_utf8_valid_utf8(text);
    encode_utf8_decode_utf8(text);
    assert(data[0] == bytes.len());
    assert(data.subrange(1, 1 + data[0]) =~= bytes);
    assert(data.subrange(1 + data[0], data.len() as int) =~= rest);
}

proof fn lemma_read_payload(payload: Seq<u8>, rest: Seq<u8>)
    requires
        payload.len() < 0x1_0000_0000,
    ensures
        read_payload(buffer::be32(payload.len()) + payload + rest) == Ok::<
            (Seq<u8>, Seq<u8>),
            Seq<char>,
        >((payload, rest)),
{
    let data = buffer::be32(payload.len()) + payload + rest;
    assert(data =~= buffer::be32(payload.len()) + (payload + rest));
    buffer::lemma_be32(payload.len(), payload + rest);
    assert(data.subrange(4, 4 + payload.len() as int) =~= payload);
    assert(data.subrange(4 + payload.len() as int, data.len() as int) =~= rest);
}

proof fn lemma_short_text_cut(
    text: Seq<char>,
    n: int,
    no_length: Seq<char>,
    no_text: Seq<char>,
)
    requires
        encode_utf8(text).len() <= 255,
        0 <= n < short_text(text).len(),
    ensures
        read_short_text(short_text(text).take(n), no_length, no_text) is Err,
{
    if n > 0 {
        assert(short_text(text).take(n)[0] == encode_utf8(text).len());
    }
}

proof fn lemma_payload_cut(payload: Seq<u8>, n: int)
    requires
        payload.len() < 0x1_0000_0000,
        0 <= n < 4 + payload.len(),
    ensures
        read_payload((buffer::be32(payload.len()) + payload).take(n)) is Err,
{
    let cut = (buffer::be32(payload.len()) + payload).take(n);
    if n >= 4 {
        assert(cut =~= buffer::be32(payload.len()) + payload.take(n - 4));
        buffer::lemma_be32(payload.len(), payload.take(n - 4));
    }
}

/// What is read of a section whose three texts are whole is decided by its payload.
proof fn lemma_texts_read(attachment: Attachment, payload: Seq<u8>)
    requires
        attachment.fits(),
    ensures
        read_section(
            short_text(attachment.id) + (short_text(attachment.name) + (short_text(
                attachment.content_type,
            ) + payload)),
        ) == match read_payload(payload) {
            Err(reason) => Err(reason),
            Ok((data, rest)) => Ok((Attachment { data, ..attachment }, rest)),
        },
{
    let after_name = short_text(attachment.content_type) + payload;
    let after_id = short_text(attachment.name) + after_name;
    lemma_read_short_text(attachment.id, after_id, "truncated id_len"@, "truncated id"@);
    lemma_read_short_text(attachment.name, after_name, "truncated name_len"@, "truncated name"@);
    lemma_read_short_text(
        attachment.content_type,
        payload,
        "truncated ct_len"@,
        "truncated content_type"@,
    );
}

proof fn lemma_regroup(a: Seq<u8>, b: Seq<u8>, c: Seq<u8>, d: Seq<u8>, e: Seq<u8>)
    ensures
        a + b + c + d + e == a + (b + (c + (d + e))),
{
    assert(a + b + c + d + e =~= a + (b + (c + (d + e))));
}

/// A section is its three texts and its payload.
proof fn lemma_section_parts(attachment: Attachment)
    ensures
        attachment.section() == short_text(attachment.id) + (short_text(attachment.name) + (
        short_text(attachment.content_type) + (buffer::be32(attachment.data.len())
            + attachment.data))),
{
    lemma_regroup(
        short_text(attachment.id),
        short_text(attachment.name),
        short_text(attachment.content_type),
        buffer::be32(attachment.data.len()),
        attachment.data,
    );
}

proof fn lemma_append(a: Seq<u8>, b: Seq<u8>, c: Seq<u8>, d: Seq<u8>, rest: Seq<u8>)
    ensures
        a + (b + (c + d)) + rest == a + (b + (c + (d + rest))),
{
    assert(a + (b + (c + d)) + rest =~= a + (b + (c + (d + rest))));
}

/// Reading a section gives back the attachment that it was written for, and
/// leaves what follows it. The lengths must fit in the section's length fields:
/// a longer one is cut when it is written.
pub proof fn lemma_section_round_trip(attachment: Attachment, rest: Seq<u8>)
    requires
        attachment.fits(),
    ensures
        read_section(attachment.section() + rest) == Ok::<(Attachment, Seq<u8>), Seq<char>>(
            (attachment, rest),
        ),
{
    let payload = buffer::be32(attachment.data.len()) + attachment.data;
    lemma_section_parts(attachment);
    lemma_append(
        short_text(attachment.id),
        short_text(attachment.name),
        short_text(attachment.content_type),
        payload,
        rest,
    );
    lemma_read_payload(attachment.data, rest);
    lemma_texts_read(attachment, payload + rest);
}

/// Where a cut through four parts falls.
proof fn lemma_cuts(a: Seq<u8>, b: Seq<u8>, c: Seq<u8>, d: Seq<u8>, n: int)
    requires
        0 <= n < a.len() + b.len() + c.len() + d.len(),
    ensures
        ({
            let cut = (a + (b + (c + d))).take(n);
            let n1 = n - a.len();
            let n2 = n1 - b.len();
            let n3 = n2 - c.len();
            if n1 < 0 {
                cut == a.take(n)
            } else if n2 < 0 {
                cut == a + b.take(n1)
            } else if n3 < 0 {
                cut == a + (b + c.take(n2))
            } else {
                cut == a + (b + (c + d.take(n3)))
            }
        }),
{
    let cut = (a + (b + (c + d))).take(n);
    let n1 = n - a.len();
    let n2 = n1 - b.len();
    let n3 = n2 - c.len();
    if n1 < 0 {
        assert(cut =~= a.take(n));
    } else if n2 < 0 {
        assert(cut =~= a + b.take(n1));
    } else if n3 < 0 {
        assert(cut =~= a + (b + c.take(n2)));
    } else {
        assert(cut =~= a + (b + (c + d.take(n3))));
    }
}

proof fn lemma_cut_in_name(attachment: Attachment, n: int)
    requires
        attachment.fits(),
        0 <= n < short_text(attachment.name).len(),
    ensures
        read_section(short_text(attachment.id) + short_text(attachment.name).take(n)) is Err,
{
    let after_id = short_text(attachment.name).take(n);
    lemma_read_short_text(attachment.id, after_id, "truncated id_len"@, "truncated id"@);
    lemma_short_text_cut(attachment.name, n, "truncated name_len"@, "truncated name"@);
}

proof fn lemma_cut_in_content_type(attachment: Attachment, n: int)
    requires
        attachment.fits(),
        0 <= n < short_text(attachment.content_type).len(),
    ensures
        read_section(
            short_text(attachment.id) + (short_text(attachment.name) + short_text(
                attachment.content_type,
            ).take(n)),
        ) is Err,
{
    let after_name = short_text(attachment.content_type).take(n);
    let after_id = short_text(attachment.name) + after_name;
    lemma_read_short_text(attachment.id, after_id, "truncated id_len"@, "truncated id"@);
    lemma_read_short_text(attachment.name, after_name, "truncated name_len"@, "truncated name"@);
    lemma_short_text_cut(
        attachment.content_type,
        n,
        "truncated ct_len"@,
        "truncated content_type"@,
    );
}

proof fn lemma_cut_in_id(attachment: Attachment, n: int)
    requires
        attachment.fits(),
        0 <= n < short_text(attachment.id).len(),
    ensures
        read_section(short_text(attachment.id).take(n)) is Err,
{
    lemma_short_text_cut(attachment.id, n, "truncated id_len"@, "truncated id"@);
}

proof fn lemma_cut_in_payload(attachment: Attachment, n: int)
    requires
        attachment.fits(),
        0 <= n < 4 + attachment.data.len(),
    ensures
        read_section(
            short_text(attachment.id) + (short_text(attachment.name) + (short_text(
                attachment.content_type,
            ) + (buffer::be32(attachment.data.len()) + attachment.data).take(n))),
        ) is Err,
{
    let payload = buffer::be32(attachment.data.len()) + attachment.data;
    lemma_texts_read(attachment, payload.take(n));
    lemma_payload_cut(attachment.data, n);
}

/// A section that is cut short is refused, wherever it is cut. (The lengths must fit
/// in the section's length fields: the data of a longer one is read as shorter.)
pub proof fn lemma_truncated_section_is_refused(attachment: Attachment, n: int)
    requires
        attachment.fits(),
        0 <= n < attachment.section().len(),
    ensures
        read_section(attachment.section().take(n)) is Err,
{
    let id = short_text(attachment.id);
    let name = short_text(attachment.name);
    let content_type = short_text(attachment.content_type);
    let payload = buffer::be32(attachment.data.len()) + attachment.data;
    let n1 = n - id.len();
    let n2 = n1 - name.len();
    let n3 = n2 - content_type.len();
    lemma_section_parts(attachment);
    lemma_cuts(id, name, content_type, payload, n);
    if n1 < 0 {
        lemma_cut_in_id(attachment, n);
    } else if n2 < 0 {
        lemma_cut_in_name(attachment, n1);
    } else if n3 < 0 {
        lemma_cut_in_content_type(attachment, n2);
    } else {
        lemma_cut_in_payload(attachment, n3);
    }
}

/// The sections of several attachments, one after the other.
pub open spec fn sections(attachments: Seq<Attachment>) -> Seq<u8>
    decreases attachments.len(),
{
    if attachments.len() == 0 {
        Seq::empty()
    } else {
        sections(attachments.drop_last()) + attachments.last().section()
    }
}

/// `count` attachments read from the head of `data`, with what follows them, or
/// the reason of the first that cannot be read.
pub open spec fn read_sections(data: Seq<u8>, count: nat) -> Result<
    (Seq<Attachment>, Seq<u8>),
    Seq<char>,
>
    decreases count,
{
    if count == 0 {
        Ok((Seq::empty(), data))
    } else {
        match read_sections(data, (count - 1) as nat) {
            Err(reason) => Err(reason),
            Ok((attachments, data)) => match read_section(data) {
                Err(reason) => Err(reason),
                Ok((attachment, rest)) => Ok((attachments.push(attachment), rest)),
            },
        }
    }
}

/// Reading as many sections as were written gives back the attachments, in
/// order, and leaves what follows them.
pub proof fn lemma_sections_round_trip(attachments: Seq<Attachment>, rest: Seq<u8>)
    requires
        forall|i: int| 0 <= i < attachments.len() ==> (#[trigger] attachments[i]).fits(),
    ensures
        read_sections(sections(attachments) + rest, attachments.len()) == Ok::<
            (Seq<Attachment>, Seq<u8>),
            Seq<char>,
        >((attachments, rest)),
    decreases attachments.len(),
{
    if attachments.len() == 0 {
        assert(sections(attachments) + rest =~= rest);
        assert(attachments =~= Seq::empty());
    } else {
        let first = attachments.drop_last();
        let last = attachments.last();
        assert(attachments[attachments.len() - 1].fits());
        assert forall|i: int| 0 <= i < first.len() implies (#[trigger] first[i]).fits() by {
            assert(first[i] == attachments[i]);
        }
        assert(sections(attachments) + rest =~= sections(first) + (last.section() + rest));
        lemma_sections_round_trip(first, last.section() + rest);
        lemma_section_round_trip(last, rest);
        assert(first.push(last) =~= attachments);
    }
}

/// The attachments that a vector holds.
pub open spec fn attachment_views(attachments: Seq<FileAttachment>) -> Seq<Attachment> {
    Seq::new(attachments.len(), |i: int| attachments[i]@)
}

/// Appends the sections of all `attachments` to `buf`.
pub(crate) fn write_sections(attachments: &[FileAttachment], buf: &mut Vec<u8>)
    ensures
        final(buf)@ == old(buf)@ + sections(attachment_views(attachments@)),
{
    let ghost before = buf@;
    let mut i: usize = 0;
    proof {
        assert(before + sections(attachment_views(attachments@.take(0))) =~= before);
    }
    while i < attachments.len()
        invariant
            i <= attachments@.len(),
            buf@ == before + sections(attachment_views(attachments@.take(i as int))),
        decreases attachments.len() - i,
    {
        let ghost shown = attachment_views(attachments@.take(i as int));
        attachments[i].write_wire(buf);
        i += 1;
        proof {
            let next = attachment_views(attachments@.take(i as int));
            assert(next.drop_last() =~= shown);
            assert(next.last() == attachments@[i - 1]@);
            assert(buf@ == before + sections(next));
        }
    }
    proof {
        assert(attachments@.take(i as int) =~= attachments@);
    }
}

/// Reads `count` attachments from the head of `data`.
pub(crate) fn read_attachments(data: Bytes, count: usize) -> (r: Result<
    Vec<FileAttachment>,
    ProtocolError,
>)
    ensures
        match r {
            Ok(attachments) => read_sections(buffer::contents(data), count as nat) matches Ok((views, _))
                && views == attachment_views(attachments@),
            Err(e) => e@ matches Failure::InvalidAttachmentEncoding(reason) && read_sections(
                buffer::contents(data),
                count as nat,
            ) == Err::<(Seq<Attachment>, Seq<u8>), Seq<char>>(reason),
        },
{
    let ghost whole = buffer::contents(data);
    let mut rest = data;
    let mut attachments: Vec<FileAttachment> = Vec::with_capacity(count);
    let mut i: usize = 0;
    proof {
        assert(attachment_views(attachments@) =~= Seq::empty());
    }
    while i < count
        invariant
            i <= count,
            whole == buffer::contents(data),
            read_sections(whole, i as nat) == Ok::<(Seq<Attachment>, Seq<u8>), Seq<char>>(
                (attachment_views(attachments@), buffer::contents(rest)),
            ),
        decreases count - i,
    {
        match FileAttachment::read_wire(&rest) {
            Ok((attachment, tail)) => {
                let ghost shown = attachment_views(attachments@);
                attachments.push(attachment);
                rest = tail;
                i += 1;
                proof {
                    assert(attachment_views(attachments@) =~= shown.push(attachment@));
                }
            },
            Err(e) => {
                proof {
                    lemma_read_sections_stuck(whole, i as nat, count as nat);
                }
                return Err(e);
            },
        }
    }
    Ok(attachments)
}

proof fn lemma_read_sections_stuck(data: Seq<u8>, some: nat, count: nat)
    requires
        some < count,
        read_sections(data, some) is Ok,
        read_section(read_sections(data, some)->Ok_0.1) is Err,
    ensures
        read_sections(data, count) == Err::<(Seq<Attachment>, Seq<u8>), Seq<char>>(
            read_section(read_sections(data, some)->Ok_0.1)->Err_0,
        ),
    decreases count,
{
    if some + 1 < count {
        lemma_read_sections_stuck(data, some, (count - 1) as nat);
    }
}

/// The keys of an attachment's JSON form.
pub open spec fn attachment_keys() -> Seq<&'static str> {
    seq!["id", "name", "content_type", "data"]
}

/// What is wrong with the first of some values that are to be bytes, if any.
pub open spec fn items_fault(items: Seq<Tree>) -> Option<Seq<char>>
    decreases items.len(),
{
    if items.len() == 0 {
        None
    } else {
        match items_fault(items.drop_last()) {
            Some(reason) => Some(reason),
            None => mismatch::uint_fault(items.last(), 255, "u8"@),
        }
    }
}

/// What is wrong with a value that is to be an array of bytes.
pub open spec fn bytes_fault(tree: Tree) -> Option<Seq<char>> {
    match tree {
        Tree::Array(items) => items_fault(items),
        _ => Some(mismatch::type_error_text(tree, "a sequence"@)),
    }
}

/// The bytes that an array of numbers stands for.
pub open spec fn tree_bytes(tree: Tree) -> Seq<u8> {
    Seq::new(tree->Array_0.len(), |i: int| tree->Array_0[i]->Int_0 as u8)
}

/// What is wrong with a member of an attachment's JSON form.
pub open spec fn attachment_fault(key: Seq<char>, tree: Tree) -> Option<Seq<char>> {
    if key == "id"@ || key == "name"@ || key == "content_type"@ {
        mismatch::text_fault(tree)
    } else if key == "data"@ {
        bytes_fault(tree)
    } else {
        Some(mismatch::unknown_field_text(key, attachment_keys()))
    }
}

/// What is wrong with the first member of an attachment's JSON form that is not right.
pub open spec fn attachment_faults(members: Seq<(Seq<char>, Tree)>) -> Option<Seq<char>> {
    mismatch::first_fault(members, |key: Seq<char>, tree: Tree| attachment_fault(key, tree))
}

/// The attachment that members without a fault stand for, or the reason why they
/// stand for none: one is missing.
pub open spec fn attachment_of(members: Seq<(Seq<char>, Tree)>) -> Result<Attachment, Seq<char>> {
    match (
        json::member(members, "id"@),
        json::member(members, "name"@),
        json::member(members, "content_type"@),
        json::member(members, "data"@),
    ) {
        (None, _, _, _) => Err(mismatch::missing_field_text("id"@)),
        (_, None, _, _) => Err(mismatch::missing_field_text("name"@)),
        (_, _, None, _) => Err(mismatch::missing_field_text("content_type"@)),
        (_, _, _, None) => Err(mismatch::missing_field_text("data"@)),
        (Some(id), Some(name), Some(content_type), Some(data)) => Ok(
            Attachment {
                id: id->Text_0,
                name: name->Text_0,
                content_type: content_type->Text_0,
                data: tree_bytes(data),
            },
        ),
    }
}

/// The attachment that a JSON value stands for, or the reason why it stands for none:
/// an object with exactly the four fields, or an array of their values.
pub open spec fn tree_attachment(tree: Tree) -> Result<Attachment, Seq<char>> {
    match tree {
        Tree::Object(members) => match attachment_faults(members) {
            Some(reason) => Err(reason),
            None => attachment_of(members),
        },
        Tree::Array(items) => {
            let members = mismatch::keyed(items, attachment_keys());
            match attachment_faults(members) {
                Some(reason) => Err(reason),
                None => if items.len() < 4 {
                    Err(mismatch::length_error_text(items.len(), "struct FileAttachment"@))
                } else if items.len() > 4 {
                    Err(mismatch::length_error_text(items.len(), "fewer elements in array"@))
                } else {
                    attachment_of(members)
                },
            }
        },
        _ => Err(mismatch::type_error_text(tree, "struct FileAttachment"@)),
    }
}

/// The attachments that some values stand for, or the reason why the first that
/// stands for none does not.
pub open spec fn item_attachments(items: Seq<Tree>) -> Result<Seq<Attachment>, Seq<char>>
    decreases items.len(),
{
    if items.len() == 0 {
        Ok(Seq::empty())
    } else {
        match item_attachments(items.drop_last()) {
            Err(reason) => Err(reason),
            Ok(found) => match tree_attachment(items.last()) {
                Err(reason) => Err(reason),
                Ok(attachment) => Ok(found.push(attachment)),
            },
        }
    }
}

/// The attachments that a JSON array stands for, or the reason why it stands for
/// none.
pub open spec fn tree_attachments(tree: Tree) -> Result<Seq<Attachment>, Seq<char>> {
    match tree {
        Tree::Array(items) => item_attachments(items),
        _ => Err(mismatch::type_error_text(tree, "a sequence"@)),
    }
}

impl Attachment {
    /// The JSON form of an attachment: an object with its four fields, the data
    /// as an array of numbers.
    pub open spec fn tree(self) -> Tree {
        Tree::Object(
            seq![
                ("id"@, Tree::Text(self.id)),
                ("name"@, Tree::Text(self.name)),
                ("content_type"@, Tree::Text(self.content_type)),
                ("data"@, bytes_tree(self.data)),
            ],
        )
    }
}

/// An array of numbers, one for each byte.
pub open spec fn bytes_tree(data: Seq<u8>) -> Tree {
    Tree::Array(Seq::new(data.len(), |i: int| Tree::Int(data[i] as int)))
}

/// The keys of an attachment are pairwise distinct.
pub(crate) proof fn lemma_attachment_keys()
    ensures
        "id"@ != "name"@,
        "id"@ != "content_type"@,
        "id"@ != "data"@,
        "name"@ != "content_type"@,
        "name"@ != "data"@,
        "content_type"@ != "data"@,
{
    reveal_strlit("id");
    reveal_strlit("name");
    reveal_strlit("content_type");
    reveal_strlit("data");
    assert("id"@[0] == 'i');
    assert("name"@[0] == 'n');
    assert("content_type"@[0] == 'c');
    assert("data"@[0] == 'd');
}

proof fn lemma_tree_distinct(attachment: Attachment)
    ensures
        json::distinct_keys(attachment.tree()->Object_0),
{
    lemma_attachment_keys();
}

/// Reading the JSON form of an attachment gives the attachment back.
pub proof fn lemma_tree_round_trip(attachment: Attachment)
    ensures
        tree_attachment(attachment.tree()) == Ok::<Attachment, Seq<char>>(attachment),
{
    let members = attachment.tree()->Object_0;
    lemma_attachment_keys();
    lemma_tree_distinct(attachment);
    json::lemma_member_at(members, 0);
    json::lemma_member_at(members, 1);
    json::lemma_member_at(members, 2);
    json::lemma_member_at(members, 3);
    let items = bytes_tree(attachment.data)->Array_0;
    lemma_bytes_faultless(attachment.data);
    assert forall|i: int| 0 <= i < members.len() implies attachment_fault(
        (#[trigger] members[i]).0,
        members[i].1,
    ) is None by {}
    mismatch::lemma_faultless(
        members,
        |key: Seq<char>, tree: Tree| attachment_fault(key, tree),
    );
    assert(tree_bytes(bytes_tree(attachment.data)) =~= attachment.data);
}

proof fn lemma_bytes_faultless(data: Seq<u8>)
    ensures
        items_fault(bytes_tree(data)->Array_0) is None,
    decreases data.len(),
{
    if data.len() > 0 {
        lemma_bytes_faultless(data.drop_last());
        assert(bytes_tree(data.drop_last())->Array_0 =~= bytes_tree(data)->Array_0.drop_last());
    }
}

/// What is wrong early among some values is wrong with more of them.
proof fn lemma_items_fault_stays(items: Seq<Tree>, n: int)
    requires
        0 <= n <= items.len(),
        items_fault(items.take(n)) is Some,
    ensures
        items_fault(items) == items_fault(items.take(n)),
    decreases items.len(),
{
    if n < items.len() {
        assert(items.drop_last().take(n) =~= items.take(n));
        lemma_items_fault_stays(items.drop_last(), n);
    } else {
        assert(items.take(n) =~= items);
    }
}

proof fn lemma_item_attachments_stay(items: Seq<Tree>, n: int)
    requires
        0 <= n <= items.len(),
        item_attachments(items.take(n)) is Err,
    ensures
        item_attachments(items) == item_attachments(items.take(n)),
    decreases items.len(),
{
    if n < items.len() {
        assert(items.drop_last().take(n) =~= items.take(n));
        lemma_item_attachments_stay(items.drop_last(), n);
    } else {
        assert(items.take(n) =~= items);
    }
}

/// The bytes that a JSON array of numbers stands for, or what is wrong with it.
fn json_bytes(value: &Json) -> (r: Result<Vec<u8>, String>)
    ensures
        match r {
            Ok(bytes) => bytes_fault(value@) is None && bytes@ == tree_bytes(value@),
            Err(reason) => bytes_fault(value@) == Some(reason@),
        },
{
    proof {
        mismatch::lemma_expectations();
    }
    match value {
        Json::Array(items) => {
            let mut bytes: Vec<u8> = Vec::with_capacity(items.len());
            let mut i: usize = 0;
            let ghost trees = json::item_trees(items@);
            proof {
                json::lemma_item_trees(items@);
                assert(trees.take(0) =~= Seq::empty());
            }
            while i < items.len()
                invariant
                    i <= items@.len(),
                    bytes@.len() == i,
                    value == Json::Array(*items),
                    trees == json::item_trees(items@),
                    trees.len() == items@.len(),
                    forall|j: int| 0 <= j < items@.len() ==> #[trigger] trees[j] == items@[j]@,
                    forall|j: int| 0 <= j < i ==> #[trigger] trees[j] == Tree::Int(bytes@[j] as int),
                    items_fault(trees.take(i as int)) is None,
                    mismatch::has_no_position("u8"@),
                decreases items.len() - i,
            {
                proof {
                    assert(trees.take(i + 1).drop_last() =~= trees.take(i as int));
                    assert(trees.take(i + 1).last() == items@[i as int]@);
                }
                if let Some(reason) = check_uint(&items[i], 255, "u8") {
                    proof {
                        lemma_items_fault_stays(trees, i + 1);
                    }
                    return Err(reason);
                }
                match items[i].as_u64() {
                    Some(n) => bytes.push(n as u8),
                    None => {},
                }
                i += 1;
            }
            proof {
                assert(trees.take(i as int) =~= trees);
                assert(tree_bytes(value@) =~= bytes@);
            }
            Ok(bytes)
        },
        _ => Err(wrong_type(value, "a sequence")),
    }
}

/// Tells what is wrong with a member of an attachment's JSON form.
fn check_member(key: &str, value: &Json) -> (r: Option<String>)
    ensures
        mismatch::optional_text(r) == attachment_fault(key@, value@),
{
    if text_eq(key, "id") || text_eq(key, "name") || text_eq(key, "content_type") {
        check_text(value)
    } else if text_eq(key, "data") {
        match json_bytes(value) {
            Ok(_) => None,
            Err(reason) => Some(reason),
        }
    } else {
        let keys: &'static [&'static str] = &["id", "name", "content_type", "data"];
        proof {
            assert(keys@ =~= attachment_keys());
        }
        Some(unknown_field(key, keys))
    }
}

impl FileAttachment {
    /// Returns a JSON reference object that points to an attachment by id.
    pub fn param_ref(id: &str) -> (r: Json)
        ensures
            r@ == Tree::Object(seq![("$file"@, Tree::Text(id@))]),
    {
        let mut map = JsonMap::new();
        map.insert("$file".to_owned(), Json::text(id));
        proof {
            assert(map@ =~= seq![("$file"@, Tree::Text(id@))]);
        }
        Json::Object(map)
    }

    /// The attachment's JSON form.
    pub fn to_json(&self) -> (r: Json)
        ensures
            r@ == self@.tree(),
    {
        let data = as_slice(&self.data);
        let mut items: Vec<Json> = Vec::with_capacity(data.len());
        let mut i: usize = 0;
        while i < data.len()
            invariant
                i <= data@.len(),
                items@.len() == i,
                forall|j: int|
                    0 <= j < i ==> (#[trigger] items@[j])@ == Tree::Int(data@[j] as int),
            decreases data.len() - i,
        {
            items.push(Json::Unsigned(data[i] as u64));
            i += 1;
        }
        proof {
            json::lemma_item_trees(items@);
            assert(json::item_trees(items@) =~= bytes_tree(data@)->Array_0);
        }
        let mut members: Vec<(String, Json)> = Vec::with_capacity(4);
        members.push(("id".to_owned(), Json::String(self.id.clone())));
        members.push(("name".to_owned(), Json::String(self.name.clone())));
        members.push(("content_type".to_owned(), Json::String(self.content_type.clone())));
        members.push(("data".to_owned(), Json::Array(items)));
        proof {
            json::lemma_pair_trees(members@);
            assert(json::pair_trees(members@) =~= self@.tree()->Object_0);
            lemma_tree_distinct(self@);
            json::lemma_collapse_same(self@.tree()->Object_0);
        }
        Json::Object(JsonMap { members })
    }

    /// The attachment that a JSON value stands for, or the reason why it stands for
    /// none.
    pub fn from_json(value: Json) -> (r: Result<Self, String>)
        ensures
            match r {
                Ok(attachment) => tree_attachment(value@) == Ok::<Attachment, Seq<char>>(
                    attachment@,
                ),
                Err(reason) => tree_attachment(value@) == Err::<Attachment, Seq<char>>(reason@),
            },
    {
        proof {
            mismatch::lemma_expectations();
            lemma_attachment_keys();
        }
        match value {
            Json::Object(map) => {
                let map = map.compact();
                match Self::faults(&map) {
                    Some(reason) => Err(reason),
                    None => Self::from_members(map),
                }
            },
            Json::Array(items) => {
                let len: usize = items.len();
                let keys: &'static [&'static str] = &["id", "name", "content_type", "data"];
                proof {
                    assert(keys@ =~= attachment_keys());
                    json::lemma_item_trees(items@);
                }
                let map = with_keys(items, keys);
                if let Some(reason) = Self::faults(&map) {
                    return Err(reason);
                }
                if len < 4 {
                    Err(length_error(len, "struct FileAttachment"))
                } else if len > 4 {
                    Err(length_error(len, "fewer elements in array"))
                } else {
                    Self::from_members(map)
                }
            },
            _ => Err(wrong_type(&value, "struct FileAttachment")),
        }
    }

    /// The attachments that a JSON array stands for, or the reason why it stands for
    /// none.
    pub fn list_from_json(value: Json) -> (r: Result<Vec<Self>, String>)
        ensures
            match r {
                Ok(attachments) => tree_attachments(value@) == Ok::<Seq<Attachment>, Seq<char>>(
                    attachment_views(attachments@),
                ),
                Err(reason) => tree_attachments(value@) == Err::<Seq<Attachment>, Seq<char>>(
                    reason@,
                ),
            },
    {
        proof {
            mismatch::lemma_expectations();
        }
        match value {
            Json::Array(items) => {
                let ghost trees = json::item_trees(items@);
                let ghost whole = items@;
                let mut attachments: Vec<FileAttachment> = Vec::with_capacity(items.len());
                proof {
                    json::lemma_item_trees(whole);
                    assert(trees.take(0) =~= Seq::empty());
                    assert(attachment_views(attachments@) =~= Seq::empty());
                }
                for item in it: items
                    invariant
                        it.seq() == whole,
                        value@ == Tree::Array(trees),
                        trees.len() == whole.len(),
                        forall|j: int| 0 <= j < whole.len() ==> #[trigger] trees[j] == whole[j]@,
                        item_attachments(trees.take(it.index() as int)) == Ok::<
                            Seq<Attachment>,
                            Seq<char>,
                        >(attachment_views(attachments@)),
                {
                    let ghost n = it.index() as int;
                    let ghost before = attachment_views(attachments@);
                    proof {
                        assert(trees.take(n + 1).drop_last() =~= trees.take(n));
                        assert(trees.take(n + 1).last() == item@);
                    }
                    match Self::from_json(item) {
                        Ok(attachment) => {
                            attachments.push(attachment);
                            proof {
                                assert(attachment_views(attachments@) =~= before.push(
                                    attachment@,
                                ));
                            }
                        },
                        Err(reason) => {
                            proof {
                                lemma_item_attachments_stay(trees, n + 1);
                            }
                            return Err(reason);
                        },
                    }
                }
                proof {
                    assert(trees.take(whole.len() as int) =~= trees);
                }
                Ok(attachments)
            },
            _ => Err(wrong_type(&value, "a sequence")),
        }
    }

    fn faults(map: &JsonMap) -> (r: Option<String>)
        requires
            json::pair_trees(map.members@) == map@,
        ensures
            mismatch::optional_text(r) == attachment_faults(map@),
    {
        find_fault(
            map,
            check_member,
            Ghost(|key: Seq<char>, tree: Tree| attachment_fault(key, tree)),
        )
    }

    fn from_members(map: JsonMap) -> (r: Result<Self, String>)
        requires
            attachment_faults(map@) is None,
        ensures
            match r {
                Ok(attachment) => attachment_of(map@) == Ok::<Attachment, Seq<char>>(attachment@),
                Err(reason) => attachment_of(map@) == Err::<Attachment, Seq<char>>(reason@),
            },
    {
        let mut map = map;
        let ghost members = map@;
        proof {
            let fault = |key: Seq<char>, tree: Tree| attachment_fault(key, tree);
            lemma_attachment_keys();
            mismatch::lemma_no_fault(members, fault, "id"@);
            mismatch::lemma_no_fault(members, fault, "name"@);
            mismatch::lemma_no_fault(members, fault, "content_type"@);
            mismatch::lemma_no_fault(members, fault, "data"@);
        }
        let id = match map.take("id") {
            Some(id) => id.into_text(),
            None => return Err(missing_field("id")),
        };
        let name = match map.take("name") {
            Some(name) => name.into_text(),
            None => return Err(missing_field("name")),
        };
        let content_type = match map.take("content_type") {
            Some(content_type) => content_type.into_text(),
            None => return Err(missing_field("content_type")),
        };
        let data = match map.take("data") {
            Some(data) => match json_bytes(&data) {
                Ok(bytes) => from_vec(bytes),
                Err(reason) => return Err(reason),
            },
            None => return Err(missing_field("data")),
        };
        Ok(FileAttachment { id, name, content_type, data })
    }
}

} // verus!
