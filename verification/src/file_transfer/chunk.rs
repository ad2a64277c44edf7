//! File chunks and their binary wire format.

use std::string::FromUtf8Error;
use vstd::bytes::{
    spec_u32_from_le_bytes, spec_u32_to_le_bytes, spec_u64_from_le_bytes, spec_u64_to_le_bytes,
    u32_from_le_bytes, u32_to_le_bytes, u64_from_le_bytes, u64_to_le_bytes,
};
use vstd::prelude::*;
use vstd::slice::slice_subrange;
use vstd::slice::slice_to_vec;
use vstd::utf8::{decode_utf8, encode_utf8, valid_utf8};

verus! {

/// The error of `String::from_utf8`, carried as it is.
#[verifier::external_type_specification]
#[verifier::external_body]
pub struct ExFromUtf8Error(FromUtf8Error);

/// `String::from_utf8` accepts exactly the well-formed UTF-8 byte sequences, and
/// the string it returns encodes to the bytes it was given.
pub assume_specification[ String::from_utf8 ](vec: Vec<u8>) -> (r: Result<String, FromUtf8Error>)
    ensures
        r is Ok <==> valid_utf8(vec@),
        r matches Ok(s) ==> encode_utf8(s@) == vec@,
;

/// Why [`FileChunk::from_bytes`] rejected a binary payload.
#[non_exhaustive]
#[derive(Debug, PartialEq, Eq)]
pub enum ChunkDecodeError {
    /// The payload ended before the named value could be read.
    UnexpectedEof {
        /// What was being read (`"u32"`, `"u64"`, or `"bytes"`).
        what: &'static str,
    },
    /// A length prefix exceeds the wire-format cap for its field.
    FieldTooLong {
        /// Name of the offending length field.
        field: &'static str,
        /// Claimed length.
        len: usize,
        /// Maximum allowed length.
        max: usize,
    },
    /// A string field holds invalid UTF-8.
    InvalidUtf8 {
        /// Name of the offending string field.
        field: &'static str,
        /// The underlying UTF-8 decode failure.
        source: FromUtf8Error,
    },
}

/// A decode failure as its observable parts.
pub enum DecodeFault {
    /// The payload ended early.
    UnexpectedEof { what: Seq<char> },
    /// A length prefix is over its cap.
    FieldTooLong { field: Seq<char>, len: nat, max: nat },
    /// A string field is not UTF-8.
    InvalidUtf8 { field: Seq<char> },
}

impl View for ChunkDecodeError {
    type V = DecodeFault;

    open spec fn view(&self) -> DecodeFault {
        match *self {
            ChunkDecodeError::UnexpectedEof { what } => DecodeFault::UnexpectedEof { what: what@ },
            ChunkDecodeError::FieldTooLong { field, len, max } => DecodeFault::FieldTooLong {
                field: field@,
                len: len as nat,
                max: max as nat,
            },
            ChunkDecodeError::InvalidUtf8 { field, source } => DecodeFault::InvalidUtf8 {
                field: field@,
            },
        }
    }
}

/// A file chunk message.
#[derive(Debug)]
pub struct FileChunk {
    /// Unique file identifier.
    pub file_id: String,
    /// Original file name.
    pub file_name: String,
    /// Total file size in bytes.
    pub file_size: u64,
    /// Total number of chunks.
    pub total_chunks: u32,
    /// Index of this chunk (0-based).
    pub chunk_index: u32,
    /// Chunk data.
    pub chunk_data: Vec<u8>,
    /// Checksum of the complete file (SHA-256, lower-case hex).
    pub file_checksum: String,
}

/// A file chunk as mathematical values.
#[verifier::ext_equal]
pub struct FileChunkView {
    pub file_id: Seq<char>,
    pub file_name: Seq<char>,
    pub file_size: u64,
    pub total_chunks: u32,
    pub chunk_index: u32,
    pub chunk_data: Seq<u8>,
    pub file_checksum: Seq<char>,
}

impl View for FileChunk {
    type V = FileChunkView;

    open spec fn view(&self) -> FileChunkView {
        FileChunkView {
            file_id: self.file_id@,
            file_name: self.file_name@,
            file_size: self.file_size,
            total_chunks: self.total_chunks,
            chunk_index: self.chunk_index,
            chunk_data: self.chunk_data@,
            file_checksum: self.file_checksum@,
        }
    }
}

impl DeepView for FileChunk {
    type V = FileChunkView;

    open spec fn deep_view(&self) -> FileChunkView {
        self@
    }
}

impl Clone for FileChunk {
    fn clone(&self) -> (r: Self)
        ensures
            r@ == self@,
    {
        FileChunk {
            file_id: self.file_id.clone(),
            file_name: self.file_name.clone(),
            file_size: self.file_size,
            total_chunks: self.total_chunks,
            chunk_index: self.chunk_index,
            chunk_data: slice_to_vec(self.chunk_data.as_slice()),
            file_checksum: self.file_checksum.clone(),
        }
    }
}

/// Maximum allowed length of a string field (file id, file name, checksum) in
/// the wire format, in bytes.
pub const MAX_STRING_FIELD_LEN: usize = 4096;

/// Maximum allowed chunk data length in the wire format (128 MiB).
pub const MAX_CHUNK_DATA_LEN: usize = 134_217_728;

/// A length-prefixed block: the length as four little-endian bytes, then the
/// bytes themselves.
pub open spec fn block(bytes: Seq<u8>) -> Seq<u8> {
    spec_u32_to_le_bytes(bytes.len() as u32) + bytes
}

/// The wire form of a chunk:
/// `[file_id_len:4][file_id][file_name_len:4][file_name][file_size:8]`
/// `[total_chunks:4][chunk_index:4][chunk_data_len:4][chunk_data]`
/// `[checksum_len:4][checksum]`, all integers little-endian.
pub open spec fn wire(c: FileChunkView) -> Seq<u8> {
    block(encode_utf8(c.file_id)) + block(encode_utf8(c.file_name)) + spec_u64_to_le_bytes(
        c.file_size,
    ) + spec_u32_to_le_bytes(c.total_chunks) + spec_u32_to_le_bytes(c.chunk_index) + block(
        c.chunk_data,
    ) + block(encode_utf8(c.file_checksum))
}

/// Every field is within its wire-format cap.
pub open spec fn fits_wire(c: FileChunkView) -> bool {
    &&& encode_utf8(c.file_id).len() <= MAX_STRING_FIELD_LEN
    &&& encode_utf8(c.file_name).len() <= MAX_STRING_FIELD_LEN
    &&& encode_utf8(c.file_checksum).len() <= MAX_STRING_FIELD_LEN
    &&& c.chunk_data.len() <= MAX_CHUNK_DATA_LEN
}

/// The four-byte integer at `pos`.
pub open spec fn u32_at(data: Seq<u8>, pos: int) -> Result<u32, DecodeFault> {
    if data.len() - pos < 4 {
        Err(DecodeFault::UnexpectedEof { what: "u32"@ })
    } else {
        Ok(spec_u32_from_le_bytes(data.subrange(pos, pos + 4)))
    }
}

/// The eight-byte integer at `pos`.
pub open spec fn u64_at(data: Seq<u8>, pos: int) -> Result<u64, DecodeFault> {
    if data.len() - pos < 8 {
        Err(DecodeFault::UnexpectedEof { what: "u64"@ })
    } else {
        Ok(spec_u64_from_le_bytes(data.subrange(pos, pos + 8)))
    }
}

/// The length-prefixed block at `pos`, whose length may not exceed `max`.
pub open spec fn block_at(data: Seq<u8>, pos: int, len_field: Seq<char>, max: nat) -> Result<
    Seq<u8>,
    DecodeFault,
> {
    match u32_at(data, pos) {
        Err(e) => Err(e),
        Ok(len) => if len > max {
            Err(DecodeFault::FieldTooLong { field: len_field, len: len as nat, max })
        } else if data.len() - (pos + 4) < len {
            Err(DecodeFault::UnexpectedEof { what: "bytes"@ })
        } else {
            Ok(data.subrange(pos + 4, pos + 4 + len))
        },
    }
}

/// The length-prefixed string at `pos`, as its bytes.
pub open spec fn text_at(
    data: Seq<u8>,
    pos: int,
    len_field: Seq<char>,
    field: Seq<char>,
) -> Result<Seq<u8>, DecodeFault> {
    match block_at(data, pos, len_field, MAX_STRING_FIELD_LEN as nat) {
        Err(e) => Err(e),
        Ok(bytes) => if valid_utf8(bytes) {
            Ok(bytes)
        } else {
            Err(DecodeFault::InvalidUtf8 { field })
        },
    }
}

/// The numbers between the file name and the data, at `pos`.
pub open spec fn numbers_at(data: Seq<u8>, pos: int) -> Result<(u64, u32, u32), DecodeFault> {
    match u64_at(data, pos) {
        Err(e) => Err(e),
        Ok(size) => match u32_at(data, pos + 8) {
            Err(e) => Err(e),
            Ok(total) => match u32_at(data, pos + 12) {
                Err(e) => Err(e),
                Ok(index) => Ok((size, total, index)),
            },
        },
    }
}

/// What a payload decodes to: the fields in wire order, or the first fault.
/// Bytes after the checksum are ignored.
pub open spec fn parse(data: Seq<u8>) -> Result<FileChunkView, DecodeFault> {
    match text_at(data, 0, "file_id_len"@, "file_id"@) {
        Err(e) => Err(e),
        Ok(id) => match text_at(data, 4 + id.len() as int, "file_name_len"@, "file_name"@) {
            Err(e) => Err(e),
            Ok(name) => {
                let p = 8 + id.len() as int + name.len() as int;
                match numbers_at(data, p) {
                    Err(e) => Err(e),
                    Ok(n) => match block_at(
                        data,
                        p + 16,
                        "chunk_data_len"@,
                        MAX_CHUNK_DATA_LEN as nat,
                    ) {
                        Err(e) => Err(e),
                        Ok(bytes) => match text_at(
                            data,
                            p + 20 + bytes.len(),
                            "checksum_len"@,
                            "checksum"@,
                        ) {
                            Err(e) => Err(e),
                            Ok(checksum) => Ok(
                                FileChunkView {
                                    file_id: decode_utf8(id),
                                    file_name: decode_utf8(name),
                                    file_size: n.0,
                                    total_chunks: n.1,
                                    chunk_index: n.2,
                                    chunk_data: bytes,
                                    file_checksum: decode_utf8(checksum),
                                },
                            ),
                        },
                    },
                }
            },
        },
    }
}

fn read_u32(data: &[u8], pos: usize) -> (r: Result<u32, ChunkDecodeError>)
    requires
        pos <= data@.len(),
    ensures
        match r {
            Ok(v) => u32_at(data@, pos as int) == Ok::<u32, DecodeFault>(v),
            Err(e) => u32_at(data@, pos as int) == Err::<u32, DecodeFault>(e@),
        },
{
    if data.len() - pos < 4 {
        return Err(ChunkDecodeError::UnexpectedEof { what: "u32" });
    }
    Ok(u32_from_le_bytes(slice_subrange(data, pos, pos + 4)))
}

fn read_u64(data: &[u8], pos: usize) -> (r: Result<u64, ChunkDecodeError>)
    requires
        pos <= data@.len(),
    ensures
        match r {
            Ok(v) => u64_at(data@, pos as int) == Ok::<u64, DecodeFault>(v),
            Err(e) => u64_at(data@, pos as int) == Err::<u64, DecodeFault>(e@),
        },
{
    if data.len() - pos < 8 {
        return Err(ChunkDecodeError::UnexpectedEof { what: "u64" });
    }
    Ok(u64_from_le_bytes(slice_subrange(data, pos, pos + 8)))
}

fn read_block(data: &[u8], pos: usize, len_field: &'static str, max: usize) -> (r: Result<
    Vec<u8>,
    ChunkDecodeError,
>)
    requires
        pos <= data@.len(),
    ensures
        match r {
            Ok(v) => block_at(data@, pos as int, len_field@, max as nat) == Ok::<
                Seq<u8>,
                DecodeFault,
            >(v@) && pos + 4 + v@.len() <= data@.len(),
            Err(e) => block_at(data@, pos as int, len_field@, max as nat) == Err::<
                Seq<u8>,
                DecodeFault,
            >(e@),
        },
{
    let len: usize = match read_u32(data, pos) {
        Ok(v) => v as usize,
        Err(e) => return Err(e),
    };
    if len > max {
        return Err(ChunkDecodeError::FieldTooLong { field: len_field, len, max });
    }
    let total: usize = data.len();
    let start: usize = pos + 4;
    if total - start < len {
        return Err(ChunkDecodeError::UnexpectedEof { what: "bytes" });
    }
    Ok(slice_to_vec(slice_subrange(data, start, start + len)))
}

fn read_text(data: &[u8], pos: usize, len_field: &'static str, field: &'static str) -> (r: Result<
    (String, usize),
    ChunkDecodeError,
>)
    requires
        pos <= data@.len(),
    ensures
        match r {
            Ok((text, end)) => {
                &&& text_at(data@, pos as int, len_field@, field@) == Ok::<Seq<u8>, DecodeFault>(
                    encode_utf8(text@),
                )
                &&& end == pos + 4 + encode_utf8(text@).len()
                &&& end <= data@.len()
            },
            Err(e) => text_at(data@, pos as int, len_field@, field@) == Err::<
                Seq<u8>,
                DecodeFault,
            >(e@),
        },
{
    let bytes = match read_block(data, pos, len_field, MAX_STRING_FIELD_LEN) {
        Ok(v) => v,
        Err(e) => return Err(e),
    };
    let total: usize = data.len();
    assert(pos + 4 + bytes@.len() <= total);
    let end: usize = pos + 4 + bytes.len();
    match String::from_utf8(bytes) {
        Ok(text) => Ok((text, end)),
        Err(source) => Err(ChunkDecodeError::InvalidUtf8 { field, source }),
    }
}

fn push_block(buf: &mut Vec<u8>, bytes: &[u8])
    ensures
        final(buf)@ == old(buf)@ + block(bytes@),
{
    let mut len_bytes = u32_to_le_bytes(
        #[verifier::truncate]
        (bytes.len() as u32),
    );
    buf.append(&mut len_bytes);
    let mut body = slice_to_vec(bytes);
    buf.append(&mut body);
    assert(buf@ =~= old(buf)@ + block(bytes@));
}

impl FileChunk {
    /// Serializes to the compact binary format.
    ///
    /// A field longer than a four-byte length can say is written with its length
    /// taken modulo 2^32.
    pub fn to_bytes(&self) -> (r: Vec<u8>)
        ensures
            r@ == wire(self@),
    {
        let mut buf: Vec<u8> = Vec::new();
        push_block(&mut buf, self.file_id.as_str().as_bytes());
        push_block(&mut buf, self.file_name.as_str().as_bytes());
        let mut size = u64_to_le_bytes(self.file_size);
        buf.append(&mut size);
        let mut total = u32_to_le_bytes(self.total_chunks);
        buf.append(&mut total);
        let mut index = u32_to_le_bytes(self.chunk_index);
        buf.append(&mut index);
        push_block(&mut buf, self.chunk_data.as_slice());
        push_block(&mut buf, self.file_checksum.as_str().as_bytes());
        assert(buf@ =~= wire(self@));
        buf
    }

    /// Deserializes from the compact binary format produced by
    /// [`FileChunk::to_bytes`].
    pub fn from_bytes(data: &[u8]) -> (r: Result<Self, ChunkDecodeError>)
        ensures
            match r {
                Ok(c) => parse(data@) == Ok::<FileChunkView, DecodeFault>(c@),
                Err(e) => parse(data@) == Err::<FileChunkView, DecodeFault>(e@),
            },
    {
        let (file_id, p1): (String, usize) = match read_text(data, 0, "file_id_len", "file_id") {
            Ok(v) => v,
            Err(e) => return Err(e),
        };
        let (file_name, p2): (String, usize) = match read_text(
            data,
            p1,
            "file_name_len",
            "file_name",
        ) {
            Ok(v) => v,
            Err(e) => return Err(e),
        };
        let file_size: u64 = match read_u64(data, p2) {
            Ok(v) => v,
            Err(e) => return Err(e),
        };
        let total_chunks: u32 = match read_u32(data, p2 + 8) {
            Ok(v) => v,
            Err(e) => return Err(e),
        };
        let chunk_index: u32 = match read_u32(data, p2 + 12) {
            Ok(v) => v,
            Err(e) => return Err(e),
        };
        let chunk_data = match read_block(data, p2 + 16, "chunk_data_len", MAX_CHUNK_DATA_LEN) {
            Ok(v) => v,
            Err(e) => return Err(e),
        };
        let p3: usize = p2 + 20 + chunk_data.len();
        let (file_checksum, _end): (String, usize) = match read_text(
            data,
            p3,
            "checksum_len",
            "checksum",
        ) {
            Ok(v) => v,
            Err(e) => return Err(e),
        };
        proof {
            vstd::utf8::encode_utf8_decode_utf8(file_id@);
            vstd::utf8::encode_utf8_decode_utf8(file_name@);
            vstd::utf8::encode_utf8_decode_utf8(file_checksum@);
        }
        Ok(
            FileChunk {
                file_id,
                file_name,
                file_size,
                total_chunks,
                chunk_index,
                chunk_data,
                file_checksum,
            },
        )
    }
}

/// Reading back a block that was written at `pos`.
proof fn lemma_block_at(data: Seq<u8>, pos: int, bytes: Seq<u8>, len_field: Seq<char>, max: nat)
    requires
        0 <= pos,
        bytes.len() <= max <= u32::MAX,
        pos + 4 + bytes.len() <= data.len(),
        data.subrange(pos, pos + 4 + bytes.len()) == block(bytes),
    ensures
        block_at(data, pos, len_field, max) == Ok::<Seq<u8>, DecodeFault>(bytes),
{
    vstd::bytes::lemma_auto_spec_u32_to_from_le_bytes();
    let whole = data.subrange(pos, pos + 4 + bytes.len());
    let prefix = spec_u32_to_le_bytes(bytes.len() as u32);
    assert(data.subrange(pos, pos + 4) =~= whole.subrange(0, 4));
    assert(whole.subrange(0, 4) =~= prefix);
    assert(data.subrange(pos + 4, pos + 4 + bytes.len()) =~= whole.subrange(
        4,
        4 + bytes.len() as int,
    ));
    assert(whole.subrange(4, 4 + bytes.len() as int) =~= bytes);
}

/// What is written is read back: decoding the wire form of a chunk whose fields
/// are within their caps yields that chunk, whatever bytes follow it.
pub proof fn decode_inverts_encode(c: FileChunkView, rest: Seq<u8>)
    requires
        fits_wire(c),
    ensures
        parse(wire(c) + rest) == Ok::<FileChunkView, DecodeFault>(c),
{
    vstd::bytes::lemma_auto_spec_u32_to_from_le_bytes();
    vstd::bytes::lemma_auto_spec_u64_to_from_le_bytes();
    let id = encode_utf8(c.file_id);
    let name = encode_utf8(c.file_name);
    let sum = encode_utf8(c.file_checksum);
    vstd::utf8::encode_utf8_valid_utf8(c.file_id);
    vstd::utf8::encode_utf8_valid_utf8(c.file_name);
    vstd::utf8::encode_utf8_valid_utf8(c.file_checksum);
    vstd::utf8::encode_utf8_decode_utf8(c.file_id);
    vstd::utf8::encode_utf8_decode_utf8(c.file_name);
    vstd::utf8::encode_utf8_decode_utf8(c.file_checksum);
    let data = wire(c) + rest;
    let p1 = 4 + id.len() as int;
    let p2 = p1 + 4 + name.len();
    let p3 = p2 + 16;
    let p4 = p3 + 4 + c.chunk_data.len();
    assert(data.subrange(0, p1) =~= block(id));
    lemma_block_at(data, 0, id, "file_id_len"@, MAX_STRING_FIELD_LEN as nat);
    assert(data.subrange(p1, p2) =~= block(name));
    lemma_block_at(data, p1, name, "file_name_len"@, MAX_STRING_FIELD_LEN as nat);
    assert(data.subrange(p2, p2 + 8) =~= spec_u64_to_le_bytes(c.file_size));
    assert(data.subrange(p2 + 8, p2 + 12) =~= spec_u32_to_le_bytes(c.total_chunks));
    assert(data.subrange(p2 + 12, p2 + 16) =~= spec_u32_to_le_bytes(c.chunk_index));
    assert(data.subrange(p3, p4) =~= block(c.chunk_data));
    lemma_block_at(data, p3, c.chunk_data, "chunk_data_len"@, MAX_CHUNK_DATA_LEN as nat);
    assert(data.subrange(p4, p4 + 4 + sum.len()) =~= block(sum));
    lemma_block_at(data, p4, sum, "checksum_len"@, MAX_STRING_FIELD_LEN as nat);
}

/// What a block was read from is that block as it would be written.
proof fn lemma_block_was(data: Seq<u8>, pos: int, len_field: Seq<char>, max: nat)
    requires
        0 <= pos,
        block_at(data, pos, len_field, max) is Ok,
    ensures
        ({
            let bytes = block_at(data, pos, len_field, max)->Ok_0;
            &&& bytes.len() <= max
            &&& pos + 4 + bytes.len() <= data.len()
            &&& data.subrange(pos, pos + 4 + bytes.len()) == block(bytes)
        }),
{
    vstd::bytes::lemma_auto_spec_u32_to_from_le_bytes();
    let bytes = block_at(data, pos, len_field, max)->Ok_0;
    let prefix = data.subrange(pos, pos + 4);
    assert(spec_u32_to_le_bytes(spec_u32_from_le_bytes(prefix)) == prefix);
    assert(data.subrange(pos, pos + 4 + bytes.len()) =~= prefix + bytes);
}

/// What is decoded was encoded: where a payload decodes, it begins with the wire
/// form of what it decodes to, and that part decodes to the same whatever bytes
/// follow it. So a chunk has one encoding.
pub proof fn encode_inverts_decode(data: Seq<u8>, rest: Seq<u8>)
    requires
        parse(data) is Ok,
    ensures
        ({
            let c = parse(data)->Ok_0;
            let n = wire(c).len();
            &&& n == 32 + encode_utf8(c.file_id).len() + encode_utf8(c.file_name).len()
                + c.chunk_data.len() + encode_utf8(c.file_checksum).len()
            &&& n <= data.len()
            &&& data.take(n as int) == wire(c)
            &&& fits_wire(c)
            &&& parse(data.take(n as int) + rest) == Ok::<FileChunkView, DecodeFault>(c)
        }),
{
    vstd::bytes::lemma_auto_spec_u32_to_from_le_bytes();
    vstd::bytes::lemma_auto_spec_u64_to_from_le_bytes();
    let c = parse(data)->Ok_0;
    let short = MAX_STRING_FIELD_LEN as nat;
    let id = text_at(data, 0, "file_id_len"@, "file_id"@)->Ok_0;
    let p1 = 4 + id.len() as int;
    let name = text_at(data, p1, "file_name_len"@, "file_name"@)->Ok_0;
    let p2 = p1 + 4 + name.len();
    let p3 = p2 + 16;
    let p4 = p3 + 4 + c.chunk_data.len();
    let sum = text_at(data, p4, "checksum_len"@, "checksum"@)->Ok_0;
    lemma_block_was(data, 0, "file_id_len"@, short);
    lemma_block_was(data, p1, "file_name_len"@, short);
    lemma_block_was(data, p3, "chunk_data_len"@, MAX_CHUNK_DATA_LEN as nat);
    lemma_block_was(data, p4, "checksum_len"@, short);
    vstd::utf8::decode_utf8_encode_utf8(id);
    vstd::utf8::decode_utf8_encode_utf8(name);
    vstd::utf8::decode_utf8_encode_utf8(sum);
    let size = data.subrange(p2, p2 + 8);
    let total = data.subrange(p2 + 8, p2 + 12);
    let index = data.subrange(p2 + 12, p3);
    assert(spec_u64_to_le_bytes(spec_u64_from_le_bytes(size)) == size);
    assert(spec_u32_to_le_bytes(spec_u32_from_le_bytes(total)) == total);
    assert(spec_u32_to_le_bytes(spec_u32_from_le_bytes(index)) == index);
    let end = p4 + 4 + sum.len();
    assert(data.take(end) =~= data.subrange(0, p1) + data.subrange(p1, p2) + size + total + index
        + data.subrange(p3, p4) + data.subrange(p4, end));
    assert(data.take(end) == wire(c));
    decode_inverts_encode(c, rest);
}

/// A block cut short anywhere is the end of the payload.
proof fn lemma_block_cut(data: Seq<u8>, pos: int, bytes: Seq<u8>, len_field: Seq<char>, max: nat)
    requires
        0 <= pos <= data.len() < pos + 4 + bytes.len(),
        bytes.len() <= max <= u32::MAX,
        data.skip(pos) == block(bytes).take(data.len() - pos),
    ensures
        block_at(data, pos, len_field, max) matches Err(DecodeFault::UnexpectedEof { .. }),
{
    vstd::bytes::lemma_auto_spec_u32_to_from_le_bytes();
    if data.len() - pos >= 4 {
        let prefix = spec_u32_to_le_bytes(bytes.len() as u32);
        assert(data.subrange(pos, pos + 4) =~= data.skip(pos).take(4));
        assert(data.subrange(pos, pos + 4) =~= prefix);
    }
}

/// Every payload that is cut short is refused as such: a part of a wire form that
/// lacks anything at its end decodes to nothing but the end of the payload.
pub proof fn a_truncated_payload_ends_early(c: FileChunkView, k: int)
    requires
        fits_wire(c),
        0 <= k < wire(c).len(),
    ensures
        parse(wire(c).take(k)) matches Err(DecodeFault::UnexpectedEof { .. }),
{
    vstd::bytes::lemma_auto_spec_u32_to_from_le_bytes();
    vstd::bytes::lemma_auto_spec_u64_to_from_le_bytes();
    let short = MAX_STRING_FIELD_LEN as nat;
    let id = encode_utf8(c.file_id);
    let name = encode_utf8(c.file_name);
    let sum = encode_utf8(c.file_checksum);
    vstd::utf8::encode_utf8_valid_utf8(c.file_id);
    vstd::utf8::encode_utf8_valid_utf8(c.file_name);
    vstd::utf8::encode_utf8_valid_utf8(c.file_checksum);
    let whole = wire(c);
    let data = whole.take(k);
    let p1 = 4 + id.len() as int;
    let p2 = p1 + 4 + name.len();
    let p3 = p2 + 16;
    let p4 = p3 + 4 + c.chunk_data.len();
    if k < p1 {
        assert(data.skip(0) =~= block(id).take(k));
        lemma_block_cut(data, 0, id, "file_id_len"@, short);
    } else {
        assert(data.subrange(0, p1) =~= block(id));
        lemma_block_at(data, 0, id, "file_id_len"@, short);
        if k < p2 {
            assert(data.skip(p1) =~= block(name).take(k - p1));
            lemma_block_cut(data, p1, name, "file_name_len"@, short);
        } else {
            assert(data.subrange(p1, p2) =~= block(name));
            lemma_block_at(data, p1, name, "file_name_len"@, short);
            if k >= p3 {
                if k < p4 {
                    assert(data.skip(p3) =~= block(c.chunk_data).take(k - p3));
                    lemma_block_cut(
                        data,
                        p3,
                        c.chunk_data,
                        "chunk_data_len"@,
                        MAX_CHUNK_DATA_LEN as nat,
                    );
                } else {
                    assert(data.subrange(p3, p4) =~= block(c.chunk_data));
                    lemma_block_at(
                        data,
                        p3,
                        c.chunk_data,
                        "chunk_data_len"@,
                        MAX_CHUNK_DATA_LEN as nat,
                    );
                    assert(data.skip(p4) =~= block(sum).take(k - p4));
                    lemma_block_cut(data, p4, sum, "checksum_len"@, short);
                }
            }
        }
    }
}

/// A chunk stands on the wire as its id and its name, then the size of the file,
/// how many chunks there are and which one this is, then its data, and last the
/// checksum. Numbers are little-endian, eight bytes for the size and four for the
/// others; a text or the data follows its length in bytes.
pub proof fn a_chunk_is_laid_out_in_order(c: FileChunkView)
    ensures
        ({
            let id = encode_utf8(c.file_id);
            let name = encode_utf8(c.file_name);
            let sum = encode_utf8(c.file_checksum);
            let all = wire(c);
            let p: int = 8 + id.len() as int + name.len() as int;
            let q: int = p + 20 + c.chunk_data.len() as int;
            &&& all.len() == q + 4 + sum.len()
            &&& all.subrange(0, 4) == spec_u32_to_le_bytes(id.len() as u32)
            &&& all.subrange(4, 4 + id.len() as int) == id
            &&& all.subrange(4 + id.len() as int, 8 + id.len() as int) == spec_u32_to_le_bytes(
                name.len() as u32,
            )
            &&& all.subrange(8 + id.len() as int, p) == name
            &&& all.subrange(p, p + 8) == spec_u64_to_le_bytes(c.file_size)
            &&& all.subrange(p + 8, p + 12) == spec_u32_to_le_bytes(c.total_chunks)
            &&& all.subrange(p + 12, p + 16) == spec_u32_to_le_bytes(c.chunk_index)
            &&& all.subrange(p + 16, p + 20) == spec_u32_to_le_bytes(c.chunk_data.len() as u32)
            &&& all.subrange(p + 20, q) == c.chunk_data
            &&& all.subrange(q, q + 4) == spec_u32_to_le_bytes(sum.len() as u32)
            &&& all.subrange(q + 4, all.len() as int) == sum
        }),
{
    let id = encode_utf8(c.file_id);
    let name = encode_utf8(c.file_name);
    let sum = encode_utf8(c.file_checksum);
    let all = wire(c);
    let p: int = 8 + id.len() as int + name.len() as int;
    let q: int = p + 20 + c.chunk_data.len() as int;
    vstd::bytes::lemma_auto_spec_u32_to_from_le_bytes();
    vstd::bytes::lemma_auto_spec_u64_to_from_le_bytes();
    assert(all.subrange(0, 4) =~= spec_u32_to_le_bytes(id.len() as u32));
    assert(all.subrange(4, 4 + id.len() as int) =~= id);
    assert(all.subrange(8 + id.len() as int, p) =~= name);
    assert(all.subrange(p + 20, q) =~= c.chunk_data);
    assert(all.subrange(q + 4, all.len() as int) =~= sum);
}

} // verus!
