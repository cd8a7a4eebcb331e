//! A git object, its store representation, its id and its loose-file form.
use super::decimal::decimal;
use super::decimal::decimal_chars;
use super::decimal::format_decimal;
use super::decimal::lemma_decimal_ascii;
use super::decimal::parse_usize;
use super::format::lemma_ascii_utf8;
use super::format::lemma_store_bytes_roundtrip;
use super::format::msg_bad_len;
use super::format::msg_kind_not_utf8;
use super::format::msg_len_mismatch;
use super::format::msg_len_not_utf8;
use super::format::msg_no_null;
use super::format::msg_no_space;
use super::format::parse_store_bytes;
use super::format::store_bytes;
use super::kind::lemma_name_bytes;
use super::ObjectError;
use super::ObjectErrorView;
use super::ObjectId;
use super::ObjectKind;
use crate::codec::sha1;
use crate::codec::sha1_digest;
use crate::codec::utf8_str;
use crate::codec::zlib_compress;
use crate::codec::zlib_compressed;
use crate::codec::zlib_decompress;
use crate::codec::zlib_decompressed;
use vstd::prelude::*;
use vstd::slice::slice_to_vec;

verus! {

/// A git object: a kind and its raw content bytes.
pub struct Object {
    pub kind: ObjectKind,
    pub data: Vec<u8>,
}

/// The value of a result that carries an object: its kind and data, or the
/// error's value.
pub open spec fn object_result(res: Result<Object, ObjectError>) -> Result<
    (ObjectKind, Seq<u8>),
    ObjectErrorView,
> {
    match res {
        Ok(o) => Ok((o.kind, o.data@)),
        Err(e) => Err(e@),
    }
}

/// What reading a loose object file `b` gives: an I/O error where `b` is
/// not a zlib stream, else what its content reads as.
pub open spec fn parse_loose_bytes(b: Seq<u8>) -> Result<(ObjectKind, Seq<u8>), ObjectErrorView> {
    match zlib_decompressed(b) {
        None => Err(ObjectErrorView::Io),
        Some(content) => parse_store_bytes(content),
    }
}

/// Reading a loose file depends only on what it decompresses to, however
/// and at whatever level the stream was compressed: any stream that
/// decompresses to `content` reads as `content` parses.
pub proof fn lemma_loose_read_sees_only_content(b: Seq<u8>, content: Seq<u8>)
    requires
        zlib_decompressed(b) == Some(content),
    ensures
        parse_loose_bytes(b) == parse_store_bytes(content),
{
}

/// Any zlib stream of an object's store representation, whoever wrote it
/// and at whatever level, reads back as that object.
pub proof fn lemma_any_stream_of_object_reads_back(b: Seq<u8>, kind: ObjectKind, data: Seq<u8>)
    requires
        data.len() <= usize::MAX,
        zlib_decompressed(b) == Some(store_bytes(kind, data)),
    ensures
        parse_loose_bytes(b) == Ok::<(ObjectKind, Seq<u8>), ObjectErrorView>((kind, data)),
{
    lemma_store_bytes_roundtrip(kind, data);
}

/// Two loose files that decompress to the same content read the same.
pub proof fn lemma_loose_read_same_content(b1: Seq<u8>, b2: Seq<u8>)
    requires
        zlib_decompressed(b1) is Some,
        zlib_decompressed(b1) == zlib_decompressed(b2),
    ensures
        parse_loose_bytes(b1) == parse_loose_bytes(b2),
{
}

/// Append `src` to `dst`.
fn extend_bytes(dst: &mut Vec<u8>, src: &[u8])
    ensures
        final(dst)@ == old(dst)@ + src@,
{
    let mut i: usize = 0;
    while i < src.len()
        invariant
            i <= src@.len(),
            dst@ == old(dst)@ + src@.take(i as int),
        decreases src@.len() - i,
    {
        dst.push(src[i]);
        i = i + 1;
        assert(dst@ =~= old(dst)@ + src@.take(i as int));
    }
    assert(src@.take(i as int) =~= src@);
}

/// The first index of `needle` in `s`.
fn find_byte(s: &[u8], needle: u8) -> (res: Option<usize>)
    ensures
        match res {
            Some(i) => i < s@.len() && s@.index_of_first(needle) == Some(i as int),
            None => s@.index_of_first(needle) is None,
        },
{
    let mut i: usize = 0;
    while i < s.len()
        invariant
            i <= s@.len(),
            forall|j: int| 0 <= j < i ==> s@[j] != needle,
        decreases s@.len() - i,
    {
        if s[i] == needle {
            proof {
                s@.index_of_first_ensures(needle);
                assert(s@.contains(needle)) by {
                    assert(s@[i as int] == needle);
                }
                let k = s@.index_of_first(needle).unwrap();
                if k < i {
                    assert(s@[k] != needle);
                }
                if k > i {
                    assert(s@[i as int] != needle);
                }
            }
            return Some(i);
        }
        i = i + 1;
    }
    proof {
        s@.index_of_first_ensures(needle);
        if s@.contains(needle) {
            let k = s@.index_of_first(needle).unwrap();
            assert(s@[k] != needle);
        }
    }
    None
}

/// The decimal digits of `n` as a string.
fn decimal_string(n: usize) -> (res: String)
    ensures
        res@ == decimal_chars(n as nat),
{
    let digits = format_decimal(n);
    proof {
        lemma_decimal_ascii(n as nat);
        lemma_ascii_utf8(decimal(n as nat));
    }
    match utf8_str(digits.as_slice()) {
        Ok(s) => s.to_owned(),
        Err(_) => {
            assert(false);
            String::new()
        },
    }
}

impl Object {
    pub fn new(kind: ObjectKind, data: Vec<u8>) -> (res: Object)
        ensures
            res.kind == kind,
            res.data == data,
    {
        Object { kind, data }
    }

    /// Serialize to the git object format: `"<kind> <len>\0<data>"`.
    pub fn to_store_bytes(&self) -> (res: Vec<u8>)
        ensures
            res@ == store_bytes(self.kind, self.data@),
    {
        let name = self.kind.as_str().as_bytes();
        proof {
            lemma_name_bytes(self.kind);
        }
        let mut buf: Vec<u8> = Vec::new();
        extend_bytes(&mut buf, name);
        buf.push(32u8);
        let len = format_decimal(self.data.len());
        extend_bytes(&mut buf, len.as_slice());
        buf.push(0u8);
        extend_bytes(&mut buf, self.data.as_slice());
        buf
    }

    /// Compute the SHA1 of this object's store representation.
    pub fn id(&self) -> (res: ObjectId)
        ensures
            res@ == sha1_digest(store_bytes(self.kind, self.data@)),
    {
        let store_bytes = self.to_store_bytes();
        let hash = sha1(store_bytes.as_slice());
        ObjectId::from_bytes(hash)
    }

    /// Parse the git object format `"<kind> <len>\0<data>"`.
    pub fn from_store_bytes(bytes: &[u8]) -> (res: Result<Object, ObjectError>)
        ensures
            object_result(res) == parse_store_bytes(bytes@),
    {
        let null_index = match find_byte(bytes, 0u8) {
            None => {
                return Err(ObjectError::Corrupt("obj bytes missing null separator".to_owned()));
            },
            Some(i) => i,
        };
        let header = &bytes[0..null_index];
        let space_index = match find_byte(header, 32u8) {
            None => {
                return Err(ObjectError::Corrupt("header missing space separator".to_owned()));
            },
            Some(i) => i,
        };
        let kind_bytes = &header[0..space_index];
        let len_bytes = &header[space_index + 1..null_index];
        assert(len_bytes@ =~= bytes@.take(null_index as int).skip(space_index + 1));
        assert(kind_bytes@ =~= bytes@.take(null_index as int).take(space_index as int));
        let len_str = match utf8_str(len_bytes) {
            Err(_) => {
                return Err(ObjectError::Corrupt("header length is not valid UTF-8".to_owned()));
            },
            Ok(s) => s,
        };
        let obj_len = match parse_usize(len_bytes) {
            None => {
                let mut message = "invalid length in header: ".to_owned();
                message.append(len_str);
                return Err(ObjectError::Corrupt(message));
            },
            Some(n) => n,
        };
        let total = bytes.len();
        let data = slice_to_vec(&bytes[null_index + 1..total]);
        assert(data@ =~= bytes@.skip(null_index + 1));
        if obj_len != data.len() {
            let mut message = "header says ".to_owned();
            let said = decimal_string(obj_len);
            message.append(said.as_str());
            message.append(" bytes but got ");
            let got = decimal_string(data.len());
            message.append(got.as_str());
            assert(message@ =~= msg_len_mismatch(obj_len as nat, data@.len()));
            return Err(ObjectError::Corrupt(message));
        }
        let kind_str = match utf8_str(kind_bytes) {
            Err(_) => {
                return Err(ObjectError::Corrupt("kind is not valid UTF-8".to_owned()));
            },
            Ok(s) => s,
        };
        match ObjectKind::from_name(kind_str) {
            Err(e) => Err(e),
            Ok(kind) => Ok(Object { kind, data }),
        }
    }

    /// The content of a loose object file: the store representation,
    /// compressed with zlib.
    pub fn to_loose_bytes(&self) -> (res: Result<Vec<u8>, ObjectError>)
        ensures
            res is Ok,
            res matches Ok(v) ==> v@ == zlib_compressed(store_bytes(self.kind, self.data@)),
            res matches Ok(v) ==> zlib_decompressed(v@) == Some(store_bytes(self.kind, self.data@)),
            res matches Ok(v) ==> parse_loose_bytes(v@) == Ok::<(ObjectKind, Seq<u8>), ObjectErrorView>((self.kind, self.data@)),
    {
        let store_bytes = self.to_store_bytes();
        let _ = self.data.len();
        proof {
            lemma_store_bytes_roundtrip(self.kind, self.data@);
        }
        match zlib_compress(store_bytes.as_slice()) {
            Ok(v) => Ok(v),
            Err(e) => Err(ObjectError::Io(e)),
        }
    }

    /// Read an object out of the content of a loose object file.
    pub fn from_loose_bytes(bytes: &[u8]) -> (res: Result<Object, ObjectError>)
        ensures
            object_result(res) == parse_loose_bytes(bytes@),
            zlib_decompressed(bytes@) matches Some(content) ==> object_result(res) == parse_store_bytes(content),
            zlib_decompressed(bytes@) is None ==> res matches Err(ObjectError::Io(_)),
    {
        match zlib_decompress(bytes) {
            Err(e) => Err(ObjectError::Io(e)),
            Ok(content) => Object::from_store_bytes(content.as_slice()),
        }
    }
}

} // verus!
