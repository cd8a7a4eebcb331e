//! The store representation of an object, `"<kind> <len>\0<data>"`: what
//! it is, what reading it gives, and the proof that reading what was
//! written gives the object back.
use super::decimal::decimal;
use super::decimal::decimal_chars;
use super::decimal::is_digit;
use super::decimal::lemma_decimal_ascii;
use super::decimal::lemma_decimal_digits;
use super::decimal::lemma_parse_decimal_roundtrip;
use super::decimal::parse_decimal;
use super::kind::lemma_name_bytes;
use super::kind::lemma_named_name;
use super::kind::lemma_named_only_name;
use super::ObjectErrorView;
use super::ObjectKind;
use vstd::prelude::*;
use vstd::utf8::*;

verus! {

/// The store representation of an object: the kind's name, a space, the
/// length of the data in decimal, a NUL byte, then the data.
pub open spec fn store_bytes(kind: ObjectKind, data: Seq<u8>) -> Seq<u8> {
    kind.name_bytes() + seq![32u8] + decimal(data.len()) + seq![0u8] + data
}

/// Message for bytes with no NUL after the header.
pub open spec fn msg_no_null() -> Seq<char> {
    "obj bytes missing null separator"@
}

/// Message for a header with no space in it.
pub open spec fn msg_no_space() -> Seq<char> {
    "header missing space separator"@
}

/// Message for a length field that is not UTF-8.
pub open spec fn msg_len_not_utf8() -> Seq<char> {
    "header length is not valid UTF-8"@
}

/// Message for a length field that is not a number.
pub open spec fn msg_bad_len(len: Seq<char>) -> Seq<char> {
    "invalid length in header: "@ + len
}

/// Message for a length field that disagrees with the data.
pub open spec fn msg_len_mismatch(said: nat, got: nat) -> Seq<char> {
    "header says "@ + decimal_chars(said) + " bytes but got "@ + decimal_chars(got)
}

/// Message for a kind field that is not UTF-8.
pub open spec fn msg_kind_not_utf8() -> Seq<char> {
    "kind is not valid UTF-8"@
}

/// What reading the store representation `b` gives: the kind and the data,
/// or the first thing wrong with it, checked in this order: a NUL must end
/// the header; a space must split the header; the text after the first
/// space must be UTF-8 and a `usize` equal to the length of what follows
/// the NUL; the text before the space must be UTF-8 and name a kind.
pub open spec fn parse_store_bytes(b: Seq<u8>) -> Result<(ObjectKind, Seq<u8>), ObjectErrorView> {
    match b.index_of_first(0u8) {
        None => Err(ObjectErrorView::Corrupt(msg_no_null())),
        Some(n) => {
            let header = b.take(n);
            let data = b.skip(n + 1);
            match header.index_of_first(32u8) {
                None => Err(ObjectErrorView::Corrupt(msg_no_space())),
                Some(sp) => {
                    let kind = header.take(sp);
                    let len = header.skip(sp + 1);
                    if !valid_utf8(len) {
                        Err(ObjectErrorView::Corrupt(msg_len_not_utf8()))
                    } else {
                        match parse_decimal(len) {
                            None => Err(ObjectErrorView::Corrupt(msg_bad_len(decode_utf8(len)))),
                            Some(said) => {
                                if said != data.len() {
                                    Err(ObjectErrorView::Corrupt(msg_len_mismatch(said, data.len())))
                                } else if !valid_utf8(kind) {
                                    Err(ObjectErrorView::Corrupt(msg_kind_not_utf8()))
                                } else {
                                    match ObjectKind::named(decode_utf8(kind)) {
                                        None => Err(ObjectErrorView::UnknownKind(decode_utf8(kind))),
                                        Some(k) => Ok((k, data)),
                                    }
                                }
                            },
                        }
                    }
                },
            }
        },
    }
}

/// ASCII bytes are UTF-8, and stand for the characters of the same codes.
pub proof fn lemma_ascii_utf8(b: Seq<u8>)
    requires
        forall|i: int| 0 <= i < b.len() ==> #[trigger] b[i] < 128,
    ensures
        valid_utf8(b),
        decode_utf8(b) == b.map_values(|x: u8| x as char),
{
    let c = b.map_values(|x: u8| x as char);
    assert(is_ascii_chars(c)) by {
        assert forall|i: int| 0 <= i < c.len() implies '\0' <= #[trigger] c[i] && c[i] <= '\u{7f}' by {
            assert(b[i] < 128);
        }
    }
    is_ascii_chars_encode_utf8(c);
    assert forall|i: int| 0 <= i < b.len() implies #[trigger] encode_utf8(c)[i] == b[i] by {
        assert(c[i] == b[i] as char);
        assert(c[i] as u8 == encode_utf8(c)[i]);
    }
    assert(encode_utf8(c) =~= b);
    encode_utf8_valid_utf8(c);
    encode_utf8_decode_utf8(c);
}

/// Where `b[i]` is the needle and nothing before it is, `i` is the needle's
/// first index.
proof fn lemma_first_index(b: Seq<u8>, needle: u8, i: int)
    requires
        0 <= i < b.len(),
        b[i] == needle,
        forall|j: int| 0 <= j < i ==> b[j] != needle,
    ensures
        b.index_of_first(needle) == Some(i),
{
    b.index_of_first_ensures(needle);
    assert(b.contains(needle));
    let k = b.index_of_first(needle).unwrap();
    if k < i {
        assert(b[k] != needle);
    }
    if k > i {
        assert(b[i] != needle);
    }
}

/// Reading the store representation of an object gives the object back.
pub proof fn lemma_store_bytes_roundtrip(kind: ObjectKind, data: Seq<u8>)
    requires
        data.len() <= usize::MAX,
    ensures
        parse_store_bytes(store_bytes(kind, data)) == Ok::<(ObjectKind, Seq<u8>), ObjectErrorView>((kind, data)),
{
    let nb = kind.name_bytes();
    let dec = decimal(data.len());
    let b = store_bytes(kind, data);
    let h: int = (nb.len() + 1 + dec.len()) as int;
    lemma_name_bytes(kind);
    lemma_named_name(kind);
    lemma_decimal_digits(data.len());
    lemma_decimal_ascii(data.len());
    lemma_parse_decimal_roundtrip(data.len());
    lemma_ascii_utf8(dec);
    let header = nb + seq![32u8] + dec;
    assert(b =~= header + seq![0u8] + data);
    assert(b[h] == 0u8);
    assert forall|j: int| 0 <= j < h implies b[j] != 0u8 by {
        assert(b[j] == header[j]);
        if j < nb.len() {
            assert(header[j] == nb[j]);
        } else if j > nb.len() {
            assert(header[j] == dec[j - nb.len() - 1]);
            assert(is_digit(dec[j - nb.len() - 1]));
        }
    }
    lemma_first_index(b, 0u8, h);
    assert(b.take(h) =~= header);
    assert(b.skip(h + 1) =~= data);
    assert(header[nb.len() as int] == 32u8);
    assert forall|j: int| 0 <= j < nb.len() implies header[j] != 32u8 by {
        assert(header[j] == nb[j]);
    }
    lemma_first_index(header, 32u8, nb.len() as int);
    assert(header.take(nb.len() as int) =~= nb);
    assert(header.skip(nb.len() as int + 1) =~= dec);
}

/// Whatever reads as an object is laid out as that object's store
/// representation, up to how its length is written: the kind's name, a
/// space, a length text that reads as the length of the data, a NUL, then
/// the data.
pub proof fn lemma_parsed_layout(b: Seq<u8>)
    requires
        parse_store_bytes(b) is Ok,
    ensures
        exists|len: Seq<u8>|
            {
                let (kind, data) = parse_store_bytes(b)->Ok_0;
                &&& b == kind.name_bytes() + seq![32u8] + len + seq![0u8] + data
                &&& #[trigger] parse_decimal(len) == Some(data.len())
            },
{
    let (kind, data) = parse_store_bytes(b)->Ok_0;
    b.index_of_first_ensures(0u8);
    let n = b.index_of_first(0u8).unwrap();
    let header = b.take(n);
    header.index_of_first_ensures(32u8);
    let sp = header.index_of_first(32u8).unwrap();
    let kind_bytes = header.take(sp);
    let len = header.skip(sp + 1);
    lemma_named_only_name(decode_utf8(kind_bytes), kind);
    decode_utf8_encode_utf8(kind_bytes);
    lemma_name_bytes(kind);
    assert(kind_bytes == kind.name_bytes());
    assert(header =~= kind_bytes + seq![32u8] + len);
    assert(b =~= kind.name_bytes() + seq![32u8] + len + seq![0u8] + data);
    assert(parse_decimal(len) == Some(data.len()));
}

/// Objects with different kinds or data have different store
/// representations.
pub proof fn lemma_store_bytes_injective(k1: ObjectKind, d1: Seq<u8>, k2: ObjectKind, d2: Seq<u8>)
    requires
        d1.len() <= usize::MAX,
        d2.len() <= usize::MAX,
        store_bytes(k1, d1) == store_bytes(k2, d2),
    ensures
        k1 == k2,
        d1 == d2,
{
    lemma_store_bytes_roundtrip(k1, d1);
    lemma_store_bytes_roundtrip(k2, d2);
}

} // verus!
