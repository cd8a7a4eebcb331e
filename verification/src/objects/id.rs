//! Object ids: 20-byte SHA-1 hashes, written as 40 lower-case hex digits.
use super::ObjectError;
use super::ObjectErrorView;
use crate::codec::hex_char_value;
use crate::codec::hex_decode;
use crate::codec::hex_digit;
use crate::codec::hex_encode;
use crate::codec::hex_lower;
use crate::codec::hex_value;
use crate::codec::is_hex;
use crate::codec::is_hex_char;
use vstd::prelude::*;

verus! {

/// A 20-byte SHA1 hash that uniquely identifies a git object.
#[derive(Clone, Copy, PartialEq, Eq, Hash, Debug)]
pub struct ObjectId([u8; 20]);

impl View for ObjectId {
    type V = Seq<u8>;

    closed spec fn view(&self) -> Seq<u8> {
        self.0@
    }
}

/// A hex digit in lower case.
pub open spec fn lower_hex_char(c: char) -> char {
    if 'A' <= c && c <= 'F' {
        ((c as int) + 32) as char
    } else {
        c
    }
}

/// Hex text with its upper-case digits made lower-case.
pub open spec fn lower_hex(s: Seq<char>) -> Seq<char> {
    s.map_values(|c: char| lower_hex_char(c))
}

/// Text that names an object id: exactly 40 hex digits, of either case.
pub open spec fn is_oid_text(s: Seq<char>) -> bool {
    is_hex(s) && s.len() == 40
}

impl ObjectId {
    /// Every id is 20 bytes long.
    pub proof fn lemma_len(self)
        ensures
            self@.len() == 20,
    {
    }

    /// Construct an ObjectId from a 20-byte array.
    pub fn from_bytes(bytes: [u8; 20]) -> (res: ObjectId)
        ensures
            res@ == bytes@,
    {
        ObjectId(bytes)
    }

    /// The first byte as hex (2 chars) — used as the fan-out directory name.
    pub fn fan_out(&self) -> (res: String)
        ensures
            res@ == hex_lower(self@.take(1)),
    {
        let bytes = self.0.as_slice();
        hex_encode(&bytes[0..1])
    }

    /// The remaining 19 bytes as hex (38 chars) — used as the filename.
    pub fn remainder(&self) -> (res: String)
        ensures
            res@ == hex_lower(self@.skip(1)),
    {
        let bytes = self.0.as_slice();
        hex_encode(&bytes[1..20])
    }

    /// The id as 40 lower-case hex digits.
    pub fn to_string(&self) -> (res: String)
        ensures
            res@ == hex_lower(self@),
    {
        hex_encode(self.0.as_slice())
    }

    /// Read an id from 40 hex digits of either case; any other text is an
    /// invalid id.
    pub fn from_hex(s: &str) -> (res: Result<ObjectId, ObjectError>)
        ensures
            res is Ok <==> is_oid_text(s@),
            res matches Ok(id) ==> id@ == hex_value(s@),
            res matches Err(e) ==> e@ == ObjectErrorView::InvalidOid(s@),
    {
        match hex_decode(s) {
            Err(_) => Err(ObjectError::InvalidOid(s.to_owned())),
            Ok(bytes) => {
                proof {
                    lemma_hex_value_len(s@);
                }
                if bytes.len() != 20 {
                    Err(ObjectError::InvalidOid(s.to_owned()))
                } else {
                    let mut arr = [0u8; 20];
                    let mut i: usize = 0;
                    while i < 20
                        invariant
                            i <= 20,
                            bytes@.len() == 20,
                            forall|j: int| 0 <= j < i ==> arr@[j] == bytes@[j],
                        decreases 20 - i,
                    {
                        arr[i] = bytes[i];
                        i = i + 1;
                    }
                    assert(arr@ =~= bytes@);
                    Ok(ObjectId(arr))
                }
            },
        }
    }
}

impl std::str::FromStr for ObjectId {
    type Err = ObjectError;

    fn from_str(s: &str) -> (res: Result<ObjectId, ObjectError>)
        ensures
            res is Ok <==> is_oid_text(s@),
            res matches Ok(id) ==> id@ == hex_value(s@),
            res matches Err(e) ==> e@ == ObjectErrorView::InvalidOid(s@),
    {
        ObjectId::from_hex(s)
    }
}

/// Hex text is as long as two digits per byte.
pub proof fn lemma_hex_lower_len(d: Seq<u8>)
    ensures
        hex_lower(d).len() == 2 * d.len(),
    decreases d.len(),
{
    if d.len() > 0 {
        lemma_hex_lower_len(d.drop_first());
    }
}

/// Hex text of a concatenation is the concatenation of the hex texts.
pub proof fn lemma_hex_lower_concat(a: Seq<u8>, b: Seq<u8>)
    ensures
        hex_lower(a + b) == hex_lower(a) + hex_lower(b),
    decreases a.len(),
{
    if a.len() == 0 {
        assert(a + b =~= b);
        assert(hex_lower(a) =~= Seq::<char>::empty());
        assert(hex_lower(a) + hex_lower(b) =~= hex_lower(b));
    } else {
        lemma_hex_lower_concat(a.drop_first(), b);
        assert((a + b).drop_first() =~= a.drop_first() + b);
        assert((a + b)[0] == a[0]);
        let h = seq![hex_digit(a[0] as int / 16), hex_digit(a[0] as int % 16)];
        assert(hex_lower(a + b) == h + hex_lower(a.drop_first() + b));
        assert(h + (hex_lower(a.drop_first()) + hex_lower(b)) =~= (h + hex_lower(a.drop_first()))
            + hex_lower(b));
    }
}

/// The bytes of well-formed hex text number half its digits.
pub proof fn lemma_hex_value_len(s: Seq<char>)
    requires
        s.len() % 2 == 0,
    ensures
        hex_value(s).len() == s.len() / 2,
    decreases s.len(),
{
    if s.len() >= 2 {
        lemma_hex_value_len(s.skip(2));
    }
}

/// A digit written by `hex_digit` reads back as its value.
proof fn lemma_hex_digit(n: int)
    requires
        0 <= n < 16,
    ensures
        is_hex_char(hex_digit(n)),
        hex_char_value(hex_digit(n)) == n,
        'a' <= hex_digit(n) ==> hex_digit(n) <= 'f',
        !('A' <= hex_digit(n) && hex_digit(n) <= 'F'),
{
}

/// Hex text of any bytes is well-formed and reads back as those bytes.
pub proof fn lemma_hex_roundtrip(d: Seq<u8>)
    ensures
        is_hex(hex_lower(d)),
        hex_value(hex_lower(d)) == d,
    decreases d.len(),
{
    lemma_hex_lower_len(d);
    if d.len() > 0 {
        lemma_hex_roundtrip(d.drop_first());
        let h = hex_lower(d);
        let hi = d[0] as int / 16;
        let lo = d[0] as int % 16;
        lemma_hex_digit(hi);
        lemma_hex_digit(lo);
        assert(h.skip(2) =~= hex_lower(d.drop_first()));
        assert(h[0] == hex_digit(hi));
        assert(h[1] == hex_digit(lo));
        assert(hi * 16 + lo == d[0] as int);
        assert forall|i: int| 0 <= i < h.len() implies is_hex_char(#[trigger] h[i]) by {
            if i >= 2 {
                assert(h[i] == h.skip(2)[i - 2]);
            }
        }
        assert(hex_value(h) =~= seq![d[0]] + hex_value(hex_lower(d.drop_first())));
        assert(d =~= seq![d[0]] + d.drop_first());
    } else {
        assert(hex_value(hex_lower(d)) =~= d);
    }
}

/// Well-formed hex text, read and written again, comes back in lower case.
pub proof fn lemma_hex_lowercase(s: Seq<char>)
    requires
        is_hex(s),
    ensures
        hex_lower(hex_value(s)) == lower_hex(s),
    decreases s.len(),
{
    if s.len() >= 2 {
        let rest = s.skip(2);
        assert(is_hex(rest)) by {
            assert forall|i: int| 0 <= i < rest.len() implies is_hex_char(#[trigger] rest[i]) by {
                assert(rest[i] == s[i + 2]);
            }
        }
        lemma_hex_lowercase(rest);
        assert(is_hex_char(s[0]));
        assert(is_hex_char(s[1]));
        let hi = hex_char_value(s[0]);
        let lo = hex_char_value(s[1]);
        let b = (hi * 16 + lo) as u8;
        assert(0 <= hi < 16 && 0 <= lo < 16);
        assert(b as int == hi * 16 + lo);
        assert(b as int / 16 == hi);
        assert(b as int % 16 == lo);
        assert(hex_digit(hi) == lower_hex_char(s[0]));
        assert(hex_digit(lo) == lower_hex_char(s[1]));
        let v = hex_value(s);
        assert(v[0] == b);
        assert(v.drop_first() =~= hex_value(rest));
        assert(lower_hex(s) =~= seq![lower_hex_char(s[0]), lower_hex_char(s[1])] + lower_hex(rest));
    } else {
        assert(hex_lower(hex_value(s)) =~= lower_hex(s));
    }
}

/// An id written as text reads back as the same id: its text is 40 hex
/// digits that stand for its bytes.
pub proof fn lemma_id_text_roundtrip(id: ObjectId)
    ensures
        is_oid_text(hex_lower(id@)),
        hex_value(hex_lower(id@)) == id@,
{
    id.lemma_len();
    lemma_hex_lower_len(id@);
    lemma_hex_roundtrip(id@);
}

/// Text that names an id, read and written again, comes back in lower case.
pub proof fn lemma_id_text_lowercase(s: Seq<char>)
    requires
        is_oid_text(s),
    ensures
        hex_lower(hex_value(s)) == lower_hex(s),
{
    lemma_hex_lowercase(s);
}

/// The fan-out directory name and the file name of an id, two and
/// thirty-eight digits long, spell the id's text.
pub proof fn lemma_fan_out_remainder(id: ObjectId)
    ensures
        hex_lower(id@.take(1)).len() == 2,
        hex_lower(id@.skip(1)).len() == 38,
        hex_lower(id@.take(1)) + hex_lower(id@.skip(1)) == hex_lower(id@),
{
    id.lemma_len();
    lemma_hex_lower_len(id@.take(1));
    lemma_hex_lower_len(id@.skip(1));
    lemma_hex_lower_concat(id@.take(1), id@.skip(1));
    assert(id@.take(1) + id@.skip(1) =~= id@);
}

} // verus!
