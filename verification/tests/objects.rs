use grit::objects::Object;
use grit::objects::ObjectError;
use grit::objects::ObjectId;
use grit::objects::ObjectKind;

fn corrupt_message(res: Result<Object, ObjectError>) -> String {
    match res {
        Err(ObjectError::Corrupt(m)) => m,
        Err(e) => panic!("expected a corrupt object, got {:?}", e),
        Ok(_) => panic!("expected a corrupt object, got an object"),
    }
}

#[test]
fn object_id_roundtrip() {
    let hex = "ce013625030ba8dba906f756967f9e9ca394464a";
    let oid: ObjectId = hex.parse().unwrap();
    assert_eq!(oid.to_string(), hex);
}

#[test]
fn object_id_fan_out() {
    let oid: ObjectId = "ce013625030ba8dba906f756967f9e9ca394464a".parse().unwrap();
    assert_eq!(oid.fan_out(), "ce");
    assert_eq!(oid.remainder(), "013625030ba8dba906f756967f9e9ca394464a");
}

#[test]
fn blob_store_bytes() {
    // "blob 5\0hello" is the git format for the content "hello"
    let obj = Object::new(ObjectKind::Blob, b"hello".to_vec());
    let bytes = obj.to_store_bytes();
    assert_eq!(&bytes, b"blob 5\0hello");
}

#[test]
fn blob_known_hash() {
    // git hash-object on "hello\n" produces this SHA1
    let obj = Object::new(ObjectKind::Blob, b"hello\n".to_vec());
    assert_eq!(
        obj.id().to_string(),
        "ce013625030ba8dba906f756967f9e9ca394464a"
    );
}

#[test]
fn write_then_read() {
    let obj = Object::new(ObjectKind::Blob, b"hello\n".to_vec());
    let file = obj.to_loose_bytes().unwrap();

    let got = Object::from_loose_bytes(&file).unwrap();
    assert_eq!(got.kind, ObjectKind::Blob);
    assert_eq!(got.data, b"hello\n");
}

#[test]
fn write_is_idempotent() {
    let obj = Object::new(ObjectKind::Blob, b"hello\n".to_vec());

    let id1 = obj.id();
    let id2 = obj.id();
    assert_eq!(id1, id2);
    assert_eq!(obj.to_loose_bytes().unwrap(), obj.to_loose_bytes().unwrap());
}

#[test]
fn object_id_from_bytes_keeps_bytes() {
    let mut bytes = [0u8; 20];
    bytes[0] = 0xab;
    bytes[19] = 0x01;
    let id = ObjectId::from_bytes(bytes);
    assert_eq!(id.to_string(), "ab00000000000000000000000000000000000001");
    assert_eq!(id.fan_out(), "ab");
}

#[test]
fn object_id_upper_case_reads_as_lower_case() {
    let oid = ObjectId::from_hex("CE013625030BA8DBA906F756967F9E9CA394464A").unwrap();
    assert_eq!(oid.to_string(), "ce013625030ba8dba906f756967f9e9ca394464a");
}

#[test]
fn object_id_rejects_bad_text() {
    for text in [
        "",
        "ce01",
        "ce013625030ba8dba906f756967f9e9ca394464",
        "ce013625030ba8dba906f756967f9e9ca394464a00",
        "ce013625030ba8dba906f756967f9e9ca394464g",
    ] {
        match ObjectId::from_hex(text) {
            Err(ObjectError::InvalidOid(s)) => assert_eq!(s, text),
            other => panic!("expected an invalid id for {:?}, got {:?}", text, other),
        }
    }
}

#[test]
fn kind_names_roundtrip() {
    for kind in [ObjectKind::Blob, ObjectKind::Tree, ObjectKind::Commit, ObjectKind::Tag] {
        let parsed: ObjectKind = kind.as_str().parse().unwrap();
        assert_eq!(parsed, kind);
    }
    assert_eq!(ObjectKind::Commit.as_str(), "commit");
    assert_eq!(ObjectKind::Tag.as_str(), "tag");
}

#[test]
fn unknown_kind_is_rejected() {
    match ObjectKind::from_name("Blob") {
        Err(ObjectError::UnknownKind(s)) => assert_eq!(s, "Blob"),
        other => panic!("expected an unknown kind, got {:?}", other),
    }
}

#[test]
fn store_bytes_roundtrip_every_kind() {
    for kind in [ObjectKind::Blob, ObjectKind::Tree, ObjectKind::Commit, ObjectKind::Tag] {
        let data: Vec<u8> = (0u8..=255).collect();
        let obj = Object::new(kind, data.clone());
        let got = Object::from_store_bytes(&obj.to_store_bytes()).unwrap();
        assert_eq!(got.kind, kind);
        assert_eq!(got.data, data);
    }
}

#[test]
fn empty_tree_store_bytes() {
    let obj = Object::new(ObjectKind::Tree, Vec::new());
    assert_eq!(obj.to_store_bytes(), b"tree 0\0".to_vec());
    // git hash-object -t tree /dev/null
    assert_eq!(obj.id().to_string(), "4b825dc642cb6eb9a060e54bf8d69288fbee4904");
}

#[test]
fn length_with_several_digits() {
    let obj = Object::new(ObjectKind::Blob, vec![7u8; 1234]);
    let bytes = obj.to_store_bytes();
    assert_eq!(&bytes[..10], b"blob 1234\0");
    assert_eq!(bytes.len(), 10 + 1234);
}

#[test]
fn parse_accepts_plus_and_leading_zeros() {
    let got = Object::from_store_bytes(b"blob +05\0hello").unwrap();
    assert_eq!(got.kind, ObjectKind::Blob);
    assert_eq!(got.data, b"hello");
}

#[test]
fn parse_splits_on_first_nul() {
    let got = Object::from_store_bytes(b"blob 3\0a\0b").unwrap();
    assert_eq!(got.data, b"a\0b");
}

#[test]
fn parse_missing_nul() {
    assert_eq!(
        corrupt_message(Object::from_store_bytes(b"blob 5 hello")),
        "obj bytes missing null separator"
    );
}

#[test]
fn parse_missing_space() {
    assert_eq!(
        corrupt_message(Object::from_store_bytes(b"blob5\0hello")),
        "header missing space separator"
    );
}

#[test]
fn parse_length_not_utf8() {
    assert_eq!(
        corrupt_message(Object::from_store_bytes(b"blob \xff\0hello")),
        "header length is not valid UTF-8"
    );
}

#[test]
fn parse_length_not_a_number() {
    assert_eq!(
        corrupt_message(Object::from_store_bytes(b"blob five\0hello")),
        "invalid length in header: five"
    );
    assert_eq!(
        corrupt_message(Object::from_store_bytes(b"blob \0")),
        "invalid length in header: "
    );
    assert_eq!(
        corrupt_message(Object::from_store_bytes(b"blob +\0")),
        "invalid length in header: +"
    );
    assert_eq!(
        corrupt_message(Object::from_store_bytes(b"blob -0\0")),
        "invalid length in header: -0"
    );
    assert_eq!(
        corrupt_message(Object::from_store_bytes(b"blob 99999999999999999999999\0")),
        "invalid length in header: 99999999999999999999999"
    );
}

#[test]
fn parse_length_mismatch() {
    assert_eq!(
        corrupt_message(Object::from_store_bytes(b"blob 12\0hello")),
        "header says 12 bytes but got 5"
    );
}

#[test]
fn parse_kind_not_utf8() {
    assert_eq!(
        corrupt_message(Object::from_store_bytes(b"\xc3 1\0x")),
        "kind is not valid UTF-8"
    );
}

#[test]
fn parse_unknown_kind() {
    match Object::from_store_bytes(b"blub 1\0x") {
        Err(ObjectError::UnknownKind(s)) => assert_eq!(s, "blub"),
        other => panic!("expected an unknown kind, got {:?}", other.err()),
    }
}

#[test]
fn loose_bytes_that_are_not_zlib() {
    match Object::from_loose_bytes(b"blob 5\0hello") {
        Err(ObjectError::Io(_)) => {}
        other => panic!("expected an I/O error, got {:?}", other.err()),
    }
}

#[test]
fn loose_bytes_hold_store_bytes() {
    let obj = Object::new(ObjectKind::Commit, b"tree 4b82\n".to_vec());
    let file = obj.to_loose_bytes().unwrap();
    let mut decoder = flate2::read::ZlibDecoder::new(&file[..]);
    let mut content = Vec::new();
    std::io::Read::read_to_end(&mut decoder, &mut content).unwrap();
    assert_eq!(content, obj.to_store_bytes());
}

#[test]
fn every_written_object_reads_back_by_id() {
    let objects = vec![
        Object::new(ObjectKind::Blob, b"one\n".to_vec()),
        Object::new(ObjectKind::Blob, b"two\n".to_vec()),
        Object::new(ObjectKind::Tree, Vec::new()),
        Object::new(ObjectKind::Commit, b"tree 4b825dc642cb6eb9a060e54bf8d69288fbee4904\n".to_vec()),
    ];
    let mut files: std::collections::HashMap<String, Vec<u8>> = std::collections::HashMap::new();
    for o in &objects {
        files.insert(o.id().to_string(), o.to_loose_bytes().unwrap());
    }
    for o in &objects {
        let id = o.id();
        let got = Object::from_loose_bytes(&files[&id.to_string()]).unwrap();
        assert_eq!(got.kind, o.kind);
        assert_eq!(got.data, o.data);
        assert_eq!(got.id(), id);
    }
}
