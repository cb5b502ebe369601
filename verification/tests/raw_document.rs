use mongo_php_async_driver::bson::Document;
use mongo_php_async_driver::conversion::{PhpDocument, PhpRawDocument, OBJECT_ID_CLASS};
use mongo_php_async_driver::raw_document::raw_document_to_zval;
use mongo_php_async_driver::zval::{PhpKey, PhpObject, PhpValue};
use mongodb::bson::oid::ObjectId;
use mongodb::bson::spec::BinarySubtype;
use mongodb::bson::{Binary, Bson as DriverBson, Document as DriverDocument, RawDocumentBuf};

fn key(k: &str) -> PhpKey {
    PhpKey::String(k.to_string())
}

fn raw(doc: &DriverDocument) -> PhpRawDocument {
    PhpRawDocument::from(RawDocumentBuf::from_document(doc).unwrap())
}

fn raw_bytes(bytes: Vec<u8>) -> PhpRawDocument {
    PhpRawDocument::from(RawDocumentBuf::from_bytes(bytes).unwrap())
}

const BYTES: [u8; 12] = [0x50, 0x7f, 0x1f, 0x77, 0xbc, 0xf8, 0x6c, 0xd7, 0x99, 0x43, 0x90, 0x11];

#[test]
fn raw_scalars_become_php_values_in_order() {
    let mut doc = DriverDocument::new();
    doc.insert("i32", DriverBson::Int32(7));
    doc.insert("i64", DriverBson::Int64(-9));
    doc.insert("d", DriverBson::Double(2.5));
    doc.insert("b", DriverBson::Boolean(true));
    doc.insert("s", DriverBson::String("héllo".to_string()));
    let mut zval = PhpValue::Null;
    let res = raw_document_to_zval(&raw(&doc), &mut zval);
    assert!(matches!(res, Ok(true)));
    assert_eq!(
        zval,
        PhpValue::Array(vec![
            (key("i32"), PhpValue::Long(7)),
            (key("i64"), PhpValue::Long(-9)),
            (key("d"), PhpValue::Double(2.5f64.to_bits())),
            (key("b"), PhpValue::Bool(true)),
            (key("s"), PhpValue::String("héllo".as_bytes().to_vec())),
        ])
    );
}

#[test]
fn raw_object_id_and_binary_become_object_and_string() {
    let mut doc = DriverDocument::new();
    doc.insert("_id", DriverBson::ObjectId(ObjectId::from_bytes(BYTES)));
    doc.insert(
        "bin",
        DriverBson::Binary(Binary { subtype: BinarySubtype::Generic, bytes: vec![0, 255, 7] }),
    );
    let mut zval = PhpValue::Null;
    let res = raw_document_to_zval(&raw(&doc), &mut zval);
    assert!(matches!(res, Ok(true)));
    assert_eq!(
        zval,
        PhpValue::Array(vec![
            (
                key("_id"),
                PhpValue::Object(PhpObject {
                    class_name: OBJECT_ID_CLASS.to_string(),
                    declared_class: None,
                    string_form: Some("507f1f77bcf86cd799439011".to_string()),
                })
            ),
            (key("bin"), PhpValue::String(vec![0, 255, 7])),
        ])
    );
}

#[test]
fn raw_nested_document_and_array_are_read_at_every_depth() {
    let mut inner = DriverDocument::new();
    inner.insert("x", DriverBson::Int32(1));
    let mut doc = DriverDocument::new();
    doc.insert("sub", DriverBson::Document(inner));
    doc.insert(
        "list",
        DriverBson::Array(vec![DriverBson::Int32(3), DriverBson::String("a".to_string())]),
    );
    let mut zval = PhpValue::Null;
    let res = raw_document_to_zval(&raw(&doc), &mut zval);
    assert!(matches!(res, Ok(true)));
    assert_eq!(
        zval,
        PhpValue::Array(vec![
            (key("sub"), PhpValue::Array(vec![(key("x"), PhpValue::Long(1))])),
            (
                key("list"),
                PhpValue::Array(vec![
                    (PhpKey::Long(0), PhpValue::Long(3)),
                    (PhpKey::Long(1), PhpValue::String(b"a".to_vec())),
                ])
            ),
        ])
    );
}

#[test]
fn raw_empty_document_becomes_empty_array() {
    let mut zval = PhpValue::Long(1);
    let res = raw_document_to_zval(&raw(&DriverDocument::new()), &mut zval);
    assert!(matches!(res, Ok(true)));
    assert_eq!(zval, PhpValue::Array(vec![]));
}

#[test]
fn raw_null_has_no_php_counterpart_and_leaves_zval() {
    let mut doc = DriverDocument::new();
    doc.insert("a", DriverBson::Int32(1));
    doc.insert("n", DriverBson::Null);
    let mut zval = PhpValue::Long(5);
    let res = raw_document_to_zval(&raw(&doc), &mut zval);
    assert!(matches!(res, Ok(false)));
    assert_eq!(zval, PhpValue::Long(5));
}

#[test]
fn raw_element_with_unknown_tag_is_an_error() {
    // Length 8, an element of type 0x50 named "a", then the terminator.
    let mut zval = PhpValue::Long(5);
    let res = raw_document_to_zval(&raw_bytes(vec![8, 0, 0, 0, 0x50, b'a', 0, 0]), &mut zval);
    assert!(res.is_err());
    assert_eq!(zval, PhpValue::Long(5));
}

#[test]
fn raw_malformed_nested_document_is_an_error() {
    let inner = [8u8, 0, 0, 0, 0x50, b'b', 0, 0];
    let mut bytes = vec![16u8, 0, 0, 0, 0x03, b'a', 0];
    bytes.extend_from_slice(&inner);
    bytes.push(0);
    let mut zval = PhpValue::Long(5);
    let res = raw_document_to_zval(&raw_bytes(bytes), &mut zval);
    assert!(res.is_err());
    assert_eq!(zval, PhpValue::Long(5));
}

#[test]
fn raw_unsupported_value_before_malformed_element_decides() {
    // A null named "n", then an element of the unknown type 0x50 named "a".
    let bytes = vec![11, 0, 0, 0, 0x0A, b'n', 0, 0x50, b'a', 0, 0];
    let mut zval = PhpValue::Long(5);
    let res = raw_document_to_zval(&raw_bytes(bytes), &mut zval);
    assert!(matches!(res, Ok(false)));
    assert_eq!(zval, PhpValue::Long(5));
}

#[test]
fn raw_malformed_element_before_unsupported_value_decides() {
    // An element of the unknown type 0x50 named "a", then a null named "n".
    let bytes = vec![11, 0, 0, 0, 0x50, b'a', 0, 0x0A, b'n', 0, 0];
    let mut zval = PhpValue::Long(5);
    let res = raw_document_to_zval(&raw_bytes(bytes), &mut zval);
    assert!(res.is_err());
    assert_eq!(zval, PhpValue::Long(5));
}

#[test]
fn raw_unsupported_value_inside_nested_array_is_found() {
    let mut doc = DriverDocument::new();
    doc.insert("a", DriverBson::Int32(1));
    doc.insert("list", DriverBson::Array(vec![DriverBson::Int32(3), DriverBson::Null]));
    let mut zval = PhpValue::Long(5);
    let res = raw_document_to_zval(&raw(&doc), &mut zval);
    assert!(matches!(res, Ok(false)));
    assert_eq!(zval, PhpValue::Long(5));
}

#[test]
fn php_document_converts_into_its_document() {
    let d = Document { entries: vec![("a".to_string(), mongo_php_async_driver::bson::Bson::Int64(1))] };
    let back: Document = PhpDocument(d).into();
    assert_eq!(
        back,
        Document { entries: vec![("a".to_string(), mongo_php_async_driver::bson::Bson::Int64(1))] }
    );
}

#[test]
fn raw_document_buf_converts_into_php_raw_document() {
    let mut doc = DriverDocument::new();
    doc.insert("k", DriverBson::Int32(2));
    let buf = RawDocumentBuf::from_document(&doc).unwrap();
    let copy = buf.clone();
    let wrapped = PhpRawDocument::from(buf);
    assert_eq!(wrapped.0, copy);
}
