use mongo_php_async_driver::bson::{Bson, Document};
use mongo_php_async_driver::conversion::{
    bson_is_supported, bson_to_zval, document_is_supported, document_to_zval, reads_string_form,
    zval_to_bson, zval_to_bson_checked, zval_to_document, zval_to_document_checked,
    ConversionError, PhpDocument, OBJECT_ID_CLASS,
};
use mongo_php_async_driver::zval::{PhpKey, PhpObject, PhpType, PhpValue};

fn s(v: &str) -> PhpValue {
    PhpValue::String(v.as_bytes().to_vec())
}

fn key(k: &str) -> PhpKey {
    PhpKey::String(k.to_string())
}

fn list(values: Vec<PhpValue>) -> PhpValue {
    PhpValue::Array(
        values
            .into_iter()
            .enumerate()
            .map(|(i, v)| (PhpKey::Long(i as i64), v))
            .collect(),
    )
}

fn object_id_object(hex: &str) -> PhpValue {
    PhpValue::Object(PhpObject {
        class_name: OBJECT_ID_CLASS.to_string(),
        declared_class: None,
        string_form: Some(hex.to_string()),
    })
}

const HEX: &str = "507f1f77bcf86cd799439011";
const BYTES: [u8; 12] = [0x50, 0x7f, 0x1f, 0x77, 0xbc, 0xf8, 0x6c, 0xd7, 0x99, 0x43, 0x90, 0x11];

#[test]
fn scalars_map_to_their_bson_counterparts() {
    assert_eq!(zval_to_bson(&PhpValue::Null), Ok(Bson::Null));
    assert_eq!(zval_to_bson(&PhpValue::Bool(true)), Ok(Bson::Boolean(true)));
    assert_eq!(zval_to_bson(&PhpValue::Bool(false)), Ok(Bson::Boolean(false)));
    assert_eq!(zval_to_bson(&PhpValue::Long(-42)), Ok(Bson::Int64(-42)));
    let bits = 1.5f64.to_bits();
    assert_eq!(zval_to_bson(&PhpValue::Double(bits)), Ok(Bson::Double(bits)));
    assert_eq!(zval_to_bson(&s("héllo")), Ok(Bson::String("héllo".to_string())));
}

#[test]
fn non_utf8_string_is_refused() {
    let bad = PhpValue::String(vec![0x66, 0xff, 0x6f]);
    assert_eq!(zval_to_bson(&bad), Err(ConversionError::BinaryString));
}

#[test]
fn list_becomes_bson_array() {
    let v = list(vec![PhpValue::Long(1), s("a"), PhpValue::Bool(true)]);
    assert_eq!(
        zval_to_bson(&v),
        Ok(Bson::Array(vec![Bson::Int64(1), Bson::String("a".to_string()), Bson::Boolean(true)]))
    );
}

#[test]
fn empty_array_becomes_empty_bson_array() {
    assert_eq!(zval_to_bson(&PhpValue::Array(vec![])), Ok(Bson::Array(vec![])));
}

#[test]
fn string_keys_become_a_document() {
    let v = PhpValue::Array(vec![(key("field"), s("x")), (key("n"), PhpValue::Long(3))]);
    assert_eq!(
        zval_to_bson(&v),
        Ok(Bson::Document(Document {
            entries: vec![
                ("field".to_string(), Bson::String("x".to_string())),
                ("n".to_string(), Bson::Int64(3)),
            ]
        }))
    );
}

#[test]
fn keys_out_of_order_are_refused_as_integer_keys() {
    let v = PhpValue::Array(vec![(PhpKey::Long(1), PhpValue::Long(10)), (PhpKey::Long(0), PhpValue::Long(20))]);
    assert_eq!(zval_to_bson(&v), Err(ConversionError::UnexpectedIntegerKey(1)));
}

#[test]
fn mixed_keys_refused_at_the_first_integer_key() {
    let v = PhpValue::Array(vec![(key("a"), PhpValue::Long(1)), (PhpKey::Long(5), PhpValue::Long(2))]);
    assert_eq!(zval_to_bson(&v), Err(ConversionError::UnexpectedIntegerKey(5)));
}

#[test]
fn first_failure_in_order_decides() {
    let bad = PhpValue::String(vec![0xff]);
    let v = PhpValue::Array(vec![(key("a"), bad), (PhpKey::Long(7), PhpValue::Long(2))]);
    assert_eq!(zval_to_bson(&v), Err(ConversionError::BinaryString));
    let v2 = list(vec![PhpValue::Long(1), PhpValue::Other(PhpType::Resource), PhpValue::String(vec![0xff])]);
    assert_eq!(zval_to_bson(&v2), Err(ConversionError::UnexpectedType(PhpType::Resource)));
}

#[test]
fn references_and_pointers_are_followed() {
    let v = PhpValue::Reference(Box::new(PhpValue::Pointer(Box::new(PhpValue::Long(9)))));
    assert_eq!(zval_to_bson(&v), Ok(Bson::Int64(9)));
}

#[test]
fn object_id_object_becomes_object_id() {
    assert_eq!(zval_to_bson(&object_id_object(HEX)), Ok(Bson::ObjectId(BYTES)));
    assert_eq!(
        zval_to_bson(&object_id_object("507F1F77BCF86CD799439011")),
        Ok(Bson::ObjectId(BYTES))
    );
}

#[test]
fn other_objects_are_refused() {
    let o = PhpValue::Object(PhpObject {
        class_name: "Foo".to_string(),
        declared_class: Some("Bar".to_string()),
        string_form: None,
    });
    assert_eq!(
        zval_to_bson(&o),
        Err(ConversionError::UnexpectedObject { declared_name: "Bar".to_string(), class_name: "Foo".to_string() })
    );
}

#[test]
fn other_types_are_refused() {
    assert_eq!(
        zval_to_bson(&PhpValue::Other(PhpType::Callable)),
        Err(ConversionError::UnexpectedType(PhpType::Callable))
    );
}

#[test]
fn document_of_non_array_is_refused_with_its_type() {
    assert_eq!(zval_to_document(&PhpValue::Long(1)), Err(ConversionError::UnexpectedType(PhpType::Long)));
    assert_eq!(zval_to_document(&PhpValue::Bool(false)), Err(ConversionError::UnexpectedType(PhpType::False)));
    let r = PhpValue::Reference(Box::new(PhpValue::Array(vec![])));
    assert_eq!(zval_to_document(&r), Err(ConversionError::UnexpectedType(PhpType::Reference)));
}

#[test]
fn document_refuses_integer_keys_even_for_lists() {
    let v = list(vec![PhpValue::Long(1)]);
    assert_eq!(zval_to_document(&v), Err(ConversionError::UnexpectedIntegerKey(0)));
    assert_eq!(zval_to_document(&PhpValue::Array(vec![])), Ok(Document { entries: vec![] }));
}

#[test]
fn php_document_from_zval() {
    let v = PhpValue::Array(vec![(key("x"), PhpValue::Long(1))]);
    let d = PhpDocument::from_zval(&v).unwrap();
    assert_eq!(d.0.entries, vec![("x".to_string(), Bson::Int64(1))]);
    assert!(PhpDocument::from_zval(&PhpValue::Long(1)).is_none());
}

#[test]
fn document_insert_replaces_in_place() {
    let mut d = Document::new();
    d.insert("a".to_string(), Bson::Int64(1));
    d.insert("b".to_string(), Bson::Int64(2));
    d.insert("a".to_string(), Bson::Int64(3));
    assert_eq!(
        d.entries,
        vec![("a".to_string(), Bson::Int64(3)), ("b".to_string(), Bson::Int64(2))]
    );
}

#[test]
fn bson_scalars_to_php() {
    assert_eq!(bson_to_zval(&Bson::Int32(-5)), PhpValue::Long(-5));
    assert_eq!(bson_to_zval(&Bson::Int64(1 << 40)), PhpValue::Long(1 << 40));
    assert_eq!(bson_to_zval(&Bson::Boolean(true)), PhpValue::Bool(true));
    let bits = (-0.25f64).to_bits();
    assert_eq!(bson_to_zval(&Bson::Double(bits)), PhpValue::Double(bits));
    assert_eq!(bson_to_zval(&Bson::String("é".to_string())), PhpValue::String(vec![0xc3, 0xa9]));
    assert_eq!(bson_to_zval(&Bson::Binary(0, vec![0, 255, 1])), PhpValue::String(vec![0, 255, 1]));
}

#[test]
fn bson_object_id_to_php_object() {
    assert_eq!(
        bson_to_zval(&Bson::ObjectId(BYTES)),
        PhpValue::Object(PhpObject {
            class_name: OBJECT_ID_CLASS.to_string(),
            declared_class: None,
            string_form: Some(HEX.to_string()),
        })
    );
}

#[test]
fn bson_array_to_php_list() {
    let b = Bson::Array(vec![Bson::Int32(1), Bson::String("x".to_string())]);
    assert_eq!(bson_to_zval(&b), list(vec![PhpValue::Long(1), s("x")]));
}

#[test]
fn bson_document_duplicate_keys_keep_first_place_last_value() {
    let d = Document {
        entries: vec![
            ("a".to_string(), Bson::Int32(1)),
            ("b".to_string(), Bson::Int32(2)),
            ("a".to_string(), Bson::Int32(3)),
        ],
    };
    let mut z = PhpValue::Null;
    document_to_zval(&d, &mut z);
    assert_eq!(z, PhpValue::Array(vec![(key("a"), PhpValue::Long(3)), (key("b"), PhpValue::Long(2))]));
    assert_eq!(
        bson_to_zval(&Bson::Document(d)),
        PhpValue::Array(vec![(key("a"), PhpValue::Long(3)), (key("b"), PhpValue::Long(2))])
    );
}

#[test]
fn unsupported_bson_detected() {
    assert!(!bson_is_supported(&Bson::Null));
    assert!(!bson_is_supported(&Bson::Other(0x09)));
    assert!(!bson_is_supported(&Bson::Array(vec![Bson::Int32(1), Bson::Null])));
    let d = Document { entries: vec![("a".to_string(), Bson::Document(Document { entries: vec![("b".to_string(), Bson::Other(0x11))] }))] };
    assert!(!bson_is_supported(&Bson::Document(d)));
    assert!(bson_is_supported(&Bson::Array(vec![Bson::Int32(1), Bson::String("x".to_string())])));
}

#[test]
fn law_round_trip_on_nested_value() {
    let written = PhpValue::Array(vec![
        (key("name"), s("Ada")),
        (key("tags"), list(vec![s("x"), PhpValue::Long(2), PhpValue::Double(2.5f64.to_bits())])),
        (key("nested"), PhpValue::Array(vec![(key("ok"), PhpValue::Bool(true))])),
        (key("id"), object_id_object(HEX)),
    ]);
    let b = zval_to_bson(&written).unwrap();
    assert!(bson_is_supported(&b));
    assert_eq!(bson_to_zval(&b), written);
}

#[test]
fn conversion_aborts_are_reported_as_nothing() {
    assert_eq!(zval_to_bson_checked(&object_id_object("not-an-id")), None);
    let no_form = PhpValue::Object(PhpObject {
        class_name: OBJECT_ID_CLASS.to_string(),
        declared_class: None,
        string_form: None,
    });
    assert_eq!(zval_to_bson_checked(&no_form), None);
    let anonymous = PhpValue::Object(PhpObject {
        class_name: "Foo".to_string(),
        declared_class: None,
        string_form: None,
    });
    assert_eq!(zval_to_bson_checked(&list(vec![PhpValue::Long(1), anonymous])), None);
    let failing_first = list(vec![PhpValue::String(vec![0xff]), object_id_object("bad")]);
    assert_eq!(zval_to_bson_checked(&failing_first), Some(Err(ConversionError::BinaryString)));
    let doc_abort = PhpValue::Array(vec![(key("id"), object_id_object("zz"))]);
    assert_eq!(zval_to_document_checked(&doc_abort), None);
    assert_eq!(zval_to_bson_checked(&PhpValue::Long(4)), Some(Ok(Bson::Int64(4))));
    assert!(reads_string_form(&OBJECT_ID_CLASS.to_string()));
    assert!(!reads_string_form(&"MongoDB\\BSON\\ObjectId".to_string()));
}

#[test]
fn document_support_check() {
    let ok = Document { entries: vec![("a".to_string(), Bson::Int32(1))] };
    assert!(document_is_supported(&ok));
    let bad = Document { entries: vec![("a".to_string(), Bson::Int32(1)), ("b".to_string(), Bson::Null)] };
    assert!(!document_is_supported(&bad));
}

#[test]
fn get_type_tags() {
    assert_eq!(PhpValue::Bool(true).get_type(), PhpType::True);
    assert_eq!(PhpValue::Pointer(Box::new(PhpValue::Null)).get_type(), PhpType::Ptr);
    assert_eq!(PhpValue::Other(PhpType::Resource).get_type(), PhpType::Resource);
}

#[test]
fn law_bson_round_trip_widens_int32() {
    let b = Bson::Document(Document {
        entries: vec![
            ("a".to_string(), Bson::Int32(7)),
            ("b".to_string(), Bson::Array(vec![Bson::Int32(-1), Bson::String("x".to_string()), Bson::Boolean(false)])),
            ("c".to_string(), Bson::ObjectId(BYTES)),
        ],
    });
    let z = bson_to_zval(&b);
    let expected = Bson::Document(Document {
        entries: vec![
            ("a".to_string(), Bson::Int64(7)),
            ("b".to_string(), Bson::Array(vec![Bson::Int64(-1), Bson::String("x".to_string()), Bson::Boolean(false)])),
            ("c".to_string(), Bson::ObjectId(BYTES)),
        ],
    });
    assert_eq!(zval_to_bson(&z), Ok(expected));
}
