use mongo_php_async_driver::object_id::{MongoObjectId, ObjectIdError};

#[test]
fn construct_from_hex() {
    let o = MongoObjectId::__construct(Some("507f1f77bcf86cd799439011")).unwrap();
    assert_eq!(o.id, [0x50, 0x7f, 0x1f, 0x77, 0xbc, 0xf8, 0x6c, 0xd7, 0x99, 0x43, 0x90, 0x11]);
    let upper = MongoObjectId::__construct(Some("507F1F77BCF86CD799439011")).unwrap();
    assert_eq!(upper.id, o.id);
}

#[test]
fn construct_refuses_bad_hex() {
    for bad in ["", "507f1f77bcf86cd79943901", "507f1f77bcf86cd7994390111", "507f1f77bcf86cd79943901g", "é07f1f77bcf86cd79943901"] {
        assert!(matches!(MongoObjectId::__construct(Some(bad)), Err(ObjectIdError::InvalidObjectId(_))), "{bad}");
    }
}

#[test]
fn construct_without_argument_generates_fresh_ids() {
    let a = MongoObjectId::__construct(None).unwrap();
    let b = MongoObjectId::__construct(None).unwrap();
    assert_ne!(a.id, b.id);
    a.__toString();
}
