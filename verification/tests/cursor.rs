use mongo_php_async_driver::conversion::PhpRawDocument;
use mongo_php_async_driver::cursor::{feed_action, CursorError, FeedAction, MongoCursor};
use mongodb::bson::RawDocumentBuf;

fn raw(n: i32) -> RawDocumentBuf {
    let mut d = mongodb::bson::Document::new();
    d.insert("n", n);
    RawDocumentBuf::from_document(&d).unwrap()
}

#[test]
fn fresh_cursor() {
    let c = MongoCursor::new();
    assert!(c.valid());
    assert_eq!(c.key(), 0);
    assert!(c.current().is_none());
    assert!(c.rewind_check().is_ok());
}

#[test]
fn law_positions_count_documents() {
    let mut c = MongoCursor::new();
    for i in 0..5 {
        assert_eq!(c.next(Some(Ok(raw(i)))).unwrap(), true);
        assert_eq!(c.key(), i as u32);
        assert_eq!(c.current(), Some(&PhpRawDocument(raw(i))));
        assert!(c.valid());
    }
    assert_eq!(c.next(None).unwrap(), false);
    assert!(!c.valid());
    assert_eq!(c.key(), 4);
}

#[test]
fn rewind_receives_first_document_at_zero() {
    let mut c = MongoCursor::new();
    c.rewind_check().unwrap();
    c.rewind(Some(Ok(raw(7)))).unwrap();
    assert_eq!(c.key(), 0);
    assert_eq!(c.current(), Some(&PhpRawDocument(raw(7))));
    assert!(c.next(Some(Ok(raw(8)))).unwrap());
    assert_eq!(c.key(), 1);
    assert!(matches!(c.rewind_check(), Err(CursorError::CannotRewind)));
}

#[test]
fn rewind_of_empty_result_marks_done() {
    let mut c = MongoCursor::new();
    c.rewind(None).unwrap();
    assert!(!c.valid());
    assert!(c.current().is_none());
}

#[test]
fn law_error_changes_nothing() {
    let mut c = MongoCursor::new();
    c.next(Some(Ok(raw(1)))).unwrap();
    let r = c.next(Some(Err(mongodb::error::Error::custom("boom"))));
    assert!(matches!(r, Err(CursorError::Advance(_))));
    assert_eq!(c.key(), 0);
    assert_eq!(c.current(), Some(&PhpRawDocument(raw(1))));
    assert!(c.valid());
}

#[test]
fn law_done_is_final() {
    let mut c = MongoCursor::new();
    assert!(!c.next(None).unwrap());
    assert!(!c.valid());
    assert!(!c.next(None).unwrap());
    assert!(!c.valid());
}

#[test]
fn position_exhaustion_is_reported() {
    let c = MongoCursor::new();
    assert!(!c.position_exhausted());
}

#[test]
fn feed_actions() {
    assert!(matches!(feed_action(Ok(true)), FeedAction::SendCurrent));
    assert!(matches!(feed_action(Ok(false)), FeedAction::Finish));
    assert!(matches!(feed_action(Err(mongodb::error::Error::custom(1u8))), FeedAction::SendError(_)));
}

#[test]
fn rewind_on_started_cursor_refuses_and_changes_nothing() {
    let mut c = MongoCursor::new();
    c.next(Some(Ok(raw(1)))).unwrap();
    c.next(Some(Ok(raw(2)))).unwrap();
    let r = c.rewind(Some(Ok(raw(3))));
    assert!(matches!(r, Err(CursorError::CannotRewind)));
    assert_eq!(c.key(), 1);
    assert_eq!(c.current(), Some(&PhpRawDocument(raw(2))));
    assert!(c.valid());
}

#[test]
fn law_iteration_visits_documents_in_order() {
    let mut c = MongoCursor::new();
    c.rewind_check().unwrap();
    c.rewind(Some(Ok(raw(10)))).unwrap();
    let mut seen = vec![(c.key(), c.current().unwrap().0.clone())];
    for i in 11..14 {
        assert!(c.next(Some(Ok(raw(i)))).unwrap());
        seen.push((c.key(), c.current().unwrap().0.clone()));
    }
    assert!(!c.next(None).unwrap());
    assert!(!c.valid());
    let expected: Vec<(u32, RawDocumentBuf)> = (0..4).map(|k| (k as u32, raw(10 + k))).collect();
    assert_eq!(seen, expected);
}
