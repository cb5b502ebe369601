//! The cursor over the documents that a query found: the state that PHP's
//! iteration reads, and how each received document changes it.

use vstd::prelude::*;
use mongodb::bson::RawDocumentBuf;
use crate::conversion::PhpRawDocument;

verus! {

/// What can go wrong while iterating.
#[derive(Debug)]
pub enum CursorError {
    /// The server or the driver failed to produce the next document
    /// ("An error occurred while advancing").
    Advance(mongodb::error::Error),
    /// The iteration has begun and cannot go back ("Cannot rewind iterator").
    CannotRewind,
}

/// What a cursor holds.
pub struct CursorView {
    /// The current document.
    pub buf: Option<PhpRawDocument>,
    /// The position of the current document.
    pub count: u32,
    /// Whether a document has been received.
    pub started: bool,
    /// Whether the documents ran out.
    pub done: bool,
}

/// The PHP iterator over the documents of a query.
#[derive(Debug)]
pub struct MongoCursor {
    buf: Option<PhpRawDocument>,
    count: u32,
    started: bool,
    done: bool,
}

impl MongoCursor {
    #[verifier::type_invariant]
    spec fn inv(self) -> bool {
        !self.started ==> self.count == 0 && self.buf is None
    }
}

impl View for MongoCursor {
    type V = CursorView;

    closed spec fn view(&self) -> CursorView {
        CursorView { buf: self.buf, count: self.count, started: self.started, done: self.done }
    }
}

/// A cursor that has received nothing yet.
pub open spec fn fresh_cursor() -> CursorView {
    CursorView { buf: None, count: 0, started: false, done: false }
}

/// What the next document, an error, or the end of the documents
/// (`received`) does to a cursor, and what `next` answers: a document becomes
/// the current one and, after the first, advances the position; an error
/// changes nothing; the end marks the cursor done.
pub open spec fn next_spec(
    s: CursorView,
    received: Option<Result<RawDocumentBuf, mongodb::error::Error>>,
) -> (CursorView, Result<bool, CursorError>) {
    match received {
        Some(Ok(doc)) => (
            CursorView {
                buf: Some(PhpRawDocument(doc)),
                count: if s.started { (s.count + 1) as u32 } else { s.count },
                started: true,
                done: s.done,
            },
            Ok(true),
        ),
        Some(Err(e)) => (s, Err(CursorError::Advance(e))),
        None => (CursorView { done: true, ..s }, Ok(false)),
    }
}

/// What rewinding does: a cursor that has begun refuses and stays as it
/// was; otherwise the first document becomes the current one at position 0,
/// an error changes nothing, the end marks the cursor done.
pub open spec fn rewind_spec(
    s: CursorView,
    received: Option<Result<RawDocumentBuf, mongodb::error::Error>>,
) -> (CursorView, Result<(), CursorError>) {
    if s.started {
        (s, Err(CursorError::CannotRewind))
    } else {
    match received {
        Some(Ok(doc)) => (
            CursorView { buf: Some(PhpRawDocument(doc)), count: s.count, started: true, done: s.done },
            Ok(()),
        ),
        Some(Err(e)) => (s, Err(CursorError::Advance(e))),
        None => (CursorView { done: true, ..s }, Ok(())),
    }
    }
}

/// A cursor that has not begun holds no document and is at position 0.
pub open spec fn cursor_wf(s: CursorView) -> bool {
    !s.started ==> s.count == 0 && s.buf is None
}

/// Receiving `items` one after another through `next`.
pub open spec fn next_all(s: CursorView, items: Seq<RawDocumentBuf>) -> CursorView
    decreases items.len(),
{
    if items.len() == 0 {
        s
    } else {
        next_spec(next_all(s, items.drop_last()), Some(Ok(items.last()))).0
    }
}

/// What the task that feeds a cursor does after asking the server for the
/// next document.
#[derive(Debug)]
pub enum FeedAction {
    /// Pass the error on to the cursor and go on.
    SendError(mongodb::error::Error),
    /// Pass the document now current on to the cursor and go on.
    SendCurrent,
    /// The documents ran out: stop.
    Finish,
}

impl MongoCursor {
    /// A cursor that has received nothing yet.
    pub fn new() -> (res: MongoCursor)
        ensures
            res@ == fresh_cursor(),
    {
        MongoCursor { buf: None, count: 0, started: false, done: false }
    }

    /// The current document, if any.
    pub fn current(&self) -> (res: Option<&PhpRawDocument>)
        ensures
            match res {
                Some(d) => self@.buf == Some(*d),
                None => self@.buf is None,
            },
            !self@.started ==> res is None,
    {
        proof {
            use_type_invariant(self);
        }
        self.buf.as_ref()
    }

    /// The position of the current document.
    pub fn key(&self) -> (res: u32)
        ensures
            res == self@.count,
            !self@.started ==> res == 0,
    {
        proof {
            use_type_invariant(self);
        }
        self.count
    }

    /// Whether the documents have not run out.
    pub fn valid(&self) -> (res: bool)
        ensures
            res == !self@.done,
    {
        !self.done
    }

    /// Whether receiving one more document would take the position past
    /// `u32::MAX`.
    pub fn position_exhausted(&self) -> (res: bool)
        ensures
            res == (self@.started && self@.count == u32::MAX),
    {
        self.started && self.count == u32::MAX
    }

    /// Takes what the channel from the feeding task gave (`received`): the
    /// next document, an error, or the end of the documents.
    pub fn next(&mut self, received: Option<Result<RawDocumentBuf, mongodb::error::Error>>) -> (res: Result<bool, CursorError>)
        requires
            received matches Some(Ok(_)) ==> !(old(self)@.started && old(self)@.count == u32::MAX),
        ensures
            (final(self)@, res) == next_spec(old(self)@, received),
            cursor_wf(final(self)@),
    {
        proof {
            use_type_invariant(&*self);
        }
        match received {
            Some(Ok(doc)) => {
                if self.started {
                    self.count = self.count + 1;
                } else {
                    self.started = true;
                }
                self.buf = Some(PhpRawDocument(doc));
                Ok(true)
            },
            Some(Err(e)) => Err(CursorError::Advance(e)),
            None => {
                self.done = true;
                Ok(false)
            },
        }
    }

    /// Whether the cursor may be rewound: only before it has begun.
    pub fn rewind_check(&self) -> (res: Result<(), CursorError>)
        ensures
            res is Err <==> self@.started,
            res matches Err(e) ==> e is CannotRewind,
    {
        if self.started {
            Err(CursorError::CannotRewind)
        } else {
            Ok(())
        }
    }

    /// Rewinds the cursor with what the channel gave. A cursor that has begun
    /// refuses and stays as it was; the caller asks [`Self::rewind_check`]
    /// first so that nothing is taken from the channel in that case.
    pub fn rewind(&mut self, received: Option<Result<RawDocumentBuf, mongodb::error::Error>>) -> (res: Result<(), CursorError>)
        ensures
            (final(self)@, res) == rewind_spec(old(self)@, received),
            cursor_wf(final(self)@),
    {
        proof {
            use_type_invariant(&*self);
        }
        if self.started {
            return Err(CursorError::CannotRewind);
        }
        match received {
            Some(Ok(doc)) => {
                self.started = true;
                self.buf = Some(PhpRawDocument(doc));
                Ok(())
            },
            Some(Err(e)) => Err(CursorError::Advance(e)),
            None => {
                self.done = true;
                Ok(())
            },
        }
    }
}

/// What the feeding task does with the answer to "advance": an error is
/// passed on, a document is passed on, the end stops the task.
pub fn feed_action(advanced: Result<bool, mongodb::error::Error>) -> (res: FeedAction)
    ensures
        match advanced {
            Err(e) => res == FeedAction::SendError(e),
            Ok(true) => res is SendCurrent,
            Ok(false) => res is Finish,
        },
{
    match advanced {
        Err(e) => FeedAction::SendError(e),
        Ok(v) => if v {
            FeedAction::SendCurrent
        } else {
            FeedAction::Finish
        },
    }
}

/// Once the documents have run out, a cursor stays done, whatever `next`
/// or a rewind receives.
pub proof fn law_done_is_final(s: CursorView, received: Option<Result<RawDocumentBuf, mongodb::error::Error>>)
    requires
        s.done,
    ensures
        next_spec(s, received).0.done,
        rewind_spec(s, received).0.done,
{
}

/// After `n >= 1` documents received through `next` by a fresh cursor, the
/// current document is the last one and its position is `n - 1`; the cursor
/// is still valid.
pub proof fn law_positions_count_documents(items: Seq<RawDocumentBuf>)
    requires
        1 <= items.len() <= u32::MAX as int + 1,
    ensures
        next_all(fresh_cursor(), items) == (CursorView {
            buf: Some(PhpRawDocument(items.last())),
            count: (items.len() - 1) as u32,
            started: true,
            done: false,
        }),
    decreases items.len(),
{
    let prefix = items.drop_last();
    if items.len() > 1 {
        law_positions_count_documents(prefix);
    } else {
        assert(next_all(fresh_cursor(), prefix) == fresh_cursor());
    }
}

/// Rewinding a cursor that has not begun does what `next` does to it.
pub proof fn law_rewind_is_first_next(s: CursorView, received: Option<Result<RawDocumentBuf, mongodb::error::Error>>)
    requires
        !s.started,
    ensures
        rewind_spec(s, received).0 == next_spec(s, received).0,
{
}

/// An error leaves the cursor as it was.
pub proof fn law_error_changes_nothing(s: CursorView, e: mongodb::error::Error)
    ensures
        next_spec(s, Some(Err(e))).0 == s,
        rewind_spec(s, Some(Err(e))).0 == s,
{
}

/// A cursor that has begun refuses a rewind and stays as it was.
pub proof fn law_started_cursor_refuses_rewind(s: CursorView, received: Option<Result<RawDocumentBuf, mongodb::error::Error>>)
    requires
        s.started,
    ensures
        rewind_spec(s, received) == (s, Err::<(), CursorError>(CursorError::CannotRewind)),
{
}

/// Positions never go back and never skip: one call of `next` or a rewind
/// leaves the position as it was, or, for a document received by a cursor
/// that has begun, moves it on by one. Every step keeps a cursor that has
/// not begun at position 0 with no document.
pub proof fn law_positions_step(s: CursorView, received: Option<Result<RawDocumentBuf, mongodb::error::Error>>)
    requires
        cursor_wf(s),
        received matches Some(Ok(_)) ==> !(s.started && s.count == u32::MAX),
    ensures
        next_spec(s, received).0.count == s.count || (next_spec(s, received).0.count == s.count + 1
            && s.started && received is Some && received->Some_0 is Ok),
        rewind_spec(s, received).0.count == s.count,
        cursor_wf(next_spec(s, received).0),
        cursor_wf(rewind_spec(s, received).0),
{
}

/// Documents received by a cursor that has begun move its position on by one
/// each, and the last of them becomes the current one.
proof fn lemma_next_all_started(s: CursorView, items: Seq<RawDocumentBuf>)
    requires
        s.started,
        s.count + items.len() <= u32::MAX,
    ensures
        next_all(s, items).started,
        next_all(s, items).done == s.done,
        next_all(s, items).count == s.count + items.len(),
        items.len() > 0 ==> next_all(s, items).buf == Some(PhpRawDocument(items.last())),
    decreases items.len(),
{
    if items.len() > 0 {
        lemma_next_all_started(s, items.drop_last());
    }
}

/// Iterating over the documents `items` of a query from PHP (a rewind, then
/// `next` after each document) visits them in order: after the rewind and
/// `j` calls of `next`, the current document is `items[j]` at position `j`
/// and the cursor is valid; one more `next` after the last document finds
/// the end and the cursor is no longer valid. A query with no documents is
/// done after the rewind.
pub proof fn law_iteration_visits_documents_in_order(items: Seq<RawDocumentBuf>, j: int)
    requires
        0 <= j < items.len() <= u32::MAX as int + 1,
    ensures
        ({
            let s0 = rewind_spec(fresh_cursor(), Some(Ok(items[0]))).0;
            &&& next_all(s0, items.subrange(1, j + 1)) == (CursorView {
                buf: Some(PhpRawDocument(items[j])),
                count: j as u32,
                started: true,
                done: false,
            })
            &&& next_spec(next_all(s0, items.subrange(1, items.len() as int)), None).0.done
            &&& next_spec(next_all(s0, items.subrange(1, items.len() as int)), None).1 == Ok::<bool, CursorError>(false)
        }),
        rewind_spec(fresh_cursor(), None).0.done,
{
    let s0 = rewind_spec(fresh_cursor(), Some(Ok(items[0]))).0;
    let a = items.subrange(1, j + 1);
    lemma_next_all_started(s0, a);
    if j > 0 {
        assert(a.last() == items[j]);
    } else {
        assert(a.len() == 0);
    }
    lemma_next_all_started(s0, items.subrange(1, items.len() as int));
}

} // verus!
