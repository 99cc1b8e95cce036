//! Push notifications.
//!
//! A completed notification frame is one buffer carrying three
//! sections — source, title, body — delimited not by a second pass
//! over the bytes but by three recorded section offsets.

use vstd::prelude::*;

use crate::buffer::Buffer;
use crate::buffer::Type;
use vstd::slice::slice_subrange;
use vstd::slice::slice_to_vec;

verus! {

/// How many notifications the manager's pool retains before wrapping.
pub const BUFF_COUNT: usize = 24;

#[derive(Debug, Copy, Clone, PartialEq, Eq, Structural)]
pub enum NotificationError {
    Parsing,
}

/// One stored notification: a payload and the section offsets that
/// split it into source, title and body.
#[derive(Debug)]
pub struct Notification {
    section_indexes: [usize; 3],
    kind: Type,
    payload: Vec<u8>,
}

/// The state of a [`Notification`]: its bytes and the three section
/// ends, `source_end <= title_end <= body_end <= bytes.len()`.
#[verifier::ext_equal]
pub ghost struct NotifView {
    pub source_end: int,
    pub title_end: int,
    pub body_end: int,
    pub kind: Type,
    pub bytes: Seq<u8>,
}

impl View for Notification {
    type V = NotifView;

    closed spec fn view(&self) -> NotifView {
        NotifView {
            source_end: self.section_indexes[0] as int,
            title_end: self.section_indexes[1] as int,
            body_end: self.section_indexes[2] as int,
            kind: self.kind,
            bytes: self.payload@,
        }
    }
}

/// The section offsets are ordered and within the payload.
pub open spec fn sections_valid(s0: int, s1: int, s2: int, len: int) -> bool {
    0 <= s0 <= s1 <= s2 <= len
}

impl Notification {
    pub open spec fn wf(self) -> bool {
        sections_valid(self@.source_end, self@.title_end, self@.body_end, self@.bytes.len() as int)
    }

    /// The whole payload.
    pub fn buffer(&self) -> (r: &[u8])
        ensures
            r@ == self@.bytes,
    {
        self.payload.as_slice()
    }

    /// Build a notification from a completed buffer and its three
    /// section offsets; offsets out of order or past the payload are
    /// rejected as a parsing error.
    pub fn from_buffer(buffer: &Buffer, idxs: &[usize; 3]) -> (r: Result<
        Notification,
        NotificationError,
    >)
        ensures
            r is Ok <==> sections_valid(
                idxs@[0] as int,
                idxs@[1] as int,
                idxs@[2] as int,
                buffer.bytes().len() as int,
            ),
            r matches Ok(n) ==> n.wf() && n@ == (NotifView {
                source_end: idxs@[0] as int,
                title_end: idxs@[1] as int,
                body_end: idxs@[2] as int,
                kind: buffer.kind(),
                bytes: buffer.bytes(),
            }),
            r is Err ==> r == Err::<Notification, NotificationError>(NotificationError::Parsing),
    {
        let bytes = buffer.as_slice();
        if idxs[0] <= idxs[1] && idxs[1] <= idxs[2] && idxs[2] <= bytes.len() {
            Ok(
                Notification {
                    section_indexes: [idxs[0], idxs[1], idxs[2]],
                    kind: buffer.get_type(),
                    payload: slice_to_vec(bytes),
                },
            )
        } else {
            Err(NotificationError::Parsing)
        }
    }

    /// The source section: who generated the notification.
    pub fn source(&self) -> (r: &[u8])
        requires
            self.wf(),
        ensures
            r@ == self@.bytes.subrange(0, self@.source_end),
    {
        slice_subrange(self.payload.as_slice(), 0, self.section_indexes[0])
    }

    /// The title section.
    pub fn title(&self) -> (r: &[u8])
        requires
            self.wf(),
        ensures
            r@ == self@.bytes.subrange(self@.source_end, self@.title_end),
    {
        slice_subrange(self.payload.as_slice(), self.section_indexes[0], self.section_indexes[1])
    }

    /// The body section.
    pub fn body(&self) -> (r: &[u8])
        requires
            self.wf(),
        ensures
            r@ == self@.bytes.subrange(self@.title_end, self@.body_end),
    {
        slice_subrange(self.payload.as_slice(), self.section_indexes[1], self.section_indexes[2])
    }
}

impl Default for Notification {
    /// An empty notification of unknown kind.
    fn default() -> (n: Notification)
        ensures
            n.wf(),
            n@ == (NotifView {
                source_end: 0,
                title_end: 0,
                body_end: 0,
                kind: Type::Unknown,
                bytes: Seq::<u8>::empty(),
            }),
    {
        Notification { section_indexes: [0, 0, 0], kind: Type::Unknown, payload: Vec::new() }
    }
}

/// The state of a [`NotificationManager`]: a fixed pool filled round
/// robin, and the slot the next notification lands in.
#[verifier::ext_equal]
pub ghost struct NmView {
    pub pool: Seq<NotifView>,
    pub idx: int,
}

/// What storing one notification does: fill the current slot and move
/// on, wrapping after the last slot.
pub open spec fn nm_add_spec(v: NmView, n: NotifView) -> NmView {
    NmView {
        pool: v.pool.update(v.idx, n),
        idx: if v.idx == BUFF_COUNT - 1 {
            0
        } else {
            v.idx + 1
        },
    }
}

/// A fixed pool of notifications, filled round robin by the ingress
/// parser and read by the display side.
pub struct NotificationManager {
    pool: Vec<Notification>,
    idx: usize,
}

impl View for NotificationManager {
    type V = NmView;

    closed spec fn view(&self) -> NmView {
        NmView { pool: Seq::new(self.pool@.len(), |i: int| self.pool@[i]@), idx: self.idx as int }
    }
}

impl NotificationManager {
    pub open spec fn wf(self) -> bool {
        &&& self@.pool.len() == BUFF_COUNT
        &&& 0 <= self@.idx < BUFF_COUNT
    }

    /// A manager whose pool holds [`BUFF_COUNT`] empty notifications.
    pub fn new() -> (nm: NotificationManager)
        ensures
            nm.wf(),
            nm@.idx == 0,
            forall|i: int|
                0 <= i < BUFF_COUNT ==> nm@.pool[i] == (NotifView {
                    source_end: 0,
                    title_end: 0,
                    body_end: 0,
                    kind: Type::Unknown,
                    bytes: Seq::<u8>::empty(),
                }),
    {
        let mut pool: Vec<Notification> = Vec::new();
        let mut i: usize = 0;
        while i < BUFF_COUNT
            invariant
                i <= BUFF_COUNT,
                pool@.len() == i,
                forall|j: int|
                    0 <= j < i ==> pool@[j]@ == (NotifView {
                        source_end: 0,
                        title_end: 0,
                        body_end: 0,
                        kind: Type::Unknown,
                        bytes: Seq::<u8>::empty(),
                    }),
            decreases BUFF_COUNT - i,
        {
            pool.push(Notification::default());
            i = i + 1;
        }
        NotificationManager { pool, idx: 0 }
    }

    /// Borrow the notification stored at `index`.
    pub fn peek_notification(&self, index: usize) -> (n: &Notification)
        requires
            self.wf(),
            index < BUFF_COUNT,
        ensures
            n@ == self@.pool[index as int],
    {
        &self.pool[index]
    }

    /// The slot the next notification lands in.
    pub fn idx(&self) -> (i: usize)
        ensures
            i == self@.idx,
    {
        self.idx
    }

    /// Parse a completed buffer into the pool; offsets that do not
    /// describe ordered sections within the payload are rejected and
    /// change nothing.
    pub fn add(&mut self, buffer: &Buffer, idxs: &[usize; 3]) -> (r: Result<
        (),
        NotificationError,
    >)
        requires
            old(self).wf(),
        ensures
            final(self).wf(),
            r is Ok <==> sections_valid(
                idxs@[0] as int,
                idxs@[1] as int,
                idxs@[2] as int,
                buffer.bytes().len() as int,
            ),
            r is Ok ==> final(self)@ == nm_add_spec(
                old(self)@,
                NotifView {
                    source_end: idxs@[0] as int,
                    title_end: idxs@[1] as int,
                    body_end: idxs@[2] as int,
                    kind: buffer.kind(),
                    bytes: buffer.bytes(),
                },
            ),
            r is Err ==> final(self)@ == old(self)@ && r == Err::<(), NotificationError>(NotificationError::Parsing),
    {
        match Notification::from_buffer(buffer, idxs) {
            Ok(n) => {
                self.pool[self.idx] = n;
                self.idx = if self.idx == BUFF_COUNT - 1 {
                    0
                } else {
                    self.idx + 1
                };
                assert(self@.pool =~= nm_add_spec(
                    old(self)@,
                    NotifView {
                        source_end: idxs@[0] as int,
                        title_end: idxs@[1] as int,
                        body_end: idxs@[2] as int,
                        kind: buffer.kind(),
                        bytes: buffer.bytes(),
                    },
                ).pool);
                Ok(())
            },
            Err(e) => Err(e),
        }
    }
}

} // verus!
