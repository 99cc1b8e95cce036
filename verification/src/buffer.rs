//! Buffer.
//!
//! A bounded byte accumulator with a type tag: the unit of payload
//! assembly for one protocol frame.

use vstd::prelude::*;

use crate::application_manager::Error;

verus! {

/// Payload capacity of one assembled frame.
pub const BUFF_SIZE: usize = 512;

/// ASCII `'N'`: the type byte of a notification frame.
pub const TYPE_NOTIFICATION: u8 = 78;

/// ASCII `'S'`: the type byte of a system-call frame.
pub const TYPE_SYSCALL: u8 = 83;

/// ASCII `'A'`: the type byte of an application-upload frame.
pub const TYPE_APPLICATION: u8 = 65;

/// The kind of payload a frame carries, classified from the first
/// content byte after the frame start.
#[derive(Debug, Copy, Clone, PartialEq, Eq, Structural)]
pub enum Type {
    Unknown,
    Notification,
    Syscall,
    Application,
}

/// How a type byte classifies a frame: `'N'` is a notification, `'S'`
/// a system call, `'A'` an application upload, anything else unknown.
pub open spec fn classify(type_byte: u8) -> Type {
    if type_byte == TYPE_NOTIFICATION {
        Type::Notification
    } else if type_byte == TYPE_SYSCALL {
        Type::Syscall
    } else if type_byte == TYPE_APPLICATION {
        Type::Application
    } else {
        Type::Unknown
    }
}

/// A byte accumulator of capacity [`BUFF_SIZE`] tagged with the kind
/// of payload it holds.
#[derive(Debug)]
pub struct Buffer {
    btype: Type,
    payload: Vec<u8>,
}

impl Buffer {
    /// The buffer's kind.
    pub closed spec fn kind(self) -> Type {
        self.btype
    }

    /// The accumulated bytes.
    pub closed spec fn bytes(self) -> Seq<u8> {
        self.payload@
    }

    pub open spec fn wf(self) -> bool {
        self.bytes().len() <= BUFF_SIZE
    }

    /// An empty buffer of unknown kind.
    pub fn new() -> (b: Buffer)
        ensures
            b.wf(),
            b.kind() == Type::Unknown,
            b.bytes() == Seq::<u8>::empty(),
    {
        Buffer { btype: Type::Unknown, payload: Vec::new() }
    }

    /// The kind of the buffer, `Unknown` until a frame classified it.
    pub fn get_type(&self) -> (t: Type)
        ensures
            t == self.kind(),
    {
        self.btype
    }

    /// Append a byte; a full buffer rejects it with `NoMemory`.
    pub fn write(&mut self, byte: u8) -> (r: Result<(), Error>)
        requires
            old(self).wf(),
        ensures
            final(self).wf(),
            final(self).kind() == old(self).kind(),
            old(self).bytes().len() < BUFF_SIZE ==> r is Ok,
            r is Ok ==> final(self).bytes() == old(self).bytes().push(byte),
            r is Err ==> final(self).bytes() == old(self).bytes() && r == Err::<(), Error>(Error::NoMemory),
    {
        if self.payload.len() >= BUFF_SIZE {
            Err(Error::NoMemory)
        } else {
            self.payload.push(byte);
            Ok(())
        }
    }

    /// Drop the accumulated bytes; the kind is kept until the next
    /// classification.
    pub fn clear(&mut self)
        ensures
            final(self).wf(),
            final(self).kind() == old(self).kind(),
            final(self).bytes() == Seq::<u8>::empty(),
    {
        self.payload.clear();
    }

    /// Forget the buffer's classification, so that a stray frame end
    /// cannot finalize an abandoned frame.
    pub fn invalidate(&mut self)
        ensures
            final(self).kind() == Type::Unknown,
            final(self).bytes() == old(self).bytes(),
            old(self).wf() ==> final(self).wf(),
    {
        self.btype = Type::Unknown;
    }

    /// The accumulated bytes.
    pub fn as_slice(&self) -> (r: &[u8])
        ensures
            r@ == self.bytes(),
    {
        self.payload.as_slice()
    }

    /// Classify the incoming payload from its type byte and store the
    /// result as the buffer's kind.
    pub fn determine_type(&mut self, type_byte: u8) -> (t: Type)
        ensures
            final(self).kind() == classify(type_byte),
            t == classify(type_byte),
            final(self).bytes() == old(self).bytes(),
            old(self).wf() ==> final(self).wf(),
    {
        self.btype = if type_byte == TYPE_NOTIFICATION {
            Type::Notification
        } else if type_byte == TYPE_SYSCALL {
            Type::Syscall
        } else if type_byte == TYPE_APPLICATION {
            Type::Application
        } else {
            Type::Unknown
        };
        self.btype
    }
}

} // verus!
