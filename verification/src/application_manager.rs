//! Application manager.
//!
//! Handles loading and running of one uploaded application: checksum
//! bytes and image bytes are streamed in by the ingress parser, the
//! image is gated on a CRC32 check, and only then may entry points be
//! built from its header.
//!
//! Every state change is mirrored by a spec-level transition function
//! over [`AmView`]; each method's contract says that the new state is
//! exactly the transition applied to the old one.

use vstd::prelude::*;

use crate::checksum::checksum_ieee;
use crate::checksum::crc32_ieee;
use vstd::slice::slice_subrange;

verus! {

/// Size of the checksum field: a CRC32, four bytes.
pub const CHECKSUM_SIZE: usize = 4;

/// Size of the image header: three little-endian 32-bit entry points.
pub const HEADER_SIZE: usize = 12;

#[derive(Debug, Copy, Clone, PartialEq, Eq, Structural)]
pub enum Error {
    /// The checksum of ram does not match the target digest
    ChecksumFailed,
    /// No application has been loaded
    NoApplication,
    /// There is no valid entry point for service
    InvalidServiceFn,
    /// There is no valid entry point for input
    InvalidInputFn,
    /// The write does not fit in memory
    NoMemory,
}

#[derive(Debug, Copy, Clone, PartialEq, Eq, Structural)]
pub struct Status {
    pub is_loaded: bool,
    pub is_running: bool,
    pub service_result: i32,
}

impl Default for Status {
    fn default() -> (s: Status)
        ensures
            s == (Status { is_loaded: false, is_running: false, service_result: -1i32 }),
    {
        Status { is_loaded: false, is_running: false, service_result: -1 }
    }
}

/// The three entry-point addresses recovered from an image header.
#[derive(Debug, Copy, Clone, PartialEq, Eq, Structural)]
pub struct EntryPoints {
    pub setup: u32,
    pub service: u32,
    pub input: u32,
}

/// A fixed byte region with a write cursor: the staging area for one
/// application image.
pub struct Ram {
    ram: Vec<u8>,
    ram_idx: usize,
}

/// The state of a [`Ram`]: the full region and the write cursor.
#[verifier::ext_equal]
pub ghost struct RamView {
    pub bytes: Seq<u8>,
    pub cursor: int,
}

impl View for Ram {
    type V = RamView;

    closed spec fn view(&self) -> RamView {
        RamView { bytes: self.ram@, cursor: self.ram_idx as int }
    }
}

/// What one write does to a ram region: append at the cursor, or
/// reject with `NoMemory` when the region is full, leaving everything
/// unchanged.
pub open spec fn ram_write_spec(v: RamView, byte: u8) -> (RamView, Result<(), Error>) {
    if v.cursor < v.bytes.len() {
        (RamView { bytes: v.bytes.update(v.cursor, byte), cursor: v.cursor + 1 }, Ok(()))
    } else {
        (v, Err(Error::NoMemory))
    }
}

/// What a reset does: zero the written prefix and rewind the cursor.
pub open spec fn ram_reset_spec(v: RamView) -> RamView {
    RamView {
        bytes: Seq::new(v.bytes.len(), |i: int| if i < v.cursor { 0u8 } else { v.bytes[i] }),
        cursor: 0,
    }
}

impl Ram {
    pub open spec fn wf(self) -> bool {
        0 <= self@.cursor <= self@.bytes.len()
    }

    /// The written part of the region.
    pub open spec fn contents(self) -> Seq<u8> {
        self@.bytes.take(self@.cursor)
    }

    /// Create a zeroed region of the given size with the cursor at its
    /// start.
    pub fn new(size: usize) -> (r: Ram)
        ensures
            r.wf(),
            r@.cursor == 0,
            r@.bytes.len() == size,
            forall|i: int| 0 <= i < size ==> r@.bytes[i] == 0u8,
    {
        let mut ram: Vec<u8> = Vec::new();
        let mut i: usize = 0;
        while i < size
            invariant
                i <= size,
                ram@.len() == i,
                forall|j: int| 0 <= j < i ==> ram@[j] == 0u8,
            decreases size - i,
        {
            ram.push(0u8);
            i = i + 1;
        }
        Ram { ram, ram_idx: 0 }
    }

    /// Write a byte at the cursor; a full region rejects the byte with
    /// `NoMemory` and keeps the cursor where it was.
    pub fn write(&mut self, byte: u8) -> (r: Result<(), Error>)
        requires
            old(self).wf(),
        ensures
            final(self).wf(),
            (final(self)@, r) == ram_write_spec(old(self)@, byte),
    {
        if self.ram_idx >= self.ram.len() {
            Err(Error::NoMemory)
        } else {
            self.ram[self.ram_idx] = byte;
            self.ram_idx = self.ram_idx + 1;
            Ok(())
        }
    }

    /// The IEEE CRC32 of the written part of the region.
    pub fn cs(&self) -> (digest: u32)
        requires
            self.wf(),
        ensures
            digest == crc32_ieee(self.contents()),
    {
        checksum_ieee(slice_subrange(self.ram.as_slice(), 0, self.ram_idx))
    }

    /// Zero the written part and rewind the cursor: a defensive wipe,
    /// so no stale code bytes survive a failed reload.
    pub fn reset(&mut self)
        requires
            old(self).wf(),
        ensures
            final(self).wf(),
            final(self)@ == ram_reset_spec(old(self)@),
    {
        self.wipe();
        self.ram_idx = 0;
    }

    /// Zero the written part of the region.
    fn wipe(&mut self)
        requires
            old(self).wf(),
        ensures
            final(self).wf(),
            final(self)@.cursor == old(self)@.cursor,
            final(self)@.bytes =~= Seq::new(
                old(self)@.bytes.len(),
                |i: int| if i < old(self)@.cursor { 0u8 } else { old(self)@.bytes[i] },
            ),
    {
        let mut i: usize = 0;
        while i < self.ram_idx
            invariant
                old(self).wf(),
                i <= old(self)@.cursor,
                self@.cursor == old(self)@.cursor,
                self@.bytes.len() == old(self)@.bytes.len(),
                forall|j: int| 0 <= j < i ==> self@.bytes[j] == 0u8,
                forall|j: int| i <= j < old(self)@.bytes.len() ==> self@.bytes[j] == old(
                    self,
                )@.bytes[j],
            decreases self.ram_idx - i,
        {
            self.ram[i] = 0u8;
            i = i + 1;
        }
    }

    /// The whole region, written or not.
    pub fn as_ref(&self) -> (r: &Vec<u8>)
        ensures
            r@ == self@.bytes,
    {
        &self.ram
    }

    /// The written part of the region.
    pub fn as_slice(&self) -> (r: &[u8])
        requires
            self.wf(),
        ensures
            r@ == self.contents(),
    {
        slice_subrange(self.ram.as_slice(), 0, self.ram_idx)
    }
}

/// A 32-bit digest reconstructed from four bytes that arrive
/// most-significant first.
pub open spec fn digest_of(cs: Seq<u8>) -> u32
    recommends
        cs.len() == 4,
{
    (cs[0] * 0x1000000 + cs[1] * 0x10000 + cs[2] * 0x100 + cs[3]) as u32
}

/// A 32-bit value read little-endian from four bytes at `off`.
pub open spec fn le_u32_at(bytes: Seq<u8>, off: int) -> u32
    recommends
        0 <= off,
        off + 4 <= bytes.len(),
{
    (bytes[off + 3] * 0x1000000 + bytes[off + 2] * 0x10000 + bytes[off + 1] * 0x100 + bytes[off])
        as u32
}

/// The entry points described by an image header.
pub open spec fn header_entry_points(bytes: Seq<u8>) -> EntryPoints
    recommends
        bytes.len() >= HEADER_SIZE,
{
    EntryPoints {
        setup: le_u32_at(bytes, 0),
        service: le_u32_at(bytes, 4),
        input: le_u32_at(bytes, 8),
    }
}

/// The state of an [`ApplicationManager`].
#[verifier::ext_equal]
pub ghost struct AmView {
    pub ram: RamView,
    pub cs: Seq<u8>,
    pub cs_idx: int,
    pub entry: Option<EntryPoints>,
    pub status: Status,
}

/// What writing one decoded image byte does.
pub open spec fn am_write_ram_spec(v: AmView, byte: u8) -> (AmView, Result<(), Error>) {
    let (ram, r) = ram_write_spec(v.ram, byte);
    (AmView { ram, ..v }, r)
}

/// What writing one decoded checksum byte does: append to the
/// four-byte target digest, or reject with `NoMemory` once all four
/// have arrived.
pub open spec fn am_write_checksum_spec(v: AmView, byte: u8) -> (AmView, Result<(), Error>) {
    if v.cs_idx >= CHECKSUM_SIZE {
        (v, Err(Error::NoMemory))
    } else {
        (AmView { cs: v.cs.update(v.cs_idx, byte), cs_idx: v.cs_idx + 1, ..v }, Ok(()))
    }
}

/// What a verification does: compare the target digest against the
/// CRC32 of the staged image; only a match marks the image loaded.
pub open spec fn am_verify_spec(v: AmView) -> (AmView, Result<(), Error>) {
    if digest_of(v.cs) == crc32_ieee(v.ram.bytes.take(v.ram.cursor)) {
        (AmView { status: Status { is_loaded: true, ..v.status }, ..v }, Ok(()))
    } else {
        (v, Err(Error::ChecksumFailed))
    }
}

/// What a kill does: wipe the staged image, rewind the checksum
/// cursor, drop the entry points, and mark the manager unloaded.
pub open spec fn am_kill_spec(v: AmView) -> AmView {
    AmView {
        ram: ram_reset_spec(v.ram),
        cs: v.cs,
        cs_idx: 0,
        entry: None,
        status: Status { is_loaded: false, is_running: false, ..v.status },
    }
}

/// What an execute does: refuse unless an image is loaded; otherwise
/// build the entry points from the image header and mark the manager
/// running.
pub open spec fn am_execute_spec(v: AmView) -> (AmView, Result<EntryPoints, Error>) {
    if !v.status.is_loaded {
        (v, Err(Error::NoApplication))
    } else {
        let ep = header_entry_points(v.ram.bytes);
        (
            AmView { entry: Some(ep), status: Status { is_running: true, ..v.status }, ..v },
            Ok(ep),
        )
    }
}

/// Owns the staging [`Ram`], the target digest, and the lifecycle of
/// the one loaded application.
pub struct ApplicationManager {
    ram: Ram,
    target_cs: Vec<u8>,
    target_cs_idx: usize,
    entry_points: Option<EntryPoints>,
    status: Status,
}

impl View for ApplicationManager {
    type V = AmView;

    closed spec fn view(&self) -> AmView {
        AmView {
            ram: self.ram@,
            cs: self.target_cs@,
            cs_idx: self.target_cs_idx as int,
            entry: self.entry_points,
            status: self.status,
        }
    }
}

impl ApplicationManager {
    pub open spec fn wf(self) -> bool {
        &&& 0 <= self@.ram.cursor <= self@.ram.bytes.len()
        &&& self@.ram.bytes.len() >= HEADER_SIZE
        &&& self@.cs.len() == CHECKSUM_SIZE
        &&& 0 <= self@.cs_idx <= CHECKSUM_SIZE
        &&& (self@.entry is Some ==> self@.status.is_loaded)
    }

    /// Create a manager over a staging region; the region must at
    /// least hold an image header.
    pub fn new(ram: Ram) -> (am: ApplicationManager)
        requires
            ram.wf(),
            ram@.bytes.len() >= HEADER_SIZE,
        ensures
            am.wf(),
            am@.ram == ram@,
            am@.cs =~= seq![0u8, 0u8, 0u8, 0u8],
            am@.cs_idx == 0,
            am@.entry is None,
            am@.status == (Status { is_loaded: false, is_running: false, service_result: -1i32 }),
    {
        let mut target_cs: Vec<u8> = Vec::new();
        target_cs.push(0u8);
        target_cs.push(0u8);
        target_cs.push(0u8);
        target_cs.push(0u8);
        ApplicationManager {
            ram,
            target_cs,
            target_cs_idx: 0,
            entry_points: None,
            status: Status::default(),
        }
    }

    /// Write a decoded image byte into the staging ram.
    pub fn write_ram_byte(&mut self, byte: u8) -> (r: Result<(), Error>)
        requires
            old(self).wf(),
        ensures
            final(self).wf(),
            (final(self)@, r) == am_write_ram_spec(old(self)@, byte),
    {
        self.ram.write(byte)
    }

    /// Write a decoded checksum byte into the target digest.
    pub fn write_checksum_byte(&mut self, byte: u8) -> (r: Result<(), Error>)
        requires
            old(self).wf(),
        ensures
            final(self).wf(),
            (final(self)@, r) == am_write_checksum_spec(old(self)@, byte),
    {
        if self.target_cs_idx >= CHECKSUM_SIZE {
            Err(Error::NoMemory)
        } else {
            self.target_cs[self.target_cs_idx] = byte;
            self.target_cs_idx = self.target_cs_idx + 1;
            Ok(())
        }
    }

    /// Check the staged image against the target digest; a match marks
    /// the image loaded, a mismatch changes nothing.
    pub fn verify(&mut self) -> (r: Result<(), Error>)
        requires
            old(self).wf(),
        ensures
            final(self).wf(),
            (final(self)@, r) == am_verify_spec(old(self)@),
    {
        let ram_cs = self.ram.cs();
        let digest = Self::digest_from_bytes(self.target_cs.as_slice());
        if digest == ram_cs {
            self.status.is_loaded = true;
            Ok(())
        } else {
            Err(Error::ChecksumFailed)
        }
    }

    /// Reconstruct a CRC32 digest from four bytes that arrive
    /// most-significant first.
    pub fn digest_from_bytes(bytes: &[u8]) -> (digest: u32)
        requires
            bytes@.len() == 4,
        ensures
            digest == digest_of(bytes@),
    {
        (bytes[0] as u32) * 0x1000000 + (bytes[1] as u32) * 0x10000 + (bytes[2] as u32) * 0x100 + (
        bytes[3] as u32)
    }

    /// Build the entry points from the staged image header and mark
    /// the application running; fails with `NoApplication` unless a
    /// verified image is loaded. The host invokes the returned `setup`
    /// entry point.
    pub fn execute(&mut self) -> (r: Result<EntryPoints, Error>)
        requires
            old(self).wf(),
        ensures
            final(self).wf(),
            (final(self)@, r) == am_execute_spec(old(self)@),
    {
        if !self.status.is_loaded {
            return Err(Error::NoApplication);
        }
        let region = self.ram.as_ref();
        let ep = EntryPoints {
            setup: Self::addr_from_slice(region, 0),
            service: Self::addr_from_slice(region, 4),
            input: Self::addr_from_slice(region, 8),
        };
        self.entry_points = Some(ep);
        self.status.is_running = true;
        Ok(ep)
    }

    /// Read a little-endian 32-bit address out of four image bytes.
    fn addr_from_slice(bytes: &Vec<u8>, off: usize) -> (addr: u32)
        requires
            off + 4 <= bytes@.len(),
        ensures
            addr == le_u32_at(bytes@, off as int),
    {
        assert(bytes@.len() == bytes.len());
        let b0 = bytes[off] as u32;
        let b1 = bytes[off + 1] as u32;
        let b2 = bytes[off + 2] as u32;
        let b3 = bytes[off + 3] as u32;
        b3 * 0x1000000 + b2 * 0x10000 + b1 * 0x100 + b0
    }

    /// The address the host must call to give the application
    /// processing time, or `InvalidServiceFn` when none is installed.
    pub fn service(&self) -> (r: Result<u32, Error>)
        ensures
            self@.entry matches Some(ep) ==> r == Ok::<u32, Error>(ep.service),
            self@.entry is None ==> r == Err::<u32, Error>(Error::InvalidServiceFn),
    {
        match self.entry_points {
            Some(ep) => Ok(ep.service),
            None => Err(Error::InvalidServiceFn),
        }
    }

    /// The address the host must call to hand the application an input
    /// event, or `InvalidInputFn` when none is installed.
    pub fn service_input(&self) -> (r: Result<u32, Error>)
        ensures
            self@.entry matches Some(ep) ==> r == Ok::<u32, Error>(ep.input),
            self@.entry is None ==> r == Err::<u32, Error>(Error::InvalidInputFn),
    {
        match self.entry_points {
            Some(ep) => Ok(ep.input),
            None => Err(Error::InvalidInputFn),
        }
    }

    /// Record the integer result the application returned from its
    /// service entry point.
    pub fn record_service_result(&mut self, result: i32)
        requires
            old(self).wf(),
        ensures
            final(self).wf(),
            final(self)@ == (AmView {
                status: Status { service_result: result, ..old(self)@.status },
                ..old(self)@
            }),
    {
        self.status.service_result = result;
    }

    /// Pause the application: it stays loaded and resumable.
    pub fn pause(&mut self)
        requires
            old(self).wf(),
        ensures
            final(self).wf(),
            final(self)@ == (AmView {
                status: Status { is_running: false, ..old(self)@.status },
                ..old(self)@
            }),
    {
        self.status.is_running = false;
    }

    /// Kill the current application and unload it from memory. Always
    /// succeeds.
    pub fn kill(&mut self) -> (r: Result<(), Error>)
        requires
            old(self).wf(),
        ensures
            final(self).wf(),
            final(self)@ == am_kill_spec(old(self)@),
            r is Ok,
    {
        self.ram.reset();
        self.target_cs_idx = 0;
        self.status.is_loaded = false;
        self.status.is_running = false;
        self.entry_points = None;
        Ok(())
    }

    /// A read-only snapshot of the manager's status.
    pub fn status(&self) -> (s: Status)
        ensures
            s == self@.status,
    {
        self.status
    }

    /// The staged image bytes written so far.
    pub fn program(&self) -> (r: &[u8])
        requires
            self.wf(),
        ensures
            r@ == self@.ram.bytes.take(self@.ram.cursor),
    {
        self.ram.as_slice()
    }
}

/// Execution is gated on verification: while no image is marked
/// loaded, `execute` refuses with `NoApplication` and changes nothing;
/// and no transition but a successful verification marks an image
/// loaded — writes keep the flag down, kills take it down, and a
/// failed verification leaves it down.
pub proof fn lemma_execute_needs_verify(v: AmView, byte: u8)
    ensures
        !v.status.is_loaded ==> am_execute_spec(v) == (v, Err::<EntryPoints, Error>(Error::NoApplication)),
        !v.status.is_loaded ==> !am_write_ram_spec(v, byte).0.status.is_loaded,
        !v.status.is_loaded ==> !am_write_checksum_spec(v, byte).0.status.is_loaded,
        !am_kill_spec(v).status.is_loaded,
        !v.status.is_loaded && am_verify_spec(v).1 is Err ==> !am_verify_spec(v).0.status.is_loaded,
{
}

/// Killing an application is idempotent: a second kill changes
/// nothing, and either way the manager is neither loaded nor running.
pub proof fn lemma_kill_idempotent(v: AmView)
    ensures
        am_kill_spec(am_kill_spec(v)) == am_kill_spec(v),
        !am_kill_spec(v).status.is_loaded,
        !am_kill_spec(v).status.is_running,
{
    assert(ram_reset_spec(ram_reset_spec(v.ram)) =~= ram_reset_spec(v.ram));
    assert(am_kill_spec(am_kill_spec(v)) =~= am_kill_spec(v));
}

} // verus!
