//! IngressManager.
//!
//! All communicated data runs through here: serial interrupt handlers
//! enqueue raw bytes, and `process` drains them through the framing
//! state machine, reassembling notifications, system calls and
//! application uploads, and dispatching them as typed events.
//!
//! The whole machine has a functional model: [`ingress_step`] says
//! what one byte does to the parser, the application manager, the
//! notification pool and the event log, and `process` is proved to be
//! exactly that step folded over the queued bytes ([`ingress_run`]).
//!
//! Two departures from a bare reading of the wire protocol are
//! deliberate: a payload byte that does not fit in the frame buffer
//! abandons the frame (state returns to `Wait` and the buffer's kind
//! is invalidated, so a stray frame end cannot resurrect it), and the
//! parser never panics on content — only `write` demands queue room,
//! because losing serial bytes would be an upstream scheduling bug,
//! not a protocol error.

use vstd::prelude::*;

use crate::application_manager::am_kill_spec;
use crate::application_manager::am_verify_spec;
use crate::application_manager::am_write_checksum_spec;
use crate::application_manager::am_write_ram_spec;
use crate::application_manager::digest_of;
use crate::application_manager::AmView;
use crate::application_manager::ApplicationManager;
use crate::buffer::classify;
use crate::buffer::Buffer;
use crate::buffer::Type;
use crate::buffer::BUFF_SIZE;
use crate::byte_queue::queue_bytes;
use crate::byte_queue::ByteQueue;
use crate::byte_queue::RB_SIZE;
use crate::checksum::crc32_ieee;
use crate::hex::hex_byte_to_byte;
use crate::hex::hex_pair_val;
use crate::notification::nm_add_spec;
use crate::notification::sections_valid;
use crate::notification::NmView;
use crate::notification::NotifView;
use crate::notification::NotificationManager;
use crate::syscall::syscall_from_bytes_spec;
use crate::syscall::Syscall;

verus! {

/// Start of text: opens a frame.
pub const STX: u8 = 2;

/// End of text: closes a frame.
pub const ETX: u8 = 3;

/// Unit separator: delimits sub-fields within a frame.
pub const PAYLOAD: u8 = 31;

#[derive(Debug, Copy, Clone, PartialEq, Eq, Structural)]
pub enum State {
    /// Waiting for a STX byte, just received an ETX, or recovering
    /// from an invalid frame
    Wait,
    /// Just after receiving an STX
    Init,
    /// Accumulating plain payload bytes
    Payload,
    /// Reading the application checksum, hex-encoded
    ApplicationChecksum,
    /// Storing the application image, hex-encoded
    ApplicationStore,
    /// Reading who generated the push notification
    NotificationSource,
    /// Reading the notification title
    NotificationTitle,
    /// Reading the notification body
    NotificationBody,
}

/// A typed event dispatched by `process` when a frame completes.
#[derive(Debug, Copy, Clone, PartialEq, Eq, Structural)]
pub enum Event {
    /// A notification was stored, with the section offsets that split
    /// its payload into source, title and body.
    Notification { source_end: usize, title_end: usize, body_end: usize },
    /// A system-call frame parsed successfully.
    Syscall(Syscall),
    /// An application upload completed and passed its checksum.
    ApplicationVerified,
    /// An application upload completed but failed its checksum.
    ApplicationInvalid,
}

/// The parser's own state: framing state, the buffer being assembled,
/// the pending hex character, and the notification section cursors.
#[verifier::ext_equal]
pub ghost struct ParserModel {
    pub state: State,
    pub kind: Type,
    pub payload: Seq<u8>,
    pub hex: Option<u8>,
    pub nsi0: usize,
    pub nsi1: usize,
    pub nsi_idx: usize,
}

/// Everything one byte can touch: the parser, the application
/// manager, the notification pool, and the log of emitted events.
#[verifier::ext_equal]
pub ghost struct IngressModel {
    pub parser: ParserModel,
    pub am: AmView,
    pub nm: NmView,
    pub events: Seq<Event>,
}

pub open spec fn pack(p: ParserModel, am: AmView, nm: NmView, events: Seq<Event>) -> IngressModel {
    IngressModel { parser: p, am, nm, events }
}

/// A frame start: reset the per-frame cursors and the buffer's bytes
/// (its kind survives until the next classification, as does anything
/// a previous frame left in the section registers) and begin parsing.
pub open spec fn step_stx(m: IngressModel) -> IngressModel {
    IngressModel {
        parser: ParserModel {
            state: State::Init,
            payload: Seq::empty(),
            hex: None,
            nsi_idx: 0,
            ..m.parser
        },
        ..m
    }
}

/// A frame end: finalize by the buffer's kind, then wait for the next
/// frame. Unknown frames are dropped; application frames are gated on
/// their checksum; notification frames are stored with their section
/// offsets when those are coherent; syscall frames are parsed, and
/// malformed ones dropped.
pub open spec fn step_etx(m: IngressModel) -> IngressModel {
    let w = IngressModel { parser: ParserModel { state: State::Wait, ..m.parser }, ..m };
    match m.parser.kind {
        Type::Unknown => w,
        Type::Application => {
            let vr = am_verify_spec(m.am);
            IngressModel {
                am: vr.0,
                events: m.events.push(
                    if vr.1 is Ok {
                        Event::ApplicationVerified
                    } else {
                        Event::ApplicationInvalid
                    },
                ),
                ..w
            }
        },
        Type::Notification => {
            if sections_valid(
                m.parser.nsi0 as int,
                m.parser.nsi1 as int,
                m.parser.nsi_idx as int,
                m.parser.payload.len() as int,
            ) {
                IngressModel {
                    nm: nm_add_spec(
                        m.nm,
                        NotifView {
                            source_end: m.parser.nsi0 as int,
                            title_end: m.parser.nsi1 as int,
                            body_end: m.parser.nsi_idx as int,
                            kind: m.parser.kind,
                            bytes: m.parser.payload,
                        },
                    ),
                    events: m.events.push(
                        Event::Notification {
                            source_end: m.parser.nsi0,
                            title_end: m.parser.nsi1,
                            body_end: m.parser.nsi_idx,
                        },
                    ),
                    ..w
                }
            } else {
                w
            }
        },
        Type::Syscall => {
            match syscall_from_bytes_spec(m.parser.payload) {
                Ok(sc) => IngressModel { events: m.events.push(Event::Syscall(sc)), ..w },
                Err(_) => w,
            }
        },
    }
}

/// A unit separator: what it means depends on the frame's kind. For an
/// application upload the first one kills the resident application and
/// opens the checksum field, the second one opens the image field. For
/// a notification each one closes the current section. For anything
/// else it opens plain payload accumulation, or drops an unknown
/// frame.
pub open spec fn step_payload_sep(m: IngressModel) -> IngressModel {
    match m.parser.kind {
        Type::Unknown => IngressModel {
            parser: ParserModel { state: State::Wait, ..m.parser },
            ..m
        },
        Type::Application => {
            if m.parser.state == State::ApplicationChecksum {
                IngressModel {
                    parser: ParserModel { state: State::ApplicationStore, ..m.parser },
                    ..m
                }
            } else {
                IngressModel {
                    parser: ParserModel { state: State::ApplicationChecksum, ..m.parser },
                    am: am_kill_spec(m.am),
                    ..m
                }
            }
        },
        Type::Notification => {
            if m.parser.state == State::NotificationSource {
                IngressModel {
                    parser: ParserModel {
                        state: State::NotificationTitle,
                        nsi0: m.parser.nsi_idx,
                        ..m.parser
                    },
                    ..m
                }
            } else if m.parser.state == State::NotificationTitle {
                IngressModel {
                    parser: ParserModel {
                        state: State::NotificationBody,
                        nsi1: m.parser.nsi_idx,
                        ..m.parser
                    },
                    ..m
                }
            } else {
                IngressModel {
                    parser: ParserModel { state: State::NotificationSource, ..m.parser },
                    ..m
                }
            }
        },
        Type::Syscall => IngressModel {
            parser: ParserModel { state: State::Payload, ..m.parser },
            ..m
        },
    }
}

/// A content byte, dispatched on the parser's state: classification in
/// `Init`, plain accumulation in `Payload`, hex pairing in the two
/// application states, section accounting in the three notification
/// states, and discard in `Wait`. A byte that does not fit the frame
/// buffer abandons the frame; a byte that breaks a hex pair aborts the
/// upload.
pub open spec fn step_content(m: IngressModel, byte: u8) -> IngressModel {
    match m.parser.state {
        State::Init => {
            let k = classify(byte);
            IngressModel {
                parser: ParserModel {
                    kind: k,
                    state: if k == Type::Unknown {
                        State::Wait
                    } else if k == Type::Notification {
                        State::NotificationSource
                    } else {
                        State::Init
                    },
                    ..m.parser
                },
                ..m
            }
        },
        State::Payload => {
            if m.parser.payload.len() < BUFF_SIZE {
                IngressModel {
                    parser: ParserModel { payload: m.parser.payload.push(byte), ..m.parser },
                    ..m
                }
            } else {
                IngressModel {
                    parser: ParserModel { state: State::Wait, kind: Type::Unknown, ..m.parser },
                    ..m
                }
            }
        },
        State::ApplicationChecksum | State::ApplicationStore => {
            match m.parser.hex {
                None => IngressModel {
                    parser: ParserModel { hex: Some(byte), ..m.parser },
                    ..m
                },
                Some(h) => {
                    let cleared = ParserModel { hex: None, ..m.parser };
                    match hex_pair_val(h, byte) {
                        Some(v) => {
                            if m.parser.state == State::ApplicationChecksum {
                                IngressModel {
                                    parser: cleared,
                                    am: am_write_checksum_spec(m.am, v).0,
                                    ..m
                                }
                            } else {
                                IngressModel {
                                    parser: cleared,
                                    am: am_write_ram_spec(m.am, v).0,
                                    ..m
                                }
                            }
                        },
                        None => IngressModel {
                            parser: ParserModel { state: State::Wait, ..cleared },
                            ..m
                        },
                    }
                },
            }
        },
        State::NotificationSource | State::NotificationTitle | State::NotificationBody => {
            let ni = (m.parser.nsi_idx + 1) as usize;
            if m.parser.payload.len() < BUFF_SIZE {
                IngressModel {
                    parser: ParserModel {
                        payload: m.parser.payload.push(byte),
                        nsi_idx: ni,
                        ..m.parser
                    },
                    ..m
                }
            } else {
                IngressModel {
                    parser: ParserModel {
                        state: State::Wait,
                        kind: Type::Unknown,
                        nsi_idx: ni,
                        ..m.parser
                    },
                    ..m
                }
            }
        },
        State::Wait => m,
    }
}

/// What one queued byte does to the whole ingress subsystem.
pub open spec fn ingress_step(m: IngressModel, byte: u8) -> IngressModel {
    if byte == STX {
        step_stx(m)
    } else if byte == ETX {
        step_etx(m)
    } else if byte == PAYLOAD {
        step_payload_sep(m)
    } else {
        step_content(m, byte)
    }
}

/// [`ingress_step`] folded over a byte sequence, front first.
pub open spec fn ingress_run(m: IngressModel, bytes: Seq<u8>) -> IngressModel
    decreases bytes.len(),
{
    if bytes.len() == 0 {
        m
    } else {
        ingress_run(ingress_step(m, bytes[0]), bytes.drop_first())
    }
}

/// Running over one more byte at the back is one more step.
pub proof fn lemma_ingress_run_snoc(m: IngressModel, bytes: Seq<u8>, byte: u8)
    ensures
        ingress_run(m, bytes.push(byte)) == ingress_step(ingress_run(m, bytes), byte),
    decreases bytes.len(),
{
    if bytes.len() == 0 {
        assert(bytes.push(byte).drop_first() =~= bytes);
        assert(bytes.push(byte)[0] == byte);
        assert(ingress_run(m, bytes.push(byte)) == ingress_run(ingress_step(m, byte), bytes));
    } else {
        assert(bytes.push(byte)[0] == bytes[0]);
        assert(bytes.push(byte).drop_first() =~= bytes.drop_first().push(byte));
        lemma_ingress_run_snoc(ingress_step(m, bytes[0]), bytes.drop_first(), byte);
        assert(ingress_run(m, bytes.push(byte)) == ingress_run(
            ingress_step(m, bytes[0]),
            bytes.drop_first().push(byte),
        ));
        assert(ingress_run(m, bytes) == ingress_run(ingress_step(m, bytes[0]), bytes.drop_first()));
    }
}

/// A frame end always leaves the parser waiting for the next frame:
/// for every byte sequence the parser processes, if the last byte was
/// the frame terminator, the machine ends in `Wait`.
pub proof fn lemma_trailing_etx_waits(m: IngressModel, bytes: Seq<u8>)
    requires
        bytes.len() > 0,
        bytes.last() == ETX,
    ensures
        ingress_run(m, bytes).parser.state == State::Wait,
{
    assert(bytes =~= bytes.drop_last().push(bytes.last()));
    lemma_ingress_run_snoc(m, bytes.drop_last(), bytes.last());
}

/// A completed application upload is gated on its checksum: when the
/// target digest does not match the staged image's CRC32, the frame
/// end leaves the application manager exactly as it was — so an
/// unloaded manager stays unloaded — rejects the upload with one
/// `ApplicationInvalid` event, and returns the parser to `Wait`.
pub proof fn lemma_checksum_mismatch_rejects(m: IngressModel)
    requires
        m.parser.kind == Type::Application,
        digest_of(m.am.cs) != crc32_ieee(m.am.ram.bytes.take(m.am.ram.cursor)),
    ensures
        ingress_step(m, ETX).am == m.am,
        !m.am.status.is_loaded ==> !ingress_step(m, ETX).am.status.is_loaded,
        ingress_step(m, ETX).parser.state == State::Wait,
        ingress_step(m, ETX).events == m.events.push(Event::ApplicationInvalid),
        ingress_step(m, ETX).nm == m.nm,
{
}

/// A frame start silently abandons whatever frame was in progress: no
/// event is emitted for it, the application manager and the
/// notification pool are untouched, and the parser restarts with an
/// empty buffer, no pending hex character and the section cursor
/// rewound.
pub proof fn lemma_stx_abandons_silently(m: IngressModel)
    ensures
        ingress_step(m, STX).events == m.events,
        ingress_step(m, STX).am == m.am,
        ingress_step(m, STX).nm == m.nm,
        ingress_step(m, STX).parser.state == State::Init,
        ingress_step(m, STX).parser.payload == Seq::<u8>::empty(),
        ingress_step(m, STX).parser.hex is None,
        ingress_step(m, STX).parser.nsi_idx == 0,
{
}

/// The parser state a freshly constructed manager starts in.
pub open spec fn initial_parser() -> ParserModel {
    ParserModel {
        state: State::Init,
        kind: Type::Unknown,
        payload: Seq::<u8>::empty(),
        hex: None,
        nsi0: 0,
        nsi1: 0,
        nsi_idx: 0,
    }
}

/// A byte that carries frame content: not one of the three control
/// bytes.
pub open spec fn is_content(byte: u8) -> bool {
    byte != STX && byte != ETX && byte != PAYLOAD
}

/// Every byte of `s` is frame content.
pub open spec fn all_content(s: Seq<u8>) -> bool {
    forall|i: int| 0 <= i < s.len() ==> is_content(#[trigger] s[i])
}

/// Running a concatenation is running the parts in order.
pub proof fn lemma_ingress_run_append(m: IngressModel, s1: Seq<u8>, s2: Seq<u8>)
    ensures
        ingress_run(m, s1 + s2) == ingress_run(ingress_run(m, s1), s2),
    decreases s1.len(),
{
    if s1.len() == 0 {
        assert(s1 + s2 =~= s2);
    } else {
        assert((s1 + s2)[0] == s1[0]);
        assert((s1 + s2).drop_first() =~= s1.drop_first() + s2);
        lemma_ingress_run_append(ingress_step(m, s1[0]), s1.drop_first(), s2);
    }
}

/// Only a frame end emits events or stores notifications: a byte
/// sequence without `ETX` leaves the event log and the notification
/// pool exactly as they were.
pub proof fn lemma_no_frame_end_no_events(m: IngressModel, bytes: Seq<u8>)
    requires
        forall|i: int| 0 <= i < bytes.len() ==> #[trigger] bytes[i] != ETX,
    ensures
        ingress_run(m, bytes).events == m.events,
        ingress_run(m, bytes).nm == m.nm,
    decreases bytes.len(),
{
    if bytes.len() > 0 {
        assert(forall|i: int|
            0 <= i < bytes.drop_first().len() ==> #[trigger] bytes.drop_first()[i] == bytes[i + 1]);
        lemma_no_frame_end_no_events(ingress_step(m, bytes[0]), bytes.drop_first());
    }
}

/// Two ingress states agree on everything a frame's outcome can
/// depend on; only the two recorded section offsets may differ.
pub open spec fn obs_equiv(a: IngressModel, b: IngressModel) -> bool {
    &&& a.am == b.am
    &&& a.nm == b.nm
    &&& a.events == b.events
    &&& a.parser.state == b.parser.state
    &&& a.parser.kind == b.parser.kind
    &&& a.parser.payload == b.parser.payload
    &&& a.parser.hex == b.parser.hex
    &&& a.parser.nsi_idx == b.parser.nsi_idx
}

/// One byte preserves observable agreement. The only byte that reads
/// the section offsets is a frame end for a notification, so there
/// they must agree; and offsets that already agree keep agreeing,
/// because they are only ever written from the shared section cursor.
proof fn lemma_step_obs_equiv(a: IngressModel, b: IngressModel, byte: u8)
    requires
        obs_equiv(a, b),
        byte == ETX && a.parser.kind == Type::Notification ==> a.parser.nsi0 == b.parser.nsi0
            && a.parser.nsi1 == b.parser.nsi1,
    ensures
        obs_equiv(ingress_step(a, byte), ingress_step(b, byte)),
        a.parser.nsi0 == b.parser.nsi0 ==> ingress_step(a, byte).parser.nsi0 == ingress_step(
            b,
            byte,
        ).parser.nsi0,
        a.parser.nsi1 == b.parser.nsi1 ==> ingress_step(a, byte).parser.nsi1 == ingress_step(
            b,
            byte,
        ).parser.nsi1,
{
}

/// A run without frame ends preserves observable agreement and the
/// agreement of whichever section offsets already agree.
proof fn lemma_run_obs_equiv(a: IngressModel, b: IngressModel, bytes: Seq<u8>)
    requires
        obs_equiv(a, b),
        forall|i: int| 0 <= i < bytes.len() ==> #[trigger] bytes[i] != ETX,
    ensures
        obs_equiv(ingress_run(a, bytes), ingress_run(b, bytes)),
        a.parser.nsi0 == b.parser.nsi0 ==> ingress_run(a, bytes).parser.nsi0 == ingress_run(
            b,
            bytes,
        ).parser.nsi0,
        a.parser.nsi1 == b.parser.nsi1 ==> ingress_run(a, bytes).parser.nsi1 == ingress_run(
            b,
            bytes,
        ).parser.nsi1,
    decreases bytes.len(),
{
    if bytes.len() > 0 {
        assert(forall|i: int|
            0 <= i < bytes.drop_first().len() ==> #[trigger] bytes.drop_first()[i] == bytes[i + 1]);
        lemma_step_obs_equiv(a, b, bytes[0]);
        lemma_run_obs_equiv(ingress_step(a, bytes[0]), ingress_step(b, bytes[0]), bytes.drop_first());
    }
}

/// Content bytes keep a notification section going: from a section
/// state the parser either stays exactly where it was, or the frame
/// was abandoned for want of buffer room and its kind invalidated.
proof fn lemma_content_run_notif(m: IngressModel, bytes: Seq<u8>)
    requires
        all_content(bytes),
        (m.parser.kind == Type::Notification && (m.parser.state == State::NotificationSource
            || m.parser.state == State::NotificationTitle || m.parser.state
            == State::NotificationBody)) || (m.parser.state == State::Wait && m.parser.kind
            == Type::Unknown),
    ensures
        ({
            let r = ingress_run(m, bytes).parser;
            ||| (r.state == m.parser.state && r.kind == m.parser.kind)
            ||| (r.state == State::Wait && r.kind == Type::Unknown)
        }),
    decreases bytes.len(),
{
    if bytes.len() > 0 {
        assert(forall|i: int|
            0 <= i < bytes.drop_first().len() ==> #[trigger] bytes.drop_first()[i] == bytes[i + 1]);
        lemma_content_run_notif(ingress_step(m, bytes[0]), bytes.drop_first());
    }
}

/// Away from `Init`, a run without frame starts can never reclassify
/// a frame: the kind either stays what it was or is invalidated.
proof fn lemma_run_kind_stable(m: IngressModel, bytes: Seq<u8>)
    requires
        forall|i: int| 0 <= i < bytes.len() ==> #[trigger] bytes[i] != STX,
        m.parser.state != State::Init,
    ensures
        ingress_run(m, bytes).parser.state != State::Init,
        ingress_run(m, bytes).parser.kind == m.parser.kind || ingress_run(m, bytes).parser.kind
            == Type::Unknown,
    decreases bytes.len(),
{
    if bytes.len() > 0 {
        assert(forall|i: int|
            0 <= i < bytes.drop_first().len() ==> #[trigger] bytes.drop_first()[i] == bytes[i + 1]);
        lemma_run_kind_stable(ingress_step(m, bytes[0]), bytes.drop_first());
    }
}

/// A grammar-shaped notification frame — `STX`, its type byte, the
/// source bytes, a separator, the title bytes, a separator, the body
/// bytes, `ETX` — has the same observable outcome from any parser
/// state as from a fresh parser: whatever frame it abandons leaves no
/// trace in the events, the application manager or the notification
/// pool.
#[verifier::rlimit(100)]
pub proof fn lemma_notification_frame_independent(
    m: IngressModel,
    t: u8,
    src: Seq<u8>,
    title: Seq<u8>,
    body: Seq<u8>,
)
    requires
        classify(t) == Type::Notification,
        all_content(src),
        all_content(title),
        all_content(body),
    ensures
        ({
            let frame = seq![STX, t] + src + seq![PAYLOAD] + title + seq![PAYLOAD] + body
                + seq![ETX];
            let fresh = IngressModel { parser: initial_parser(), ..m };
            &&& ingress_run(m, frame).events == ingress_run(fresh, frame).events
            &&& ingress_run(m, frame).am == ingress_run(fresh, frame).am
            &&& ingress_run(m, frame).nm == ingress_run(fresh, frame).nm
        }),
{
    let frame = seq![STX, t] + src + seq![PAYLOAD] + title + seq![PAYLOAD] + body + seq![ETX];
    let fresh = IngressModel { parser: initial_parser(), ..m };
    let pre = seq![STX, t];
    assert(is_content(t));

    // both runs agree after the frame start and its classification
    let a2 = ingress_step(ingress_step(m, STX), t);
    let b2 = ingress_step(ingress_step(fresh, STX), t);
    lemma_run_two(m, STX, t);
    lemma_run_two(fresh, STX, t);
    assert(ingress_run(m, pre) == a2);
    assert(ingress_run(fresh, pre) == b2);
    assert(obs_equiv(a2, b2));
    assert(a2.parser.state == State::NotificationSource && a2.parser.kind == Type::Notification);

    // the source section
    let a3 = ingress_run(a2, src);
    let b3 = ingress_run(b2, src);
    lemma_run_obs_equiv(a2, b2, src);
    lemma_content_run_notif(a2, src);

    // the separator closing the source records the shared cursor
    let a4 = ingress_step(a3, PAYLOAD);
    let b4 = ingress_step(b3, PAYLOAD);
    lemma_step_obs_equiv(a3, b3, PAYLOAD);
    assert(a4.parser.kind == Type::Notification ==> a4.parser.state == State::NotificationTitle
        && a4.parser.nsi0 == b4.parser.nsi0);

    // the title section
    let a5 = ingress_run(a4, title);
    let b5 = ingress_run(b4, title);
    lemma_run_obs_equiv(a4, b4, title);
    lemma_content_run_notif(a4, title);

    // the separator closing the title records the shared cursor
    let a6 = ingress_step(a5, PAYLOAD);
    let b6 = ingress_step(b5, PAYLOAD);
    lemma_step_obs_equiv(a5, b5, PAYLOAD);
    assert(a6.parser.kind == Type::Notification ==> a6.parser.state == State::NotificationBody
        && a6.parser.nsi0 == b6.parser.nsi0 && a6.parser.nsi1 == b6.parser.nsi1);

    // the body section
    let a7 = ingress_run(a6, body);
    let b7 = ingress_run(b6, body);
    lemma_run_obs_equiv(a6, b6, body);
    lemma_content_run_notif(a6, body);

    // the frame end reads only offsets both runs agree on
    lemma_step_obs_equiv(a7, b7, ETX);

    // stitch the pieces back into the whole frame
    let tail = src + seq![PAYLOAD] + title + seq![PAYLOAD] + body + seq![ETX];
    assert(frame =~= pre + tail);
    lemma_run_decomposes(m, pre, src, title, body);
    lemma_run_decomposes(fresh, pre, src, title, body);
}

/// A grammar-shaped syscall or application frame — `STX`, its type
/// byte, a separator, then its body bytes and separators, `ETX` —
/// has the same observable outcome from any parser state as from a
/// fresh parser. Such a frame never revisits classification, so its
/// kind stays the type byte's (or, after an abandoned oversized
/// payload, unknown) and never reads stale section offsets.
#[verifier::rlimit(100)]
pub proof fn lemma_plain_frame_independent(m: IngressModel, t: u8, body: Seq<u8>)
    requires
        is_content(t),
        classify(t) != Type::Notification,
        forall|i: int| 0 <= i < body.len() ==> (#[trigger] body[i]) != STX && body[i] != ETX,
    ensures
        ({
            let frame = seq![STX, t, PAYLOAD] + body + seq![ETX];
            let fresh = IngressModel { parser: initial_parser(), ..m };
            &&& ingress_run(m, frame).events == ingress_run(fresh, frame).events
            &&& ingress_run(m, frame).am == ingress_run(fresh, frame).am
            &&& ingress_run(m, frame).nm == ingress_run(fresh, frame).nm
        }),
{
    let frame = seq![STX, t, PAYLOAD] + body + seq![ETX];
    let fresh = IngressModel { parser: initial_parser(), ..m };
    let pre = seq![STX, t, PAYLOAD];

    // both runs agree after the frame start, its classification and
    // the separator that leaves the classification state behind
    let a3 = ingress_step(ingress_step(ingress_step(m, STX), t), PAYLOAD);
    let b3 = ingress_step(ingress_step(ingress_step(fresh, STX), t), PAYLOAD);
    assert(pre =~= seq![STX, t] + seq![PAYLOAD]);
    lemma_ingress_run_append(m, seq![STX, t], seq![PAYLOAD]);
    lemma_ingress_run_append(fresh, seq![STX, t], seq![PAYLOAD]);
    lemma_run_two(m, STX, t);
    lemma_run_two(fresh, STX, t);
    lemma_run_one(ingress_step(ingress_step(m, STX), t), PAYLOAD);
    lemma_run_one(ingress_step(ingress_step(fresh, STX), t), PAYLOAD);
    assert(ingress_run(m, pre) == a3);
    assert(ingress_run(fresh, pre) == b3);
    assert(obs_equiv(a3, b3));
    assert(a3.parser.state != State::Init);
    assert(a3.parser.kind != Type::Notification);

    // the body never restarts a frame, so the kind cannot be
    // reclassified into a notification
    let a4 = ingress_run(a3, body);
    let b4 = ingress_run(b3, body);
    lemma_run_obs_equiv(a3, b3, body);
    lemma_run_kind_stable(a3, body);
    assert(a4.parser.kind != Type::Notification);

    // the frame end reads nothing the two runs disagree on
    lemma_step_obs_equiv(a4, b4, ETX);

    // stitch the pieces back into the whole frame
    assert(frame =~= pre + body + seq![ETX]);
    lemma_ingress_run_append(m, pre + body, seq![ETX]);
    lemma_ingress_run_append(m, pre, body);
    lemma_run_one(a4, ETX);
    lemma_ingress_run_append(fresh, pre + body, seq![ETX]);
    lemma_ingress_run_append(fresh, pre, body);
    lemma_run_one(b4, ETX);
}

/// Running one byte is one step.
proof fn lemma_run_one(m: IngressModel, x: u8)
    ensures
        ingress_run(m, seq![x]) == ingress_step(m, x),
{
    assert(seq![x].drop_first() =~= Seq::<u8>::empty());
    assert(ingress_run(m, seq![x]) == ingress_run(ingress_step(m, x), seq![x].drop_first()));
}

/// Running two bytes is two steps.
proof fn lemma_run_two(m: IngressModel, x: u8, y: u8)
    ensures
        ingress_run(m, seq![x, y]) == ingress_step(ingress_step(m, x), y),
{
    assert(seq![x, y].drop_first() =~= seq![y]);
    assert(seq![y].drop_first() =~= Seq::<u8>::empty());
    assert(ingress_run(m, seq![x, y]) == ingress_run(ingress_step(m, x), seq![x, y].drop_first()));
    assert(ingress_run(ingress_step(m, x), seq![y]) == ingress_run(
        ingress_step(ingress_step(m, x), y),
        Seq::<u8>::empty(),
    ));
}

/// Running the frame tail `src [P] title [P] body [ETX]` from a model
/// is stepping through its sections in order.
proof fn lemma_run_decomposes(m: IngressModel, pre: Seq<u8>, src: Seq<u8>, title: Seq<u8>, body: Seq<u8>)
    ensures
        ingress_run(m, pre + src + seq![PAYLOAD] + title + seq![PAYLOAD] + body + seq![ETX])
            == ingress_step(
            ingress_run(
                ingress_step(
                    ingress_run(ingress_step(ingress_run(ingress_run(m, pre), src), PAYLOAD), title),
                    PAYLOAD,
                ),
                body,
            ),
            ETX,
        ),
{
    let m1 = ingress_run(m, pre);
    let m2 = ingress_run(m1, src);
    lemma_ingress_run_append(m, pre, src);
    assert(pre + src =~= (pre + src));
    let m3 = ingress_step(m2, PAYLOAD);
    lemma_ingress_run_append(m, pre + src, seq![PAYLOAD]);
    lemma_run_one(m2, PAYLOAD);
    let m4 = ingress_run(m3, title);
    lemma_ingress_run_append(m, pre + src + seq![PAYLOAD], title);
    let m5 = ingress_step(m4, PAYLOAD);
    lemma_ingress_run_append(m, pre + src + seq![PAYLOAD] + title, seq![PAYLOAD]);
    lemma_run_one(m4, PAYLOAD);
    let m6 = ingress_run(m5, body);
    lemma_ingress_run_append(m, pre + src + seq![PAYLOAD] + title + seq![PAYLOAD], body);
    let m7 = ingress_step(m6, ETX);
    lemma_ingress_run_append(m, pre + src + seq![PAYLOAD] + title + seq![PAYLOAD] + body, seq![ETX]);
    lemma_run_one(m6, ETX);
}

/// A byte-oriented framing state machine that drains the serial queue
/// and reconstructs complete payloads.
pub struct IngressManager {
    rb: ByteQueue,
    state: State,
    hex: Option<u8>,
    nsi0: usize,
    nsi1: usize,
    nsi_idx: usize,
    buffer: Buffer,
}

impl IngressManager {
    /// The parser's state, abstracted.
    pub closed spec fn parser_model(self) -> ParserModel {
        ParserModel {
            state: self.state,
            kind: self.buffer.kind(),
            payload: self.buffer.bytes(),
            hex: self.hex,
            nsi0: self.nsi0,
            nsi1: self.nsi1,
            nsi_idx: self.nsi_idx,
        }
    }

    /// The bytes waiting in the serial queue, front first.
    pub closed spec fn queue_model(self) -> Seq<u8> {
        queue_bytes(self.rb)
    }

    pub open spec fn wf(self) -> bool {
        let p = self.parser_model();
        &&& p.payload.len() <= BUFF_SIZE
        &&& (p.kind == Type::Notification ==> p.nsi_idx == p.payload.len())
        &&& (p.state == State::NotificationSource || p.state == State::NotificationTitle
            || p.state == State::NotificationBody ==> p.kind == Type::Notification)
        &&& (p.state == State::Payload ==> p.kind == Type::Syscall)
        &&& (p.state == State::Init ==> p.payload.len() == 0 && p.nsi_idx == 0)
    }

    /// Constructs a new IngressManager
    pub fn new() -> (im: IngressManager)
        ensures
            im.wf(),
            im.queue_model() == Seq::<u8>::empty(),
            im.parser_model() == (ParserModel {
                state: State::Init,
                kind: Type::Unknown,
                payload: Seq::<u8>::empty(),
                hex: None,
                nsi0: 0,
                nsi1: 0,
                nsi_idx: 0,
            }),
    {
        IngressManager {
            rb: ByteQueue::new(),
            state: State::Init,
            hex: None,
            nsi0: 0,
            nsi1: 0,
            nsi_idx: 0,
            buffer: Buffer::new(),
        }
    }

    /// Feed raw bytes into the serial queue; the interrupt handlers
    /// call this. The queue holds `RB_SIZE - 1` bytes, and a producer
    /// that outruns the consumer has broken the system's scheduling
    /// contract, so room for the data is a precondition.
    pub fn write(&mut self, data: &[u8])
        requires
            old(self).queue_model().len() + data@.len() < RB_SIZE,
        ensures
            final(self).queue_model() == old(self).queue_model() + data@,
            final(self).parser_model() == old(self).parser_model(),
    {
        let mut i: usize = 0;
        while i < data.len()
            invariant
                i <= data@.len(),
                old(self).queue_model().len() + data@.len() < RB_SIZE,
                self.queue_model() =~= old(self).queue_model() + data@.take(i as int),
                self.parser_model() == old(self).parser_model(),
            decreases data@.len() - i,
        {
            let byte = data[i];
            match self.rb.enqueue(byte) {
                Ok(_) => {
                    proof {
                        assert(old(self).queue_model() + data@.take(i + 1) =~= (old(
                            self,
                        ).queue_model() + data@.take(i as int)).push(byte));
                    }
                },
                Err(_) => {
                    // unreachable: the precondition leaves room for
                    // every byte of `data`
                },
            }
            i = i + 1;
        }
        proof {
            assert(data@.take(data@.len() as int) =~= data@);
        }
    }

    /// The framing state the parser is in.
    pub fn current_state(&self) -> (s: State)
        ensures
            s == self.parser_model().state,
    {
        self.state
    }

    /// Drain the queue through the framing state machine: every queued
    /// byte is processed in arrival order, completed frames act on the
    /// application manager and the notification pool, and the emitted
    /// events are returned. The result is exactly [`ingress_run`] over
    /// the queued bytes.
    pub fn process(&mut self, am: &mut ApplicationManager, nm: &mut NotificationManager) -> (events:
        Vec<Event>)
        requires
            old(self).wf(),
            old(am).wf(),
            old(nm).wf(),
        ensures
            final(self).wf(),
            final(am).wf(),
            final(nm).wf(),
            final(self).queue_model() == Seq::<u8>::empty(),
            pack(final(self).parser_model(), final(am)@, final(nm)@, events@) == ingress_run(
                pack(old(self).parser_model(), old(am)@, old(nm)@, Seq::<Event>::empty()),
                old(self).queue_model(),
            ),
    {
        let mut events: Vec<Event> = Vec::new();
        let ghost m0 = pack(self.parser_model(), am@, nm@, Seq::<Event>::empty());
        let ghost q0 = self.queue_model();
        while self.rb.len() > 0
            invariant
                self.wf(),
                am.wf(),
                nm.wf(),
                ingress_run(pack(self.parser_model(), am@, nm@, events@), self.queue_model())
                    == ingress_run(m0, q0),
            decreases self.queue_model().len(),
        {
            let ghost q_before = self.queue_model();
            let ghost prev = pack(self.parser_model(), am@, nm@, events@);
            let next = self.rb.dequeue();
            if let Some(byte) = next {
                proof {
                    assert(ingress_run(prev, q_before) == ingress_run(
                        ingress_step(prev, byte),
                        self.queue_model(),
                    ));
                }
                if byte == STX {
                    // a partial frame is silently abandoned here
                    self.hex = None;
                    self.nsi_idx = 0;
                    self.buffer.clear();
                    self.state = State::Init;
                    proof {
                        assert(pack(self.parser_model(), am@, nm@, events@) =~~= ingress_step(
                            prev,
                            byte,
                        ));
                    }
                } else if byte == ETX {
                    self.state = State::Wait;
                    match self.buffer.get_type() {
                        Type::Unknown => {
                            // the frame's type never resolved: drop it
                        },
                        Type::Application => {
                            match am.verify() {
                                Ok(_) => events.push(Event::ApplicationVerified),
                                Err(_) => events.push(Event::ApplicationInvalid),
                            }
                        },
                        Type::Notification => {
                            let nsi = [self.nsi0, self.nsi1, self.nsi_idx];
                            match nm.add(&self.buffer, &nsi) {
                                Ok(_) => events.push(
                                    Event::Notification {
                                        source_end: self.nsi0,
                                        title_end: self.nsi1,
                                        body_end: self.nsi_idx,
                                    },
                                ),
                                Err(_) => {
                                    // incoherent section offsets: drop
                                },
                            }
                        },
                        Type::Syscall => {
                            match Syscall::parse_bytes(self.buffer.as_slice()) {
                                Ok(sc) => events.push(Event::Syscall(sc)),
                                Err(_) => {
                                    // malformed syscall: drop
                                },
                            }
                        },
                    }
                    proof {
                        assert(pack(self.parser_model(), am@, nm@, events@) =~~= ingress_step(
                            prev,
                            byte,
                        ));
                    }
                } else if byte == PAYLOAD {
                    match self.buffer.get_type() {
                        Type::Unknown => {
                            self.state = State::Wait;
                        },
                        Type::Application => {
                            if self.state == State::ApplicationChecksum {
                                // checksum parsed; the image follows
                                self.state = State::ApplicationStore;
                            } else {
                                self.state = State::ApplicationChecksum;
                                // unload any resident application
                                // before the new one arrives
                                let _ = am.kill();
                            }
                        },
                        Type::Notification => {
                            if self.state == State::NotificationSource {
                                self.nsi0 = self.nsi_idx;
                                self.state = State::NotificationTitle;
                            } else if self.state == State::NotificationTitle {
                                self.nsi1 = self.nsi_idx;
                                self.state = State::NotificationBody;
                            } else {
                                self.state = State::NotificationSource;
                            }
                        },
                        Type::Syscall => {
                            self.state = State::Payload;
                        },
                    }
                    proof {
                        assert(pack(self.parser_model(), am@, nm@, events@) =~~= ingress_step(
                            prev,
                            byte,
                        ));
                    }
                } else {
                    match self.state {
                        State::Init => {
                            match self.buffer.determine_type(byte) {
                                Type::Unknown => {
                                    self.state = State::Wait;
                                },
                                Type::Notification => {
                                    // the source section runs from here
                                    // to the first unit separator
                                    self.state = State::NotificationSource;
                                },
                                _ => {},
                            }
                        },
                        State::Payload => {
                            match self.buffer.write(byte) {
                                Ok(_) => {},
                                Err(_) => {
                                    // frame too large: abandon it
                                    self.state = State::Wait;
                                    self.buffer.invalidate();
                                },
                            }
                        },
                        State::ApplicationChecksum | State::ApplicationStore => {
                            match self.hex {
                                None => {
                                    self.hex = Some(byte);
                                },
                                Some(h) => {
                                    self.hex = None;
                                    match hex_byte_to_byte(h, byte) {
                                        Some(v) => {
                                            if self.state == State::ApplicationChecksum {
                                                let _ = am.write_checksum_byte(v);
                                            } else {
                                                let _ = am.write_ram_byte(v);
                                            }
                                        },
                                        None => {
                                            // not hex: abort the upload
                                            self.state = State::Wait;
                                        },
                                    }
                                },
                            }
                        },
                        State::NotificationSource | State::NotificationTitle
                            | State::NotificationBody => {
                            self.nsi_idx = self.nsi_idx + 1;
                            match self.buffer.write(byte) {
                                Ok(_) => {},
                                Err(_) => {
                                    // frame too large: abandon it
                                    self.state = State::Wait;
                                    self.buffer.invalidate();
                                },
                            }
                        },
                        State::Wait => {
                            // noise between frames: discard
                        },
                    }
                    proof {
                        assert(pack(self.parser_model(), am@, nm@, events@) =~~= ingress_step(
                            prev,
                            byte,
                        ));
                    }
                }
            }
        }
        events
    }
}

} // verus!
