//! Firmware update over the network (TCP port 3232).
//!
//! A client sends 4 bytes with the length of the image, most significant first, then the image. It
//! gets back `OK: rebooting` or `ERR:` and a reason. The session below decides what to do next; the
//! application does it and reports what came of it.

use vstd::prelude::*;

verus! {

pub const PORT: u16 = 3232;

/// The image is received and written in pieces of at most this many bytes.
pub const CHUNK: usize = 4096;

/// What a client is told at the end.
#[derive(Clone, Copy, PartialEq, Eq, Structural, Debug)]
pub enum OtaReply {
    Rebooting,
    NoLength,
    NoPartition,
    BeginFailed,
    HeapTooLow,
    WriteFailed,
    EndFailed,
    BootFailed,
}

pub open spec fn reply_text(r: OtaReply) -> Seq<char> {
    match r {
        OtaReply::Rebooting => "OK: rebooting\n"@,
        OtaReply::NoLength => "ERR: read length\n"@,
        OtaReply::NoPartition => "ERR: no OTA partition\n"@,
        OtaReply::BeginFailed => "ERR: ota begin\n"@,
        OtaReply::HeapTooLow => "ERR: heap too low for recv buffer\n"@,
        OtaReply::WriteFailed => "ERR: write failed\n"@,
        OtaReply::EndFailed => "ERR: ota end\n"@,
        OtaReply::BootFailed => "ERR: set boot partition\n"@,
    }
}

impl OtaReply {
    pub fn text(self) -> (r: &'static str)
        ensures
            r@ == reply_text(self),
    {
        match self {
            OtaReply::Rebooting => "OK: rebooting\n",
            OtaReply::NoLength => "ERR: read length\n",
            OtaReply::NoPartition => "ERR: no OTA partition\n",
            OtaReply::BeginFailed => "ERR: ota begin\n",
            OtaReply::HeapTooLow => "ERR: heap too low for recv buffer\n",
            OtaReply::WriteFailed => "ERR: write failed\n",
            OtaReply::EndFailed => "ERR: ota end\n",
            OtaReply::BootFailed => "ERR: set boot partition\n",
        }
    }
}

/// What the session waits for.
#[derive(Clone, Copy, PartialEq, Eq, Structural, Debug)]
pub enum OtaState {
    Length,
    Partition,
    Begin,
    Buffer,
    Receive,
    Write { n: usize },
    End,
    Boot,
    Over,
}

/// What came of the last action.
#[derive(Clone, Copy, PartialEq, Eq, Debug)]
pub enum OtaEvent {
    /// The four bytes of the length, or nothing.
    Length(Option<[u8; 4]>),
    /// Whether there is a partition to write to.
    Partition(bool),
    /// Whether writing could begin.
    Begun(bool),
    /// Whether there is memory for the pieces.
    Buffer(bool),
    /// How many bytes came (none where the client has closed), or nothing on an error.
    Received(Option<usize>),
    /// Whether the piece was written.
    Written(bool),
    /// Whether the image was finished.
    Ended(bool),
    /// Whether the image will be booted.
    BootSet(bool),
}

/// What to do next.
#[derive(Clone, Copy, PartialEq, Eq, Structural, Debug)]
pub enum OtaAction {
    FindPartition,
    /// Begin an image of this length.
    Begin { len: usize },
    /// Get memory for the pieces.
    Reserve { len: usize },
    /// Receive at most this many bytes.
    Receive { most: usize },
    /// Write the bytes that came.
    Write { n: usize },
    /// Finish the image.
    End,
    /// Have the image booted.
    SetBoot,
    /// Give up an image that was begun, if `abort`, then reply and close.
    Refuse { abort: bool, reply: OtaReply },
    /// Reply, then restart.
    Restart,
}

/// One client's session.
#[derive(Clone, Copy, PartialEq, Eq, Structural, Debug)]
pub struct OtaSession {
    pub state: OtaState,
    /// Length of the image.
    pub expected: usize,
    /// Bytes written so far.
    pub written: usize,
}

/// The number that four bytes stand for, most significant first.
pub open spec fn big_endian(b: [u8; 4]) -> int {
    b[0] * 0x100_0000 + b[1] * 0x1_0000 + b[2] * 0x100 + b[3]
}

pub open spec fn piece(s: OtaSession) -> usize {
    if s.expected - s.written < CHUNK {
        (s.expected - s.written) as usize
    } else {
        CHUNK
    }
}

/// Receive the next piece, or finish where nothing is left.
pub open spec fn go_on(s: OtaSession) -> (OtaSession, OtaAction) {
    if s.written < s.expected {
        (
            OtaSession { state: OtaState::Receive, ..s },
            OtaAction::Receive { most: piece(s) },
        )
    } else {
        (OtaSession { state: OtaState::End, ..s }, OtaAction::End)
    }
}

pub open spec fn refused(s: OtaSession, abort: bool, reply: OtaReply) -> (OtaSession, OtaAction) {
    (OtaSession { state: OtaState::Over, ..s }, OtaAction::Refuse { abort, reply })
}

/// The event is of the kind that the session waits for, and no more came than was asked for.
pub open spec fn fits(s: OtaSession, e: OtaEvent) -> bool {
    match (s.state, e) {
        (OtaState::Length, OtaEvent::Length(_)) => true,
        (OtaState::Partition, OtaEvent::Partition(_)) => true,
        (OtaState::Begin, OtaEvent::Begun(_)) => true,
        (OtaState::Buffer, OtaEvent::Buffer(_)) => true,
        (OtaState::Receive, OtaEvent::Received(Some(n))) => n <= piece(s),
        (OtaState::Receive, OtaEvent::Received(None)) => true,
        (OtaState::Write { n }, OtaEvent::Written(_)) => true,
        (OtaState::End, OtaEvent::Ended(_)) => true,
        (OtaState::Boot, OtaEvent::BootSet(_)) => true,
        _ => false,
    }
}

/// The next state and action.
pub open spec fn next(s: OtaSession, e: OtaEvent) -> (OtaSession, OtaAction) {
    match (s.state, e) {
        (OtaState::Length, OtaEvent::Length(Some(b))) => (
            OtaSession { state: OtaState::Partition, expected: big_endian(b) as usize, written: 0 },
            OtaAction::FindPartition,
        ),
        (OtaState::Length, OtaEvent::Length(None)) => refused(s, false, OtaReply::NoLength),
        (OtaState::Partition, OtaEvent::Partition(true)) => (
            OtaSession { state: OtaState::Begin, ..s },
            OtaAction::Begin { len: s.expected },
        ),
        (OtaState::Partition, OtaEvent::Partition(false)) => refused(
            s,
            false,
            OtaReply::NoPartition,
        ),
        (OtaState::Begin, OtaEvent::Begun(true)) => (
            OtaSession { state: OtaState::Buffer, ..s },
            OtaAction::Reserve { len: CHUNK },
        ),
        (OtaState::Begin, OtaEvent::Begun(false)) => refused(s, false, OtaReply::BeginFailed),
        (OtaState::Buffer, OtaEvent::Buffer(true)) => go_on(s),
        (OtaState::Buffer, OtaEvent::Buffer(false)) => refused(s, true, OtaReply::HeapTooLow),
        (OtaState::Receive, OtaEvent::Received(Some(n))) => if n == 0 {
            refused(s, true, OtaReply::WriteFailed)
        } else {
            (OtaSession { state: OtaState::Write { n }, ..s }, OtaAction::Write { n })
        },
        (OtaState::Receive, OtaEvent::Received(None)) => refused(s, true, OtaReply::WriteFailed),
        (OtaState::Write { n }, OtaEvent::Written(true)) => go_on(
            OtaSession { written: (s.written + n) as usize, ..s },
        ),
        (OtaState::Write { n }, OtaEvent::Written(false)) => refused(
            s,
            true,
            OtaReply::WriteFailed,
        ),
        (OtaState::End, OtaEvent::Ended(true)) => (
            OtaSession { state: OtaState::Boot, ..s },
            OtaAction::SetBoot,
        ),
        (OtaState::End, OtaEvent::Ended(false)) => refused(s, false, OtaReply::EndFailed),
        (OtaState::Boot, OtaEvent::BootSet(true)) => (
            OtaSession { state: OtaState::Over, ..s },
            OtaAction::Restart,
        ),
        (OtaState::Boot, OtaEvent::BootSet(false)) => refused(s, false, OtaReply::BootFailed),
        _ => (s, OtaAction::End),
    }
}

impl OtaSession {
    /// No more is written than was announced, and an image is finished only when all of it was.
    pub open spec fn valid(self) -> bool {
        &&& self.written <= self.expected
        &&& self.state matches OtaState::Write { n } ==> 0 < n <= self.expected - self.written
        &&& self.state == OtaState::Receive ==> self.written < self.expected
        &&& self.state == OtaState::End || self.state == OtaState::Boot ==> self.written
            == self.expected
    }

    /// A session that waits for the length of the image.
    pub fn new() -> (r: Self)
        ensures
            r == (OtaSession { state: OtaState::Length, expected: 0, written: 0 }),
            r.valid(),
    {
        OtaSession { state: OtaState::Length, expected: 0, written: 0 }
    }

    fn refuse(&mut self, abort: bool, reply: OtaReply) -> (r: OtaAction)
        ensures
            (*final(self), r) == refused(*old(self), abort, reply),
    {
        self.state = OtaState::Over;
        OtaAction::Refuse { abort, reply }
    }

    fn proceed(&mut self) -> (r: OtaAction)
        requires
            old(self).written <= old(self).expected,
        ensures
            (*final(self), r) == go_on(*old(self)),
    {
        if self.written < self.expected {
            let left: usize = self.expected - self.written;
            self.state = OtaState::Receive;
            OtaAction::Receive {
                most: if left < CHUNK {
                    left
                } else {
                    CHUNK
                },
            }
        } else {
            self.state = OtaState::End;
            OtaAction::End
        }
    }

    /// Takes what came of the last action and says what to do next.
    pub fn handle_client(&mut self, event: OtaEvent) -> (r: OtaAction)
        requires
            old(self).valid(),
            fits(*old(self), event),
        ensures
            (*final(self), r) == next(*old(self), event),
            final(self).valid(),
    {
        match event {
            OtaEvent::Length(Some(b)) => {
                let len: u32 = b[0] as u32 * 0x100_0000 + b[1] as u32 * 0x1_0000 + b[2] as u32
                    * 0x100 + b[3] as u32;
                self.expected = len as usize;
                self.written = 0;
                self.state = OtaState::Partition;
                OtaAction::FindPartition
            },
            OtaEvent::Length(None) => self.refuse(false, OtaReply::NoLength),
            OtaEvent::Partition(found) => {
                if found {
                    self.state = OtaState::Begin;
                    OtaAction::Begin { len: self.expected }
                } else {
                    self.refuse(false, OtaReply::NoPartition)
                }
            },
            OtaEvent::Begun(ok) => {
                if ok {
                    self.state = OtaState::Buffer;
                    OtaAction::Reserve { len: CHUNK }
                } else {
                    self.refuse(false, OtaReply::BeginFailed)
                }
            },
            OtaEvent::Buffer(ok) => {
                if ok {
                    self.proceed()
                } else {
                    self.refuse(true, OtaReply::HeapTooLow)
                }
            },
            OtaEvent::Received(Some(n)) => {
                if n == 0 {
                    self.refuse(true, OtaReply::WriteFailed)
                } else {
                    self.state = OtaState::Write { n };
                    OtaAction::Write { n }
                }
            },
            OtaEvent::Received(None) => self.refuse(true, OtaReply::WriteFailed),
            OtaEvent::Written(ok) => {
                if ok {
                    if let OtaState::Write { n } = self.state {
                        self.written = self.written + n;
                    }
                    self.proceed()
                } else {
                    self.refuse(true, OtaReply::WriteFailed)
                }
            },
            OtaEvent::Ended(ok) => {
                if ok {
                    self.state = OtaState::Boot;
                    OtaAction::SetBoot
                } else {
                    self.refuse(false, OtaReply::EndFailed)
                }
            },
            OtaEvent::BootSet(ok) => {
                if ok {
                    self.state = OtaState::Over;
                    OtaAction::Restart
                } else {
                    self.refuse(false, OtaReply::BootFailed)
                }
            },
        }
    }
}

/// A run of events, each of which fits.
pub open spec fn runs(s: OtaSession, events: Seq<OtaEvent>) -> bool
    decreases events.len(),
{
    events.len() == 0 || (runs(s, events.drop_last()) && fits(
        after(s, events.drop_last()),
        events.last(),
    ))
}

/// The session after a run of events.
pub open spec fn after(s: OtaSession, events: Seq<OtaEvent>) -> OtaSession
    decreases events.len(),
{
    if events.len() == 0 {
        s
    } else {
        next(after(s, events.drop_last()), events.last()).0
    }
}

/// Whatever happens, an image is booted, and the device restarted, only when every byte that was
/// announced has been written.
pub proof fn law_only_whole_images_boot(s: OtaSession, events: Seq<OtaEvent>, e: OtaEvent)
    requires
        s == (OtaSession { state: OtaState::Length, expected: 0, written: 0 }),
        runs(s, events.push(e)),
    ensures
        after(s, events).valid(),
        ({
            let a = next(after(s, events), e).1;
            a == OtaAction::SetBoot || a == OtaAction::Restart ==> after(s, events).written
                == after(s, events).expected
        }),
{
    assert(events.push(e).drop_last() =~= events);
    lemma_runs_stay_valid(s, events);
}

proof fn lemma_runs_stay_valid(s: OtaSession, events: Seq<OtaEvent>)
    requires
        s.valid(),
        runs(s, events),
    ensures
        after(s, events).valid(),
    decreases events.len(),
{
    if events.len() > 0 {
        lemma_runs_stay_valid(s, events.drop_last());
        lemma_step_stays_valid(after(s, events.drop_last()), events.last());
    }
}

proof fn lemma_step_stays_valid(s: OtaSession, e: OtaEvent)
    requires
        s.valid(),
        fits(s, e),
    ensures
        next(s, e).0.valid(),
{
}

/// An image that was begun and cannot be completed is given up before the client is told.
pub proof fn law_begun_images_are_aborted(s: OtaSession, e: OtaEvent)
    requires
        s.valid(),
        fits(s, e),
        s.state == OtaState::Buffer || s.state == OtaState::Receive || s.state is Write,
    ensures
        next(s, e).1 matches OtaAction::Refuse { abort, reply } ==> abort,
{
}

} // verus!
