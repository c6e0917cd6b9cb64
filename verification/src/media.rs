//! Media control of the machines on the desk: which one a key press goes to, what is sent over
//! their connections, and what their microphones report.

use vstd::prelude::*;

use crate::led::LedState;
use crate::text;
use crate::tuya;
use crate::tuya::{LampHandle, LampState};

verus! {

/// Volume that was not read yet.
pub const NO_VOLUME: u8 = 255;

/// The internal volume range is 0 to this.
pub const VOLUME_MAX: u8 = 153;

/// Connections at a time.
pub const MAX_MEDIA_CONNS: usize = 3;

/// Bytes that a handshake may have.
pub const ID_MAX: usize = 128;

/// Bytes that a line of a microphone connection may have; more are dropped.
pub const LINE_MAX: usize = 256;

/// Ticks of 10 ms between keepalives.
pub const KEEPALIVE_TICKS: u32 = 300;

/// The largest free block of memory that an identification needs.
pub const ID_HEAP: usize = 512;

/// A value for each of a few named machines.
pub struct Targets<T> {
    entries: Vec<(String, T)>,
}

/// Entry `i` is that of the machine.
spec fn entry_at<T>(entries: Seq<(String, T)>, machine: Seq<char>, i: int) -> bool {
    0 <= i < entries.len() && entries[i].0@ == machine
}

impl<T> View for Targets<T> {
    type V = Map<Seq<char>, T>;

    closed spec fn view(&self) -> Map<Seq<char>, T> {
        Map::new(
            |m: Seq<char>| exists|i: int| entry_at(self.entries@, m, i),
            |m: Seq<char>| self.entries@[choose|i: int| entry_at(self.entries@, m, i)].1,
        )
    }
}

impl<T: Copy> Targets<T> {
    /// No machine has two entries.
    pub closed spec fn valid(self) -> bool {
        forall|i: int, j: int|
            0 <= i < self.entries@.len() && 0 <= j < self.entries@.len()
                && #[trigger] self.entries@[i].0@ == #[trigger] self.entries@[j].0@ ==> i == j
    }

    pub fn new() -> (r: Self)
        ensures
            r.valid(),
            r@ == Map::<Seq<char>, T>::empty(),
    {
        let r = Targets { entries: Vec::new() };
        assert(r@ =~= Map::<Seq<char>, T>::empty());
        r
    }

    fn find(&self, machine: &str) -> (r: Option<usize>)
        requires
            self.valid(),
        ensures
            r is Some <==> self@.dom().contains(machine@),
            r matches Some(i) ==> entry_at(self.entries@, machine@, i as int)
                && self@[machine@] == self.entries@[i as int].1,
    {
        let mut i: usize = 0;
        while i < self.entries.len()
            invariant
                i <= self.entries@.len(),
                self.valid(),
                forall|k: int| 0 <= k < i ==> !#[trigger] entry_at(self.entries@, machine@, k),
            decreases self.entries@.len() - i,
        {
            if text::same_text(self.entries[i].0.as_str(), machine) {
                proof {
                    assert(entry_at(self.entries@, machine@, i as int));
                    let j = choose|j: int| entry_at(self.entries@, machine@, j);
                    assert(self.entries@[i as int].0@ == self.entries@[j].0@);
                }
                return Some(i);
            }
            i += 1;
        }
        None
    }

    pub fn get(&self, machine: &str) -> (r: Option<T>)
        requires
            self.valid(),
        ensures
            r == if self@.dom().contains(machine@) {
                Some(self@[machine@])
            } else {
                None
            },
    {
        match self.find(machine) {
            Some(i) => Some(self.entries[i].1),
            None => None,
        }
    }

    pub fn set(&mut self, machine: &str, value: T)
        requires
            old(self).valid(),
        ensures
            final(self).valid(),
            final(self)@ == old(self)@.insert(machine@, value),
    {
        let ghost before = self.entries@;
        match self.find(machine) {
            Some(i) => {
                let name: String = self.entries[i].0.clone();
                self.entries.set(i, (name, value));
                proof {
                    assert(forall|k: int|
                        0 <= k < before.len() ==> #[trigger] self.entries@[k].0@ == before[k].0@);
                    lemma_view_after(*old(self), *self, machine@, value, i as int);
                }
            },
            None => {
                self.entries.push((machine.to_owned(), value));
                proof {
                    assert(forall|k: int|
                        0 <= k < before.len() ==> #[trigger] self.entries@[k] == before[k]);
                    assert forall|a: int, b: int|
                        0 <= a < self.entries@.len() && 0 <= b < self.entries@.len()
                            && #[trigger] self.entries@[a].0@ == #[trigger] self.entries@[b].0@
                            implies a == b by {
                        if a < before.len() && b == before.len() {
                            assert(entry_at(before, machine@, a));
                        }
                        if b < before.len() && a == before.len() {
                            assert(entry_at(before, machine@, b));
                        }
                    }
                    lemma_view_after(*old(self), *self, machine@, value, before.len() as int);
                }
            },
        }
    }
}

proof fn lemma_view_after<T: Copy>(
    a: Targets<T>,
    b: Targets<T>,
    machine: Seq<char>,
    value: T,
    at: int,
)
    requires
        a.valid(),
        b.valid(),
        entry_at(b.entries@, machine, at),
        b.entries@[at].1 == value,
        a.entries@.len() <= b.entries@.len() <= a.entries@.len() + 1,
        at < a.entries@.len() <==> b.entries@.len() == a.entries@.len(),
        forall|k: int|
            0 <= k < b.entries@.len() && k != at ==> k < a.entries@.len()
                && #[trigger] b.entries@[k] == a.entries@[k],
        at < a.entries@.len() ==> a.entries@[at].0@ == machine,
    ensures
        b@ == a@.insert(machine, value),
{
    let want = a@.insert(machine, value);
    assert forall|m: Seq<char>| #[trigger] b@.dom().contains(m) <==> want.dom().contains(m) by {
        if b@.dom().contains(m) && m != machine {
            let i = choose|i: int| entry_at(b.entries@, m, i);
            assert(entry_at(a.entries@, m, i));
        }
        if want.dom().contains(m) && m != machine {
            let i = choose|i: int| entry_at(a.entries@, m, i);
            assert(i != at);
            assert(entry_at(b.entries@, m, i));
        }
    }
    assert forall|m: Seq<char>| #[trigger] b@.dom().contains(m) implies b@[m] == want[m] by {
        let i = choose|i: int| entry_at(b.entries@, m, i);
        assert(entry_at(b.entries@, m, i));
        if m == machine {
            assert(b.entries@[i].0@ == b.entries@[at].0@);
        } else {
            assert(i != at);
            assert(b.entries@[i] == a.entries@[i]);
            assert(entry_at(a.entries@, m, i));
            let j = choose|j: int| entry_at(a.entries@, m, j);
            assert(a.entries@[i].0@ == a.entries@[j].0@);
        }
    }
    assert(b@ =~= want);
}

/// Asks for a play/pause on one machine, whoever else is the owner.
pub fn queue_media_for_machine(targets: &mut Targets<bool>, machine: &str)
    requires
        old(targets).valid(),
    ensures
        final(targets).valid(),
        final(targets)@ == old(targets)@.insert(machine@, true),
{
    targets.set(machine, true);
}

/// Something is asked for on the machine.
pub open spec fn media_wanted(targets: Map<Seq<char>, bool>, machine: Seq<char>) -> bool {
    targets.dom().contains(machine) && targets[machine]
}

/// Takes the request for a play/pause on one machine, if there is one.
pub fn take_media_target(targets: &mut Targets<bool>, machine: &str) -> (r: bool)
    requires
        old(targets).valid(),
    ensures
        final(targets).valid(),
        r == media_wanted(old(targets)@, machine@),
        final(targets)@ == if old(targets)@.dom().contains(machine@) {
            old(targets)@.insert(machine@, false)
        } else {
            old(targets)@
        },
{
    match targets.get(machine) {
        Some(wanted) => {
            targets.set(machine, false);
            wanted
        },
        None => false,
    }
}

/// Sets the volume that one machine should have, in the internal range.
pub fn queue_volume_for_machine(targets: &mut Targets<u8>, machine: &str, vol: u8)
    requires
        old(targets).valid(),
    ensures
        final(targets).valid(),
        final(targets)@ == old(targets)@.insert(machine@, vol),
{
    targets.set(machine, vol);
}

/// The volume that one machine should have, if one was set.
pub fn peek_volume_target(targets: &Targets<u8>, machine: &str) -> (r: Option<u8>)
    requires
        targets.valid(),
    ensures
        r == if targets@.dom().contains(machine@) {
            Some(targets@[machine@])
        } else {
            None
        },
{
    targets.get(machine)
}

/// A request is served once: after it was taken there is none, until the next.
pub proof fn law_request_served_once(targets: Map<Seq<char>, bool>, machine: Seq<char>)
    ensures
        media_wanted(targets.insert(machine, true), machine),
        !media_wanted(targets.insert(machine, true).insert(machine, false), machine),
{
}

/// A request for one machine is no request for another.
pub proof fn law_requests_stay_apart(
    targets: Map<Seq<char>, bool>,
    machine: Seq<char>,
    other: Seq<char>,
    v: bool,
)
    requires
        machine != other,
    ensures
        media_wanted(targets.insert(machine, v), other) == media_wanted(targets, other),
{
}

/// One connection of a machine.
pub struct MediaConn {
    pub identified: bool,
    /// The bytes of the handshake so far.
    pub id_buf: Vec<u8>,
    pub machine_id: String,
    pub last_vol: u8,
    pub last_targeted_vol: Option<u8>,
    pub keepalive: u32,
}

/// A connection during its handshake.
pub ghost struct Handshake {
    pub id: Seq<u8>,
    pub machine: Seq<char>,
    pub identified: bool,
    pub dropped: bool,
}

/// The name that a handshake line gives, if it gives one: `id:` and the name.
pub open spec fn name_in(line: Seq<u8>) -> Option<Seq<char>> {
    let t = text::trimmed(vstd::utf8::decode_utf8(line));
    if vstd::utf8::valid_utf8(line) && t.len() > 3 && t.take(3) == seq!['i', 'd', ':'] {
        Some(t.skip(3))
    } else {
        None
    }
}

impl Handshake {
    /// One more byte. The line is kept after it was read.
    pub open spec fn byte(self, b: u8, room: bool) -> Handshake {
        if b == 10 {
            match name_in(self.id) {
                Some(name) if room => Handshake { machine: name, identified: true, ..self },
                _ => Handshake { dropped: true, ..self },
            }
        } else if self.id.len() < ID_MAX {
            Handshake { id: self.id.push(b), ..self }
        } else {
            Handshake { dropped: true, ..self }
        }
    }

    pub open spec fn bytes(self, s: Seq<u8>, room: bool) -> Handshake
        decreases s.len(),
    {
        if s.len() == 0 {
            self
        } else {
            self.bytes(s.drop_last(), room).byte(s.last(), room)
        }
    }
}

/// Whether memory allows for taking a name.
pub fn room_for_id(largest_free_block: usize) -> (r: bool)
    ensures
        r == (largest_free_block >= ID_HEAP),
{
    largest_free_block >= ID_HEAP
}

fn read_name(line: &[u8]) -> (r: Option<String>)
    ensures
        r is Some <==> name_in(line@) is Some,
        r matches Some(s) ==> name_in(line@) == Some(s@),
{
    let t: String = match text::utf8_text(line) {
        Some(t) => t,
        None => {
            return None;
        },
    };
    let chars: Vec<char> = text::chars_of(t.as_str());
    let trimmed: &[char] = text::trim(chars.as_slice());
    let n: usize = trimmed.len();
    if n > 3 && trimmed[0] == 'i' && trimmed[1] == 'd' && trimmed[2] == ':' {
        proof {
            assert(trimmed@.take(3) =~= seq!['i', 'd', ':']);
            assert(trimmed@.subrange(3, n as int) =~= trimmed@.skip(3));
        }
        Some(text::string_of(vstd::slice::slice_subrange(trimmed, 3, n)))
    } else {
        proof {
            if n > 3 && trimmed@.take(3) == seq!['i', 'd', ':'] {
                assert(trimmed@.take(3)[0] == 'i');
                assert(trimmed@.take(3)[1] == 'd');
                assert(trimmed@.take(3)[2] == ':');
            }
        }
        None
    }
}

/// A volume in percent.
pub open spec fn percent(vol: u8) -> int {
    if vol * 100 / 153 < 100 {
        vol * 100 / 153
    } else {
        100
    }
}

/// The message that sets a volume.
pub open spec fn volume_text(vol: u8) -> Seq<char> {
    "v:"@ + text::decimal(percent(vol) as nat) + seq!['\n']
}

fn volume_message(vol: u8) -> (r: String)
    ensures
        r@ == volume_text(vol),
{
    let scaled: u32 = vol as u32 * 100 / 153;
    let pct: u32 = if scaled < 100 {
        scaled
    } else {
        100
    };
    let mut out: String = String::new();
    out.append("v:");
    text::push_decimal(&mut out, pct as u64);
    out.push('\n');
    assert(out@ =~= volume_text(vol));
    out
}

impl MediaConn {
    /// A connection that has not named itself yet.
    pub fn new(volume: u8) -> (r: Self)
        ensures
            r.valid(),
            !r.identified,
            r.id_buf@.len() == 0,
            r.machine_id@.len() == 0,
            r.last_vol == volume,
            r.last_targeted_vol is None,
            r.keepalive == 0,
    {
        MediaConn {
            identified: false,
            id_buf: Vec::new(),
            machine_id: String::new(),
            last_vol: volume,
            last_targeted_vol: None,
            keepalive: 0,
        }
    }

    pub open spec fn valid(self) -> bool {
        self.id_buf@.len() <= ID_MAX && self.keepalive < KEEPALIVE_TICKS
    }

    pub open spec fn handshake(self) -> Handshake {
        Handshake {
            id: self.id_buf@,
            machine: self.machine_id@,
            identified: self.identified,
            dropped: false,
        }
    }

    /// Takes bytes of the handshake. Returns whether the connection has to be dropped. `room` says
    /// whether memory allows for taking a name.
    pub fn read(&mut self, bytes: &[u8], room: bool) -> (dropped: bool)
        requires
            old(self).valid(),
        ensures
            final(self).valid(),
            final(self).id_buf@ == old(self).handshake().bytes(bytes@, room).id,
            final(self).machine_id@ == old(self).handshake().bytes(bytes@, room).machine,
            final(self).identified == old(self).handshake().bytes(bytes@, room).identified,
            dropped == old(self).handshake().bytes(bytes@, room).dropped,
            final(self).last_vol == old(self).last_vol,
            final(self).last_targeted_vol == old(self).last_targeted_vol,
            final(self).keepalive == old(self).keepalive,
    {
        let ghost start = self.handshake();
        let mut dropped: bool = false;
        let mut i: usize = 0;
        assert(bytes@.take(0) =~= Seq::empty());
        while i < bytes.len()
            invariant
                i <= bytes@.len(),
                self.valid(),
                start.bytes(bytes@.take(i as int), room) == (Handshake {
                    dropped,
                    ..self.handshake()
                }),
                self.last_vol == old(self).last_vol,
                self.last_targeted_vol == old(self).last_targeted_vol,
                self.keepalive == old(self).keepalive,
            decreases bytes@.len() - i,
        {
            let b: u8 = bytes[i];
            proof {
                assert(bytes@.take(i + 1).drop_last() =~= bytes@.take(i as int));
            }
            if b == 10 {
                match read_name(self.id_buf.as_slice()) {
                    Some(name) => {
                        if room {
                            self.machine_id = name;
                            self.identified = true;
                        } else {
                            dropped = true;
                        }
                    },
                    None => {
                        dropped = true;
                    },
                }
            } else if self.id_buf.len() < ID_MAX {
                self.id_buf.push(b);
            } else {
                dropped = true;
            }
            i += 1;
        }
        assert(bytes@.take(i as int) =~= bytes@);
        dropped
    }

    /// This machine's microphone was the last to be toggled.
    pub open spec fn owns(self, owner: Option<String>) -> bool {
        owner is Some && owner->0@ == self.machine_id@
    }

    /// Play/pause for the owner, if the key was pressed. Takes the press.
    pub fn owner_message(&self, owner: &Option<String>, ready: &mut bool) -> (r: Option<String>)
        ensures
            r is Some <==> self.owns(*owner) && *old(ready),
            r matches Some(m) ==> m@ == "p\n"@,
            *final(ready) == (*old(ready) && !self.owns(*owner)),
    {
        let is_owner: bool = match owner {
            Some(o) => text::same_text(o.as_str(), self.machine_id.as_str()),
            None => false,
        };
        if is_owner && *ready {
            *ready = false;
            Some("p\n".to_owned())
        } else {
            None
        }
    }

    /// Play/pause for this machine, if it was asked for by name. Takes the request.
    pub fn target_message(&self, targets: &mut Targets<bool>) -> (r: Option<String>)
        requires
            old(targets).valid(),
        ensures
            final(targets).valid(),
            r is Some <==> media_wanted(old(targets)@, self.machine_id@),
            r matches Some(m) ==> m@ == "p\n"@,
            final(targets)@ == if old(targets)@.dom().contains(self.machine_id@) {
                old(targets)@.insert(self.machine_id@, false)
            } else {
                old(targets)@
            },
    {
        if take_media_target(targets, self.machine_id.as_str()) {
            Some("p\n".to_owned())
        } else {
            None
        }
    }

    /// The common volume, if it is known and was not sent yet.
    pub fn common_volume_message(&mut self, volume: u8) -> (r: Option<String>)
        ensures
            r is Some <==> volume != NO_VOLUME && volume != old(self).last_vol,
            r matches Some(m) ==> m@ == volume_text(volume),
            *final(self) == (MediaConn {
                last_vol: if r is Some {
                    volume
                } else {
                    old(self).last_vol
                },
                ..*old(self)
            }),
    {
        if volume != NO_VOLUME && volume != self.last_vol {
            self.last_vol = volume;
            Some(volume_message(volume))
        } else {
            None
        }
    }

    /// The volume that was set for this machine, if it was not sent yet.
    pub fn own_volume_message(&mut self, targets: &Targets<u8>) -> (r: Option<String>)
        requires
            targets.valid(),
        ensures
            r is Some <==> targets@.dom().contains(old(self).machine_id@) && old(
                self,
            ).last_targeted_vol != Some(targets@[old(self).machine_id@]),
            r matches Some(m) ==> m@ == volume_text(targets@[old(self).machine_id@]),
            *final(self) == (MediaConn {
                last_targeted_vol: if r is Some {
                    Some(targets@[old(self).machine_id@])
                } else {
                    old(self).last_targeted_vol
                },
                ..*old(self)
            }),
    {
        match peek_volume_target(targets, self.machine_id.as_str()) {
            Some(vol) => {
                let sent: bool = match self.last_targeted_vol {
                    Some(v) => v == vol,
                    None => false,
                };
                if sent {
                    None
                } else {
                    self.last_targeted_vol = Some(vol);
                    Some(volume_message(vol))
                }
            },
            None => None,
        }
    }

    /// A sign of life every 300 ticks.
    pub fn keepalive_message(&mut self) -> (r: Option<String>)
        requires
            old(self).valid(),
        ensures
            final(self).valid(),
            r is Some <==> old(self).keepalive + 1 >= KEEPALIVE_TICKS,
            r matches Some(m) ==> m@ == "k\n"@,
            *final(self) == (MediaConn {
                keepalive: if r is Some {
                    0
                } else {
                    (old(self).keepalive + 1) as u32
                },
                ..*old(self)
            }),
    {
        self.keepalive = self.keepalive + 1;
        if self.keepalive >= KEEPALIVE_TICKS {
            self.keepalive = 0;
            Some("k\n".to_owned())
        } else {
            None
        }
    }
}

/// The messages of one tick: this many turns, each of which may have one.
pub const TURNS: u8 = 5;

/// The message of a turn: play/pause for the owner, play/pause by name, the common volume, the
/// machine's own volume, and the sign of life.
pub open spec fn turn_text(
    conn: MediaConn,
    k: u8,
    owner: Option<String>,
    ready: bool,
    media: Map<Seq<char>, bool>,
    volume: u8,
    volumes: Map<Seq<char>, u8>,
) -> Option<Seq<char>> {
    let name = conn.machine_id@;
    if k == 0 && conn.owns(owner) && ready {
        Some("p\n"@)
    } else if k == 1 && media_wanted(media, name) {
        Some("p\n"@)
    } else if k == 2 && volume != NO_VOLUME && volume != conn.last_vol {
        Some(volume_text(volume))
    } else if k == 3 && volumes.dom().contains(name) && conn.last_targeted_vol != Some(
        volumes[name],
    ) {
        Some(volume_text(volumes[name]))
    } else if k == 4 && conn.keepalive + 1 >= KEEPALIVE_TICKS {
        Some("k\n"@)
    } else {
        None
    }
}

impl MediaConn {
    /// The message of turn `k`, if there is one. A turn takes what it sends, so that it is asked for
    /// only once the message before it went out.
    pub fn turn(
        &mut self,
        k: u8,
        owner: &Option<String>,
        ready: &mut bool,
        media: &mut Targets<bool>,
        volume: u8,
        volumes: &Targets<u8>,
    ) -> (r: Option<String>)
        requires
            old(self).valid(),
            old(media).valid(),
            volumes.valid(),
        ensures
            final(self).valid(),
            final(media).valid(),
            r is Some <==> turn_text(
                *old(self),
                k,
                *owner,
                *old(ready),
                old(media)@,
                volume,
                volumes@,
            ) is Some,
            r matches Some(m) ==> turn_text(
                *old(self),
                k,
                *owner,
                *old(ready),
                old(media)@,
                volume,
                volumes@,
            ) == Some(m@),
            *final(ready) == (*old(ready) && !(k == 0 && old(self).owns(*owner))),
            final(media)@ == if k == 1 && old(media)@.dom().contains(old(self).machine_id@) {
                old(media)@.insert(old(self).machine_id@, false)
            } else {
                old(media)@
            },
            *final(self) == (MediaConn {
                last_vol: if k == 2 && r is Some {
                    volume
                } else {
                    old(self).last_vol
                },
                last_targeted_vol: if k == 3 && r is Some {
                    Some(volumes@[old(self).machine_id@])
                } else {
                    old(self).last_targeted_vol
                },
                keepalive: if k == 4 {
                    if r is Some {
                        0
                    } else {
                        (old(self).keepalive + 1) as u32
                    }
                } else {
                    old(self).keepalive
                },
                ..*old(self)
            }),
    {
        if k == 0 {
            self.owner_message(owner, ready)
        } else if k == 1 {
            self.target_message(media)
        } else if k == 2 {
            self.common_volume_message(volume)
        } else if k == 3 {
            self.own_volume_message(volumes)
        } else if k == 4 {
            self.keepalive_message()
        } else {
            None
        }
    }
}

/// The first slot that is free.
pub fn free_slot(taken: &[bool; 3]) -> (r: Option<usize>)
    ensures
        r is None <==> taken[0] && taken[1] && taken[2],
        r matches Some(i) ==> i < 3 && !taken[i as int] && forall|k: int|
            0 <= k < i ==> #[trigger] taken[k],
{
    if !taken[0] {
        Some(0)
    } else if !taken[1] {
        Some(1)
    } else if !taken[2] {
        Some(2)
    } else {
        None
    }
}

/// A machine that names itself in one line is known by that name: the bytes of `id:`, of a name
/// without white space around it, and of the end of the line.
pub proof fn law_handshake_names_machine(conn: MediaConn, name: Seq<char>)
    requires
        conn.valid(),
        conn.id_buf@.len() == 0,
        name.len() > 0,
        !text::white(name[0]) && !text::white(name.last()),
        !vstd::utf8::encode_utf8(seq!['i', 'd', ':'] + name).contains(10),
        vstd::utf8::encode_utf8(seq!['i', 'd', ':'] + name).len() <= ID_MAX,
    ensures
        ({
            let line = vstd::utf8::encode_utf8(seq!['i', 'd', ':'] + name);
            let h = conn.handshake().bytes(line.push(10), true);
            h.identified && h.machine == name && !h.dropped
        }),
{
    let t = seq!['i', 'd', ':'] + name;
    let line = vstd::utf8::encode_utf8(t);
    lemma_plain_bytes(conn.handshake(), line, line.len() as int);
    assert(line.take(line.len() as int) =~= line);
    assert(line.push(10).drop_last() =~= line);
    vstd::utf8::encode_utf8_valid_utf8(t);
    vstd::utf8::encode_utf8_decode_utf8(t);
    assert(t.last() == name.last());
    assert(text::trimmed(t) == t);
    assert(t.take(3) =~= seq!['i', 'd', ':']);
    assert(t.skip(3) =~= name);
}

/// Play/pause goes to one machine only: of two machines with different names at most one is the
/// owner.
pub proof fn law_one_owner(a: MediaConn, b: MediaConn, owner: Option<String>)
    requires
        a.machine_id@ != b.machine_id@,
    ensures
        !(a.owns(owner) && b.owns(owner)),
{
}

proof fn lemma_plain_bytes(h: Handshake, line: Seq<u8>, n: int)
    requires
        0 <= n <= line.len() <= ID_MAX,
        h.id.len() == 0,
        !h.dropped,
        !line.contains(10),
    ensures
        h.bytes(line.take(n), true) == (Handshake { id: line.take(n), ..h }),
    decreases n,
{
    if n > 0 {
        lemma_plain_bytes(h, line, n - 1);
        assert(line.take(n).drop_last() =~= line.take(n - 1));
        assert(line.take(n).last() == line[n - 1]);
        assert(line.contains(line[n - 1]));
        assert(line.take(n - 1).push(line[n - 1]) =~= line.take(n));
    } else {
        assert(line.take(0) =~= Seq::empty());
        assert(h.id =~= Seq::empty());
    }
}

// ── Microphones ───────────────────────────────────────────────────────────────
/// A line of a microphone connection, as far as it has come.
pub struct MicLines {
    pub line: Vec<u8>,
}

/// What one more byte brings.
pub enum MicInput {
    /// The line goes on.
    More,
    /// The line is complete.
    Line(String),
    /// The line is complete, and no text.
    NoText,
}

impl MicLines {
    pub fn new() -> (r: Self)
        ensures
            r.line@.len() == 0,
    {
        MicLines { line: Vec::new() }
    }

    pub open spec fn valid(self) -> bool {
        self.line@.len() <= LINE_MAX
    }

    /// Takes one byte. What exceeds the line's length is dropped.
    pub fn feed(&mut self, b: u8) -> (r: MicInput)
        requires
            old(self).valid(),
        ensures
            final(self).valid(),
            final(self).line@ == if b == 10 {
                Seq::empty()
            } else if old(self).line@.len() < LINE_MAX {
                old(self).line@.push(b)
            } else {
                old(self).line@
            },
            r is More <==> b != 10,
            r is Line <==> b == 10 && vstd::utf8::valid_utf8(old(self).line@),
            r matches MicInput::Line(s) ==> s@ == vstd::utf8::decode_utf8(old(self).line@),
    {
        if b == 10 {
            let r: Option<String> = text::utf8_text(self.line.as_slice());
            self.line = Vec::new();
            assert(self.line@ =~= Seq::<u8>::empty());
            match r {
                Some(s) => MicInput::Line(s),
                None => MicInput::NoText,
            }
        } else {
            if self.line.len() < LINE_MAX {
                self.line.push(b);
            }
            MicInput::More
        }
    }
}

/// What a line asks for.
pub ghost enum MicOrder {
    /// The microphone is on or off; the machine may be named.
    Mic { on: bool, machine: Option<Seq<char>> },
    /// Toggle the lamp.
    Lamp,
    Nothing,
}

/// What a line asks for: `m:<0|1>:<machine>`, `m:<0|1>`, or `l:t`.
pub open spec fn mic_order(line: Seq<char>) -> MicOrder {
    let t = text::trimmed(line);
    match text::cut(t, ':') {
        Some(p) => match text::cut(p.1, ':') {
            Some(q) => if p.0 == seq!['m'] {
                MicOrder::Mic { on: q.0 == seq!['1'], machine: Some(q.1) }
            } else {
                MicOrder::Nothing
            },
            None => if p.0 == seq!['m'] {
                MicOrder::Mic { on: p.1 == seq!['1'], machine: None }
            } else if p.0 == seq!['l'] && p.1 == seq!['t'] {
                MicOrder::Lamp
            } else {
                MicOrder::Nothing
            },
        },
        None => MicOrder::Nothing,
    }
}

fn is_letter(s: &[char], c: char) -> (r: bool)
    ensures
        r == (s@ == seq![c]),
{
    let r: bool = s.len() == 1 && s[0] == c;
    proof {
        if r {
            assert(s@ =~= seq![c]);
        }
    }
    r
}

/// Does what a line asks for. A named machine becomes the owner of the media keys, where `room` says
/// that memory allows it; the lamp is toggled from what `lamp` shows.
pub fn handle_mic_line(
    line: &str,
    handle: &mut LampHandle,
    lamp: &mut LampState,
    leds: &mut LedState,
    owner: &mut Option<String>,
    room: bool,
    now: u32,
)
    ensures
        match mic_order(line@) {
            MicOrder::Mic { on, machine } => {
                &&& *final(leds) == (LedState { blue: on, ..*old(leds) })
                &&& *final(handle) == *old(handle)
                &&& *final(lamp) == *old(lamp)
                &&& machine is Some && room ==> *final(owner) is Some && final(owner)->0@
                    == machine->0
                &&& !(machine is Some && room) ==> *final(owner) == *old(owner)
            },
            MicOrder::Lamp => {
                &&& *final(leds) == *old(leds)
                &&& *final(handle) == tuya::asked(
                    *old(handle),
                    tuya::flipped(old(handle).target, old(lamp).on),
                    now,
                )
                &&& *final(lamp) == (LampState {
                    on: tuya::flipped(old(handle).target, old(lamp).on) > 0,
                    known: true,
                })
                &&& *final(owner) == *old(owner)
            },
            MicOrder::Nothing => {
                &&& *final(leds) == *old(leds)
                &&& *final(handle) == *old(handle)
                &&& *final(lamp) == *old(lamp)
                &&& *final(owner) == *old(owner)
            },
        },
{
    let chars: Vec<char> = text::chars_of(line);
    let t: &[char] = text::trim(chars.as_slice());
    if let Some((first, rest)) = text::cut_chars(t, ':') {
        match text::cut_chars(rest, ':') {
            Some((state, machine)) => {
                if is_letter(first, 'm') {
                    leds.set_yellow(is_letter(state, '1'));
                    if room {
                        *owner = Some(text::string_of(machine));
                    }
                }
            },
            None => {
                if is_letter(first, 'm') {
                    leds.set_yellow(is_letter(rest, '1'));
                } else if is_letter(first, 'l') && is_letter(rest, 't') {
                    let new_on: bool = handle.flip_target(lamp.on, now);
                    *lamp = LampState { on: new_on, known: true };
                }
            },
        }
    }
}

/// A line that names a machine says so: the machine is the one named, and the microphone is on where
/// the state is `1`.
pub proof fn law_mic_line_names_machine(on: bool, name: Seq<char>)
    requires
        name.len() > 0,
        !text::white(name.last()),
    ensures
        mic_order(
            seq![
                'm',
                ':',
                if on {
                    '1'
                } else {
                    '0'
                },
                ':',
            ] + name,
        ) == (MicOrder::Mic { on, machine: Some(name) }),
{
    let state = if on {
        '1'
    } else {
        '0'
    };
    let line = seq!['m', ':', state, ':'] + name;
    assert(line.last() == name.last());
    assert(text::trimmed(line) == line);
    text::lemma_first_at(line, ':', 1);
    let rest = line.skip(2);
    assert(line.take(1) =~= seq!['m']);
    text::lemma_first_at(rest, ':', 1);
    assert(rest.take(1) =~= seq![state]);
    assert(rest.skip(2) =~= name);
    if !on {
        assert(seq!['0'][0] != seq!['1'][0]);
    }
}

} // verus!
