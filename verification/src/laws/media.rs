//! Keys, volumes and microphones reach the machine they are meant for.

use vstd::prelude::*;

use crate::laws::lamp::{power_off, power_on};
use crate::laws::web::tells;
use crate::led::LedState;
use crate::media;
use crate::media::{Handshake, MediaConn, MicInput, MicLines, MicOrder, Targets};
use crate::text;
use crate::tuya::{LampCommand, LampHandle, LampState};

verus! {

// ── Orders by name ────────────────────────────────────────────────────────────
/// A play or pause that was asked for on a machine is taken there once; the other machines' orders
/// stay.
pub proof fn law_media_order(
    a: &mut Targets<bool>,
    b: &mut Targets<bool>,
    c: &mut Targets<bool>,
    machine: &str,
    first: bool,
    second: bool,
    other: Seq<char>,
)
    requires
        old(a).valid(),
        call_ensures(media::queue_media_for_machine, (a, machine), ()),
        *old(b) == *final(a),
        call_ensures(media::take_media_target, (b, machine), first),
        *old(c) == *final(b),
        call_ensures(media::take_media_target, (c, machine), second),
        other != machine@,
    ensures
        first,
        !second,
        final(c)@.dom().contains(other) == old(a)@.dom().contains(other),
        final(c)@.dom().contains(other) ==> final(c)@[other] == old(a)@[other],
{
}

/// The volume that was set for a machine is the one it should have, until another is set.
pub proof fn law_volume_order(
    t: &mut Targets<u8>,
    after: Targets<u8>,
    machine: &str,
    vol: u8,
    other: &str,
    was: Option<u8>,
    own: Option<u8>,
    others: Option<u8>,
)
    requires
        old(t).valid(),
        after == *final(t),
        call_ensures(media::queue_volume_for_machine, (t, machine, vol), ()),
        call_ensures(media::peek_volume_target, (&after, machine), own),
        call_ensures(media::peek_volume_target, (&after, other), others),
        call_ensures(media::peek_volume_target, (&*old(t), other), was),
        other@ != machine@,
    ensures
        own == Some(vol),
        others == was,
{
}

// ── Messages ──────────────────────────────────────────────────────────────────
/// The percentage that a message gives for a volume: rounded down, and never above a hundred.
pub open spec fn is_percent(p: int, vol: u8) -> bool {
    if vol < 153 {
        153 * p <= 100 * vol < 153 * (p + 1)
    } else {
        p == 100
    }
}

/// A message that sets a volume.
pub open spec fn sets_volume(m: Seq<char>, vol: u8) -> bool {
    exists|p: nat| #[trigger]
        is_percent(p as int, vol) && m == seq!['v', ':'] + text::decimal(p) + seq!['\n']
}

proof fn lemma_volume_text(vol: u8)
    ensures
        sets_volume(media::volume_text(vol), vol),
{
    reveal_strlit("v:");
    assert("v:"@ =~= seq!['v', ':']);
    let p = media::percent(vol);
    assert(is_percent(p, vol)) by {
        assert(vol < 153 ==> vol * 100 / 153 < 100) by (nonlinear_arith);
        assert(vol >= 153 ==> vol * 100 / 153 >= 100) by (nonlinear_arith);
    }
    assert(is_percent(p as nat as int, vol));
}

/// The machine that owns the media key, and no other, gets the press: one play or pause, which is then
/// gone.
pub proof fn law_owner_plays(
    conn: &mut MediaConn,
    owner: Option<String>,
    ready: &mut bool,
    targets: &mut Targets<bool>,
    volume: u8,
    volumes: Targets<u8>,
    r: Option<String>,
)
    requires
        old(conn).valid(),
        old(targets).valid(),
        volumes.valid(),
        call_ensures(MediaConn::turn, (conn, 0u8, &owner, ready, targets, volume, &volumes), r),
    ensures
        r is Some <==> *old(ready) && owner is Some && owner->0@ == old(conn).machine_id@,
        r is Some ==> r->0@ == seq!['p', '\n'] && !*final(ready),
        r is None && !(owner is Some && owner->0@ == old(conn).machine_id@) ==> *final(ready) == *old(ready),
        final(targets)@ == old(targets)@,
{
    reveal_strlit("p\n");
    assert("p\n"@ =~= seq!['p', '\n']);
}

/// A machine that was asked by name gets its play or pause, once.
pub proof fn law_named_machine_plays(
    conn: &mut MediaConn,
    owner: Option<String>,
    ready: &mut bool,
    targets: &mut Targets<bool>,
    volume: u8,
    volumes: Targets<u8>,
    r: Option<String>,
)
    requires
        old(conn).valid(),
        old(targets).valid(),
        volumes.valid(),
        call_ensures(MediaConn::turn, (conn, 1u8, &owner, ready, targets, volume, &volumes), r),
    ensures
        ({
            let name = old(conn).machine_id@;
            &&& r is Some <==> old(targets)@.dom().contains(name) && old(targets)@[name]
            &&& r is Some ==> r->0@ == seq!['p', '\n'] && !final(targets)@[name]
            &&& forall|other: Seq<char>|
                other != name && old(targets)@.dom().contains(other) ==> final(targets)@.dom().contains(other) && #[trigger] final(targets)@[other] == old(targets)@[other]
            &&& *final(ready) == *old(ready)
        }),
{
    reveal_strlit("p\n");
    assert("p\n"@ =~= seq!['p', '\n']);
}

/// The volume goes to every machine when it has changed, and a machine's own volume to that machine;
/// each is told in percent, and once.
pub proof fn law_volumes_are_told(
    a: &mut MediaConn,
    b: &mut MediaConn,
    owner: Option<String>,
    a_ready: &mut bool,
    b_ready: &mut bool,
    a_targets: &mut Targets<bool>,
    b_targets: &mut Targets<bool>,
    volume: u8,
    volumes: Targets<u8>,
    common: Option<String>,
    own: Option<String>,
)
    requires
        old(a).valid(),
        old(b).valid(),
        old(a_targets).valid(),
        old(b_targets).valid(),
        volumes.valid(),
        call_ensures(MediaConn::turn, (a, 2u8, &owner, a_ready, a_targets, volume, &volumes), common),
        call_ensures(MediaConn::turn, (b, 3u8, &owner, b_ready, b_targets, volume, &volumes), own),
    ensures
        common is Some <==> volume != 255 && volume != old(a).last_vol,
        common is Some ==> sets_volume(common->0@, volume) && final(a).last_vol == volume,
        common is None ==> final(a).last_vol == old(a).last_vol,
        ({
            let name = old(b).machine_id@;
            &&& own is Some <==> volumes@.dom().contains(name) && old(b).last_targeted_vol != Some(
                volumes@[name],
            )
            &&& own is Some ==> sets_volume(own->0@, volumes@[name]) && final(b).last_targeted_vol
                == Some(volumes@[name])
        }),
{
    lemma_volume_text(volume);
    lemma_volume_text(volumes@[old(b).machine_id@]);
}

/// Every three hundred ticks a connection gets a sign of life, and in the other turns none.
pub proof fn law_keepalive(
    conn: &mut MediaConn,
    k: u8,
    owner: Option<String>,
    ready: &mut bool,
    targets: &mut Targets<bool>,
    volume: u8,
    volumes: Targets<u8>,
    r: Option<String>,
)
    requires
        old(conn).valid(),
        old(targets).valid(),
        volumes.valid(),
        call_ensures(MediaConn::turn, (conn, k, &owner, ready, targets, volume, &volumes), r),
    ensures
        k == 4 ==> (r is Some <==> old(conn).keepalive == 299),
        k == 4 && r is Some ==> r->0@ == seq!['k', '\n'] && final(conn).keepalive == 0,
        k == 4 && r is None ==> final(conn).keepalive == old(conn).keepalive + 1,
        k != 4 ==> final(conn).keepalive == old(conn).keepalive,
        k > 4 ==> r is None,
        final(conn).machine_id@ == old(conn).machine_id@ && final(conn).identified == old(conn).identified,
{
    reveal_strlit("k\n");
    assert("k\n"@ =~= seq!['k', '\n']);
}

// ── Connections ───────────────────────────────────────────────────────────────
/// A new connection takes the first place that is free.
pub proof fn law_first_free_place(taken: [bool; 3], r: Option<usize>)
    requires
        call_ensures(media::free_slot, (&taken,), r),
    ensures
        !taken[0] ==> r == Some(0usize),
        taken[0] && !taken[1] ==> r == Some(1usize),
        taken[0] && taken[1] && !taken[2] ==> r == Some(2usize),
        taken[0] && taken[1] && taken[2] ==> r is None,
{
    if r is Some {
        let i = r->0 as int;
        if i > 0 {
            assert(taken[0]);
        }
        if i > 1 {
            assert(taken[1]);
        }
    }
}

proof fn lemma_bytes_concat(h: Handshake, a: Seq<u8>, b: Seq<u8>, room: bool)
    ensures
        h.bytes(a + b, room) == h.bytes(a, room).bytes(b, room),
    decreases b.len(),
{
    if b.len() == 0 {
        assert(a + b =~= a);
    } else {
        lemma_bytes_concat(h, a, b.drop_last(), room);
        assert((a + b).drop_last() =~= a + b.drop_last());
    }
}

/// It does not matter in which pieces a handshake arrives.
pub proof fn law_handshake_in_pieces(
    a: &mut MediaConn,
    b: &mut MediaConn,
    whole: &mut MediaConn,
    first: &[u8],
    second: &[u8],
    all: &[u8],
    room: bool,
    dropped: (bool, bool, bool),
)
    requires
        old(a).valid(),
        *old(whole) == *old(a),
        all@ == first@ + second@,
        call_ensures(MediaConn::read, (a, first, room), dropped.0),
        *old(b) == *final(a),
        call_ensures(MediaConn::read, (b, second, room), dropped.1),
        call_ensures(MediaConn::read, (whole, all, room), dropped.2),
        !dropped.0,
    ensures
        dropped.1 == dropped.2,
        final(b).identified == final(whole).identified,
        final(b).machine_id@ == final(whole).machine_id@,
{
    lemma_bytes_concat(old(a).handshake(), first@, second@, room);
    assert(old(b).handshake() == old(a).handshake().bytes(first@, room));
}

/// A line that names nobody, more bytes than a handshake may have, or no memory for the name end the
/// connection.
pub proof fn law_bad_handshake(conn: &mut MediaConn, byte: &[u8], room: bool, dropped: bool)
    requires
        old(conn).valid(),
        byte@.len() == 1,
        call_ensures(MediaConn::read, (conn, byte, room), dropped),
    ensures
        byte@[0] == 10 && !room ==> dropped,
        byte@[0] == 10 && old(conn).id_buf@.len() < 4 ==> dropped,
        byte@[0] != 10 && old(conn).id_buf@.len() == 128 ==> dropped,
        byte@[0] != 10 && old(conn).id_buf@.len() < 128 ==> !dropped && final(conn).id_buf@ == old(conn).id_buf@.push(byte@[0]) && final(conn).identified == old(conn).identified,
{
    let h = old(conn).handshake();
    assert(byte@.drop_last() =~= Seq::<u8>::empty());
    assert(h.bytes(byte@.drop_last(), room) == h);
    assert(h.bytes(byte@, room) == h.byte(byte@[0], room));
    if byte@[0] == 10 && old(conn).id_buf@.len() < 4 {
        let line = old(conn).id_buf@;
        if media::name_in(line) is Some {
            let t = vstd::utf8::decode_utf8(line);
            lemma_trim_shortens(t);
            lemma_decode_shortens(line);
        }
    }
}

proof fn lemma_trim_end_shortens(s: Seq<char>)
    ensures
        text::trimmed_end(s).len() <= s.len(),
    decreases s.len(),
{
    if s.len() > 0 && text::white(s.last()) {
        lemma_trim_end_shortens(s.drop_last());
    }
}

proof fn lemma_trim_shortens(s: Seq<char>)
    ensures
        text::trimmed(s).len() <= s.len(),
{
    lemma_trim_start_shortens(s);
    lemma_trim_end_shortens(text::trimmed_start(s));
}

proof fn lemma_trim_start_shortens(s: Seq<char>)
    ensures
        text::trimmed_start(s).len() <= s.len(),
    decreases s.len(),
{
    if s.len() > 0 && text::white(s[0]) {
        lemma_trim_start_shortens(s.skip(1));
    }
}

proof fn lemma_decode_shortens(b: Seq<u8>)
    requires
        vstd::utf8::valid_utf8(b),
    ensures
        vstd::utf8::decode_utf8(b).len() <= b.len(),
    decreases b.len(),
{
    if b.len() > 0 {
        lemma_decode_shortens(vstd::utf8::pop_first_scalar(b));
    }
}

// ── Microphones ───────────────────────────────────────────────────────────────
proof fn lemma_short_line(a: char, b: char)
    requires
        !text::white(a),
        !text::white(b),
        a != ':',
        b != ':',
    ensures
        media::mic_order(seq![a, ':', b]) == if a == 'm' {
            MicOrder::Mic { on: b == '1', machine: None }
        } else if a == 'l' && b == 't' {
            MicOrder::Lamp
        } else {
            MicOrder::Nothing
        },
{
    let s = seq![a, ':', b];
    assert(text::trimmed(s) == s);
    assert(text::first_at(s, ':', 1)) by {
        assert(s[0] != ':');
    }
    text::lemma_first_at(s, ':', 1);
    assert(s.take(1) =~= seq![a]);
    assert(s.skip(2) =~= seq![b]);
    assert(!seq![b].contains(':')) by {
        assert(seq![b][0] != ':');
    }
    if a == 'm' {
        assert(seq![a] =~= seq!['m']);
    } else {
        assert(seq![a][0] != seq!['m'][0]);
    }
    assert(seq![a] == seq!['l'] <==> a == 'l') by {
        assert(seq![a][0] == a && seq!['l'][0] == 'l');
    }
    assert(seq![b] == seq!['t'] <==> b == 't') by {
        assert(seq![b][0] == b && seq!['t'][0] == 't');
    }
    assert(seq![b] == seq!['1'] <==> b == '1') by {
        assert(seq![b][0] == b && seq!['1'][0] == '1');
    }
}

/// A microphone that goes on or off lights or darkens the yellow LED, and makes a machine that names
/// itself the owner of the media key; the lamp and the other LEDs stay.
pub proof fn law_microphone(
    line: &str,
    on: bool,
    name: Seq<char>,
    h: &mut LampHandle,
    lamp: &mut LampState,
    leds: &mut LedState,
    owner: &mut Option<String>,
    room: bool,
    now: u32,
)
    requires
        name.len() > 0,
        !text::white(name.last()),
        line@ == seq![
            'm',
            ':',
            if on {
                '1'
            } else {
                '0'
            },
            ':',
        ] + name,
        call_ensures(media::handle_mic_line, (line, h, lamp, leds, owner, room, now), ()),
    ensures
        final(leds).blue == on,
        final(leds).red == old(leds).red && final(leds).green == old(leds).green,
        *final(h) == *old(h) && *final(lamp) == *old(lamp),
        room ==> *final(owner) is Some && final(owner)->0@ == name,
        !room ==> *final(owner) == *old(owner),
{
    media::law_mic_line_names_machine(on, name);
}

/// A machine without a name turns the LED on and off all the same, and leaves the owner.
pub proof fn law_nameless_microphone(
    line: &str,
    on: bool,
    h: &mut LampHandle,
    lamp: &mut LampState,
    leds: &mut LedState,
    owner: &mut Option<String>,
    room: bool,
    now: u32,
)
    requires
        line@ == seq![
            'm',
            ':',
            if on {
                '1'
            } else {
                '0'
            },
        ],
        call_ensures(media::handle_mic_line, (line, h, lamp, leds, owner, room, now), ()),
    ensures
        final(leds).blue == on,
        final(leds).red == old(leds).red && final(leds).green == old(leds).green,
        *final(h) == *old(h) && *final(lamp) == *old(lamp) && *final(owner) == *old(owner),
{
    lemma_short_line('m', if on {
        '1'
    } else {
        '0'
    });
}

/// The key for the lamp on a machine's keyboard turns over what was asked for last or else what is
/// shown.
pub proof fn law_keyboard_toggles_lamp(
    line: &str,
    h: &mut LampHandle,
    lamp: &mut LampState,
    leds: &mut LedState,
    owner: &mut Option<String>,
    room: bool,
    now: u32,
    then: u32,
    cmd: Option<LampCommand>,
)
    requires
        line@ == seq!['l', ':', 't'],
        call_ensures(media::handle_mic_line, (line, h, lamp, leds, owner, room, now), ()),
        call_ensures(LampHandle::poll, (&*final(h), then), cmd),
    ensures
        ({
            let was_on = if old(h).target != 0 {
                old(h).target > 0
            } else {
                old(lamp).on
            };
            &&& *final(lamp) == LampState { on: !was_on, known: true }
            &&& was_on ==> tells(cmd, power_off())
            &&& !was_on ==> tells(cmd, power_on())
        }),
        *final(leds) == *old(leds) && *final(owner) == *old(owner),
{
    lemma_short_line('l', 't');
}

/// A line is told when its end comes, as the text of the bytes before it; then the next begins.
pub proof fn law_mic_lines(m: &mut MicLines, b: u8, r: MicInput)
    requires
        old(m).valid(),
        call_ensures(MicLines::feed, (m, b), r),
    ensures
        b != 10 ==> r is More,
        b == 10 ==> final(m).line@.len() == 0 && !(r is More),
        b == 10 && vstd::utf8::valid_utf8(old(m).line@) ==> r is Line && (r matches MicInput::Line(s)
            ==> s@ == vstd::utf8::decode_utf8(old(m).line@)),
        b == 10 && !vstd::utf8::valid_utf8(old(m).line@) ==> r is NoText,
        b != 10 && old(m).line@.len() < 256 ==> final(m).line@ == old(m).line@.push(b),
        b != 10 && old(m).line@.len() == 256 ==> final(m).line@ == old(m).line@,
{
}

/// Only a microphone that says one is on: whatever else it says, it is off.
pub proof fn law_microphone_state(
    line: &str,
    state: char,
    name: Seq<char>,
    h: &mut LampHandle,
    lamp: &mut LampState,
    leds: &mut LedState,
    owner: &mut Option<String>,
    room: bool,
    now: u32,
)
    requires
        name.len() > 0,
        !text::white(name.last()),
        state != ':',
        line@ == seq!['m', ':', state, ':'] + name,
        call_ensures(media::handle_mic_line, (line, h, lamp, leds, owner, room, now), ()),
    ensures
        final(leds).blue == (state == '1'),
        room ==> *final(owner) is Some && final(owner)->0@ == name,
{
    let t = line@;
    assert(t.last() == name.last());
    assert(!text::white('m'));
    assert(t[0] == 'm');
    assert(text::trimmed_start(t) == t);
    assert(text::trimmed_end(t) == t);
    assert(text::first_at(t, ':', 1));
    text::lemma_first_at(t, ':', 1);
    let rest = t.skip(2);
    assert(t.take(1) =~= seq!['m']);
    assert(rest =~= seq![state, ':'] + name);
    assert(text::first_at(rest, ':', 1));
    text::lemma_first_at(rest, ':', 1);
    assert(rest.take(1) =~= seq![state]);
    assert(rest.skip(2) =~= name);
    assert(seq![state] == seq!['1'] <==> state == '1') by {
        assert(seq![state][0] == state && seq!['1'][0] == '1');
    }
}

} // verus!
