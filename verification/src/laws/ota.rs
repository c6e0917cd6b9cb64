//! An update is taken whole or not at all.

use vstd::prelude::*;

use crate::ota::{OtaAction, OtaEvent, OtaReply, OtaSession, OtaState};

verus! {

/// A client is told `OK` where the image will be booted, and `ERR:` in every other case; each case is
/// told in its own words.
pub proof fn law_replies(a: OtaReply, b: OtaReply, text_a: &'static str, text_b: &'static str)
    requires
        call_ensures(OtaReply::text, (a,), text_a),
        call_ensures(OtaReply::text, (b,), text_b),
    ensures
        a == OtaReply::Rebooting <==> text_a@.take(3) == seq!['O', 'K', ':'],
        a != OtaReply::Rebooting <==> text_a@.take(4) == seq!['E', 'R', 'R', ':'],
        text_a@.last() == '\n',
        text_a@ == text_b@ ==> a == b,
{
    reveal_strlit("OK: rebooting\n");
    reveal_strlit("ERR: read length\n");
    reveal_strlit("ERR: no OTA partition\n");
    reveal_strlit("ERR: ota begin\n");
    reveal_strlit("ERR: heap too low for recv buffer\n");
    reveal_strlit("ERR: write failed\n");
    reveal_strlit("ERR: ota end\n");
    reveal_strlit("ERR: set boot partition\n");
    let t = text_a@;
    if a == OtaReply::Rebooting {
        assert(t.take(3) =~= seq!['O', 'K', ':']);
        assert(t.take(4)[0] == 'O');
        assert(seq!['E', 'R', 'R', ':'][0] == 'E');
    } else {
        assert(t.take(4) =~= seq!['E', 'R', 'R', ':']);
        assert(t.take(3)[0] == 'E');
        assert(seq!['O', 'K', ':'][0] == 'O');
    }
    let w = |s: Seq<char>| (s.len(), s[5]);
    assert(w("OK: rebooting\n"@) == (14nat, 'e'));
    assert(w("ERR: read length\n"@) == (17nat, 'r'));
    assert(w("ERR: no OTA partition\n"@) == (22nat, 'n'));
    assert(w("ERR: ota begin\n"@) == (15nat, 'o'));
    assert(w("ERR: heap too low for recv buffer\n"@) == (34nat, 'h'));
    assert(w("ERR: write failed\n"@) == (18nat, 'w'));
    assert(w("ERR: ota end\n"@) == (13nat, 'o'));
    assert(w("ERR: set boot partition\n"@) == (24nat, 's'));
}

/// A session begins with the length of the image: four bytes, the highest first.
pub proof fn law_length_is_read(s: &mut OtaSession, fresh: OtaSession, b: [u8; 4], r: OtaAction)
    requires
        call_ensures(OtaSession::new, (), fresh),
        *old(s) == fresh,
        call_ensures(OtaSession::handle_client, (s, OtaEvent::Length(Some(b))), r),
    ensures
        final(s).expected == ((b[0] * 256 + b[1]) * 256 + b[2]) * 256 + b[3],
        final(s).written == 0,
        r == OtaAction::FindPartition,
        final(s).state == OtaState::Partition,
{
    assert(((b[0] * 256 + b[1]) * 256 + b[2]) * 256 + b[3] <= 0xFFFF_FFFF);
}

/// The steps of an update follow one another: find a partition, begin an image of the length that was
/// announced, get memory for the pieces, receive and write until all is there, finish the image, have
/// it booted, restart. None of them is left out, and no image is finished before its time.
pub proof fn law_update_goes_on(s: &mut OtaSession, n: usize, e: OtaEvent, r: OtaAction)
    requires
        old(s).valid(),
        call_ensures(OtaSession::handle_client, (s, e), r),
    ensures
        old(s).state == OtaState::Partition && e == OtaEvent::Partition(true) ==> r
            == (OtaAction::Begin { len: old(s).expected }),
        old(s).state == OtaState::Begin && e == OtaEvent::Begun(true) ==> r == (OtaAction::Reserve {
            len: 4096,
        }),
        old(s).state == OtaState::Buffer && e == OtaEvent::Buffer(true) && old(s).written < old(s).expected ==> r is Receive,
        old(s).state == OtaState::Receive && e == OtaEvent::Received(Some(n)) && n > 0 ==> r
            == (OtaAction::Write { n }) && final(s).state == (OtaState::Write { n }),
        old(s).state == (OtaState::Write { n }) && e == OtaEvent::Written(true) ==> final(s).written
            == old(s).written + n && (if old(s).written + n < old(s).expected {
            r is Receive && final(s).state == OtaState::Receive
        } else {
            r == OtaAction::End && final(s).state == OtaState::End
        }),
        old(s).state == OtaState::End && e == OtaEvent::Ended(true) ==> r == OtaAction::SetBoot,
        old(s).state == OtaState::Boot && e == OtaEvent::BootSet(true) ==> r == OtaAction::Restart,
        r matches OtaAction::Receive { most } ==> 0 < most <= 4096 && final(s).written + most
            <= final(s).expected && (final(s).written + 4096 <= final(s).expected ==> most == 4096),
        old(s).state != OtaState::Length ==> final(s).expected == old(s).expected,
        !(old(s).state is Write) && old(s).state != OtaState::Length ==> final(s).written == old(s).written,
{
}

/// Whatever fails ends the update, with the word for it; what was begun is given up, but for an image
/// that was finished.
pub proof fn law_update_fails(s: &mut OtaSession, e: OtaEvent, r: OtaAction)
    requires
        old(s).valid(),
        call_ensures(OtaSession::handle_client, (s, e), r),
    ensures
        old(s).state == OtaState::Length && e == OtaEvent::Length(None) ==> r == (OtaAction::Refuse {
            abort: false,
            reply: OtaReply::NoLength,
        }),
        old(s).state == OtaState::Partition && e == OtaEvent::Partition(false) ==> r
            == (OtaAction::Refuse { abort: false, reply: OtaReply::NoPartition }),
        old(s).state == OtaState::Begin && e == OtaEvent::Begun(false) ==> r == (OtaAction::Refuse {
            abort: false,
            reply: OtaReply::BeginFailed,
        }),
        old(s).state == OtaState::Buffer && e == OtaEvent::Buffer(false) ==> r == (
        OtaAction::Refuse { abort: true, reply: OtaReply::HeapTooLow }),
        old(s).state == OtaState::Receive && (e == OtaEvent::Received(None) || e
            == OtaEvent::Received(Some(0usize))) ==> r == (OtaAction::Refuse {
            abort: true,
            reply: OtaReply::WriteFailed,
        }),
        old(s).state is Write && e == OtaEvent::Written(false) ==> r == (OtaAction::Refuse {
            abort: true,
            reply: OtaReply::WriteFailed,
        }),
        old(s).state == OtaState::End && e == OtaEvent::Ended(false) ==> r == (OtaAction::Refuse {
            abort: false,
            reply: OtaReply::EndFailed,
        }),
        old(s).state == OtaState::Boot && e == OtaEvent::BootSet(false) ==> r == (OtaAction::Refuse {
            abort: false,
            reply: OtaReply::BootFailed,
        }),
        r is Refuse || r == OtaAction::Restart ==> final(s).state == OtaState::Over,
{
}

} // verus!
