//! What requests to the page do, and how they are answered.

use vstd::prelude::*;

use crate::dht22::{Activity, ChartCache};
use crate::media::Targets;
use crate::text;
use crate::tuya::{LampCommand, LampHandle, LampState};
use crate::web;
use crate::web::{Controls, Reply, Request, WebTriggers};

verus! {

/// What tells the paths of requests apart: their length, their ninth letter and their last.
spec fn mark(s: Seq<char>) -> (nat, char, char) {
    (s.len(), s[8], s.last())
}

proof fn lemma_marks()
    ensures
        mark("/dht/chart/request"@) == (18nat, 'r', 't'),
        mark("/action/lamp/on"@) == (15nat, 'l', 'n'),
        mark("/action/lamp/off"@) == (16nat, 'l', 'f'),
        mark("/action/lamp/toggle"@) == (19nat, 'l', 'e'),
        mark("/action/lamp"@) == (12nat, 'l', 'p'),
        mark("/action/lamp/warm"@) == (17nat, 'l', 'm'),
        mark("/action/lamp/bright"@) == (19nat, 'l', 't'),
        mark("/action/lamp/set"@) == (16nat, 'l', 't'),
        mark("/action/screen"@) == (14nat, 's', 'n'),
        mark("/action/screen/next"@) == (19nat, 's', 't'),
        mark("/action/screen/set"@) == (18nat, 's', 't'),
        mark("/action/autorotate/on"@) == (21nat, 'a', 'n'),
        mark("/action/autorotate/off"@) == (22nat, 'a', 'f'),
        mark("/action/display/on"@) == (18nat, 'd', 'n'),
        mark("/action/display/off"@) == (19nat, 'd', 'f'),
        mark("/action/pot/on"@) == (14nat, 'p', 'n'),
        mark("/action/pot/off"@) == (15nat, 'p', 'f'),
        mark("/action/media"@) == (13nat, 'm', 'a'),
        mark("/action/volume"@) == (14nat, 'v', 'e'),
        mark("/action/media/target"@) == (20nat, 'm', 't'),
        mark("/action/volume/target"@) == (21nat, 'v', 't'),
        mark("/action/lamp/colour"@) == (19nat, 'l', 'r'),
        mark("/action/led/green/on"@) == (20nat, 'l', 'n'),
        mark("/action/led/green/off"@) == (21nat, 'l', 'f'),
        mark("/action/led/red/on"@) == (18nat, 'l', 'n'),
        mark("/action/led/red/off"@) == (19nat, 'l', 'f'),
        mark("/action/led/yellow/on"@) == (21nat, 'l', 'n'),
        mark("/action/led/yellow/off"@) == (22nat, 'l', 'f'),
        mark("/action/reboot"@) == (14nat, 'r', 't'),
{
    reveal_strlit("/dht/chart/request");
    reveal_strlit("/action/lamp/on");
    reveal_strlit("/action/lamp/off");
    reveal_strlit("/action/lamp/toggle");
    reveal_strlit("/action/lamp");
    reveal_strlit("/action/lamp/warm");
    reveal_strlit("/action/lamp/bright");
    reveal_strlit("/action/lamp/set");
    reveal_strlit("/action/screen");
    reveal_strlit("/action/screen/next");
    reveal_strlit("/action/screen/set");
    reveal_strlit("/action/autorotate/on");
    reveal_strlit("/action/autorotate/off");
    reveal_strlit("/action/display/on");
    reveal_strlit("/action/display/off");
    reveal_strlit("/action/pot/on");
    reveal_strlit("/action/pot/off");
    reveal_strlit("/action/media");
    reveal_strlit("/action/volume");
    reveal_strlit("/action/media/target");
    reveal_strlit("/action/volume/target");
    reveal_strlit("/action/lamp/colour");
    reveal_strlit("/action/led/green/on");
    reveal_strlit("/action/led/green/off");
    reveal_strlit("/action/led/red/on");
    reveal_strlit("/action/led/red/off");
    reveal_strlit("/action/led/yellow/on");
    reveal_strlit("/action/led/yellow/off");
    reveal_strlit("/action/reboot");
}

proof fn lemma_words()
    ensures
        "GET"@ != "POST"@,
        "/"@ != "/status"@,
        "/"@ != "/dht/chart"@,
        "/status"@ != "/dht/chart"@,
        "/"@ != "/dht/chart/range"@,
        "/status"@ != "/dht/chart/range"@,
        "/dht/chart"@ != "/dht/chart/range"@,
{
    reveal_strlit("GET");
    reveal_strlit("POST");
    reveal_strlit("/");
    reveal_strlit("/status");
    reveal_strlit("/dht/chart");
    reveal_strlit("/dht/chart/range");
    assert("GET"@.len() != "POST"@.len());
    assert("/"@.len() != "/status"@.len());
    assert("/"@.len() != "/dht/chart"@.len());
    assert("/status"@.len() != "/dht/chart"@.len());
    assert("/"@.len() != "/dht/chart/range"@.len());
    assert("/status"@.len() != "/dht/chart/range"@.len());
    assert("/dht/chart"@.len() != "/dht/chart/range"@.len());
}

/// `n` where it is there, else a default, and then the nearest number from `low` to `high`.
pub open spec fn within(n: Option<i32>, default: int, low: int, high: int) -> int {
    let v = match n {
        Some(v) => v as int,
        None => default,
    };
    if v < low {
        low
    } else if v > high {
        high
    } else {
        v
    }
}

/// The next command is there, and has these data points.
pub open spec fn tells(cmd: Option<LampCommand>, dps: Seq<char>) -> bool {
    cmd is Some && cmd->0.dps@ == dps
}

/// The lamp's buttons on the page. The next command to the lamp is the one that the button is
/// named after, and what is shown of the lamp goes along with it at once. The toggle turns over what
/// was asked for last or else what is shown.
pub proof fn law_page_lamp_buttons(
    request: &Request,
    peer: &str,
    controls: &mut Controls,
    charts: &mut ChartCache,
    activity: &mut Activity,
    media_targets: &mut Targets<bool>,
    volume_targets: &mut Targets<u8>,
    block: usize,
    now: u32,
    r: Reply,
    then: u32,
    cmd: Option<LampCommand>,
    shown: LampState,
)
    requires
        call_ensures(
            web::handle,
            (
                request,
                peer,
                controls,
                charts,
                activity,
                media_targets,
                volume_targets,
                block,
                now,
            ),
            r,
        ),
        call_ensures(LampHandle::poll, (&final(controls).lamp, then), cmd),
        call_ensures(LampHandle::display_state, (&final(controls).lamp,), shown),
        request.method@ == "POST"@,
    ensures
        request.path@ == "/action/lamp/on"@ ==> tells(cmd, "\"20\":true"@) && shown.on && final(controls).ui.lamp == shown,
        request.path@ == "/action/lamp/off"@ ==> tells(cmd, "\"20\":false"@) && !shown.on && final(controls).ui.lamp == shown,
        request.path@ == "/action/lamp/warm"@ ==> tells(
            cmd,
            "\"20\":true,\"21\":\"white\",\"22\":10,\"23\":0"@,
        ),
        request.path@ == "/action/lamp/bright"@ ==> tells(
            cmd,
            "\"20\":true,\"21\":\"white\",\"22\":1000,\"23\":1000"@,
        ),
        request.path@ == "/action/lamp/toggle"@ || request.path@ == "/action/lamp"@ ==> {
            let was_on = if old(controls).lamp.target != 0 {
                old(controls).lamp.target > 0
            } else {
                old(controls).ui.lamp.on
            };
            &&& shown == LampState { on: !was_on, known: true }
            &&& final(controls).ui.lamp == shown
            &&& was_on ==> tells(cmd, "\"20\":false"@)
            &&& !was_on ==> tells(cmd, "\"20\":true"@)
        },
{
    lemma_words();
    lemma_marks();
}

/// Brightness and colour temperature are taken in percent, 50 where they are not given, brought into
/// range, and shown as they were taken. The lamp gets its own scales: brightness from 10 to 1000,
/// temperature from 0 to 1000.
pub proof fn law_page_lamp_set(
    request: &Request,
    peer: &str,
    controls: &mut Controls,
    charts: &mut ChartCache,
    activity: &mut Activity,
    media_targets: &mut Targets<bool>,
    volume_targets: &mut Targets<u8>,
    block: usize,
    now: u32,
    r: Reply,
    query: &str,
    brightness: Option<i32>,
    temp: Option<i32>,
    then: u32,
    cmd: Option<LampCommand>,
    shown_brightness: u16,
    shown_temp: u16,
)
    requires
        call_ensures(
            web::handle,
            (
                request,
                peer,
                controls,
                charts,
                activity,
                media_targets,
                volume_targets,
                block,
                now,
            ),
            r,
        ),
        query@ == request.query@,
        call_ensures(web::get_param, (query, "brightness"), brightness),
        call_ensures(web::get_param, (query, "temp"), temp),
        call_ensures(LampHandle::poll, (&final(controls).lamp, then), cmd),
        call_ensures(LampHandle::brightness_pct, (&final(controls).lamp,), shown_brightness),
        call_ensures(LampHandle::temp_pct, (&final(controls).lamp,), shown_temp),
        request.method@ == "POST"@,
        request.path@ == "/action/lamp/set"@,
    ensures
        shown_brightness == within(brightness, 50, 0, 100),
        shown_temp == within(temp, 50, 0, 100),
        tells(
            cmd,
            "\"20\":true,\"21\":\"white\",\"22\":"@ + text::decimal(
                (10 + within(brightness, 50, 0, 100) * 990 / 100) as nat,
            ) + ",\"23\":"@ + text::decimal((10 * within(temp, 50, 0, 100)) as nat),
        ),
{
    lemma_words();
    lemma_marks();
    crate::tuya::law_percent_comes_back(within(brightness, 50, 0, 100));
    crate::tuya::law_percent_comes_back(within(temp, 50, 0, 100));
}

/// A colour is taken as hue, saturation and value, each brought into range, and turns the lamp on.
pub proof fn law_page_lamp_colour(
    request: &Request,
    peer: &str,
    controls: &mut Controls,
    charts: &mut ChartCache,
    activity: &mut Activity,
    media_targets: &mut Targets<bool>,
    volume_targets: &mut Targets<u8>,
    block: usize,
    now: u32,
    r: Reply,
    query: &str,
    hue: Option<i32>,
    saturation: Option<i32>,
    value: Option<i32>,
    then: u32,
    cmd: Option<LampCommand>,
)
    requires
        call_ensures(
            web::handle,
            (
                request,
                peer,
                controls,
                charts,
                activity,
                media_targets,
                volume_targets,
                block,
                now,
            ),
            r,
        ),
        query@ == request.query@,
        call_ensures(web::get_param, (query, "h"), hue),
        call_ensures(web::get_param, (query, "s"), saturation),
        call_ensures(web::get_param, (query, "v"), value),
        call_ensures(LampHandle::poll, (&final(controls).lamp, then), cmd),
        request.method@ == "POST"@,
        request.path@ == "/action/lamp/colour"@,
    ensures
        final(controls).lamp.colour.0 == within(hue, 30, 0, 360),
        final(controls).lamp.colour.1 == within(saturation, 1000, 0, 1000),
        final(controls).lamp.colour.2 == within(value, 500, 0, 1000),
        cmd is Some && "\"20\":true,\"21\":\"colour\",\"24\":\""@.is_prefix_of(cmd->0.dps@),
        final(controls).ui.lamp == (LampState { on: true, known: true }),
{
    lemma_words();
    lemma_marks();
    let p = "\"20\":true,\"21\":\"colour\",\"24\":\""@;
    assert(p =~= cmd->0.dps@.take(p.len() as int));
}

/// Each switch of the page sets what it is named after, on or off as it is named, and leaves the lamp
/// and all other switches as they were.
pub proof fn law_page_switches(
    request: &Request,
    peer: &str,
    controls: &mut Controls,
    charts: &mut ChartCache,
    activity: &mut Activity,
    media_targets: &mut Targets<bool>,
    volume_targets: &mut Targets<u8>,
    block: usize,
    now: u32,
    r: Reply,
    on: bool,
)
    requires
        call_ensures(
            web::handle,
            (
                request,
                peer,
                controls,
                charts,
                activity,
                media_targets,
                volume_targets,
                block,
                now,
            ),
            r,
        ),
        request.method@ == "POST"@,
    ensures
        request.path@ == (if on {
            "/action/display/on"@
        } else {
            "/action/display/off"@
        }) ==> *final(controls) == (Controls {
            screen_forced_off: !on,
            triggers: WebTriggers {
                display: final(controls).triggers.display,
                last_origin_external: final(controls).triggers.last_origin_external,
                ..old(controls).triggers
            },
            ..*old(controls)
        }) && (final(controls).triggers.display == 1) == on && (final(controls).triggers.display == 0)
            == !on,
        request.path@ == (if on {
            "/action/pot/on"@
        } else {
            "/action/pot/off"@
        }) ==> final(controls).ui.pot_enabled == on && (final(controls).triggers.pot == 1) == on && (
        final(controls).triggers.pot == 0) == !on && final(controls).lamp == old(controls).lamp
            && final(controls).leds == old(controls).leds,
        request.path@ == (if on {
            "/action/autorotate/on"@
        } else {
            "/action/autorotate/off"@
        }) ==> final(controls).auto_rotate == on && final(controls).ui == old(controls).ui && final(controls).lamp == old(controls).lamp && final(controls).leds == old(controls).leds,
        request.path@ == (if on {
            "/action/led/green/on"@
        } else {
            "/action/led/green/off"@
        }) ==> final(controls).leds.green == on && final(controls).leds.red == old(controls).leds.red && final(controls).leds.blue == old(controls).leds.blue && final(controls).lamp
            == old(controls).lamp,
        request.path@ == (if on {
            "/action/led/red/on"@
        } else {
            "/action/led/red/off"@
        }) ==> final(controls).leds.red == on && final(controls).leds.green == old(controls).leds.green && final(controls).leds.blue == old(controls).leds.blue && final(controls).lamp
            == old(controls).lamp,
        request.path@ == (if on {
            "/action/led/yellow/on"@
        } else {
            "/action/led/yellow/off"@
        }) ==> final(controls).leds.blue == on && final(controls).leds.red == old(controls).leds.red && final(controls).leds.green == old(controls).leds.green && final(controls).lamp
            == old(controls).lamp,
{
    lemma_words();
    lemma_marks();
}

/// The other orders of the page: the next screen or a chosen one, play or pause, and the volume in
/// percent of its range.
pub proof fn law_page_orders(
    request: &Request,
    peer: &str,
    controls: &mut Controls,
    charts: &mut ChartCache,
    activity: &mut Activity,
    media_targets: &mut Targets<bool>,
    volume_targets: &mut Targets<u8>,
    block: usize,
    now: u32,
    r: Reply,
    query: &str,
    choice: Option<i32>,
    volume: Option<i32>,
)
    requires
        call_ensures(
            web::handle,
            (
                request,
                peer,
                controls,
                charts,
                activity,
                media_targets,
                volume_targets,
                block,
                now,
            ),
            r,
        ),
        query@ == request.query@,
        call_ensures(web::get_param, (query, "s"), choice),
        call_ensures(web::get_param, (query, "v"), volume),
        request.method@ == "POST"@,
    ensures
        request.path@ == "/action/screen"@ || request.path@ == "/action/screen/next"@ ==> final(controls).triggers.screen && final(controls).triggers.screen_select == old(controls).triggers.screen_select && !(!old(controls).triggers.media && final(controls).triggers.media),
        request.path@ == "/action/screen/set"@ ==> final(controls).triggers.screen_select == within(
            choice,
            -1,
            -1,
            4,
        ) && final(controls).triggers.screen == old(controls).triggers.screen,
        request.path@ == "/action/media"@ ==> final(controls).triggers.media && final(controls).triggers.screen == old(controls).triggers.screen,
        request.path@ == "/action/volume"@ ==> final(controls).triggers.volume == within(
            volume,
            -1,
            0,
            100,
        ) && 100 * final(controls).ui.volume_pct <= 153 * within(volume, -1, 0, 100) < 100 * (final(controls).ui.volume_pct + 1),
        request.path@ == "/action/reboot"@ ==> r == Reply::Restart,
        request.path@ != "/action/reboot"@ ==> r != Reply::Restart,
        final(controls).triggers.last_origin_external == (exists|rest: Seq<char>|
            peer@ == #[trigger] ("192.168.1.105"@ + rest)),
{
    lemma_words();
    lemma_marks();
    let node = "192.168.1.105"@;
    if web::external(peer@) {
        assert(peer@ =~= node + peer@.skip(node.len() as int));
    }
    if exists|rest: Seq<char>| peer@ == #[trigger] (node + rest) {
        let rest = choose|rest: Seq<char>| peer@ == #[trigger] (node + rest);
        assert(node =~= peer@.take(node.len() as int));
    }
}

/// Orders for one machine by name reach that machine and no other, and those of a machine without a
/// name reach none.
pub proof fn law_page_targets(
    request: &Request,
    peer: &str,
    controls: &mut Controls,
    charts: &mut ChartCache,
    activity: &mut Activity,
    media_targets: &mut Targets<bool>,
    volume_targets: &mut Targets<u8>,
    block: usize,
    now: u32,
    r: Reply,
    query: &str,
    volume: Option<i32>,
    machine: Option<String>,
    other: Seq<char>,
)
    requires
        old(media_targets).valid(),
        old(volume_targets).valid(),
        call_ensures(
            web::handle,
            (
                request,
                peer,
                controls,
                charts,
                activity,
                media_targets,
                volume_targets,
                block,
                now,
            ),
            r,
        ),
        query@ == request.query@,
        call_ensures(web::get_param, (query, "v"), volume),
        call_ensures(web::get_param_str, (query, "machine"), machine),
        request.method@ == "POST"@,
        machine is Some ==> other != machine->0@,
    ensures
        request.path@ == "/action/media/target"@ && machine is Some ==> final(media_targets)@.dom().contains(machine->0@) && final(media_targets)@[machine->0@],
        request.path@ == "/action/volume/target"@ && machine is Some ==> final(volume_targets)@.dom().contains(machine->0@) && ({
            let v = final(volume_targets)@[machine->0@];
            100 * v <= 153 * within(volume, -1, 0, 100) < 100 * (v + 1)
        }),
        final(media_targets)@.dom().contains(other) == old(media_targets)@.dom().contains(other),
        final(media_targets)@.dom().contains(other) ==> final(media_targets)@[other] == old(media_targets)@[other],
        final(volume_targets)@.dom().contains(other) == old(volume_targets)@.dom().contains(other),
        final(volume_targets)@.dom().contains(other) ==> final(volume_targets)@[other] == old(volume_targets)@[other],
        request.path@ != "/action/media/target"@ ==> final(media_targets)@ == old(media_targets)@,
        request.path@ != "/action/volume/target"@ ==> final(volume_targets)@ == old(volume_targets)@,
{
    lemma_words();
    lemma_marks();
}

/// A range of history is asked for by its hours: 1, 6 or 24. Any other number is refused and asks for
/// nothing.
pub proof fn law_page_ranges(
    request: &Request,
    peer: &str,
    controls: &mut Controls,
    charts: &mut ChartCache,
    activity: &mut Activity,
    media_targets: &mut Targets<bool>,
    volume_targets: &mut Targets<u8>,
    block: usize,
    now: u32,
    r: Reply,
    query: &str,
    hours: Option<i32>,
)
    requires
        call_ensures(
            web::handle,
            (
                request,
                peer,
                controls,
                charts,
                activity,
                media_targets,
                volume_targets,
                block,
                now,
            ),
            r,
        ),
        query@ == request.query@,
        call_ensures(web::get_param, (query, "hours"), hours),
        request.method@ == "POST"@,
        request.path@ == "/dht/chart/request"@,
    ensures
        final(charts).wanted[0] == (old(charts).wanted[0] || hours == Some(1i32)),
        final(charts).wanted[1] == (old(charts).wanted[1] || hours == Some(6i32)),
        final(charts).wanted[2] == (old(charts).wanted[2] || hours == Some(24i32)),
        r == if hours == Some(1i32) || hours == Some(6i32) || hours == Some(24i32) {
            Reply::Done
        } else {
            Reply::BadHours
        },
        final(controls).lamp == old(controls).lamp,
{
    lemma_words();
    lemma_marks();
}

/// What can be got: the page, which has weather fetched; the status, which marks the dashboard as
/// open; the chart and its ranges. A request for anything else is answered as not found, and changes
/// nothing.
pub proof fn law_page_reads(
    request: &Request,
    peer: &str,
    controls: &mut Controls,
    charts: &mut ChartCache,
    activity: &mut Activity,
    media_targets: &mut Targets<bool>,
    volume_targets: &mut Targets<u8>,
    block: usize,
    now: u32,
    r: Reply,
    query: &str,
    hours: Option<i32>,
)
    requires
        call_ensures(
            web::handle,
            (
                request,
                peer,
                controls,
                charts,
                activity,
                media_targets,
                volume_targets,
                block,
                now,
            ),
            r,
        ),
        query@ == request.query@,
        call_ensures(web::get_param, (query, "hours"), hours),
        request.method@ != "POST"@,
    ensures
        request.method@ == "GET"@ && request.path@ == "/"@ ==> r == Reply::Page && final(controls).triggers.weather,
        request.method@ == "GET"@ && request.path@ == "/status"@ ==> final(activity).last_active_ms
            == now && r == if block >= 2048 {
            Reply::Status
        } else {
            Reply::Closed
        },
        request.method@ == "GET"@ && request.path@ == "/dht/chart"@ ==> r == Reply::Chart,
        request.method@ == "GET"@ && request.path@ == "/dht/chart/range"@ ==> r is Range && ({
            let asked = r->Range_0 as int;
            &&& hours is None ==> asked == 0
            &&& hours is Some ==> asked == hours->0 || asked == hours->0 + 0x1_0000_0000
        }),
        !(request.method@ == "GET"@ && (request.path@ == "/"@ || request.path@ == "/status"@
            || request.path@ == "/dht/chart"@ || request.path@ == "/dht/chart/range"@)) ==> r
            == Reply::NotFound,
        r != Reply::Status && r != Reply::Closed ==> *final(activity) == *old(activity),
        final(controls).lamp == old(controls).lamp,
        final(controls).leds == old(controls).leds,
        final(controls).ui == old(controls).ui,
        final(controls).screen_forced_off == old(controls).screen_forced_off,
        final(controls).auto_rotate == old(controls).auto_rotate,
        forall|i: int| 0 <= i < 3 ==> #[trigger] final(charts).wanted[i] == old(charts).wanted[i],
        r != Reply::Page ==> final(controls).triggers.weather == old(controls).triggers.weather,
{
    lemma_words();
}

/// Every answer says with its status whether the request was one that is known; those that did
/// something say so, and documents go out as what they are.
pub proof fn law_answers(r: Reply, a: (&'static str, &'static str, Option<&'static str>))
    requires
        call_ensures(web::answer, (r,), a),
        r != Reply::Closed,
    ensures
        r == Reply::NotFound <==> a.0@ == "404 Not Found"@,
        r == Reply::BadHours <==> a.0@ == "400 Bad Request"@,
        r != Reply::NotFound && r != Reply::BadHours <==> a.0@ == "200 OK"@,
        r == Reply::Page <==> a.1@ == "text/html; charset=utf-8"@,
        r == Reply::Status || r == Reply::Chart || r is Range <==> a.1@ == "application/json"@,
        r == Reply::Done || r == Reply::Restart ==> a.2 is Some && a.2->0@ == "ok"@,
        a.1@ == "text/plain"@ <==> a.2 is Some,
{
    reveal_strlit("200 OK");
    reveal_strlit("400 Bad Request");
    reveal_strlit("404 Not Found");
    reveal_strlit("text/html; charset=utf-8");
    reveal_strlit("application/json");
    reveal_strlit("text/plain");
    assert("200 OK"@.len() == 6 && "400 Bad Request"@.len() == 15 && "404 Not Found"@.len() == 13);
    assert("text/html; charset=utf-8"@.len() == 24 && "application/json"@.len() == 16);
    assert("text/plain"@.len() == 10);
}

} // verus!
