//! The web page's server: requests, what they do, and the answers.

use vstd::prelude::*;

use crate::api;
use crate::dht22;
use crate::dht22::{Activity, ChartCache};
use crate::led::LedState;
use crate::media;
use crate::media::Targets;
use crate::screen::UiState;
use crate::text;
use crate::tuya;
use crate::tuya::{LampHandle, LampState};

verus! {

/// Triggers handled by the main loop.
#[derive(Clone, Copy, PartialEq, Eq, Structural, Debug)]
pub struct WebTriggers {
    pub screen: bool,
    /// -1 = none, 0-4 = direct
    pub screen_select: i8,
    /// -1 = none, 0 = set off, 1 = set on
    pub display: i8,
    /// -1 = none, 0 = set off, 1 = set on
    pub pot: i8,
    pub media: bool,
    /// -1 = none, 0-100 = set volume pct
    pub volume: i8,
    /// The page was loaded, so that weather is wanted.
    pub weather: bool,
    /// The last request came from outside the LAN.
    pub last_origin_external: bool,
}

impl WebTriggers {
    pub fn new() -> (r: Self)
        ensures
            r == (WebTriggers {
                screen: false,
                screen_select: (-1) as i8,
                display: (-1) as i8,
                pot: (-1) as i8,
                media: false,
                volume: (-1) as i8,
                weather: false,
                last_origin_external: false,
            }),
    {
        WebTriggers {
            screen: false,
            screen_select: -1,
            display: -1,
            pot: -1,
            media: false,
            volume: -1,
            weather: false,
            last_origin_external: false,
        }
    }
}

/// The address that requests from outside the LAN come through.
pub const K3S_NODE_IP: &'static str = "192.168.1.105";

/// The peer is the one that requests from outside come through.
pub open spec fn external(peer: Seq<char>) -> bool {
    K3S_NODE_IP@.is_prefix_of(peer)
}

pub fn is_external(peer: &str) -> (r: bool)
    ensures
        r == external(peer@),
{
    text::begins_with(peer, K3S_NODE_IP)
}

pub fn classify_origin(peer: &str) -> (r: &'static str)
    ensures
        r@ == if external(peer@) {
            "web-external"@
        } else {
            "web-internal"@
        },
{
    if is_external(peer) {
        "web-external"
    } else {
        "web-internal"
    }
}

// ── Responses on the wire ─────────────────────────────────────────────────────
/// The head of a response.
pub open spec fn head_text(status: Seq<char>, ctype: Seq<char>, len: nat) -> Seq<char> {
    "HTTP/1.1 "@ + status + "\r\nContent-Type: "@ + ctype + "\r\nContent-Length: "@
        + text::decimal(len) + "\r\nCache-Control: no-store\r\nConnection: close\r\n\r\n"@
}

/// The head of a response with a body of `body_len` bytes.
pub fn write_header(status: &str, ctype: &str, body_len: usize) -> (r: String)
    ensures
        r@ == head_text(status@, ctype@, body_len as nat),
{
    let mut out: String = String::new();
    out.append("HTTP/1.1 ");
    out.append(status);
    out.append("\r\nContent-Type: ");
    out.append(ctype);
    out.append("\r\nContent-Length: ");
    text::push_decimal(&mut out, body_len as u64);
    out.append("\r\nCache-Control: no-store\r\nConnection: close\r\n\r\n");
    out
}

/// A body goes out in pieces of at most this many bytes.
pub const PIECE: usize = 1024;

/// A piece that does not go out is tried this many times more.
pub const PIECE_RETRIES: u32 = 3;

/// Milliseconds before such a try.
pub const RETRY_WAIT_MS: u32 = 200;

/// Milliseconds between pieces.
pub const PIECE_WAIT_MS: u32 = 5;

/// How far a body has gone out.
#[derive(Clone, Copy, PartialEq, Eq, Structural, Debug)]
pub struct BodyWriter {
    pub len: usize,
    pub written: usize,
    pub attempt: u32,
    /// Pieces are tried again. Without that, the first failure ends it.
    pub retrying: bool,
    pub failed: bool,
}

pub open spec fn piece_end(w: BodyWriter) -> usize {
    if w.len - w.written < PIECE {
        w.len
    } else {
        (w.written + PIECE) as usize
    }
}

/// What a try makes of the writer, and the milliseconds to wait then.
pub open spec fn tried(w: BodyWriter, ok: bool) -> (BodyWriter, u32) {
    if ok {
        (
            BodyWriter { written: piece_end(w), attempt: 0, ..w },
            if w.retrying {
                PIECE_WAIT_MS
            } else {
                0
            },
        )
    } else if w.retrying && w.attempt < PIECE_RETRIES {
        (BodyWriter { attempt: (w.attempt + 1) as u32, ..w }, RETRY_WAIT_MS)
    } else {
        (BodyWriter { failed: true, ..w }, 0)
    }
}

impl BodyWriter {
    pub open spec fn valid(self) -> bool {
        self.written <= self.len && self.attempt <= PIECE_RETRIES
    }

    pub fn new(len: usize, retrying: bool) -> (r: Self)
        ensures
            r == (BodyWriter { len, written: 0, attempt: 0, retrying, failed: false }),
            r.valid(),
    {
        BodyWriter { len, written: 0, attempt: 0, retrying, failed: false }
    }

    /// The piece to send next, from where to where; none where all is out or it has failed.
    pub fn piece(&self) -> (r: Option<(usize, usize)>)
        requires
            self.valid(),
        ensures
            r == if self.failed || self.written == self.len {
                None
            } else {
                Some((self.written, piece_end(*self)))
            },
    {
        if self.failed || self.written == self.len {
            return None;
        }
        let end: usize = if self.len - self.written < PIECE {
            self.len
        } else {
            self.written + PIECE
        };
        Some((self.written, end))
    }

    /// Takes note of a try to send that piece. Returns the milliseconds to wait.
    pub fn sent(&mut self, ok: bool) -> (wait_ms: u32)
        requires
            old(self).valid(),
        ensures
            (*final(self), wait_ms) == tried(*old(self), ok),
            final(self).valid(),
    {
        if ok {
            self.written = if self.len - self.written < PIECE {
                self.len
            } else {
                self.written + PIECE
            };
            self.attempt = 0;
            if self.retrying {
                PIECE_WAIT_MS
            } else {
                0
            }
        } else if self.retrying && self.attempt < PIECE_RETRIES {
            self.attempt = self.attempt + 1;
            RETRY_WAIT_MS
        } else {
            self.failed = true;
            0
        }
    }
}

/// Pieces follow one another without gap or overlap, each of at least one and at most 1024 bytes,
/// up to the end of the body.
pub proof fn law_pieces_cover_body(w: BodyWriter)
    requires
        w.valid(),
        w.written < w.len,
    ensures
        w.written < piece_end(w) <= w.len,
        piece_end(w) - w.written <= PIECE,
        tried(w, true).0.written == piece_end(w),
        tried(w, false).0.written == w.written,
{
}

// ── Requests ──────────────────────────────────────────────────────────────────
/// What a header line is.
#[derive(Clone, Copy, PartialEq, Eq, Structural, Debug)]
pub enum HeaderLine {
    /// The blank line behind the headers.
    End,
    /// The page's own mark.
    FromApp,
    Other,
}

pub fn header_line(line: &str) -> (r: HeaderLine)
    ensures
        r == {
            let t = text::trimmed_end(line@);
            if t.len() == 0 {
                HeaderLine::End
            } else if Seq::new(t.len(), |i: int| text::lower(t[i])) == "x-finesp: 1"@ {
                HeaderLine::FromApp
            } else {
                HeaderLine::Other
            }
        },
{
    let chars: Vec<char> = text::chars_of(line);
    let t: &[char] = text::trim_end(chars.as_slice());
    if t.len() == 0 {
        HeaderLine::End
    } else if text::same_lower(t, "x-finesp: 1") {
        HeaderLine::FromApp
    } else {
        HeaderLine::Other
    }
}

/// Method, path and query of a request line, if it has at least two words.
pub open spec fn request_of(line: Seq<char>) -> Option<(Seq<char>, Seq<char>, Seq<char>)> {
    let w = text::words(line);
    if w.len() < 2 {
        None
    } else {
        match text::cut(w[1], '?') {
            Some(p) => Some((w[0], p.0, p.1)),
            None => Some((w[0], w[1], Seq::empty())),
        }
    }
}

/// A request.
pub struct Request {
    pub method: String,
    pub path: String,
    pub query: String,
}

pub fn parse_request(line: &str) -> (r: Option<Request>)
    ensures
        r is Some <==> request_of(line@) is Some,
        r matches Some(q) ==> request_of(line@) == Some((q.method@, q.path@, q.query@)),
{
    let chars: Vec<char> = text::chars_of(line);
    let words: Vec<Vec<char>> = text::split_words(chars.as_slice());
    if words.len() < 2 {
        return None;
    }
    let method: String = text::string_of(words[0].as_slice());
    match text::cut_chars(words[1].as_slice(), '?') {
        Some((path, query)) => Some(
            Request { method, path: text::string_of(path), query: text::string_of(query) },
        ),
        None => {
            let query: String = String::new();
            assert(query@ =~= Seq::<char>::empty());
            Some(Request { method, path: text::string_of(words[1].as_slice()), query })
        },
    }
}

/// The value of a `key=value` part, if that is its key.
pub open spec fn value_in(part: Seq<char>, key: Seq<char>) -> Option<Seq<char>> {
    match text::cut(part, '=') {
        Some(p) => if p.0 == key {
            Some(p.1)
        } else {
            None
        },
        None => None,
    }
}

/// The value of the first of the first `n` parts that has the key, and has a value where `some` asks
/// for one.
pub open spec fn first_value(
    parts: Seq<Seq<char>>,
    key: Seq<char>,
    some: bool,
    n: nat,
) -> Option<Seq<char>>
    decreases n,
{
    if n == 0 {
        None
    } else {
        match first_value(parts, key, some, (n - 1) as nat) {
            Some(v) => Some(v),
            None => match value_in(parts[n - 1], key) {
                Some(v) => if some && v.len() == 0 {
                    None
                } else {
                    Some(v)
                },
                None => None,
            },
        }
    }
}

/// The value of a key in a query.
pub open spec fn param(query: Seq<char>, key: Seq<char>, some: bool) -> Option<Seq<char>> {
    let parts = text::split_on(query, '&');
    first_value(parts, key, some, parts.len())
}

fn find_param(query: &str, key: &str, some: bool) -> (r: Option<Vec<char>>)
    ensures
        r is Some <==> param(query@, key@, some) is Some,
        r matches Some(v) ==> param(query@, key@, some) == Some(v@),
{
    let chars: Vec<char> = text::chars_of(query);
    let parts: Vec<Vec<char>> = text::split_chars(chars.as_slice(), '&');
    let ghost all = text::split_on(query@, '&');
    let mut i: usize = 0;
    while i < parts.len()
        invariant
            i <= parts@.len(),
            all == text::split_on(query@, '&'),
            parts@.len() == all.len(),
            forall|k: int| 0 <= k < parts@.len() ==> #[trigger] parts@[k]@ == all[k],
            first_value(all, key@, some, i as nat) is None,
        decreases parts@.len() - i,
    {
        let part: &[char] = parts[i].as_slice();
        assert(part@ == all[i as int]);
        if let Some((k, v)) = text::cut_chars(part, '=') {
            if text::chars_are(k, key) && !(some && v.len() == 0) {
                let mut out: Vec<char> = Vec::new();
                out.extend_from_slice(v);
                proof {
                    assert(out@ =~= v@);
                    assert(first_value(all, key@, some, (i + 1) as nat) == Some(v@));
                    lemma_first_value_stays(all, key@, some, (i + 1) as nat, all.len());
                }
                return Some(out);
            }
        }
        i += 1;
    }
    None
}

proof fn lemma_first_value_stays(
    parts: Seq<Seq<char>>,
    key: Seq<char>,
    some: bool,
    m: nat,
    n: nat,
)
    requires
        m <= n,
        first_value(parts, key, some, m) is Some,
    ensures
        first_value(parts, key, some, n) == first_value(parts, key, some, m),
    decreases n,
{
    if m < n {
        lemma_first_value_stays(parts, key, some, m, (n - 1) as nat);
    }
}

/// The number that the first part with the key gives, if it gives one.
pub open spec fn number_param(query: Seq<char>, key: Seq<char>) -> Option<i32> {
    match param(query, key, false) {
        Some(v) => text::number_in(v),
        None => None,
    }
}

pub fn get_param(query: &str, key: &str) -> (r: Option<i32>)
    ensures
        r == number_param(query@, key@),
{
    match find_param(query, key, false) {
        Some(v) => text::read_number(v.as_slice()),
        None => None,
    }
}

/// The first value of a key that is not empty.
pub fn get_param_str(query: &str, key: &str) -> (r: Option<String>)
    ensures
        r is Some <==> param(query@, key@, true) is Some,
        r matches Some(v) ==> param(query@, key@, true) == Some(v@),
{
    match find_param(query, key, true) {
        Some(v) => Some(text::string_of(v.as_slice())),
        None => None,
    }
}

/// A number out of a query, or a default, brought into a range.
pub open spec fn int_in(
    query: Seq<char>,
    key: Seq<char>,
    default: int,
    low: int,
    high: int,
) -> int {
    let v = match number_param(query, key) {
        Some(n) => n as int,
        None => default,
    };
    if v < low {
        low
    } else if v > high {
        high
    } else {
        v
    }
}

fn int_param(query: &str, key: &str, default: i32, low: i32, high: i32) -> (r: i32)
    requires
        low <= high,
    ensures
        r == int_in(query@, key@, default as int, low as int, high as int),
        low <= r <= high,
{
    let v: i32 = match get_param(query, key) {
        Some(n) => n,
        None => default,
    };
    if v < low {
        low
    } else if v > high {
        high
    } else {
        v
    }
}

/// A number of hours out of a query, without sign; none counts as zero.
pub open spec fn hours_in(query: Seq<char>) -> u32 {
    match number_param(query, "hours"@) {
        Some(n) => if n < 0 {
            (n + 0x1_0000_0000) as u32
        } else {
            n as u32
        },
        None => 0,
    }
}

fn read_hours(query: &str) -> (r: u32)
    ensures
        r == hours_in(query@),
{
    match get_param(query, "hours") {
        Some(n) => if n < 0 {
            (n as i64 + 0x1_0000_0000) as u32
        } else {
            n as u32
        },
        None => 0,
    }
}

/// What a request asks for. Numbers are within their ranges already.
#[derive(Clone, Copy, PartialEq, Eq, Structural, Debug)]
pub enum Action {
    Page,
    Status,
    Chart,
    RequestRange(u32),
    Range(u32),
    LampOn,
    LampOff,
    LampToggle,
    LampWarm,
    LampBright,
    /// Brightness and colour temperature in percent.
    LampSet(u16, u16),
    ScreenNext,
    ScreenSet(i8),
    AutoRotate(bool),
    Display(bool),
    Pot(bool),
    Media,
    /// In percent.
    Volume(u8),
    MediaTarget,
    /// In percent.
    VolumeTarget(u8),
    /// Hue, saturation and value.
    Colour(u16, u16, u16),
    Green(bool),
    Red(bool),
    Yellow(bool),
    Reboot,
    NotFound,
}

/// What a request asks for.
pub open spec fn action_of(method: Seq<char>, path: Seq<char>, query: Seq<char>) -> Action {
    if method == "GET"@ {
        get_action(path, query)
    } else if method == "POST"@ {
        post_action(path, query)
    } else {
        Action::NotFound
    }
}

pub open spec fn get_action(path: Seq<char>, query: Seq<char>) -> Action {
    if path == "/"@ {
        Action::Page
    } else if path == "/status"@ {
        Action::Status
    } else if path == "/dht/chart"@ {
        Action::Chart
    } else if path == "/dht/chart/range"@ {
        Action::Range(hours_in(query))
    } else {
        Action::NotFound
    }
}

pub open spec fn post_action(path: Seq<char>, query: Seq<char>) -> Action {
    if path == "/dht/chart/request"@ {
        Action::RequestRange(hours_in(query))
    } else if path == "/action/lamp/on"@ {
        Action::LampOn
    } else if path == "/action/lamp/off"@ {
        Action::LampOff
    } else if path == "/action/lamp/toggle"@ || path == "/action/lamp"@ {
        Action::LampToggle
    } else if path == "/action/lamp/warm"@ {
        Action::LampWarm
    } else if path == "/action/lamp/bright"@ {
        Action::LampBright
    } else if path == "/action/lamp/set"@ {
        Action::LampSet(
            int_in(query, "brightness"@, 50, 0, 100) as u16,
            int_in(query, "temp"@, 50, 0, 100) as u16,
        )
    } else if path == "/action/screen"@ || path == "/action/screen/next"@ {
        Action::ScreenNext
    } else if path == "/action/screen/set"@ {
        Action::ScreenSet(int_in(query, "s"@, -1, -1, 4) as i8)
    } else if path == "/action/autorotate/on"@ {
        Action::AutoRotate(true)
    } else if path == "/action/autorotate/off"@ {
        Action::AutoRotate(false)
    } else if path == "/action/display/on"@ {
        Action::Display(true)
    } else if path == "/action/display/off"@ {
        Action::Display(false)
    } else if path == "/action/pot/on"@ {
        Action::Pot(true)
    } else if path == "/action/pot/off"@ {
        Action::Pot(false)
    } else if path == "/action/media"@ {
        Action::Media
    } else if path == "/action/volume"@ {
        Action::Volume(int_in(query, "v"@, -1, 0, 100) as u8)
    } else if path == "/action/media/target"@ {
        Action::MediaTarget
    } else if path == "/action/volume/target"@ {
        Action::VolumeTarget(int_in(query, "v"@, -1, 0, 100) as u8)
    } else if path == "/action/lamp/colour"@ {
        Action::Colour(
            int_in(query, "h"@, 30, 0, 360) as u16,
            int_in(query, "s"@, 1000, 0, 1000) as u16,
            int_in(query, "v"@, 500, 0, 1000) as u16,
        )
    } else if path == "/action/led/green/on"@ {
        Action::Green(true)
    } else if path == "/action/led/green/off"@ {
        Action::Green(false)
    } else if path == "/action/led/red/on"@ {
        Action::Red(true)
    } else if path == "/action/led/red/off"@ {
        Action::Red(false)
    } else if path == "/action/led/yellow/on"@ {
        Action::Yellow(true)
    } else if path == "/action/led/yellow/off"@ {
        Action::Yellow(false)
    } else if path == "/action/reboot"@ {
        Action::Reboot
    } else {
        Action::NotFound
    }
}

fn get_route(path: &str, query: &str) -> (r: Action)
    ensures
        r == get_action(path@, query@),
{
    if text::same_text(path, "/") {
        Action::Page
    } else if text::same_text(path, "/status") {
        Action::Status
    } else if text::same_text(path, "/dht/chart") {
        Action::Chart
    } else if text::same_text(path, "/dht/chart/range") {
        Action::Range(read_hours(query))
    } else {
        Action::NotFound
    }
}

fn post_route(path: &str, query: &str) -> (r: Action)
    ensures
        r == post_action(path@, query@),
{
    if text::same_text(path, "/dht/chart/request") {
        Action::RequestRange(read_hours(query))
    } else if text::same_text(path, "/action/lamp/on") {
        Action::LampOn
    } else if text::same_text(path, "/action/lamp/off") {
        Action::LampOff
    } else if text::same_text(path, "/action/lamp/toggle")
        || text::same_text(path, "/action/lamp") {
        Action::LampToggle
    } else if text::same_text(path, "/action/lamp/warm") {
        Action::LampWarm
    } else if text::same_text(path, "/action/lamp/bright") {
        Action::LampBright
    } else if text::same_text(path, "/action/lamp/set") {
        Action::LampSet(
            int_param(query, "brightness", 50, 0, 100) as u16,
            int_param(query, "temp", 50, 0, 100) as u16,
        )
    } else if text::same_text(path, "/action/screen")
        || text::same_text(path, "/action/screen/next") {
        Action::ScreenNext
    } else if text::same_text(path, "/action/screen/set") {
        Action::ScreenSet(int_param(query, "s", -1, -1, 4) as i8)
    } else if text::same_text(path, "/action/autorotate/on") {
        Action::AutoRotate(true)
    } else if text::same_text(path, "/action/autorotate/off") {
        Action::AutoRotate(false)
    } else if text::same_text(path, "/action/display/on") {
        Action::Display(true)
    } else if text::same_text(path, "/action/display/off") {
        Action::Display(false)
    } else if text::same_text(path, "/action/pot/on") {
        Action::Pot(true)
    } else if text::same_text(path, "/action/pot/off") {
        Action::Pot(false)
    } else if text::same_text(path, "/action/media") {
        Action::Media
    } else if text::same_text(path, "/action/volume") {
        Action::Volume(int_param(query, "v", -1, 0, 100) as u8)
    } else if text::same_text(path, "/action/media/target") {
        Action::MediaTarget
    } else if text::same_text(path, "/action/volume/target") {
        Action::VolumeTarget(int_param(query, "v", -1, 0, 100) as u8)
    } else if text::same_text(path, "/action/lamp/colour") {
        Action::Colour(
            int_param(query, "h", 30, 0, 360) as u16,
            int_param(query, "s", 1000, 0, 1000) as u16,
            int_param(query, "v", 500, 0, 1000) as u16,
        )
    } else if text::same_text(path, "/action/led/green/on") {
        Action::Green(true)
    } else if text::same_text(path, "/action/led/green/off") {
        Action::Green(false)
    } else if text::same_text(path, "/action/led/red/on") {
        Action::Red(true)
    } else if text::same_text(path, "/action/led/red/off") {
        Action::Red(false)
    } else if text::same_text(path, "/action/led/yellow/on") {
        Action::Yellow(true)
    } else if text::same_text(path, "/action/led/yellow/off") {
        Action::Yellow(false)
    } else if text::same_text(path, "/action/reboot") {
        Action::Reboot
    } else {
        Action::NotFound
    }
}

/// What a request asks for.
pub fn route(method: &str, path: &str, query: &str) -> (r: Action)
    ensures
        r == action_of(method@, path@, query@),
{
    if text::same_text(method, "GET") {
        get_route(path, query)
    } else if text::same_text(method, "POST") {
        post_route(path, query)
    } else {
        Action::NotFound
    }
}

// ── What requests do ──────────────────────────────────────────────────────────
/// What requests act on.
pub struct Controls {
    pub triggers: WebTriggers,
    pub ui: UiState,
    pub screen_forced_off: bool,
    pub lamp: LampHandle,
    pub auto_rotate: bool,
    pub leds: LedState,
}

pub open spec fn switch(on: bool) -> i8 {
    if on {
        1
    } else {
        0
    }
}

/// A volume in percent, in the internal range.
pub open spec fn internal_volume(pct: u8) -> u8 {
    (pct * 153 / 100) as u8
}

/// What an action makes of the lamp. A toggle goes by what is shown.
pub open spec fn lamp_after(h: LampHandle, a: Action, shown_on: bool, now: u32) -> LampHandle {
    match a {
        Action::LampOn => tuya::asked(h, 1, now),
        Action::LampOff => tuya::asked(h, (-1) as i8, now),
        Action::LampToggle => tuya::asked(h, tuya::flipped(h.target, shown_on), now),
        Action::LampWarm => tuya::asked(h, 2, now),
        Action::LampBright => tuya::asked(h, 3, now),
        Action::LampSet(b, t) => tuya::asked(
            LampHandle {
                last_brightness: (b * 990 / 100 + 10) as u16,
                last_temp: (t * 10) as u16,
                ..h
            },
            4,
            now,
        ),
        Action::Colour(h1, s, v) => tuya::asked(LampHandle { colour: (h1, s, v), ..h }, 5, now),
        _ => h,
    }
}

/// How an action has the lamp shown, if it changes that.
pub open spec fn shown_after(h: LampHandle, a: Action, shown_on: bool) -> Option<bool> {
    match a {
        Action::LampOn => Some(true),
        Action::LampOff => Some(false),
        Action::LampToggle => Some(tuya::flipped(h.target, shown_on) > 0),
        Action::Colour(_, _, _) => Some(true),
        _ => None,
    }
}

/// What an action makes of what is shown.
pub open spec fn ui_after(ui: UiState, a: Action, lamp_on: Option<bool>) -> UiState {
    match a {
        Action::Pot(on) => UiState { pot_enabled: on, ..ui },
        Action::Volume(v) => UiState { volume_pct: internal_volume(v), ..ui },
        _ => match lamp_on {
            Some(on) => UiState { lamp: LampState { on, known: true }, ..ui },
            None => ui,
        },
    }
}

/// What an action makes of the triggers.
pub open spec fn triggers_after(t: WebTriggers, a: Action) -> WebTriggers {
    match a {
        Action::Page => WebTriggers { weather: true, ..t },
        Action::ScreenNext => WebTriggers { screen: true, ..t },
        Action::ScreenSet(i) => WebTriggers { screen_select: i, ..t },
        Action::Display(on) => WebTriggers { display: switch(on), ..t },
        Action::Pot(on) => WebTriggers { pot: switch(on), ..t },
        Action::Media => WebTriggers { media: true, ..t },
        Action::Volume(v) => WebTriggers { volume: v as i8, ..t },
        _ => t,
    }
}

/// What an action makes of the LEDs.
pub open spec fn leds_after(l: LedState, a: Action) -> LedState {
    match a {
        Action::Green(on) => LedState { green: on, ..l },
        Action::Red(on) => LedState { red: on, ..l },
        Action::Yellow(on) => LedState { blue: on, ..l },
        _ => l,
    }
}

/// What an action makes of the controls.
pub open spec fn applied(c: Controls, a: Action, now: u32) -> Controls {
    Controls {
        triggers: triggers_after(c.triggers, a),
        ui: ui_after(c.ui, a, shown_after(c.lamp, a, c.ui.lamp.on)),
        screen_forced_off: match a {
            Action::Display(on) => !on,
            _ => c.screen_forced_off,
        },
        lamp: lamp_after(c.lamp, a, c.ui.lamp.on, now),
        auto_rotate: match a {
            Action::AutoRotate(on) => on,
            _ => c.auto_rotate,
        },
        leds: leds_after(c.leds, a),
    }
}

/// The numbers of an action are within their ranges.
pub open spec fn in_range(a: Action) -> bool {
    match a {
        Action::LampSet(b, t) => b <= 100 && t <= 100,
        Action::Volume(v) => v <= 100,
        Action::VolumeTarget(v) => v <= 100,
        _ => true,
    }
}

/// Whatever a request holds, the numbers of its action are within their ranges.
pub proof fn law_actions_in_range(method: Seq<char>, path: Seq<char>, query: Seq<char>)
    ensures
        in_range(action_of(method, path, query)),
        action_of(method, path, query) matches Action::ScreenSet(i) ==> -1 <= i <= 4,
        action_of(method, path, query) matches Action::Colour(h, s, v) ==> h <= 360 && s <= 1000
            && v <= 1000,
{
}

/// A request that is neither `GET` nor `POST` does nothing, and a `GET` changes nothing but that the
/// page wants weather.
pub proof fn law_get_is_safe(c: Controls, path: Seq<char>, query: Seq<char>, method: Seq<char>, now: u32)
    requires
        method != "POST"@,
    ensures
        applied(c, action_of(method, path, query), now) == c || action_of(method, path, query)
            == Action::Page,
        applied(c, Action::Page, now) == (Controls {
            triggers: WebTriggers { weather: true, ..c.triggers },
            ..c
        }),
{
}

fn apply_triggers(t: &mut WebTriggers, a: Action)
    requires
        in_range(a),
    ensures
        *final(t) == triggers_after(*old(t), a),
{
    match a {
        Action::Page => {
            t.weather = true;
        },
        Action::ScreenNext => {
            t.screen = true;
        },
        Action::ScreenSet(i) => {
            t.screen_select = i;
        },
        Action::Display(on) => {
            t.display = if on {
                1
            } else {
                0
            };
        },
        Action::Pot(on) => {
            t.pot = if on {
                1
            } else {
                0
            };
        },
        Action::Media => {
            t.media = true;
        },
        Action::Volume(v) => {
            t.volume = v as i8;
        },
        _ => {},
    }
}

fn apply_lamp(h: &mut LampHandle, a: Action, shown_on: bool, now: u32) -> (r: Option<bool>)
    requires
        in_range(a),
    ensures
        *final(h) == lamp_after(*old(h), a, shown_on, now),
        r == shown_after(*old(h), a, shown_on),
{
    match a {
        Action::LampOn => {
            h.queue_on(now);
            Some(true)
        },
        Action::LampOff => {
            h.queue_off(now);
            Some(false)
        },
        Action::LampToggle => {
            let new_on: bool = h.flip_target(shown_on, now);
            Some(new_on)
        },
        Action::LampWarm => {
            h.queue_warm_dim(now);
            None
        },
        Action::LampBright => {
            h.queue_bright_white(now);
            None
        },
        Action::LampSet(b, t) => {
            let brightness: u16 = (b as u32 * 990 / 100 + 10) as u16;
            h.queue_brightness_temp(brightness, t * 10, now);
            None
        },
        Action::Colour(hue, s, v) => {
            h.queue_colour(hue, s, v, now);
            Some(true)
        },
        _ => None,
    }
}

fn apply_ui(ui: &mut UiState, a: Action, lamp_on: Option<bool>)
    requires
        in_range(a),
    ensures
        *final(ui) == ui_after(*old(ui), a, lamp_on),
{
    match a {
        Action::Pot(on) => {
            ui.pot_enabled = on;
        },
        Action::Volume(v) => {
            ui.volume_pct = (v as u32 * 153 / 100) as u8;
        },
        _ => {
            if let Some(on) = lamp_on {
                ui.lamp = LampState { on, known: true };
            }
        },
    }
}

fn apply_leds(l: &mut LedState, a: Action)
    ensures
        *final(l) == leds_after(*old(l), a),
{
    match a {
        Action::Green(on) => {
            l.set_green(on);
        },
        Action::Red(on) => {
            l.set_red(on);
        },
        Action::Yellow(on) => {
            l.set_yellow(on);
        },
        _ => {},
    }
}

impl Controls {
    /// Does what an action asks for.
    pub fn apply(&mut self, a: Action, now: u32)
        requires
            in_range(a),
        ensures
            *final(self) == applied(*old(self), a, now),
    {
        let shown_on: bool = self.ui.lamp.on;
        apply_triggers(&mut self.triggers, a);
        let lamp_on: Option<bool> = apply_lamp(&mut self.lamp, a, shown_on, now);
        apply_ui(&mut self.ui, a, lamp_on);
        apply_leds(&mut self.leds, a);
        match a {
            Action::Display(on) => {
                self.screen_forced_off = !on;
            },
            Action::AutoRotate(on) => {
                self.auto_rotate = on;
            },
            _ => {},
        }
    }
}

/// The button press that an action is reported as, if it is.
pub fn report_for(a: Action) -> (r: Option<&'static str>)
    ensures
        match a {
            Action::LampOn | Action::LampOff | Action::LampToggle => r is Some && r->0@
                == "lamp button (web)"@,
            Action::LampWarm => r is Some && r->0@ == "warm dim button (web)"@,
            Action::LampBright => r is Some && r->0@ == "bright white button (web)"@,
            _ => r is None,
        },
{
    match a {
        Action::LampOn | Action::LampOff | Action::LampToggle => Some("lamp button (web)"),
        Action::LampWarm => Some("warm dim button (web)"),
        Action::LampBright => Some("bright white button (web)"),
        _ => None,
    }
}

/// How a request is answered.
#[derive(Clone, Copy, PartialEq, Eq, Structural, Debug)]
pub enum Reply {
    /// The page.
    Page,
    /// The status document.
    Status,
    /// The cached chart.
    Chart,
    /// What is cached of a range of this many hours.
    Range(u32),
    Done,
    BadHours,
    NotFound,
    /// As `Done`, then a restart.
    Restart,
    /// Not at all: memory does not allow for it.
    Closed,
}

/// The answer to an action.
pub open spec fn reply_to(a: Action, largest_free_block: usize) -> Reply {
    match a {
        Action::Page => Reply::Page,
        Action::Status => if largest_free_block >= api::REPORT_HEAP {
            Reply::Status
        } else {
            Reply::Closed
        },
        Action::Chart => Reply::Chart,
        Action::RequestRange(hours) => if dht22::range_slot(hours) is Some {
            Reply::Done
        } else {
            Reply::BadHours
        },
        Action::Range(hours) => Reply::Range(hours),
        Action::Reboot => Reply::Restart,
        Action::NotFound => Reply::NotFound,
        _ => Reply::Done,
    }
}

/// Handles a request: does what it asks for and says how it is answered.
pub fn handle(
    request: &Request,
    peer: &str,
    controls: &mut Controls,
    charts: &mut ChartCache,
    activity: &mut Activity,
    media_targets: &mut Targets<bool>,
    volume_targets: &mut Targets<u8>,
    largest_free_block: usize,
    now: u32,
) -> (r: Reply)
    requires
        old(media_targets).valid(),
        old(volume_targets).valid(),
    ensures
        final(media_targets).valid(),
        final(volume_targets).valid(),
        ({
            let a = action_of(request.method@, request.path@, request.query@);
            let machine = param(request.query@, "machine"@, true);
            &&& r == reply_to(a, largest_free_block)
            &&& *final(controls) == applied(
                Controls {
                    triggers: WebTriggers {
                        last_origin_external: external(peer@),
                        ..old(controls).triggers
                    },
                    ..*old(controls)
                },
                a,
                now,
            )
            &&& *final(activity) == if a == Action::Status {
                Activity { last_active_ms: now, ..*old(activity) }
            } else {
                *old(activity)
            }
            &&& final(charts).chart == old(charts).chart
            &&& final(charts).ranges == old(charts).ranges
            &&& forall|i: int|
                0 <= i < 3 ==> #[trigger] final(charts).wanted[i] == (old(charts).wanted[i] || (
                a matches Action::RequestRange(hours) && dht22::range_slot(hours) == Some(i)))
            &&& final(media_targets)@ == if a == Action::MediaTarget && machine is Some {
                old(media_targets)@.insert(machine->0, true)
            } else {
                old(media_targets)@
            }
            &&& final(volume_targets)@ == match a {
                Action::VolumeTarget(v) if machine is Some => old(volume_targets)@.insert(
                    machine->0,
                    internal_volume(v),
                ),
                _ => old(volume_targets)@,
            }
        }),
{
    let a: Action = route(request.method.as_str(), request.path.as_str(), request.query.as_str());
    proof {
        law_actions_in_range(request.method@, request.path@, request.query@);
    }
    controls.triggers.last_origin_external = is_external(peer);
    controls.apply(a, now);
    match a {
        Action::Page => Reply::Page,
        Action::Status => {
            activity.mark_dashboard_active(now);
            if api::may_report(largest_free_block) {
                Reply::Status
            } else {
                Reply::Closed
            }
        },
        Action::Chart => Reply::Chart,
        Action::RequestRange(hours) => if charts.request_range(hours) {
            Reply::Done
        } else {
            Reply::BadHours
        },
        Action::Range(hours) => Reply::Range(hours),
        Action::MediaTarget => {
            if let Some(machine) = get_param_str(request.query.as_str(), "machine") {
                media::queue_media_for_machine(media_targets, machine.as_str());
            }
            Reply::Done
        },
        Action::VolumeTarget(v) => {
            if let Some(machine) = get_param_str(request.query.as_str(), "machine") {
                let vol: u8 = (v as u32 * 153 / 100) as u8;
                media::queue_volume_for_machine(volume_targets, machine.as_str(), vol);
            }
            Reply::Done
        },
        Action::Reboot => Reply::Restart,
        Action::NotFound => Reply::NotFound,
        _ => Reply::Done,
    }
}

/// Status line, content type and, where it is fixed, body of an answer.
pub open spec fn answer_parts(r: Reply) -> (Seq<char>, Seq<char>, Option<Seq<char>>) {
    match r {
        Reply::Page => ("200 OK"@, "text/html; charset=utf-8"@, None),
        Reply::Status | Reply::Chart | Reply::Range(_) => ("200 OK"@, "application/json"@, None),
        Reply::Done | Reply::Restart => ("200 OK"@, "text/plain"@, Some("ok"@)),
        Reply::BadHours => ("400 Bad Request"@, "text/plain"@, Some("invalid hours"@)),
        Reply::NotFound => ("404 Not Found"@, "text/plain"@, Some("not found"@)),
        Reply::Closed => (""@, ""@, None),
    }
}

pub fn answer(r: Reply) -> (a: (&'static str, &'static str, Option<&'static str>))
    ensures
        answer_parts(r) == (a.0@, a.1@, dht22::str_of(a.2)),
{
    match r {
        Reply::Page => ("200 OK", "text/html; charset=utf-8", None),
        Reply::Status | Reply::Chart | Reply::Range(_) => ("200 OK", "application/json", None),
        Reply::Done | Reply::Restart => ("200 OK", "text/plain", Some("ok")),
        Reply::BadHours => ("400 Bad Request", "text/plain", Some("invalid hours")),
        Reply::NotFound => ("404 Not Found", "text/plain", Some("not found")),
        Reply::Closed => ("", "", None),
    }
}

/// The chart as it is answered: what is cached, or a chart without points.
pub fn chart_body(cached: Option<&str>) -> (r: String)
    ensures
        r@ == match cached {
            Some(s) => s@,
            None => "{\"points\":[]}"@,
        },
{
    match cached {
        Some(s) => s.to_owned(),
        None => "{\"points\":[]}".to_owned(),
    }
}

/// A range as it is answered: what is cached, or that it is on its way.
pub fn range_body(cached: Option<&str>) -> (r: String)
    ensures
        r@ == match cached {
            Some(s) => s@,
            None => "{\"pending\":true}"@,
        },
{
    match cached {
        Some(s) => s.to_owned(),
        None => "{\"pending\":true}".to_owned(),
    }
}

// ── Status ────────────────────────────────────────────────────────────────────
/// What the status document shows, where it took real arithmetic to get it: numbers as they are
/// written out.
pub struct StatusText {
    /// The weather's temperature. Of no account where there is none.
    pub weather_temp: String,
    /// Temperature and humidity of the room.
    pub dht: Option<(String, String)>,
    pub btc: String,
    pub btc_chg: String,
    pub sol: String,
    pub sol_chg: String,
    pub gold: String,
    pub gold_chg: String,
    pub oil: String,
    pub oil_chg: String,
    pub usd_brl: String,
    pub usd_brl_chg: String,
}

pub open spec fn bool_text(b: bool) -> Seq<char> {
    if b {
        "true"@
    } else {
        "false"@
    }
}

pub open spec fn percent_text(p: u16) -> Seq<char> {
    if p == tuya::LAMP_UNKNOWN {
        "null"@
    } else {
        text::decimal(p as nat)
    }
}

/// The volume in percent of its range.
pub open spec fn volume_text(v: u8) -> Seq<char> {
    if v == media::NO_VOLUME {
        "null"@
    } else {
        text::decimal((v * 100 / 153) as nat)
    }
}

pub open spec fn weather_text(ui: UiState, t: StatusText) -> Seq<char> {
    if ui.data.weather_temp is Some {
        t.weather_temp@
    } else {
        "null"@
    }
}

pub open spec fn code_text(code: Option<i32>) -> Seq<char> {
    match code {
        Some(c) => text::signed_decimal(c as int),
        None => "null"@,
    }
}

pub open spec fn climate_text(t: StatusText) -> (Seq<char>, Seq<char>) {
    match t.dht {
        Some(d) => (d.0@, d.1@),
        None => ("null"@, "null"@),
    }
}

fn push_bool(out: &mut String, b: bool)
    ensures
        final(out)@ == old(out)@ + bool_text(b),
{
    if b {
        out.append("true");
    } else {
        out.append("false");
    }
}

fn push_percent(out: &mut String, p: u16)
    ensures
        final(out)@ == old(out)@ + percent_text(p),
{
    if p == tuya::LAMP_UNKNOWN {
        out.append("null");
    } else {
        text::push_decimal(out, p as u64);
    }
}

fn push_volume(out: &mut String, v: u8)
    ensures
        final(out)@ == old(out)@ + volume_text(v),
{
    if v == media::NO_VOLUME {
        out.append("null");
    } else {
        text::push_decimal(out, v as u64 * 100 / 153);
    }
}

fn push_weather(out: &mut String, ui: &UiState, t: &StatusText)
    ensures
        final(out)@ == old(out)@ + weather_text(*ui, *t),
{
    if ui.data.weather_temp.is_some() {
        out.append(t.weather_temp.as_str());
    } else {
        out.append("null");
    }
}

fn push_code(out: &mut String, code: Option<i32>)
    ensures
        final(out)@ == old(out)@ + code_text(code),
{
    match code {
        Some(c) => text::push_signed(out, c),
        None => out.append("null"),
    }
}

fn push_temp(out: &mut String, t: &StatusText)
    ensures
        final(out)@ == old(out)@ + climate_text(*t).0,
{
    match &t.dht {
        Some(d) => out.append(d.0.as_str()),
        None => out.append("null"),
    }
}

fn push_humidity(out: &mut String, t: &StatusText)
    ensures
        final(out)@ == old(out)@ + climate_text(*t).1,
{
    match &t.dht {
        Some(d) => out.append(d.1.as_str()),
        None => out.append("null"),
    }
}

/// Screen, lamp and switches.
pub open spec fn switches_text(
    ui: UiState,
    forced_off: bool,
    lamp: LampHandle,
    auto_rotate: bool,
) -> Seq<char> {
    "{\"screen\":\""@ + text::trimmed(ui.screen.title()) + "\",\"screen_idx\":"@
        + text::decimal(ui.screen.number() as nat) + ",\"lamp_on\":"@ + bool_text(ui.lamp.on)
        + ",\"lamp_known\":"@ + bool_text(ui.lamp.known) + ",\"lamp_brightness\":"@
        + percent_text(tuya::brightness_percent(lamp.last_brightness)) + ",\"lamp_temp\":"@
        + percent_text(tuya::temp_percent(lamp.last_temp)) + ",\"display_on\":"@
        + bool_text(!forced_off) + ",\"pot_on\":"@ + bool_text(ui.pot_enabled) + ",\"volume\":"@
        + volume_text(ui.volume_pct) + ",\"fetching\":"@ + bool_text(ui.fetching) + ",\"wifi\":"@
        + bool_text(ui.wifi_connected) + ",\"auto_rotate\":"@ + bool_text(auto_rotate)
}

/// Weather, climate and LEDs.
pub open spec fn climate_and_leds_text(ui: UiState, leds: LedState, t: StatusText) -> Seq<char> {
    ",\"weather_temp\":"@ + weather_text(ui, t) + ",\"weather_code\":"@
        + code_text(ui.data.weather_code) + ",\"dht_temp\":"@ + climate_text(t).0
        + ",\"dht_humidity\":"@ + climate_text(t).1 + ",\"led_green\":"@ + bool_text(leds.green)
        + ",\"led_red\":"@ + bool_text(leds.red) + ",\"led_yellow\":"@ + bool_text(leds.blue)
}

/// Prices.
pub open spec fn prices_text(t: StatusText) -> Seq<char> {
    ",\"prices\":{\"btc\":"@ + t.btc@ + ",\"btc_chg\":"@ + t.btc_chg@ + ",\"sol\":"@ + t.sol@
        + ",\"sol_chg\":"@ + t.sol_chg@ + ",\"gold\":"@ + t.gold@ + ",\"gold_chg\":"@
        + t.gold_chg@ + ",\"oil\":"@ + t.oil@ + ",\"oil_chg\":"@ + t.oil_chg@ + ",\"usd_brl\":"@
        + t.usd_brl@ + ",\"usd_brl_chg\":"@ + t.usd_brl_chg@ + "}}"@
}

/// The status document.
pub open spec fn status_text(
    ui: UiState,
    forced_off: bool,
    lamp: LampHandle,
    auto_rotate: bool,
    leds: LedState,
    t: StatusText,
) -> Seq<char> {
    switches_text(ui, forced_off, lamp, auto_rotate) + climate_and_leds_text(ui, leds, t)
        + prices_text(t)
}

fn build_switches(ui: &UiState, forced_off: bool, lamp: &LampHandle, auto_rotate: bool) -> (r: String)
    ensures
        r@ == switches_text(*ui, forced_off, *lamp, auto_rotate),
{
    let name: Vec<char> = text::chars_of(ui.screen.name());
    let title: String = text::string_of(text::trim(name.as_slice()));
    let mut out: String = String::new();
    out.append("{\"screen\":\"");
    out.append(title.as_str());
    out.append("\",\"screen_idx\":");
    text::push_decimal(&mut out, ui.screen.to_u8() as u64);
    out.append(",\"lamp_on\":");
    push_bool(&mut out, ui.lamp.on);
    out.append(",\"lamp_known\":");
    push_bool(&mut out, ui.lamp.known);
    out.append(",\"lamp_brightness\":");
    push_percent(&mut out, lamp.brightness_pct());
    out.append(",\"lamp_temp\":");
    push_percent(&mut out, lamp.temp_pct());
    out.append(",\"display_on\":");
    push_bool(&mut out, !forced_off);
    out.append(",\"pot_on\":");
    push_bool(&mut out, ui.pot_enabled);
    out.append(",\"volume\":");
    push_volume(&mut out, ui.volume_pct);
    out.append(",\"fetching\":");
    push_bool(&mut out, ui.fetching);
    out.append(",\"wifi\":");
    push_bool(&mut out, ui.wifi_connected);
    out.append(",\"auto_rotate\":");
    push_bool(&mut out, auto_rotate);
    out
}

fn build_climate_and_leds(ui: &UiState, leds: &LedState, t: &StatusText) -> (r: String)
    ensures
        r@ == climate_and_leds_text(*ui, *leds, *t),
{
    let mut out: String = String::new();
    out.append(",\"weather_temp\":");
    push_weather(&mut out, ui, t);
    out.append(",\"weather_code\":");
    push_code(&mut out, ui.data.weather_code);
    out.append(",\"dht_temp\":");
    push_temp(&mut out, t);
    out.append(",\"dht_humidity\":");
    push_humidity(&mut out, t);
    out.append(",\"led_green\":");
    push_bool(&mut out, leds.green);
    out.append(",\"led_red\":");
    push_bool(&mut out, leds.red);
    out.append(",\"led_yellow\":");
    push_bool(&mut out, leds.blue);
    out
}

fn build_prices(t: &StatusText) -> (r: String)
    ensures
        r@ == prices_text(*t),
{
    let mut out: String = String::new();
    out.append(",\"prices\":{\"btc\":");
    out.append(t.btc.as_str());
    out.append(",\"btc_chg\":");
    out.append(t.btc_chg.as_str());
    out.append(",\"sol\":");
    out.append(t.sol.as_str());
    out.append(",\"sol_chg\":");
    out.append(t.sol_chg.as_str());
    out.append(",\"gold\":");
    out.append(t.gold.as_str());
    out.append(",\"gold_chg\":");
    out.append(t.gold_chg.as_str());
    out.append(",\"oil\":");
    out.append(t.oil.as_str());
    out.append(",\"oil_chg\":");
    out.append(t.oil_chg.as_str());
    out.append(",\"usd_brl\":");
    out.append(t.usd_brl.as_str());
    out.append(",\"usd_brl_chg\":");
    out.append(t.usd_brl_chg.as_str());
    out.append("}}");
    out
}

/// The status document.
pub fn build_status(
    ui: &UiState,
    forced_off: bool,
    lamp: &LampHandle,
    auto_rotate: bool,
    leds: &LedState,
    t: &StatusText,
) -> (r: String)
    ensures
        r@ == status_text(*ui, forced_off, *lamp, auto_rotate, *leds, *t),
{
    let mut out: String = build_switches(ui, forced_off, lamp, auto_rotate);
    out.append(build_climate_and_leds(ui, leds, t).as_str());
    out.append(build_prices(t).as_str());
    out
}

} // verus!
