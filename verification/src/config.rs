//! Pins, addresses, timing and feature switches, and the screens of the ticker.

use vstd::prelude::*;

use crate::text;

verus! {

// Hardware pins
pub const BUTTON_PIN: i32 = 26;

pub const LIGHT_BUTTON_PIN: i32 = 12;

pub const DISPLAY_BUTTON_PIN: i32 = 32;

pub const WARM_BUTTON_PIN: i32 = 13;

pub const BRIGHT_BUTTON_PIN: i32 = 14;

pub const MEDIA_BUTTON_PIN: i32 = 27;

pub const I2C_SDA: i32 = 22;

pub const I2C_SCL: i32 = 23;

// Laptop media bridge
pub const LAPTOP_PORT: u16 = 8765;

/// Green LED.
pub const WIFI_LED_GREEN: i32 = 19;

/// Red LED.
pub const WIFI_LED_RED: i32 = 33;

// LCD
pub const LCD_ADDR: u8 = 0x27;

pub const LCD_COLS: usize = 20;

pub const LCD_ROWS: usize = 4;

// NTP
pub const NTP_SERVER: &'static str = "pool.ntp.org";

/// Three hours west of Greenwich.
pub const GMT_OFFSET_SEC: i32 = -10_800;

// Weather location (Florianopolis, Brazil), in decimal degrees
pub const WEATHER_LAT: &'static str = "-27.5954";

pub const WEATHER_LON: &'static str = "-48.548";

// Timing
pub const FETCH_INTERVAL_MS: u64 = 300_000;

/// Weather is fetched on demand, when the dashboard page loads, but not more often than this.
pub const WEATHER_MIN_REFRESH_MS: u64 = 600_000;

pub const AUTO_SCREEN_INTERVAL_MS: u64 = 30_000;

pub const LOADING_ANIM_MS: u64 = 200;

pub const LAMP_TOGGLE_ANIM_MS: u64 = 4_000;

pub const DEBOUNCE_MS: u64 = 50;

pub const CHART_DURATION_MS: u64 = 30_000;

// Volume potentiometer calibration (raw ADC 0-4095)
/// ADC value at the fully-left stop.
pub const POT_ADC_MIN: u32 = 285;

/// ADC value at the fully-right stop.
pub const POT_ADC_MAX: u32 = 3063;

// HTTP
pub const HTTP_RETRIES: u32 = 1;

pub const HTTP_RETRY_DELAY_MS: u64 = 800;

pub const HTTP_TIMEOUT_MS: u64 = 6_000;

// Price sources
pub const URL_COINGECKO: &'static str =
    "https://api.coingecko.com/api/v3/simple/price?ids=bitcoin,solana&vs_currencies=usd&include_24hr_change=true";

pub const URL_USDBRL: &'static str = "https://economia.awesomeapi.com.br/json/last/USD-BRL";

pub const URL_STOOQ_GOLD: &'static str = "https://stooq.com/q/l/?s=gc.f&i=d";

pub const URL_STOOQ_OIL: &'static str = "https://stooq.com/q/l/?s=cl.f&i=d";

// Event reporting, on the LAN
pub const URL_RABBITMQ_SENDER: &'static str = "http://192.168.1.105:30080/send";

pub const EVENT_REPORT_TIMEOUT_MS: u64 = 3_000;

// Lamp
pub const TUYA_DEVICE_PORT: u16 = 6668;

/// Protocol 3.5.
pub const TUYA_PROTOCOL_VERSION: u8 = 5;

// Parts that are unplugged or out of use
pub const DISPLAY_TOGGLE_ENABLED: bool = false;

pub const POT_TOGGLE_ENABLED: bool = false;

pub const EXPROTOCOL_ENABLED: bool = false;

pub const PRICE_FETCH_ENABLED: bool = false;

/// Where readings come from, up to the number of hours.
pub const URL_TIMESERIES: &'static str =
    "http://192.168.1.105:30081/api/events/timeseries?event_type=dht22_reading&keys=temp_c,humidity_pct&hours=";

/// Address of the climate readings of the last `hours` hours, averaged over time.
pub fn url_dht_timeseries(hours: u32) -> (r: String)
    ensures
        r@ == URL_TIMESERIES@ + text::decimal(hours as nat),
{
    let mut out: String = String::new();
    out.append(URL_TIMESERIES);
    text::push_decimal(&mut out, hours as u64);
    assert(out@ =~= URL_TIMESERIES@ + text::decimal(hours as nat));
    out
}

/// Address of the current weather.
pub fn url_weather() -> (r: String)
    ensures
        r@ == "https://api.open-meteo.com/v1/forecast?latitude="@ + WEATHER_LAT@ + "&longitude="@
            + WEATHER_LON@
            + "&current=temperature_2m,weather_code&timezone=America%2FSao_Paulo"@,
{
    let mut out: String = String::new();
    out.append("https://api.open-meteo.com/v1/forecast?latitude=");
    out.append(WEATHER_LAT);
    out.append("&longitude=");
    out.append(WEATHER_LON);
    out.append("&current=temperature_2m,weather_code&timezone=America%2FSao_Paulo");
    out
}

/// The number that a run of digits stands for.
pub open spec fn octet_value(s: Seq<u8>) -> int
    decreases s.len(),
{
    if s.len() == 0 {
        0
    } else {
        octet_value(s.drop_last()) * 10 + (s.last() - 48)
    }
}

/// A dotted address that can be read: at most four fields, no character below `0` but the dots,
/// and no field too large for 32 bits.
pub open spec fn readable_ip(b: Seq<u8>) -> bool {
    &&& text::split_on(b, 46u8).len() <= 4
    &&& forall|i: int| 0 <= i < b.len() ==> #[trigger] b[i] == 46 || b[i] >= 48
    &&& forall|k: int|
        0 <= k < text::split_on(b, 46u8).len() ==> octet_value(
            #[trigger] text::split_on(b, 46u8)[k],
        ) <= u32::MAX
}

/// The four octets of a dotted address, each modulo 256; missing ones are zero.
pub open spec fn ip_of(b: Seq<u8>) -> Seq<u8> {
    Seq::new(
        4,
        |k: int|
            if k < text::split_on(b, 46u8).len() {
                (octet_value(text::split_on(b, 46u8)[k]) % 256) as u8
            } else {
                0
            },
    )
}

proof fn lemma_last_field_counts(b: Seq<u8>)
    requires
        forall|i: int| 0 <= i < b.len() ==> #[trigger] b[i] == 46 || b[i] >= 48,
    ensures
        octet_value(text::split_on(b, 46u8).last()) >= 0,
    decreases b.len(),
{
    text::lemma_split_nonempty(b, 46u8);
    if b.len() > 0 {
        text::lemma_split_nonempty(b.drop_last(), 46u8);
        lemma_last_field_counts(b.drop_last());
        if b.last() != 46 {
            let l = text::split_on(b, 46u8).last();
            assert(l.drop_last() =~= text::split_on(b.drop_last(), 46u8).last());
        }
    }
}

/// The fields of a beginning of the text are those of the whole, but for the last of them, which
/// may have been cut short.
proof fn lemma_prefix_fields(b: Seq<u8>, i: int)
    requires
        0 <= i <= b.len(),
        forall|i: int| 0 <= i < b.len() ==> #[trigger] b[i] == 46 || b[i] >= 48,
    ensures
        1 <= text::split_on(b.take(i), 46u8).len() <= text::split_on(b, 46u8).len(),
        0 <= octet_value(text::split_on(b.take(i), 46u8).last()) <= octet_value(
            text::split_on(b, 46u8)[text::split_on(b.take(i), 46u8).len() - 1],
        ),
        forall|k: int|
            0 <= k < text::split_on(b.take(i), 46u8).len() - 1 ==> #[trigger] text::split_on(
                b.take(i),
                46u8,
            )[k] == text::split_on(b, 46u8)[k],
    decreases b.len() - i,
{
    let f = text::split_on(b.take(i), 46u8);
    text::lemma_split_nonempty(b.take(i), 46u8);
    lemma_last_field_counts(b.take(i));
    if i == b.len() {
        assert(b.take(i) =~= b);
    } else {
        lemma_prefix_fields(b, i + 1);
        let h = text::split_on(b.take(i + 1), 46u8);
        assert(b.take(i + 1).drop_last() =~= b.take(i));
        if b[i] == 46 {
            assert(h == f.push(Seq::empty()));
            assert(f.last() == h[h.len() - 2]);
            assert forall|k: int| 0 <= k < f.len() - 1 implies #[trigger] f[k] == text::split_on(
                b,
                46u8,
            )[k] by {
                assert(h[k] == f[k]);
            }
        } else {
            assert(h.last().drop_last() =~= f.last());
            assert forall|k: int| 0 <= k < f.len() - 1 implies #[trigger] f[k] == text::split_on(
                b,
                46u8,
            )[k] by {
                assert(h[k] == f[k]);
            }
        }
    }
}

/// Reads a dotted address.
fn parse_ip(b: &[u8]) -> (ip: [u8; 4])
    requires
        readable_ip(b@),
    ensures
        ip@ == ip_of(b@),
{
    let mut ip: [u8; 4] = [0u8; 4];
    let mut octet: u32 = 0;
    let mut idx: usize = 0;
    let mut i: usize = 0;
    let ghost fields = text::split_on(b@, 46u8);
    assert(text::split_on(b@.take(0), 46u8) =~= seq![Seq::<u8>::empty()]);
    while i < b.len()
        invariant
            i <= b@.len(),
            readable_ip(b@),
            fields == text::split_on(b@, 46u8),
            idx == text::split_on(b@.take(i as int), 46u8).len() - 1,
            idx < fields.len() <= 4,
            octet == octet_value(text::split_on(b@.take(i as int), 46u8).last()),
            forall|k: int| 0 <= k < 4 ==> #[trigger] ip[k] == if k < idx {
                (octet_value(fields[k]) % 256) as u8
            } else {
                0
            },
        decreases b@.len() - i,
    {
        let ch: u8 = b[i];
        proof {
            assert(b@.take(i + 1).drop_last() =~= b@.take(i as int));
            text::lemma_split_nonempty(b@.take(i as int), 46u8);
            lemma_prefix_fields(b@, i as int);
            lemma_prefix_fields(b@, i + 1);
        }
        if ch == 46 {
            proof {
                let h = text::split_on(b@.take(i + 1), 46u8);
                assert(h[idx as int] == fields[idx as int]);
            }
            ip[idx] = (octet % 256) as u8;
            octet = 0;
            idx += 1;
        } else {
            proof {
                let f = text::split_on(b@.take(i as int), 46u8);
                let h = text::split_on(b@.take(i + 1), 46u8);
                assert(h.last().drop_last() =~= f.last());
                assert(octet_value(h.last()) == octet * 10 + (ch - 48));
                assert(octet_value(fields[h.len() - 1]) <= u32::MAX);
            }
            octet = octet * 10 + (ch - 48) as u32;
        }
        i += 1;
    }
    proof {
        assert(b@.take(i as int) =~= b@);
    }
    ip[idx] = (octet % 256) as u8;
    assert(ip@ =~= ip_of(b@));
    ip
}

/// The laptop's address, out of the setting that holds it.
pub fn laptop_ip_from_env(b: &[u8]) -> (ip: [u8; 4])
    requires
        readable_ip(b@),
    ensures
        ip@ == ip_of(b@),
{
    parse_ip(b)
}

/// The lamp's address, out of the setting that holds it.
pub fn ip_from_env(b: &[u8]) -> (ip: [u8; 4])
    requires
        readable_ip(b@),
    ensures
        ip@ == ip_of(b@),
{
    parse_ip(b)
}

/// The lamp's key, out of the setting that holds it: exactly 16 bytes.
pub fn key_from_env(b: &[u8]) -> (key: [u8; 16])
    requires
        b@.len() == 16,
    ensures
        key@ == b@,
{
    let mut arr: [u8; 16] = [0u8; 16];
    let mut i: usize = 0;
    while i < 16
        invariant
            i <= 16,
            b@.len() == 16,
            forall|k: int| 0 <= k < i ==> #[trigger] arr[k] == b@[k],
        decreases 16 - i,
    {
        arr[i] = b[i];
        i += 1;
    }
    assert(arr@ =~= b@);
    arr
}

/// Screen identifiers
#[derive(Clone, Copy, PartialEq, Eq, Structural, Debug)]
pub enum Screen {
    Btc,
    Sol,
    Gold,
    Oil,
    UsdBrl,
}

impl Screen {
    pub const COUNT: usize = 5;

    /// The place of a screen in the rotation.
    pub open spec fn number(self) -> int {
        match self {
            Screen::Btc => 0,
            Screen::Sol => 1,
            Screen::Gold => 2,
            Screen::Oil => 3,
            Screen::UsdBrl => 4,
        }
    }

    pub fn to_u8(self) -> (r: u8)
        ensures
            r == self.number(),
    {
        match self {
            Screen::Btc => 0,
            Screen::Sol => 1,
            Screen::Gold => 2,
            Screen::Oil => 3,
            Screen::UsdBrl => 4,
        }
    }

    pub fn from_u8(v: u8) -> (r: Option<Self>)
        ensures
            r is Some <==> v < 5,
            r matches Some(s) ==> s.number() == v,
    {
        match v {
            0 => Some(Screen::Btc),
            1 => Some(Screen::Sol),
            2 => Some(Screen::Gold),
            3 => Some(Screen::Oil),
            4 => Some(Screen::UsdBrl),
            _ => None,
        }
    }

    pub fn next(self) -> (r: Self)
        ensures
            r.number() == (self.number() + 1) % 5,
    {
        match self {
            Screen::Btc => Screen::Sol,
            Screen::Sol => Screen::Gold,
            Screen::Gold => Screen::Oil,
            Screen::Oil => Screen::UsdBrl,
            Screen::UsdBrl => Screen::Btc,
        }
    }

    pub open spec fn title(self) -> Seq<char> {
        match self {
            Screen::Btc => " BTC / USD"@,
            Screen::Sol => " SOL / USD"@,
            Screen::Gold => " GOLD USD/oz"@,
            Screen::Oil => " OIL WTI/bbl"@,
            Screen::UsdBrl => " USD / BRL"@,
        }
    }

    pub fn name(self) -> (r: &'static str)
        ensures
            r@ == self.title(),
    {
        match self {
            Screen::Btc => " BTC / USD",
            Screen::Sol => " SOL / USD",
            Screen::Gold => " GOLD USD/oz",
            Screen::Oil => " OIL WTI/bbl",
            Screen::UsdBrl => " USD / BRL",
        }
    }

    pub open spec fn places(self) -> u8 {
        match self {
            Screen::Btc => 0,
            Screen::Sol | Screen::Gold | Screen::Oil => 2,
            Screen::UsdBrl => 4,
        }
    }

    /// Decimal places of the price.
    pub fn decimals(self) -> (r: u8)
        ensures
            r == self.places(),
    {
        match self {
            Screen::Btc => 0,
            Screen::Sol | Screen::Gold | Screen::Oil => 2,
            Screen::UsdBrl => 4,
        }
    }
}

/// No two screens share a number, so a stored number names one screen.
pub proof fn law_number_names_screen(a: Screen, b: Screen)
    ensures
        0 <= a.number() < Screen::COUNT,
        a.number() == b.number() ==> a == b,
{
}

} // verus!
