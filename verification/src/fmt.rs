//! Numbers and rows as the display shows them.
//!
//! What takes real arithmetic comes in ready: a price scaled to a whole number of its last decimal
//! place, and percentages and temperatures as text.

use vstd::prelude::*;

use crate::double::Double;
use crate::text;

verus! {

/// A separator between each group of three, counted from the end.
pub open spec fn grouped<T>(s: Seq<T>, separator: T) -> Seq<T>
    decreases s.len(),
{
    if s.len() <= 3 {
        s
    } else {
        grouped(s.take(s.len() - 3), separator).push(separator) + s.skip(s.len() - 3)
    }
}

/// Every place where a comma goes lies between two characters.
pub open spec fn groups_are_whole(bytes: Seq<u8>) -> bool {
    forall|i: int|
        0 < i < bytes.len() && (bytes.len() - i) % 3 == 0
            ==> #[trigger] vstd::utf8::is_char_boundary(bytes, i)
}

/// Insert thousand-separator commas into a digit string: `12345678` becomes `12,345,678`. Groups
/// are of three bytes.
pub fn insert_commas(digits: &str) -> (r: String)
    requires
        groups_are_whole(vstd::utf8::encode_utf8(digits@)),
    ensures
        vstd::utf8::encode_utf8(r@) == grouped(vstd::utf8::encode_utf8(digits@), 0x2Cu8),
        vstd::utf8::is_ascii_chars(digits@) ==> r@ == grouped(digits@, ','),
    decreases digits@.len(),
{
    let ghost bytes = vstd::utf8::encode_utf8(digits@);
    let n: usize = digits.as_bytes().len();
    proof {
        if vstd::utf8::is_ascii_chars(digits@) {
            vstd::utf8::is_ascii_chars_encode_utf8(digits@);
        }
    }
    if n <= 3 {
        return digits.to_owned();
    }
    proof {
        assert(vstd::utf8::is_char_boundary(bytes, n - 3));
    }
    let (head, tail) = digits.split_at(n - 3);
    proof {
        let hb = vstd::utf8::encode_utf8(head@);
        vstd::utf8::encode_utf8_valid_utf8(digits@);
        vstd::utf8::encode_utf8_valid_utf8(head@);
        vstd::utf8::decode_utf8_split(bytes, n - 3);
        vstd::utf8::encode_utf8_decode_utf8(digits@);
        vstd::utf8::encode_utf8_decode_utf8(head@);
        vstd::utf8::encode_utf8_decode_utf8(tail@);
        assert(hb =~= bytes.take(n - 3));
        assert(vstd::utf8::encode_utf8(tail@) =~= bytes.skip(n - 3));
        assert(digits@ == head@ + tail@);
        assert(tail@.len() > 0) by {
            if tail@.len() == 0 {
                assert(vstd::utf8::encode_utf8(tail@).len() == 0);
            }
        }
        assert forall|i: int| 0 < i < hb.len() && (hb.len() - i) % 3 == 0 implies #[trigger]
            vstd::utf8::is_char_boundary(hb, i) by {
            assert(vstd::utf8::is_char_boundary(bytes, i));
            vstd::utf8::is_char_boundary_iff_not_is_continuation_byte(bytes, i);
            vstd::utf8::is_char_boundary_iff_not_is_continuation_byte(hb, i);
        }
        if vstd::utf8::is_ascii_chars(digits@) {
            assert forall|i: int| 0 <= i < head@.len() implies '\0' <= #[trigger] head@[i]
                <= '\u{7f}' by {
                assert(digits@[i] == head@[i]);
            }
            assert(vstd::utf8::is_ascii_chars(head@));
            vstd::utf8::is_ascii_chars_encode_utf8(head@);
            assert(head@ =~= digits@.take(n - 3));
            assert(tail@ =~= digits@.skip(n - 3));
        }
    }
    let mut out: String = insert_commas(head);
    let ghost front = out@;
    out.push(',');
    out.append(tail);
    proof {
        text::lemma_encode_concat(front.push(','), tail@);
        assert(front.push(',') =~= front + seq![',']);
        text::lemma_encode_concat(front, seq![',']);
        assert(vstd::utf8::is_ascii_chars(seq![',']));
        vstd::utf8::is_ascii_chars_encode_utf8(seq![',']);
        assert(vstd::utf8::encode_utf8(seq![',']) =~= seq![0x2Cu8]);
        assert(vstd::utf8::encode_utf8(out@) =~= grouped(bytes, 0x2Cu8));
    }
    out
}

/// Ten to the `decimals`, or the largest signed 64-bit number where that is less.
pub open spec fn scale(decimals: u8) -> nat {
    if decimals <= 18 {
        vstd::arithmetic::power::pow(10, decimals as nat) as nat
    } else {
        i64::MAX as nat
    }
}

fn scale_of(decimals: u8) -> (r: u64)
    ensures
        r == scale(decimals),
        r > 0,
{
    if decimals > 18 {
        return 9_223_372_036_854_775_807;
    }
    let mut r: u64 = 1;
    let mut i: u8 = 0;
    proof {
        vstd::arithmetic::power::lemma_pow0(10);
    }
    while i < decimals
        invariant
            i <= decimals <= 18,
            r == vstd::arithmetic::power::pow(10, i as nat),
            r > 0,
        decreases decimals - i,
    {
        proof {
            vstd::arithmetic::power::lemma_pow_adds(10, i as nat, 1);
            vstd::arithmetic::power::lemma_pow1(10);
            assert(vstd::arithmetic::power::pow(10, (i + 1) as nat) == r * 10);
            vstd::arithmetic::power::lemma_pow_increases(10, i as nat, 17);
            assert(vstd::arithmetic::power::pow(10, 17) == 100_000_000_000_000_000) by {
                reveal(vstd::arithmetic::power::pow);
                reveal_with_fuel(vstd::arithmetic::power::pow, 18);
            }
        }
        r = r * 10;
        i += 1;
    }
    r
}

/// A price with thousand separators and its decimal places; `--` where there is none. `scaled` is
/// the price as a whole number of its last decimal place.
pub open spec fn price_text(value: Double, scaled: u64, decimals: u8) -> Seq<char> {
    if value.below_zero() || value.equals_zero() {
        "--"@
    } else {
        let whole = grouped(text::decimal(scaled as nat / scale(decimals)), ',');
        if decimals == 0 {
            whole
        } else {
            whole.push('.') + text::pad_left(
                text::decimal(scaled as nat % scale(decimals)),
                '0',
                decimals as nat,
            )
        }
    }
}

/// Format a price with the given number of decimal places and thousand separators.
pub fn format_price(value: Double, scaled: u64, decimals: u8) -> (r: String)
    ensures
        r@ == price_text(value, scaled, decimals),
{
    if value.at_most_zero() {
        return "--".to_owned();
    }
    let mult: u64 = scale_of(decimals);
    let whole: u64 = scaled / mult;
    let frac: u64 = scaled % mult;
    let mut digits: String = String::new();
    text::push_decimal(&mut digits, whole);
    proof {
        assert(digits@ =~= text::decimal(whole as nat));
        text::lemma_decimal_ascii(whole as nat);
        vstd::utf8::is_ascii_chars_encode_utf8(digits@);
        text::lemma_ascii_boundaries(digits@);
    }
    let mut out: String = insert_commas(digits.as_str());
    if decimals == 0 {
        return out;
    }
    let ghost front = out@;
    out.push('.');
    let mut places: String = String::new();
    text::push_decimal(&mut places, frac);
    proof {
        assert(places@ =~= text::decimal(frac as nat));
        text::lemma_decimal_ascii(frac as nat);
        vstd::utf8::is_ascii_chars_encode_utf8(places@);
    }
    let len: usize = places.as_str().as_bytes().len();
    let mut i: usize = len;
    let ghost head = out@;
    while i < decimals as usize
        invariant
            len <= i,
            i <= decimals || i == len,
            out@ == head + Seq::new((i - len) as nat, |k: int| '0'),
        decreases decimals - i,
    {
        out.push('0');
        i += 1;
        assert(out@ =~= head + Seq::new((i - len) as nat, |k: int| '0'));
    }
    out.append(places.as_str());
    assert(out@ =~= price_text(value, scaled, decimals));
    out
}

/// The first twenty characters, or all of them and blanks behind.
pub open spec fn twenty(s: Seq<char>) -> Seq<char> {
    if s.len() >= 20 {
        s.take(20)
    } else {
        text::pad_right(s, ' ', 20)
    }
}

/// Format price row for LCD: "Price: $ XXX,XXX.DD" padded to 20 chars.
pub fn format_price_row(price: Double, scaled: u64, decimals: u8) -> (r: String)
    ensures
        r@ == twenty("Price: $ "@ + price_text(price, scaled, decimals)),
{
    let formatted: String = format_price(price, scaled, decimals);
    let mut row: String = String::new();
    row.append("Price: $ ");
    row.append(formatted.as_str());
    assert(row@ =~= "Price: $ "@ + price_text(price, scaled, decimals));
    pad_to_20(row.as_str())
}

/// The change on the left: an arrow, a sign and the percentage.
pub open spec fn change_part(change: Double, magnitude: Seq<char>, has_change: bool) -> Seq<char> {
    if !has_change {
        Seq::empty()
    } else if change.above_zero() || change.equals_zero() {
        seq!['^', '+'] + magnitude + seq!['%']
    } else {
        seq!['v', '-'] + magnitude + seq!['%']
    }
}

/// Change and weather, before the row is brought to its length. The weather starts in the tenth
/// column, or behind the change where that is longer.
pub open spec fn change_text(
    change: Double,
    magnitude: Seq<char>,
    has_change: bool,
    temp: Option<Seq<char>>,
    label: Seq<char>,
) -> Seq<char> {
    let left = change_part(change, magnitude, has_change);
    match temp {
        Some(t) => text::pad_right(left, ' ', 9) + t + seq!['C', ' '] + label,
        None => left,
    }
}

/// Format change percentage row for LCD: "^+2.34%  26C clear" padded to 20. `magnitude` is the change
/// without its sign, `temp` the rounded temperature.
pub fn format_change_row(
    change: Double,
    magnitude: &str,
    has_change: bool,
    temp: Option<&str>,
    weather_label: &str,
) -> (r: String)
    ensures
        r@ == twenty(
            change_text(
                change,
                magnitude@,
                has_change,
                match temp {
                    Some(t) => Some(t@),
                    None => None,
                },
                weather_label@,
            ),
        ),
{
    let mut row: String = String::new();
    if has_change {
        if change.at_least_zero() {
            row.push('^');
            row.push('+');
        } else {
            row.push('v');
            row.push('-');
        }
        row.append(magnitude);
        row.push('%');
    }
    let ghost left = change_part(change, magnitude@, has_change);
    assert(row@ =~= left);
    if let Some(t) = temp {
        let mut i: usize = row.as_str().unicode_len();
        let ghost n = i;
        while i < 9
            invariant
                n <= i,
                i <= 9 || i == n,
                n == left.len(),
                row@ == left + Seq::new((i - n) as nat, |k: int| ' '),
            decreases 9 - i,
        {
            row.push(' ');
            i += 1;
            assert(row@ =~= left + Seq::new((i - n) as nat, |k: int| ' '));
        }
        assert(row@ =~= text::pad_right(left, ' ', 9));
        row.append(t);
        row.push('C');
        row.push(' ');
        row.append(weather_label);
    }
    assert(row@ =~= change_text(
        change,
        magnitude@,
        has_change,
        match temp {
            Some(t) => Some(t@),
            None => None,
        },
        weather_label@,
    ));
    pad_to_20(row.as_str())
}

/// Pad or truncate a string to exactly 20 characters.
pub fn pad_to_20(s: &str) -> (r: String)
    ensures
        r@ == twenty(s@),
        r@.len() == 20,
{
    let chars: Vec<char> = text::chars_of(s);
    let mut out: String = String::new();
    let mut i: usize = 0;
    while i < 20
        invariant
            i <= 20,
            chars@ == s@,
            out@ == twenty(s@).take(i as int),
        decreases 20 - i,
    {
        if i < chars.len() {
            out.push(chars[i]);
        } else {
            out.push(' ');
        }
        i += 1;
        assert(out@ =~= twenty(s@).take(i as int));
    }
    assert(out@ =~= twenty(s@));
    out
}

/// Commas only come in: without them the digits are as they were.
pub proof fn law_commas_only_separate(s: Seq<char>)
    requires
        !s.contains(','),
    ensures
        grouped(s, ',').filter(|c: char| c != ',') == s,
        grouped(s, ',').len() == s.len() + (if s.len() == 0 { 0int } else { (s.len() - 1) / 3 }),
    decreases s.len(),
{
    let keep = |c: char| c != ',';
    if s.len() <= 3 {
        lemma_filter_all(s, keep);
    } else {
        let head = s.take(s.len() - 3);
        let tail = s.skip(s.len() - 3);
        assert(!head.contains(',')) by {
            if head.contains(',') {
                let i = choose|i: int| 0 <= i < head.len() && head[i] == ',';
                assert(s[i] == ',');
            }
        }
        assert(!tail.contains(',')) by {
            if tail.contains(',') {
                let i = choose|i: int| 0 <= i < tail.len() && tail[i] == ',';
                assert(s[i + s.len() - 3] == ',');
            }
        }
        law_commas_only_separate(head);
        let g = grouped(head, ',');
        assert(g.push(',').filter(keep) == g.filter(keep)) by {
            reveal(Seq::filter);
            assert(g.push(',').drop_last() =~= g);
        }
        lemma_filter_all(tail, keep);
        Seq::filter_distributes_over_add(g.push(','), tail, keep);
        assert(head + tail =~= s);
    }
}

proof fn lemma_filter_all(s: Seq<char>, keep: spec_fn(char) -> bool)
    requires
        forall|i: int| 0 <= i < s.len() ==> keep(#[trigger] s[i]),
    ensures
        s.filter(keep) == s,
    decreases s.len(),
{
    reveal(Seq::filter);
    if s.len() > 0 {
        lemma_filter_all(s.drop_last(), keep);
        assert(s.drop_last().push(s.last()) =~= s);
    }
}

} // verus!
