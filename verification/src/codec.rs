//! Building the JSON text frames of the outbound event protocol.
//!
//! Every frame the station sends is produced here, and each builder's
//! contract pins the full character sequence of the frame: the decimal
//! rendering of numbers and the escaping of embedded text included.

use crate::media_player::CurrentTrack;
use vstd::prelude::*;
use vstd::string::StringExecFns;

verus! {

/// The character for one decimal digit.
pub open spec fn digit_char(d: int) -> char
    recommends
        0 <= d < 10,
{
    ((d + 0x30) as u8) as char
}

/// The decimal rendering of `n`, most significant digit first, no sign
/// and no leading zeros (a single `'0'` for zero).
pub open spec fn dec_chars(n: nat) -> Seq<char>
    decreases n,
{
    if n < 10 {
        seq![digit_char(n as int)]
    } else {
        dec_chars(n / 10).push(digit_char((n % 10) as int))
    }
}

/// The character for one hexadecimal digit, lower case.
pub open spec fn hex_char(d: int) -> char
    recommends
        0 <= d < 16,
{
    if d < 10 {
        digit_char(d)
    } else {
        ((d - 10 + 0x61) as u8) as char
    }
}

/// How one character appears inside a JSON string literal: quote and
/// backslash are escaped, control characters take the `\u00XX` form,
/// everything else stands for itself.
pub open spec fn escaped_char(c: char) -> Seq<char> {
    if c == '"' {
        seq!['\\', '"']
    } else if c == '\\' {
        seq!['\\', '\\']
    } else if (c as u32) < 0x20 {
        seq![
            '\\',
            'u',
            '0',
            '0',
            hex_char((c as u32 / 16) as int),
            hex_char((c as u32 % 16) as int),
        ]
    } else {
        seq![c]
    }
}

/// The body of a JSON string literal holding the text `s`.
pub open spec fn escaped(s: Seq<char>) -> Seq<char>
    decreases s.len(),
{
    if s.len() == 0 {
        Seq::empty()
    } else {
        escaped_char(s[0]) + escaped(s.drop_first())
    }
}

/// Escaping a text one character longer appends that character's escape.
proof fn lemma_escaped_push(s: Seq<char>, c: char)
    ensures
        escaped(s.push(c)) == escaped(s) + escaped_char(c),
    decreases s.len(),
{
    if s.len() == 0 {
        assert(s.push(c)[0] == c);
        assert(s.push(c).drop_first() =~= Seq::<char>::empty());
        assert(escaped(Seq::<char>::empty()) == Seq::<char>::empty());
        assert(escaped(s.push(c)) == escaped_char(c) + Seq::<char>::empty());
        assert(escaped_char(c) + Seq::<char>::empty() =~= Seq::<char>::empty() + escaped_char(c));
        assert(escaped(s) == Seq::<char>::empty());
        assert(escaped(s.push(c)) =~= escaped(s) + escaped_char(c));
    } else {
        assert(s.push(c)[0] == s[0]);
        assert(s.push(c).drop_first() =~= s.drop_first().push(c));
        lemma_escaped_push(s.drop_first(), c);
        assert(escaped(s.push(c)) =~= escaped(s) + escaped_char(c));
    }
}

/// Relies on `String::push` of std: appends exactly one character at the end.
#[verifier::external_body]
fn push_char(out: &mut String, c: char)
    ensures
        final(out)@ == old(out)@.push(c),
{
    out.push(c);
}

/// Appends the decimal rendering of `n` to `out`.
fn push_digits(out: &mut String, n: u64)
    ensures
        final(out)@ == old(out)@ + dec_chars(n as nat),
    decreases n,
{
    if n < 10 {
        push_char(out, (0x30u8 + n as u8) as char);
        proof {
            assert(old(out)@.push(digit_char(n as int)) =~= old(out)@ + dec_chars(n as nat));
        }
    } else {
        push_digits(out, n / 10);
        push_char(out, (0x30u8 + (n % 10) as u8) as char);
        proof {
            assert((old(out)@ + dec_chars((n / 10) as nat)).push(digit_char((n % 10) as int))
                =~= old(out)@ + dec_chars(n as nat));
        }
    }
}

/// The lower-case character for one hexadecimal digit.
fn hex_digit(d: u8) -> (c: char)
    requires
        d < 16,
    ensures
        c == hex_char(d as int),
{
    if d < 10 {
        (0x30u8 + d) as char
    } else {
        (0x61u8 + (d - 10)) as char
    }
}

/// Appends the escaped form of `s` to `out`.
fn push_escaped(out: &mut String, s: &str)
    ensures
        final(out)@ == old(out)@ + escaped(s@),
{
    let len = s.unicode_len();
    let mut i: usize = 0;
    while i < len
        invariant
            i <= len,
            len == s@.len(),
            out@ == old(out)@ + escaped(s@.take(i as int)),
        decreases len - i,
    {
        let c = s.get_char(i);
        proof {
            assert(s@.take(i as int).push(c) =~= s@.take(i + 1 as int));
            lemma_escaped_push(s@.take(i as int), c);
        }
        let ghost prefix = out@;
        if c == '"' {
            push_char(out, '\\');
            push_char(out, '"');
            proof {
                assert(prefix.push('\\').push('"') =~= prefix + escaped_char(c));
            }
        } else if c == '\\' {
            push_char(out, '\\');
            push_char(out, '\\');
            proof {
                assert(prefix.push('\\').push('\\') =~= prefix + escaped_char(c));
            }
        } else if (c as u32) < 0x20 {
            push_char(out, '\\');
            push_char(out, 'u');
            push_char(out, '0');
            push_char(out, '0');
            let v = c as u32;
            push_char(out, hex_digit((v / 16) as u8));
            push_char(out, hex_digit((v % 16) as u8));
            proof {
                assert(prefix.push('\\').push('u').push('0').push('0').push(
                    hex_char((c as u32 / 16) as int),
                ).push(hex_char((c as u32 % 16) as int)) =~= prefix + escaped_char(c));
            }
        } else {
            push_char(out, c);
            proof {
                assert(prefix.push(c) =~= prefix + escaped_char(c));
            }
        }
        proof {
            assert(out@ == old(out)@ + escaped(s@.take(i + 1 as int)));
        }
        i = i + 1;
    }
    proof {
        assert(s@.take(len as int) =~= s@);
    }
}

/// Whether `y` is a Gregorian leap year.
pub open spec fn is_leap_year(y: int) -> bool {
    y % 4 == 0 && (y % 100 != 0 || y % 400 == 0)
}

/// The number of days in year `y`.
pub open spec fn days_in_year(y: int) -> int {
    if is_leap_year(y) {
        366
    } else {
        365
    }
}

/// The number of days in month `m` of a year with the given leap flag.
pub open spec fn days_in_month(m: int, leap: bool) -> int {
    if m == 2 {
        if leap {
            29
        } else {
            28
        }
    } else if m == 4 || m == 6 || m == 9 || m == 11 {
        30
    } else {
        31
    }
}

/// The number of days in the months before month `m`.
pub open spec fn days_before_month(m: int, leap: bool) -> int
    decreases m,
{
    if m <= 1 {
        0
    } else {
        days_before_month(m - 1, leap) + days_in_month(m - 1, leap)
    }
}

/// The calendar year holding the day `days` days after January 1 of year
/// `y`, paired with the day's index within that year.
pub open spec fn year_of(days: int, y: int) -> (int, int)
    decreases days,
{
    if days < days_in_year(y) {
        (y, days)
    } else {
        year_of(days - days_in_year(y), y + 1)
    }
}

/// The month holding day `doy` of a year with the given leap flag,
/// counting from month `m`, paired with the day's index within the month.
pub open spec fn month_of(doy: int, m: int, leap: bool) -> (int, int)
    decreases 12 - m,
{
    if m >= 12 || doy < days_in_month(m, leap) {
        (m, doy)
    } else {
        month_of(doy - days_in_month(m, leap), m + 1, leap)
    }
}

/// Year, month and day of the day `days` days after 1970-01-01.
pub open spec fn civil_of_days(days: int) -> (int, int, int) {
    let yd = year_of(days, 1970);
    let md = month_of(yd.1, 1, is_leap_year(yd.0));
    (yd.0, md.0, md.1 + 1)
}

/// Two decimal digits, zero-padded.
pub open spec fn pad2(n: int) -> Seq<char>
    recommends
        0 <= n < 100,
{
    seq![digit_char(n / 10), digit_char(n % 10)]
}

/// Three decimal digits, zero-padded.
pub open spec fn pad3(n: int) -> Seq<char>
    recommends
        0 <= n < 1000,
{
    seq![digit_char(n / 100), digit_char((n / 10) % 10), digit_char(n % 10)]
}

/// The year as written in a timestamp: four digits zero-padded, or, past
/// 9999, a `+` sign and the plain digits.
pub open spec fn year_chars(y: int) -> Seq<char>
    recommends
        y >= 0,
{
    if y <= 9999 {
        pad2(y / 100) + pad2(y % 100)
    } else {
        seq!['+'] + dec_chars(y as nat)
    }
}

/// The instant `ms` milliseconds after the epoch, written as an ISO-8601
/// date and time in UTC: `YYYY-MM-DDTHH:MM:SSZ`, with a three-digit
/// fraction before the `Z` exactly when the instant is not on a whole
/// second.
pub open spec fn iso8601_utc(ms: u64) -> Seq<char> {
    let days = ms as int / 86400000;
    let rem = ms as int % 86400000;
    let ymd = civil_of_days(days);
    let frac = if rem % 1000 == 0 {
        Seq::<char>::empty()
    } else {
        seq!['.'] + pad3(rem % 1000)
    };
    year_chars(ymd.0) + seq!['-'] + pad2(ymd.1) + seq!['-'] + pad2(ymd.2) + seq!['T'] + pad2(
        rem / 3600000,
    ) + seq![':'] + pad2((rem / 60000) % 60) + seq![':'] + pad2((rem / 1000) % 60) + frac
        + seq!['Z']
}

/// Appends one character, stated as concatenation.
fn push_lit_char(out: &mut String, c: char)
    ensures
        final(out)@ == old(out)@ + seq![c],
{
    push_char(out, c);
    proof {
        assert(old(out)@.push(c) =~= old(out)@ + seq![c]);
    }
}

/// Appends two zero-padded decimal digits.
fn push_pad2(out: &mut String, n: u64)
    requires
        n < 100,
    ensures
        final(out)@ == old(out)@ + pad2(n as int),
{
    push_char(out, (0x30u8 + (n / 10) as u8) as char);
    push_char(out, (0x30u8 + (n % 10) as u8) as char);
    proof {
        assert(old(out)@.push(digit_char(n as int / 10)).push(digit_char(n as int % 10))
            =~= old(out)@ + pad2(n as int));
    }
}

/// Appends three zero-padded decimal digits.
fn push_pad3(out: &mut String, n: u64)
    requires
        n < 1000,
    ensures
        final(out)@ == old(out)@ + pad3(n as int),
{
    push_char(out, (0x30u8 + (n / 100) as u8) as char);
    push_char(out, (0x30u8 + ((n / 10) % 10) as u8) as char);
    push_char(out, (0x30u8 + (n % 10) as u8) as char);
    proof {
        assert(old(out)@.push(digit_char(n as int / 100)).push(
            digit_char((n as int / 10) % 10),
        ).push(digit_char(n as int % 10)) =~= old(out)@ + pad3(n as int));
    }
}

/// Whether year `y` is a leap year.
fn is_leap(y: u64) -> (r: bool)
    ensures
        r == is_leap_year(y as int),
{
    y % 4 == 0 && (y % 100 != 0 || y % 400 == 0)
}

/// The number of days in year `y`.
fn days_in_year_count(y: u64) -> (r: u64)
    ensures
        r == days_in_year(y as int),
{
    if is_leap(y) {
        366
    } else {
        365
    }
}

/// The number of days in month `m` under the given leap flag.
fn days_in_month_count(m: u64, leap: bool) -> (r: u64)
    requires
        1 <= m <= 12,
    ensures
        r == days_in_month(m as int, leap),
{
    if m == 2 {
        if leap {
            29
        } else {
            28
        }
    } else if m == 4 || m == 6 || m == 9 || m == 11 {
        30
    } else {
        31
    }
}

/// Year, month and day of the day `days` days after 1970-01-01.
fn civil_from_days(days: u64) -> (r: (u64, u64, u64))
    ensures
        (r.0 as int, r.1 as int, r.2 as int) == civil_of_days(days as int),
        1970 <= r.0,
        1 <= r.1 <= 12,
        1 <= r.2 <= 31,
{
    let mut y: u64 = 1970;
    let mut rem: u64 = days;
    while rem >= days_in_year_count(y)
        invariant
            1970 <= y,
            rem <= days,
            365 * (y - 1970) <= days - rem,
            year_of(days as int, 1970) == year_of(rem as int, y as int),
        decreases rem,
    {
        let len = days_in_year_count(y);
        proof {
            assert(year_of(rem as int, y as int) == year_of(rem - len, y + 1 as int));
        }
        rem = rem - len;
        y = y + 1;
    }
    let doy = rem;
    let leap = is_leap(y);
    proof {
        assert(year_of(doy as int, y as int) == (y as int, doy as int));
        assert(doy < 366);
    }
    let mut m: u64 = 1;
    let mut d: u64 = doy;
    while m < 12 && d >= days_in_month_count(m, leap)
        invariant
            1 <= m <= 12,
            d <= doy,
            doy < 366,
            leap == is_leap_year(y as int),
            d + days_before_month(m as int, leap) == doy,
            month_of(doy as int, 1, leap) == month_of(d as int, m as int, leap),
        decreases 12 - m,
    {
        let len = days_in_month_count(m, leap);
        proof {
            assert(month_of(d as int, m as int, leap) == month_of(d - len, m + 1 as int, leap));
        }
        d = d - len;
        m = m + 1;
    }
    proof {
        assert(month_of(d as int, m as int, leap) == (m as int, d as int));
        if m == 12 {
            assert(days_before_month(12, leap) == (if leap {
                335int
            } else {
                334int
            })) by {
                reveal_with_fuel(days_before_month, 13);
            }
            assert(d <= 31);
        }
    }
    (y, m, d + 1)
}

/// Appends the ISO-8601 form of the instant `ms` milliseconds after the
/// epoch.
fn push_iso8601(out: &mut String, ms: u64)
    ensures
        final(out)@ == old(out)@ + iso8601_utc(ms),
{
    let days = ms / 86400000;
    let rem = ms % 86400000;
    let (y, mo, d) = civil_from_days(days);
    if y <= 9999 {
        push_pad2(out, y / 100);
        push_pad2(out, y % 100);
        proof {
            assert(old(out)@ + pad2(y as int / 100) + pad2(y as int % 100) =~= old(out)@
                + year_chars(y as int));
        }
    } else {
        push_lit_char(out, '+');
        push_digits(out, y);
        proof {
            assert(old(out)@ + seq!['+'] + dec_chars(y as nat) =~= old(out)@ + year_chars(
                y as int,
            ));
        }
    }
    push_lit_char(out, '-');
    push_pad2(out, mo);
    push_lit_char(out, '-');
    push_pad2(out, d);
    push_lit_char(out, 'T');
    push_pad2(out, rem / 3600000);
    push_lit_char(out, ':');
    push_pad2(out, (rem / 60000) % 60);
    push_lit_char(out, ':');
    push_pad2(out, (rem / 1000) % 60);
    let msec = rem % 1000;
    if msec != 0 {
        push_lit_char(out, '.');
        push_pad3(out, msec);
    }
    push_lit_char(out, 'Z');
    proof {
        assert(out@ =~= old(out)@ + iso8601_utc(ms));
    }
}

/// The instant `ms` milliseconds after the epoch as an ISO-8601 date and
/// time in UTC.
pub fn build_timestamp(ms: u64) -> (m: String)
    ensures
        m@ == iso8601_utc(ms),
{
    let mut out = String::new();
    push_iso8601(&mut out, ms);
    proof {
        assert(Seq::<char>::empty() + iso8601_utc(ms) =~= iso8601_utc(ms));
    }
    out
}

/// The `"listeners"` event frame carrying the listener count `n`.
pub open spec fn listeners_event(n: nat) -> Seq<char> {
    "{\"event\":\"listeners\",\"data\":"@ + dec_chars(n) + "}"@
}

/// Builds the `"listeners"` event frame for a count of `n`.
pub fn build_listeners_event(n: usize) -> (m: String)
    ensures
        m@ == listeners_event(n as nat),
{
    let mut out = String::from_str("{\"event\":\"listeners\",\"data\":");
    push_digits(&mut out, n as u64);
    out.append("}");
    out
}

/// The `"track"` event frame carrying a playback snapshot: the snapshot's
/// fields in a fixed order, the start instant as an ISO-8601 date and
/// time, the other numbers in decimal, text escaped.
pub open spec fn track_event(t: CurrentTrack) -> Seq<char> {
    "{\"event\":\"track\",\"data\":{\"started_at\":\""@ + iso8601_utc(t.started_at)
        + "\",\"id\":"@ + dec_chars(t.id as nat) + ",\"permalink_url\":\""@ + escaped(
        t.permalink_url@,
    ) + "\",\"duration\":"@ + dec_chars(t.duration as nat) + ",\"title\":\""@ + escaped(t.title@)
        + "\",\"artist\":\""@ + escaped(t.artist@) + "\",\"artist_permalink\":\""@ + escaped(
        t.artist_permalink@,
    ) + "\",\"url\":\""@ + escaped(t.url@) + "\",\"token\":\""@ + escaped(t.token@) + "\"}}"@
}

/// Builds the `"track"` event frame for the playback snapshot `t`.
pub fn build_track_event(t: &CurrentTrack) -> (m: String)
    ensures
        m@ == track_event(*t),
{
    let mut out = String::from_str("{\"event\":\"track\",\"data\":{\"started_at\":\"");
    push_iso8601(&mut out, t.started_at);
    out.append("\",\"id\":");
    push_digits(&mut out, t.id);
    out.append(",\"permalink_url\":\"");
    push_escaped(&mut out, t.permalink_url.as_str());
    out.append("\",\"duration\":");
    push_digits(&mut out, t.duration);
    out.append(",\"title\":\"");
    push_escaped(&mut out, t.title.as_str());
    out.append("\",\"artist\":\"");
    push_escaped(&mut out, t.artist.as_str());
    out.append("\",\"artist_permalink\":\"");
    push_escaped(&mut out, t.artist_permalink.as_str());
    out.append("\",\"url\":\"");
    push_escaped(&mut out, t.url.as_str());
    out.append("\",\"token\":\"");
    push_escaped(&mut out, t.token.as_str());
    out.append("\"}}");
    out
}

} // verus!
