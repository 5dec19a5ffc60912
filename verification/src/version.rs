//! The version string shown by `--version`.

use vstd::prelude::*;

verus! {

broadcast use vstd::string::group_string_axioms;

// ---------------------------------------------------------------------------
// Decimal integers
// ---------------------------------------------------------------------------

/// `c` is an ASCII decimal digit.
pub open spec fn is_decimal_digit(c: char) -> bool {
    '0' <= c && c <= '9'
}

/// The value of a non-empty run of decimal digits.
pub open spec fn digits_value(s: Seq<char>) -> int
    decreases s.len(),
{
    if s.len() == 0 {
        0
    } else {
        digits_value(s.drop_last()) * 10 + ((s.last() as u32) - ('0' as u32))
    }
}

/// `s` is one or more decimal digits.
pub open spec fn is_decimal_digits(s: Seq<char>) -> bool {
    s.len() > 0 && forall|i: int| 0 <= i < s.len() ==> is_decimal_digit(#[trigger] s[i])
}

/// The `i64` that `s` spells as `str::parse::<i64>` reads it: an optional `+`
/// or `-` and one or more decimal digits, whose value fits in an `i64`;
/// anything else is no number.
pub open spec fn decimal_i64(s: Seq<char>) -> Option<i64> {
    let negative = s.len() > 0 && s[0] == '-';
    let body = if s.len() > 0 && (s[0] == '-' || s[0] == '+') {
        s.drop_first()
    } else {
        s
    };
    let value = if negative {
        -digits_value(body)
    } else {
        digits_value(body)
    };
    if is_decimal_digits(body) && i64::MIN <= value <= i64::MAX {
        Some(value as i64)
    } else {
        None
    }
}

proof fn lemma_digits_value_grows(s: Seq<char>, k: int)
    requires
        0 <= k <= s.len(),
        forall|i: int| 0 <= i < s.len() ==> is_decimal_digit(#[trigger] s[i]),
    ensures
        digits_value(s.take(k)) <= digits_value(s),
        digits_value(s.take(k)) >= 0,
    decreases s.len() - k,
{
    if k < s.len() {
        lemma_digits_value_grows(s, k + 1);
        assert(s.take(k + 1).drop_last() =~= s.take(k));
        assert(is_decimal_digit(s[k]));
        assert(digits_value(s.take(k + 1)) == digits_value(s.take(k)) * 10 + ((s[k] as u32) - (
        '0' as u32)));
        lemma_digits_value_nonnegative(s.take(k));
    } else {
        assert(s.take(k) =~= s);
        lemma_digits_value_nonnegative(s);
    }
}

proof fn lemma_digits_value_nonnegative(s: Seq<char>)
    requires
        forall|i: int| 0 <= i < s.len() ==> is_decimal_digit(#[trigger] s[i]),
    ensures
        digits_value(s) >= 0,
    decreases s.len(),
{
    if s.len() > 0 {
        assert(is_decimal_digit(s[s.len() - 1]));
        lemma_digits_value_nonnegative(s.drop_last());
    }
}

/// Reads a decimal `i64` as `str::parse::<i64>` does: an optional sign and one
/// or more digits whose value fits.
pub fn parse_i64(value: &str) -> (r: Option<i64>)
    ensures
        r == decimal_i64(value@),
{
    let chars = crate::chars::chars_of(value);
    let ghost s = value@;
    let n = chars.len();
    let mut start: usize = 0;
    let mut negative = false;
    assert(chars@.subrange(0, n as int) =~= chars@);
    if n > 0 && (chars[0] == '-' || chars[0] == '+') {
        negative = chars[0] == '-';
        start = 1;
    }
    let ghost body = chars@.subrange(start as int, n as int);
    assert(start == 1 ==> body =~= s.drop_first());
    assert(body == if s.len() > 0 && (s[0] == '-' || s[0] == '+') {
        s.drop_first()
    } else {
        s
    });
    if start == n {
        return None;
    }
    // The magnitude of the most negative i64.
    let limit: u64 = 9223372036854775808;
    let mut magnitude: u64 = 0;
    let mut i: usize = start;
    assert(body.take(0) =~= Seq::<char>::empty());
    while i < n
        invariant
            start <= i <= n,
            n == chars.len(),
            start < n,
            chars@ == value@,
            s == value@,
            negative == (s.len() > 0 && s[0] == '-'),
            body == chars@.subrange(start as int, n as int),
            body == if s.len() > 0 && (s[0] == '-' || s[0] == '+') {
                s.drop_first()
            } else {
                s
            },
            magnitude <= limit,
            limit == 9223372036854775808u64,
            magnitude == digits_value(body.take(i - start)),
            forall|k: int| 0 <= k < i - start ==> is_decimal_digit(#[trigger] body[k]),
        decreases n - i,
    {
        let c = chars[i];
        assert(body[i - start] == c);
        if !('0' <= c && c <= '9') {
            assert(!is_decimal_digits(body));
            return None;
        }
        let digit = (c as u32 - '0' as u32) as u64;
        assert(body.take(i - start + 1).drop_last() =~= body.take(i - start));
        assert(body.take(i - start + 1).last() == c);
        if magnitude > (limit - digit) / 10 {
            // Too large for an i64 whatever follows, or not a number at all.
            proof {
                assert(digits_value(body.take(i - start + 1)) > limit) by (nonlinear_arith)
                    requires
                        digits_value(body.take(i - start + 1)) == magnitude * 10 + digit,
                        magnitude > (limit - digit) / 10,
                        digit <= 9,
                        limit == 9223372036854775808u64,
                ;
                if is_decimal_digits(body) {
                    lemma_digits_value_grows(body, i - start + 1);
                }
            }
            return None;
        }
        assert(magnitude * 10 + digit <= limit) by (nonlinear_arith)
            requires
                magnitude <= (limit - digit) / 10,
                digit <= 9,
                limit == 9223372036854775808u64,
        ;
        magnitude = magnitude * 10 + digit;
        i = i + 1;
    }
    assert(body.take(n - start) =~= body);
    assert(is_decimal_digits(body));
    if negative {
        if magnitude == limit {
            Some(-9223372036854775807i64 - 1)
        } else {
            Some(-(magnitude as i64))
        }
    } else if magnitude == limit {
        None
    } else {
        Some(magnitude as i64)
    }
}

// ---------------------------------------------------------------------------
// Build time
// ---------------------------------------------------------------------------

/// Whether chrono can represent the UTC time `secs` seconds after the Unix
/// epoch: chrono's dates run from 1 January 262143 BCE (year -262143) to
/// 31 December 262142, and a timestamp names a day `secs / 86400` (rounded
/// down) after 1 January 1970.
pub open spec fn utc_timestamp_in_range(secs: i64) -> bool {
    -8_334_601_228_800 <= secs <= 8_210_266_876_799
}

/// The shape of every text that chrono renders for a representable time with
/// [`BUILD_TIME_PATTERN`]: it begins with the year, which is written with four
/// digits for years 0 to 9999 and with a sign otherwise.
pub open spec fn is_rendered_time(t: Seq<char>) -> bool {
    t.len() > 0 && (is_decimal_digit(t[0]) || t[0] == '+' || t[0] == '-')
}

/// A UTC offset in seconds that chrono's `FixedOffset` (the offset type of
/// `Local`) can hold: strictly less than a day either way.
pub open spec fn is_utc_offset(offset: i32) -> bool {
    -86_400 < offset < 86_400
}

/// The proleptic Gregorian date `(year, month, day)` that lies `days` days
/// after 1 January 1970 (negative: before).
pub open spec fn civil_date(days: int) -> (int, int, int) {
    let z = days + 719_468;
    let era = z / 146_097;
    let day_of_era = z - era * 146_097;
    let year_of_era = (day_of_era - day_of_era / 1460 + day_of_era / 36_524 - day_of_era / 146_096)
        / 365;
    let day_of_year = day_of_era - (365 * year_of_era + year_of_era / 4 - year_of_era / 100);
    let shifted_month = (5 * day_of_year + 2) / 153;
    let day = day_of_year - (153 * shifted_month + 2) / 5 + 1;
    let month = if shifted_month < 10 {
        shifted_month + 3
    } else {
        shifted_month - 9
    };
    let year = year_of_era + era * 400 + if month <= 2 {
        1int
    } else {
        0int
    };
    (year, month, day)
}

/// The decimal digit character of `d` (0 to 9).
pub open spec fn digit_char(d: int) -> char {
    (d + 48) as char
}

/// The decimal digits of `n`, without leading zeros.
pub open spec fn decimal_text(n: nat) -> Seq<char>
    decreases n,
{
    if n < 10 {
        seq![digit_char(n as int)]
    } else {
        decimal_text(n / 10) + seq![digit_char((n % 10) as int)]
    }
}

/// The decimal digits of `n`, padded with leading zeros to `width` characters.
pub open spec fn zero_padded(n: nat, width: nat) -> Seq<char> {
    let digits = decimal_text(n);
    if digits.len() >= width {
        digits
    } else {
        Seq::new((width - digits.len()) as nat, |i: int| '0') + digits
    }
}

/// A year as `%Y` writes it: four digits for 0 to 9999, otherwise a sign and
/// at least four digits.
pub open spec fn year_text(year: int) -> Seq<char> {
    if 0 <= year <= 9999 {
        zero_padded(year as nat, 4)
    } else if year < 0 {
        seq!['-'] + zero_padded((-year) as nat, 4)
    } else {
        seq!['+'] + zero_padded(year as nat, 4)
    }
}

/// A UTC offset as chrono writes a `FixedOffset`: a sign, hours and minutes,
/// and seconds only when there are any (`+05:30`, `-00:19:32`).
pub open spec fn offset_text(offset: int) -> Seq<char> {
    let sign = if offset < 0 {
        '-'
    } else {
        '+'
    };
    let magnitude = if offset < 0 {
        -offset
    } else {
        offset
    };
    let seconds = magnitude % 60;
    let minutes = magnitude / 60;
    seq![sign] + zero_padded((minutes / 60) as nat, 2) + seq![':'] + zero_padded(
        (minutes % 60) as nat,
        2,
    ) + if seconds == 0 {
        Seq::empty()
    } else {
        seq![':'] + zero_padded(seconds as nat, 2)
    }
}

/// The text of the instant `secs` seconds after the Unix epoch in a zone
/// `offset` seconds ahead of UTC, written with [`BUILD_TIME_PATTERN`]
/// (`%Y-%m-%d %H:%M:%S %Z`): local date, local time and the offset.
#[verifier::opaque]
pub open spec fn time_text(secs: int, offset: int) -> Seq<char> {
    let local = secs + offset;
    let date = civil_date(local / 86_400);
    let second_of_day = local % 86_400;
    year_text(date.0) + seq!['-'] + zero_padded(date.1 as nat, 2) + seq!['-'] + zero_padded(
        date.2 as nat,
        2,
    ) + seq![' '] + zero_padded((second_of_day / 3600) as nat, 2) + seq![':'] + zero_padded(
        ((second_of_day % 3600) / 60) as nat,
        2,
    ) + seq![':'] + zero_padded((second_of_day % 60) as nat, 2) + seq![' '] + offset_text(offset)
}

/// `text` is the build instant `secs` written in some time zone: the machine's
/// zone is not known here, only that its offset is one chrono can hold.
pub open spec fn is_local_time_text(text: Seq<char>, secs: i64) -> bool {
    exists|offset: i32| is_utc_offset(offset) && text == time_text(secs as int, offset as int)
}

/// The `strftime` pattern of the build time: local date, time and zone.
pub const BUILD_TIME_PATTERN: &'static str = "%Y-%m-%d %H:%M:%S %Z";

/// Calls chrono's `DateTime::<Utc>::from_timestamp(secs, 0)`, which gives a
/// time exactly when `secs` is in chrono's range, and renders such a time with
/// `with_timezone(&Local)` and `format(pattern)`. `Local` gives the instant a
/// `FixedOffset` (chrono builds every one through `east_opt`/`west_opt`, which
/// keep it within a day), and `format` writes the local date and time and that
/// offset. The contract states when there is a text and that it is the instant
/// written in some such offset; which offset is the machine's time zone and is
/// left unsaid.
/// chrono's `DateTime` cannot be declared here (its parameter is bounded by the
/// outside trait `TimeZone`), so the time does not leave this function.
#[verifier::external_body]
fn local_time_text(secs: i64, pattern: &str) -> (r: Option<String>)
    requires
        pattern@ == BUILD_TIME_PATTERN@,
    ensures
        r is Some <==> utc_timestamp_in_range(secs),
        r matches Some(t) ==> is_rendered_time(t@),
        r matches Some(t) ==> is_local_time_text(t@, secs),
{
    match chrono::DateTime::<chrono::Utc>::from_timestamp(secs, 0) {
        Some(time) => Some(time.with_timezone(&chrono::Local).format(pattern).to_string()),
        None => None,
    }
}

/// The seconds that the build timestamp names, when it reads as an `i64`.
pub open spec fn build_seconds(build_timestamp: Option<&str>) -> i64 {
    match build_timestamp {
        Some(t) => match decimal_i64(t@) {
            Some(secs) => secs,
            None => 0,
        },
        None => 0,
    }
}

/// The build time is known: the timestamp is given, reads as an `i64` and is a
/// time that chrono can represent.
pub open spec fn build_time_known(build_timestamp: Option<&str>) -> bool {
    match build_timestamp {
        Some(t) => match decimal_i64(t@) {
            Some(secs) => utc_timestamp_in_range(secs),
            None => false,
        },
        None => false,
    }
}

/// The build time as local date, time and zone, from the Unix timestamp
/// (seconds) given at build time; `None` when it is missing, is not an `i64`,
/// or is outside chrono's range.
pub fn build_time(build_timestamp: Option<&str>) -> (r: Option<String>)
    ensures
        r is Some <==> build_time_known(build_timestamp),
        r matches Some(t) ==> is_rendered_time(t@),
        r matches Some(t) ==> is_local_time_text(t@, build_seconds(build_timestamp)),
{
    let secs = match build_timestamp {
        Some(t) => match parse_i64(t) {
            Some(secs) => secs,
            None => return None,
        },
        None => return None,
    };
    local_time_text(secs, BUILD_TIME_PATTERN)
}

// ---------------------------------------------------------------------------
// Version text
// ---------------------------------------------------------------------------

/// The version line: the package version, then the repository, branch,
/// revision, work-tree status and build time in parentheses.
pub open spec fn version_line(
    package: Seq<char>,
    repository: Seq<char>,
    branch: Seq<char>,
    revision: Seq<char>,
    worktree: Seq<char>,
    built: Seq<char>,
) -> Seq<char> {
    package + " (repo "@ + repository + ", branch "@ + branch + ", rev "@ + revision
        + ", worktree "@ + worktree + ", built "@ + built + ")"@
}

/// The version string for the given metadata; a build time that is not known
/// reads `unknown build time`.
pub fn version_text(
    package: &str,
    repository: &str,
    branch: &str,
    revision: &str,
    worktree: &str,
    built_at: Option<&str>,
) -> (r: String)
    ensures
        r@ == version_line(
            package@,
            repository@,
            branch@,
            revision@,
            worktree@,
            match built_at {
                Some(b) => b@,
                None => "unknown build time"@,
            },
        ),
{
    let mut r = String::from_str(package);
    r.append(" (repo ");
    r.append(repository);
    r.append(", branch ");
    r.append(branch);
    r.append(", rev ");
    r.append(revision);
    r.append(", worktree ");
    r.append(worktree);
    r.append(", built ");
    match built_at {
        Some(b) => r.append(b),
        None => r.append("unknown build time"),
    }
    r.append(")");
    r
}

/// Version string combining package, repository, and build metadata, with
/// the build time read from the Unix timestamp given at build time.
pub fn version(
    package: &str,
    repository: &str,
    branch: &str,
    revision: &str,
    worktree: &str,
    build_timestamp: Option<&str>,
) -> (r: String)
    ensures
        !build_time_known(build_timestamp) ==> r@ == version_line(
            package@,
            repository@,
            branch@,
            revision@,
            worktree@,
            "unknown build time"@,
        ),
        build_time_known(build_timestamp) ==> exists|built: Seq<char>|
            is_rendered_time(built) && is_local_time_text(built, build_seconds(build_timestamp))
                && r@ == version_line(
                package@,
                repository@,
                branch@,
                revision@,
                worktree@,
                built,
            ),
{
    let built = build_time(build_timestamp);
    match built {
        Some(b) => {
            let r = version_text(package, repository, branch, revision, worktree, Some(b.as_str()));
            assert(is_rendered_time(b@) && is_local_time_text(b@, build_seconds(build_timestamp))
                && r@ == version_line(
                package@,
                repository@,
                branch@,
                revision@,
                worktree@,
                b@,
            ));
            r
        },
        None => version_text(package, repository, branch, revision, worktree, None),
    }
}

/// A known build time is reported: the version text then differs from the
/// one that says `unknown build time`.
pub proof fn lemma_known_build_time_is_reported(
    package: Seq<char>,
    repository: Seq<char>,
    branch: Seq<char>,
    revision: Seq<char>,
    worktree: Seq<char>,
    built: Seq<char>,
)
    requires
        is_rendered_time(built),
    ensures
        version_line(package, repository, branch, revision, worktree, built) != version_line(
            package,
            repository,
            branch,
            revision,
            worktree,
            "unknown build time"@,
        ),
{
    reveal_strlit("unknown build time");
    let prefix = package + " (repo "@ + repository + ", branch "@ + branch + ", rev "@ + revision
        + ", worktree "@ + worktree + ", built "@;
    let known = version_line(package, repository, branch, revision, worktree, built);
    let unknown = version_line(package, repository, branch, revision, worktree, "unknown build time"@);
    assert(known == prefix + built + ")"@);
    assert(unknown == prefix + "unknown build time"@ + ")"@);
    assert(known[prefix.len() as int] == built[0]);
    assert(unknown[prefix.len() as int] == 'u');
}

} // verus!
