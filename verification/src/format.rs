//! Texts shown for times, dates and byte counts.

use vstd::prelude::*;
use crate::clock::{format_rfc3339, rfc3339_formatted, rfc3339_instant};
use crate::text::{int_decimal, push_decimal, push_str, string_from_chars};

verus! {

/// The remaining time of a download: `-` when unknown (zero or less), else the two
/// largest units among days, hours, minutes and seconds.
pub open spec fn eta_text(eta: int) -> Seq<char> {
    if eta <= 0 {
        "-"@
    } else {
        let days = eta / 86400;
        let hours = (eta % 86400) / 3600;
        let minutes = (eta % 3600) / 60;
        let seconds = eta % 60;
        if days > 0 {
            int_decimal(days) + "d "@ + int_decimal(hours) + "h"@
        } else if hours > 0 {
            int_decimal(hours) + "h "@ + int_decimal(minutes) + "m"@
        } else if minutes > 0 {
            int_decimal(minutes) + "m "@ + int_decimal(seconds) + "s"@
        } else {
            int_decimal(seconds) + "s"@
        }
    }
}

/// The remaining time of a download.
pub fn format_eta(eta_seconds: i32) -> (r: String)
    ensures
        r@ == eta_text(eta_seconds as int),
{
    if eta_seconds <= 0 {
        return String::from_str("-");
    }
    let days = eta_seconds / 86400;
    let hours = (eta_seconds % 86400) / 3600;
    let minutes = (eta_seconds % 3600) / 60;
    let seconds = eta_seconds % 60;
    let mut out: Vec<char> = Vec::new();
    if days > 0 {
        push_decimal(&mut out, days as i64);
        push_str(&mut out, "d ");
        push_decimal(&mut out, hours as i64);
        push_str(&mut out, "h");
    } else if hours > 0 {
        push_decimal(&mut out, hours as i64);
        push_str(&mut out, "h ");
        push_decimal(&mut out, minutes as i64);
        push_str(&mut out, "m");
    } else if minutes > 0 {
        push_decimal(&mut out, minutes as i64);
        push_str(&mut out, "m ");
        push_decimal(&mut out, seconds as i64);
        push_str(&mut out, "s");
    } else {
        push_decimal(&mut out, seconds as i64);
        push_str(&mut out, "s");
    }
    assert(out@ =~= eta_text(eta_seconds as int));
    string_from_chars(&out)
}

/// The pattern a date is shown with: month name, day, year, then the 12-hour time.
pub open spec fn long_date_pattern() -> Seq<char> {
    "%B %d, %Y at %I:%M %p"@
}

/// A date as shown: `N/A` when empty, the long form (`long_date_pattern`) of an RFC 3339
/// time, or else the text itself.
pub open spec fn date_text(s: Seq<char>) -> Seq<char> {
    if s.len() == 0 {
        "N/A"@
    } else {
        match rfc3339_formatted(s, long_date_pattern()) {
            Some(t) => t,
            None => s,
        }
    }
}

/// A date as shown; the text itself is kept exactly when chrono does not read it as an
/// RFC 3339 time.
pub fn format_date(date_str: &str) -> (r: String)
    ensures
        r@ == date_text(date_str@),
        date_str@.len() > 0 ==> (rfc3339_formatted(date_str@, long_date_pattern()) is None
            <==> rfc3339_instant(date_str@) is None),
{
    if date_str.is_empty() {
        return String::from_str("N/A");
    }
    match format_rfc3339(date_str, "%B %d, %Y at %I:%M %p") {
        Some(t) => t,
        None => String::from_str(date_str),
    }
}

/// The unit a byte count or rate is shown in: binary multiples, from 1024 up.
#[derive(Clone, Copy, Debug, PartialEq, Eq, Structural)]
pub enum ByteScale {
    Negative,
    Bytes,
    Kilo,
    Mega,
    Giga,
    Tera,
}

/// The unit a byte count is shown in.
pub open spec fn scale_of(n: int) -> ByteScale {
    if n < 0 {
        ByteScale::Negative
    } else if n >= 1_099_511_627_776 {
        ByteScale::Tera
    } else if n >= 1_073_741_824 {
        ByteScale::Giga
    } else if n >= 1_048_576 {
        ByteScale::Mega
    } else if n >= 1024 {
        ByteScale::Kilo
    } else {
        ByteScale::Bytes
    }
}

/// The unit a byte count or rate is shown in.
pub fn byte_scale(n: i64) -> (r: ByteScale)
    ensures
        r == scale_of(n as int),
{
    if n < 0 {
        ByteScale::Negative
    } else if n >= 1_099_511_627_776 {
        ByteScale::Tera
    } else if n >= 1_073_741_824 {
        ByteScale::Giga
    } else if n >= 1_048_576 {
        ByteScale::Mega
    } else if n >= 1024 {
        ByteScale::Kilo
    } else {
        ByteScale::Bytes
    }
}

/// The number of bytes in one unit of a scale (1 for bytes and negatives).
pub open spec fn scale_factor(s: ByteScale) -> i64 {
    match s {
        ByteScale::Negative => 1,
        ByteScale::Bytes => 1,
        ByteScale::Kilo => 1024,
        ByteScale::Mega => 1_048_576,
        ByteScale::Giga => 1_073_741_824,
        ByteScale::Tera => 1_099_511_627_776,
    }
}

/// The number of bytes in one unit of a scale.
pub fn scale_divisor(s: ByteScale) -> (r: i64)
    ensures
        r == scale_factor(s),
{
    match s {
        ByteScale::Negative => 1,
        ByteScale::Bytes => 1,
        ByteScale::Kilo => 1024,
        ByteScale::Mega => 1_048_576,
        ByteScale::Giga => 1_073_741_824,
        ByteScale::Tera => 1_099_511_627_776,
    }
}

/// The unit name of a scale for sizes (`KB` ...) or rates (`KB/s` ...).
pub open spec fn scale_unit(s: ByteScale, per_second: bool) -> Seq<char> {
    match s {
        ByteScale::Negative | ByteScale::Bytes => if per_second {
            "B/s"@
        } else {
            "bytes"@
        },
        ByteScale::Kilo => if per_second {
            "KB/s"@
        } else {
            "KB"@
        },
        ByteScale::Mega => if per_second {
            "MB/s"@
        } else {
            "MB"@
        },
        ByteScale::Giga => if per_second {
            "GB/s"@
        } else {
            "GB"@
        },
        ByteScale::Tera => if per_second {
            "TB/s"@
        } else {
            "TB"@
        },
    }
}

/// The unit name of a scale for sizes or rates.
pub fn scale_unit_name(s: ByteScale, per_second: bool) -> (r: &'static str)
    ensures
        r@ == scale_unit(s, per_second),
{
    match s {
        ByteScale::Negative | ByteScale::Bytes => if per_second {
            "B/s"
        } else {
            "bytes"
        },
        ByteScale::Kilo => if per_second {
            "KB/s"
        } else {
            "KB"
        },
        ByteScale::Mega => if per_second {
            "MB/s"
        } else {
            "MB"
        },
        ByteScale::Giga => if per_second {
            "GB/s"
        } else {
            "GB"
        },
        ByteScale::Tera => if per_second {
            "TB/s"
        } else {
            "TB"
        },
    }
}

/// A size or rate that needs no fraction: `Unknown` (sizes) or `0 B/s` (rates) when
/// negative, `<n> bytes` or `<n> B/s` below 1 KiB; `None` from 1 KiB on, where the value
/// is shown divided by its unit with two decimals.
pub open spec fn whole_bytes_text(n: int, per_second: bool) -> Option<Seq<char>> {
    if n < 0 {
        Some(
            if per_second {
                "0 B/s"@
            } else {
                "Unknown"@
            },
        )
    } else if n < 1024 {
        Some(int_decimal(n) + if per_second {
            " B/s"@
        } else {
            " bytes"@
        })
    } else {
        None
    }
}

/// A size or rate that needs no fraction.
pub fn format_whole_bytes(n: i64, per_second: bool) -> (r: Option<String>)
    ensures
        match r {
            Some(t) => whole_bytes_text(n as int, per_second) == Some(t@),
            None => whole_bytes_text(n as int, per_second) is None,
        },
{
    if n < 0 {
        return Some(
            if per_second {
                String::from_str("0 B/s")
            } else {
                String::from_str("Unknown")
            },
        );
    }
    if n >= 1024 {
        return None;
    }
    let mut out: Vec<char> = Vec::new();
    push_decimal(&mut out, n);
    if per_second {
        push_str(&mut out, " B/s");
    } else {
        push_str(&mut out, " bytes");
    }
    Some(string_from_chars(&out))
}

/// How many times a result size is divided by 1024 before it is shown: while it is at
/// least 1024, up to four times (terabytes).
pub open spec fn size_steps(size: nat, steps: nat) -> nat
    decreases 4 - steps,
{
    if steps < 4 && size >= 1024 {
        size_steps(size / 1024, steps + 1)
    } else {
        steps
    }
}

/// The unit a search result's size is shown in, by the number of divisions by 1024.
pub open spec fn step_unit(steps: nat) -> Seq<char> {
    if steps == 0 {
        "B"@
    } else if steps == 1 {
        "KB"@
    } else if steps == 2 {
        "MB"@
    } else if steps == 3 {
        "GB"@
    } else {
        "TB"@
    }
}

/// The number of divisions by 1024 and the unit a search result's size is shown in.
pub fn result_size_unit(size: u64) -> (r: (u32, &'static str))
    ensures
        r.0 == size_steps(size as nat, 0),
        r.1@ == step_unit(r.0 as nat),
        r.0 <= 4,
{
    let mut s: u64 = size;
    let mut steps: u32 = 0;
    while steps < 4 && s >= 1024
        invariant
            steps <= 4,
            size_steps(size as nat, 0) == size_steps(s as nat, steps as nat),
        decreases 4 - steps,
    {
        s = s / 1024;
        steps = steps + 1;
    }
    let unit = if steps == 0 {
        "B"
    } else if steps == 1 {
        "KB"
    } else if steps == 2 {
        "MB"
    } else if steps == 3 {
        "GB"
    } else {
        "TB"
    };
    (steps, unit)
}

} // verus!
