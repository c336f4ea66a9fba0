//! Human-readable renderings of sizes and ages, computed over machine
//! integers with truncating division.

use vstd::prelude::*;
use crate::text::{dec_rep, hex_digit, push_dec, hex_digit_char, string_of_chars, u64_string};
use vstd::string::StringExecFns;

verus! {

pub const KIB: u64 = 1024;

pub const MIB: u64 = 1024 * 1024;

pub const GIB: u64 = 1024 * 1024 * 1024;

pub const TIB: u64 = 1024 * 1024 * 1024 * 1024;

/// Two decimal digits, most significant first, for a value below one
/// hundred.
pub open spec fn two_digits(f: int) -> Seq<char> {
    seq![hex_digit(f / 10), hex_digit(f % 10)]
}

/// A value scaled down by a unit: the whole part, a dot, two truncated
/// fractional digits, a space and the unit's letters.
pub open spec fn scaled_chars(b: int, unit: int, suffix: Seq<char>) -> Seq<char> {
    dec_rep(b / unit) + seq!['.'] + two_digits(((b % unit) * 100) / unit) + seq![' '] + suffix
}

/// The rendering of a byte count under the largest unit it reaches, with
/// two decimals for every unit above bytes.
pub open spec fn format_bytes_chars(b: u64) -> Seq<char> {
    if b < KIB {
        dec_rep(b as int) + seq![' ', 'B']
    } else if b < MIB {
        scaled_chars(b as int, KIB as int, seq!['K', 'B'])
    } else if b < GIB {
        scaled_chars(b as int, MIB as int, seq!['M', 'B'])
    } else if b < TIB {
        scaled_chars(b as int, GIB as int, seq!['G', 'B'])
    } else {
        scaled_chars(b as int, TIB as int, seq!['T', 'B'])
    }
}

/// Appends the scaled rendering of `b` under `unit`, then the two unit
/// letters.
fn push_scaled(v: &mut Vec<char>, b: u64, unit: u64, a: char, c: char)
    requires
        unit > 0,
        b as int % unit as int * 100 <= u64::MAX,
    ensures
        final(v)@ == old(v)@ + scaled_chars(b as int, unit as int, seq![a, c]),
{
    push_dec(v, b / unit);
    v.push('.');
    let frac = ((b % unit) * 100) / unit;
    proof {
        let rem = b as int % unit as int;
        assert(frac as int == (rem * 100) / (unit as int));
        assert((rem * 100) / (unit as int) < 100) by (nonlinear_arith)
            requires
                0 <= rem,
                rem < unit as int,
                unit as int > 0,
        ;
    }
    v.push(hex_digit_char(frac / 10));
    v.push(hex_digit_char(frac % 10));
    v.push(' ');
    v.push(a);
    v.push(c);
    proof {
        assert(final(v)@ =~= old(v)@ + scaled_chars(b as int, unit as int, seq![a, c]));
    }
}

/// The byte count under the largest unit it reaches, with two decimals for
/// every unit above bytes.
pub fn format_bytes(bytes: u64) -> (r: String)
    ensures
        r@ == format_bytes_chars(bytes),
{
    let mut v: Vec<char> = Vec::new();
    if bytes < KIB {
        push_dec(&mut v, bytes);
        v.push(' ');
        v.push('B');
        proof {
            assert(v@ =~= format_bytes_chars(bytes));
        }
    } else if bytes < MIB {
        push_scaled(&mut v, bytes, KIB, 'K', 'B');
    } else if bytes < GIB {
        push_scaled(&mut v, bytes, MIB, 'M', 'B');
    } else if bytes < TIB {
        push_scaled(&mut v, bytes, GIB, 'G', 'B');
    } else {
        push_scaled(&mut v, bytes, TIB, 'T', 'B');
    }
    string_of_chars(&v)
}

/// The compact size rendering: one truncated decimal above a gigabyte or a
/// megabyte, whole kilobytes, bytes below that, with no space before the
/// unit.
pub open spec fn humanize_size_chars(b: u64) -> Seq<char> {
    if b >= GIB {
        dec_rep(b as int / GIB as int) + seq!['.', hex_digit(((b as int % GIB as int) * 10) / GIB as int)] + seq!['G', 'B']
    } else if b >= MIB {
        dec_rep(b as int / MIB as int) + seq!['.', hex_digit(((b as int % MIB as int) * 10) / MIB as int)] + seq!['M', 'B']
    } else if b >= KIB {
        dec_rep(b as int / KIB as int) + seq!['K', 'B']
    } else {
        dec_rep(b as int) + seq!['B']
    }
}

/// The compact size rendering used by listings.
pub fn humanize_size(bytes: u64) -> (r: String)
    ensures
        r@ == humanize_size_chars(bytes),
{
    let mut v: Vec<char> = Vec::new();
    if bytes >= GIB {
        push_dec(&mut v, bytes / GIB);
        v.push('.');
        let frac = ((bytes % GIB) * 10) / GIB;
        proof {
            let rem = bytes as int % GIB as int;
            assert(frac as int == (rem * 10) / (GIB as int));
            assert((rem * 10) / (GIB as int) < 10) by (nonlinear_arith)
                requires
                    0 <= rem,
                    rem < GIB as int,
                    GIB as int > 0,
            ;
        }
        v.push(hex_digit_char(frac));
        v.push('G');
        v.push('B');
    } else if bytes >= MIB {
        push_dec(&mut v, bytes / MIB);
        v.push('.');
        let frac = ((bytes % MIB) * 10) / MIB;
        proof {
            let rem = bytes as int % MIB as int;
            assert(frac as int == (rem * 10) / (MIB as int));
            assert((rem * 10) / (MIB as int) < 10) by (nonlinear_arith)
                requires
                    0 <= rem,
                    rem < MIB as int,
                    MIB as int > 0,
            ;
        }
        v.push(hex_digit_char(frac));
        v.push('M');
        v.push('B');
    } else if bytes >= KIB {
        push_dec(&mut v, bytes / KIB);
        v.push('K');
        v.push('B');
    } else {
        push_dec(&mut v, bytes);
        v.push('B');
    }
    proof {
        assert(v@ =~= humanize_size_chars(bytes));
    }
    string_of_chars(&v)
}

/// The age rendering: whole days, hours or minutes ago, or "just now";
/// a creation time in the future reads as "just now" too.
pub open spec fn humanize_duration_chars(created: i64, now: i64) -> Seq<char> {
    let diff = if now >= created {
        now - created
    } else {
        0
    };
    if diff / 86400 > 0 {
        dec_rep(diff / 86400) + (if diff / 86400 == 1 {
            " day ago"@
        } else {
            " days ago"@
        })
    } else if diff / 3600 > 0 {
        dec_rep(diff / 3600) + (if diff / 3600 == 1 {
            " hour ago"@
        } else {
            " hours ago"@
        })
    } else if diff / 60 > 0 {
        dec_rep(diff / 60) + (if diff / 60 == 1 {
            " minute ago"@
        } else {
            " minutes ago"@
        })
    } else {
        "just now"@
    }
}

/// How long ago a moment was, in the largest whole unit that fits.
pub fn humanize_duration(created: i64, now: i64) -> (r: String)
    ensures
        r@ == humanize_duration_chars(created, now),
{
    let diff_wide: i128 = (now as i128) - (created as i128);
    let diff: u64 = if diff_wide >= 0 {
        diff_wide as u64
    } else {
        0
    };
    let days = diff / 86400;
    let hours = diff / 3600;
    let minutes = diff / 60;
    if days > 0 {
        let mut s = u64_string(days);
        if days == 1 {
            s.append(" day ago");
        } else {
            s.append(" days ago");
        }
        s
    } else if hours > 0 {
        let mut s = u64_string(hours);
        if hours == 1 {
            s.append(" hour ago");
        } else {
            s.append(" hours ago");
        }
        s
    } else if minutes > 0 {
        let mut s = u64_string(minutes);
        if minutes == 1 {
            s.append(" minute ago");
        } else {
            s.append(" minutes ago");
        }
        s
    } else {
        "just now".to_owned()
    }
}

} // verus!
