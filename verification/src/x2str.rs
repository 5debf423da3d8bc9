//! Rendering of byte counts and durations for display.

use vstd::prelude::*;
use vstd::string::StrSliceExecFns;
use vstd::string::StringExecFns;

verus! {

/// Relies on `String::push`: it appends the given character to the end of
/// the string.
pub assume_specification[ String::push ](s: &mut String, ch: char)
    ensures
        final (s)@ == old(s)@ + seq![ch],
;

/// The decimal digit character of `d`.
pub open spec fn dec_digit_char(d: int) -> char
    recommends
        0 <= d <= 9,
{
    if d == 0 {
        '0'
    } else if d == 1 {
        '1'
    } else if d == 2 {
        '2'
    } else if d == 3 {
        '3'
    } else if d == 4 {
        '4'
    } else if d == 5 {
        '5'
    } else if d == 6 {
        '6'
    } else if d == 7 {
        '7'
    } else if d == 8 {
        '8'
    } else {
        '9'
    }
}

/// The decimal rendering of a non-negative number, most significant digit
/// first, without leading zeroes (a lone zero for 0).
pub open spec fn dec_str(n: int) -> Seq<char>
    recommends
        n >= 0,
    decreases n,
    when n >= 0
{
    if n < 10 {
        seq![dec_digit_char(n)]
    } else {
        dec_str(n / 10).push(dec_digit_char(n % 10))
    }
}

/// One decimal digit as a string.
fn digit_to_string(d: u64) -> (r: String)
    requires
        d < 10,
    ensures
        r@ == seq![dec_digit_char(d as int)],
{
    proof {
        reveal_strlit("0");
        reveal_strlit("1");
        reveal_strlit("2");
        reveal_strlit("3");
        reveal_strlit("4");
        reveal_strlit("5");
        reveal_strlit("6");
        reveal_strlit("7");
        reveal_strlit("8");
        reveal_strlit("9");
    }
    let s = if d == 0 {
        "0"
    } else if d == 1 {
        "1"
    } else if d == 2 {
        "2"
    } else if d == 3 {
        "3"
    } else if d == 4 {
        "4"
    } else if d == 5 {
        "5"
    } else if d == 6 {
        "6"
    } else if d == 7 {
        "7"
    } else if d == 8 {
        "8"
    } else {
        "9"
    };
    proof {
        assert(s@ =~= seq![dec_digit_char(d as int)]);
    }
    s.to_owned()
}

/// Render a number in decimal.
pub fn u64_to_string(n: u64) -> (r: String)
    ensures
        r@ == dec_str(n as int),
    decreases n,
{
    if n < 10 {
        digit_to_string(n)
    } else {
        let mut s = u64_to_string(n / 10);
        let last = digit_to_string(n % 10);
        s.append(last.as_str());
        proof {
            assert(dec_str((n / 10) as int) + seq![dec_digit_char((n % 10) as int)] =~= dec_str(
                n as int,
            ));
        }
        s
    }
}

/// The unit magnitude a byte count is displayed in: 0 for bytes up to 3 for
/// gigabytes, 4 for terabytes and beyond (decimal units of 1000).
pub open spec fn spec_magnitude(n: u64) -> int {
    if n < 1000 {
        0int
    } else if n < 1000000 {
        1int
    } else if n < 1000000000 {
        2int
    } else if n < 1000000000000 {
        3int
    } else {
        4int
    }
}

/// `1000^m`.
pub open spec fn spec_unit(m: int) -> int {
    if m == 0 {
        1int
    } else if m == 1 {
        1000int
    } else if m == 2 {
        1000000int
    } else if m == 3 {
        1000000000int
    } else {
        1000000000000int
    }
}

/// The unit suffix of magnitude `m`.
pub open spec fn spec_unit_suffix(m: int) -> Seq<char> {
    if m == 0 {
        "b"@
    } else if m == 1 {
        "kb"@
    } else if m == 2 {
        "mb"@
    } else if m == 3 {
        "gb"@
    } else {
        "tb"@
    }
}

/// How a byte count is displayed: the whole part in the chosen unit, three
/// truncated fraction digits, and the unit suffix.
pub open spec fn spec_bytes_str(n: u64) -> Seq<char> {
    let m = spec_magnitude(n);
    let unit = spec_unit(m);
    let whole = n as int / unit;
    let milli = (n as int % unit) * 1000 / unit;
    dec_str(whole) + seq!['.'] + seq![dec_digit_char(milli / 100)] + seq![
        dec_digit_char((milli / 10) % 10),
    ] + seq![dec_digit_char(milli % 10)] + spec_unit_suffix(m)
}

/// Render a byte count in the largest decimal unit it fills, with three
/// fraction digits: `1536` bytes come out as `1.536kb`.
pub fn bytes2str(filesize: u64) -> (r: String)
    ensures
        r@ == spec_bytes_str(filesize),
{
    proof {
        reveal_strlit("b");
        reveal_strlit("kb");
        reveal_strlit("mb");
        reveal_strlit("gb");
        reveal_strlit("tb");
        reveal_strlit(".");
    }
    let (unit, suffix): (u64, &str) = if filesize < 1000 {
        (1, "b")
    } else if filesize < 1000000 {
        (1000, "kb")
    } else if filesize < 1000000000 {
        (1000000, "mb")
    } else if filesize < 1000000000000 {
        (1000000000, "gb")
    } else {
        (1000000000000, "tb")
    };
    let whole = filesize / unit;
    let milli = (filesize % unit) * 1000 / unit;
    let mut out = u64_to_string(whole);
    out.append(".");
    let d1 = digit_to_string(milli / 100);
    out.append(d1.as_str());
    let d2 = digit_to_string((milli / 10) % 10);
    out.append(d2.as_str());
    let d3 = digit_to_string(milli % 10);
    out.append(d3.as_str());
    out.append(suffix);
    proof {
        assert(out@ =~= spec_bytes_str(filesize));
    }
    out
}

/// How a duration is displayed: days, hours, minutes and seconds, each
/// omitted when zero, and `0s` for an empty duration.
pub open spec fn spec_duration_str(secs: u64) -> Seq<char> {
    if secs == 0 {
        "0s"@
    } else {
        let d = secs as int / 86400;
        let h = (secs as int % 86400) / 3600;
        let m = (secs as int % 3600) / 60;
        let s = secs as int % 60;
        (if d > 0 {
            dec_str(d) + "d"@
        } else {
            Seq::empty()
        }) + (if h > 0 {
            dec_str(h) + "h"@
        } else {
            Seq::empty()
        }) + (if m > 0 {
            dec_str(m) + "m"@
        } else {
            Seq::empty()
        }) + (if s > 0 {
            dec_str(s) + "s"@
        } else {
            Seq::empty()
        })
    }
}

/// Render a duration of whole seconds as `1d2h3m4s`, omitting empty units.
pub fn duration2str(secs: u64) -> (r: String)
    ensures
        r@ == spec_duration_str(secs),
{
    proof {
        reveal_strlit("0s");
        reveal_strlit("d");
        reveal_strlit("h");
        reveal_strlit("m");
        reveal_strlit("s");
    }
    if secs == 0 {
        return "0s".to_owned();
    }
    let d = secs / 86400;
    let h = (secs % 86400) / 3600;
    let m = (secs % 3600) / 60;
    let s = secs % 60;
    let mut out = String::new();
    if d > 0 {
        let part = u64_to_string(d);
        out.append(part.as_str());
        out.append("d");
    }
    if h > 0 {
        let part = u64_to_string(h);
        out.append(part.as_str());
        out.append("h");
    }
    if m > 0 {
        let part = u64_to_string(m);
        out.append(part.as_str());
        out.append("m");
    }
    if s > 0 {
        let part = u64_to_string(s);
        out.append(part.as_str());
        out.append("s");
    }
    proof {
        assert(out@ =~= spec_duration_str(secs));
    }
    out
}

} // verus!
