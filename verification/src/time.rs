//! A plain calendar timestamp and its wire format.
//!
//! The API expects instants as `YYYY-MM-DDTHH:MM:SS` (UTC, seconds
//! precision, no timezone suffix).  The library holds an instant as its
//! six broken-down fields and formats it itself; the caller converts
//! whatever date type it uses into these plain values.

use crate::text::{dec_digits, push_char, u32_digits};
use vstd::prelude::*;

verus! {

/// An instant in time, broken down into its UTC calendar fields.
#[derive(Clone, Copy, Debug, PartialEq, Eq, Structural)]
pub struct Timestamp {
    pub year: u32,
    pub month: u32,
    pub day: u32,
    pub hour: u32,
    pub minute: u32,
    pub second: u32,
}

/// The decimal digits of `n`, left-padded with zeros to two places.
pub open spec fn pad2(n: int) -> Seq<char> {
    if n < 10 {
        seq!['0'] + dec_digits(n)
    } else {
        dec_digits(n)
    }
}

/// The decimal digits of `n`, left-padded with zeros to four places.
pub open spec fn pad4(n: int) -> Seq<char> {
    if n < 10 {
        seq!['0', '0', '0'] + dec_digits(n)
    } else if n < 100 {
        seq!['0', '0'] + dec_digits(n)
    } else if n < 1000 {
        seq!['0'] + dec_digits(n)
    } else {
        dec_digits(n)
    }
}

/// The wire format of a timestamp: `YYYY-MM-DDTHH:MM:SS`.
pub open spec fn timestamp_wire(t: Timestamp) -> Seq<char> {
    pad4(t.year as int) + seq!['-'] + pad2(t.month as int) + seq!['-'] + pad2(t.day as int)
        + seq!['T'] + pad2(t.hour as int) + seq![':'] + pad2(t.minute as int) + seq![':'] + pad2(
        t.second as int,
    )
}

fn format_pad2(n: u32) -> (r: String)
    ensures
        r@ == pad2(n as int),
{
    let mut s = String::new();
    if n < 10 {
        push_char(&mut s, '0');
    }
    s.append(u32_digits(n).as_str());
    proof {
        assert(s@ =~= pad2(n as int));
    }
    s
}

fn format_pad4(n: u32) -> (r: String)
    ensures
        r@ == pad4(n as int),
{
    let mut s = String::new();
    if n < 10 {
        push_char(&mut s, '0');
        push_char(&mut s, '0');
        push_char(&mut s, '0');
    } else if n < 100 {
        push_char(&mut s, '0');
        push_char(&mut s, '0');
    } else if n < 1000 {
        push_char(&mut s, '0');
    }
    s.append(u32_digits(n).as_str());
    proof {
        assert(s@ =~= pad4(n as int));
    }
    s
}

impl Timestamp {
    /// Builds a timestamp from its fields; `None` when a field is out of
    /// its calendar range.
    pub fn new(year: u32, month: u32, day: u32, hour: u32, minute: u32, second: u32) -> (r: Option<
        Timestamp,
    >)
        ensures
            r is Some <==> (year <= 9999 && 1 <= month <= 12 && 1 <= day <= 31 && hour <= 23
                && minute <= 59 && second <= 59),
            r matches Some(t) ==> t == (Timestamp { year, month, day, hour, minute, second }),
    {
        if year <= 9999 && 1 <= month && month <= 12 && 1 <= day && day <= 31 && hour <= 23
            && minute <= 59 && second <= 59 {
            Some(Timestamp { year, month, day, hour, minute, second })
        } else {
            None
        }
    }

    /// The instant formatted as the API expects it.
    pub fn wire_format(&self) -> (r: String)
        ensures
            r@ == timestamp_wire(*self),
    {
        let mut s = format_pad4(self.year);
        push_char(&mut s, '-');
        s.append(format_pad2(self.month).as_str());
        push_char(&mut s, '-');
        s.append(format_pad2(self.day).as_str());
        push_char(&mut s, 'T');
        s.append(format_pad2(self.hour).as_str());
        push_char(&mut s, ':');
        s.append(format_pad2(self.minute).as_str());
        push_char(&mut s, ':');
        s.append(format_pad2(self.second).as_str());
        proof {
            assert(s@ =~= timestamp_wire(*self));
        }
        s
    }
}

} // verus!
