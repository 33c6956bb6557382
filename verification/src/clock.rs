//! Timestamps: local time to the minute, written so that their order as text is their order
//! in time.

use vstd::arithmetic::div_mod::{lemma_div_denominator, lemma_fundamental_div_mod};
use vstd::prelude::*;
use vstd::string::*;
use vstd::utf8::*;

use crate::text;

verus! {

/// A moment in local time, broken down as the C library does.
#[derive(Debug, Clone, Copy, PartialEq, Eq)]
pub struct LocalTime {
    /// Years since 1900.
    pub year: i32,
    /// Months since January.
    pub month: i32,
    /// Day of the month, from one.
    pub day: i32,
    pub hour: i32,
    pub minute: i32,
}

impl LocalTime {
    /// Whether the year and the month can be counted from their usual start.
    pub open spec fn in_range(self) -> bool {
        self.year + 1900 <= i32::MAX && self.month + 1 <= i32::MAX
    }

    /// Whether the moment is one of a calendar with four-digit years.
    pub open spec fn is_on_calendar(self) -> bool {
        &&& 0 <= self.year + 1900 <= 9999
        &&& 0 <= self.month <= 11
        &&& 1 <= self.day <= 31
        &&& 0 <= self.hour <= 23
        &&& 0 <= self.minute <= 59
    }

    /// Whether the moment comes before another.
    pub open spec fn is_before(self, other: LocalTime) -> bool {
        if self.year != other.year {
            self.year < other.year
        } else if self.month != other.month {
            self.month < other.month
        } else if self.day != other.day {
            self.day < other.day
        } else if self.hour != other.hour {
            self.hour < other.hour
        } else {
            self.minute < other.minute
        }
    }

    /// The moment as text.
    pub open spec fn stamp(self) -> Seq<char> {
        padded(self.year + 1900, 4) + "-"@ + padded(self.month + 1, 2) + "-"@ + padded(
            self.day as int,
            2,
        ) + " "@ + padded(self.hour as int, 2) + ":"@ + padded(self.minute as int, 2)
    }
}

/// As many zeros.
pub open spec fn zeros(n: int) -> Seq<char> {
    Seq::new(
        if n > 0 {
            n as nat
        } else {
            0
        },
        |i: int| '0',
    )
}

/// A number in decimal, with zeros between the sign and the digits up to a width.
pub open spec fn padded(n: int, width: nat) -> Seq<char> {
    if n >= 0 {
        zeros(width - text::decimal(n as nat).len()) + text::decimal(n as nat)
    } else {
        "-"@ + zeros(width - 1 - text::decimal((-n) as nat).len()) + text::decimal((-n) as nat)
    }
}

fn push_padded(out: &mut String, n: i32, width: usize)
    requires
        width > 0,
    ensures
        final(out)@ == old(out)@ + padded(n as int, width as nat),
{
    let mut digits = String::new();
    let (magnitude, room) = if n < 0 {
        out.append("-");
        ((-(n as i64)) as u64, width - 1)
    } else {
        (n as u64, width)
    };
    let ghost start = out@;
    text::push_decimal(&mut digits, magnitude);
    proof {
        assert(digits@ =~= text::decimal(magnitude as nat));
    }
    let len = digits.as_str().unicode_len();
    let mut i: usize = len;
    proof {
        assert(out@ =~= start + zeros(0));
    }
    while i < room
        invariant
            len <= i,
            i <= room || i == len,
            out@ == start + zeros(i - len),
        decreases room - i,
    {
        out.push('0');
        i += 1;
        proof {
            assert(out@ =~= start + zeros(i - len));
        }
    }
    proof {
        assert(zeros(i - len) =~= zeros(room - len));
    }
    out.append(digits.as_str());
    proof {
        assert(out@ =~= old(out)@ + padded(n as int, width as nat));
    }
}

/// Writes a moment such as `2024-03-09 17:05`.
pub fn timestamp(time: LocalTime) -> (stamp: String)
    requires
        time.in_range(),
    ensures
        stamp@ == time.stamp(),
{
    let mut stamp = String::new();
    push_padded(&mut stamp, time.year + 1900, 4);
    stamp.append("-");
    push_padded(&mut stamp, time.month + 1, 2);
    stamp.append("-");
    push_padded(&mut stamp, time.day, 2);
    stamp.append(" ");
    push_padded(&mut stamp, time.hour, 2);
    stamp.append(":");
    push_padded(&mut stamp, time.minute, 2);
    proof {
        assert(stamp@ =~= time.stamp());
    }
    stamp
}

proof fn two_digits(n: int)
    requires
        0 <= n <= 99,
    ensures
        padded(n, 2) == seq![text::digit((n / 10) as nat), text::digit((n % 10) as nat)],
{
    reveal_with_fuel(text::decimal, 2);
    assert(padded(n, 2) =~= seq![text::digit((n / 10) as nat), text::digit((n % 10) as nat)]);
}

proof fn four_digits(n: int)
    requires
        0 <= n <= 9999,
    ensures
        padded(n, 4) == seq![
            text::digit((n / 1000) as nat),
            text::digit((n / 100 % 10) as nat),
            text::digit((n / 10 % 10) as nat),
            text::digit((n % 10) as nat),
        ],
{
    lemma_div_denominator(n, 10, 10);
    lemma_div_denominator(n, 100, 10);
    reveal_with_fuel(text::decimal, 4);
    assert(padded(n, 4) =~= seq![
        text::digit((n / 1000) as nat),
        text::digit((n / 100 % 10) as nat),
        text::digit((n / 10 % 10) as nat),
        text::digit((n % 10) as nat),
    ]);
}

/// The sixteen characters of a stamp.
proof fn stamp_layout(t: LocalTime) -> (s: Seq<char>)
    requires
        t.is_on_calendar(),
    ensures
        s == t.stamp(),
        s.len() == 16,
        is_ascii_chars(s),
        s.subrange(0, 4) == padded(t.year + 1900, 4),
        s.subrange(5, 7) == padded(t.month + 1, 2),
        s.subrange(8, 10) == padded(t.day as int, 2),
        s.subrange(11, 13) == padded(t.hour as int, 2),
        s.subrange(14, 16) == padded(t.minute as int, 2),
        s[4] == '-',
        s[7] == '-',
        s[10] == ' ',
        s[13] == ':',
{
    reveal_strlit("-");
    reveal_strlit(" ");
    reveal_strlit(":");
    four_digits(t.year + 1900);
    two_digits(t.month + 1);
    two_digits(t.day as int);
    two_digits(t.hour as int);
    two_digits(t.minute as int);
    let s = t.stamp();
    assert(s.subrange(0, 4) =~= padded(t.year + 1900, 4));
    assert(s.subrange(5, 7) =~= padded(t.month + 1, 2));
    assert(s.subrange(8, 10) =~= padded(t.day as int, 2));
    assert(s.subrange(11, 13) =~= padded(t.hour as int, 2));
    assert(s.subrange(14, 16) =~= padded(t.minute as int, 2));
    s
}

proof fn first_difference(a: Seq<char>, b: Seq<char>, k: int)
    requires
        is_ascii_chars(a),
        is_ascii_chars(b),
        0 <= k < a.len(),
        k < b.len(),
        forall|i: int| 0 <= i < k ==> a[i] == b[i],
        a[k] < b[k],
    ensures
        text::text_before(a, b),
{
    is_ascii_chars_encode_utf8(a);
    is_ascii_chars_encode_utf8(b);
    let x = encode_utf8(a);
    let y = encode_utf8(b);
    assert forall|i: int| 0 <= i < k implies x[i] == y[i] by {
        assert(a[i] == b[i]);
    }
    assert(a[k] as u8 == x[k] && b[k] as u8 == y[k]);
    text::first_difference(x, y, k);
}

/// The place of the first digit in which two numbers of two digits differ.
proof fn two_digits_differ(m: int, n: int) -> (k: int)
    requires
        0 <= m < n <= 99,
    ensures
        0 <= k < 2,
        forall|i: int| 0 <= i < k ==> padded(m, 2)[i] == padded(n, 2)[i],
        padded(m, 2)[k] < padded(n, 2)[k],
{
    two_digits(m);
    two_digits(n);
    if m / 10 < n / 10 {
        0
    } else {
        1
    }
}

proof fn digits_add_up(n: int)
    requires
        0 <= n <= 9999,
    ensures
        n == 1000 * (n / 1000) + 100 * (n / 100 % 10) + 10 * (n / 10 % 10) + n % 10,
        0 <= n / 1000 <= 9,
{
    lemma_div_denominator(n, 10, 10);
    lemma_div_denominator(n, 100, 10);
    lemma_fundamental_div_mod(n, 10);
    lemma_fundamental_div_mod(n / 10, 10);
    lemma_fundamental_div_mod(n / 100, 10);
}

/// The place of the first digit in which two numbers of four digits differ.
proof fn four_digits_differ(m: int, n: int) -> (k: int)
    requires
        0 <= m < n <= 9999,
    ensures
        0 <= k < 4,
        forall|i: int| 0 <= i < k ==> padded(m, 4)[i] == padded(n, 4)[i],
        padded(m, 4)[k] < padded(n, 4)[k],
{
    four_digits(m);
    four_digits(n);
    digits_add_up(m);
    digits_add_up(n);
    digits_differ(
        m / 1000,
        m / 100 % 10,
        m / 10 % 10,
        m % 10,
        n / 1000,
        n / 100 % 10,
        n / 10 % 10,
        n % 10,
        padded(m, 4),
        padded(n, 4),
    )
}

proof fn digits_differ(
    a: int,
    b: int,
    c: int,
    d: int,
    e: int,
    f: int,
    g: int,
    h: int,
    s: Seq<char>,
    t: Seq<char>,
) -> (k: int)
    requires
        0 <= a <= 9 && 0 <= b <= 9 && 0 <= c <= 9 && 0 <= d <= 9,
        0 <= e <= 9 && 0 <= f <= 9 && 0 <= g <= 9 && 0 <= h <= 9,
        1000 * a + 100 * b + 10 * c + d < 1000 * e + 100 * f + 10 * g + h,
        s == seq![
            text::digit(a as nat),
            text::digit(b as nat),
            text::digit(c as nat),
            text::digit(d as nat),
        ],
        t == seq![
            text::digit(e as nat),
            text::digit(f as nat),
            text::digit(g as nat),
            text::digit(h as nat),
        ],
    ensures
        0 <= k < 4,
        forall|i: int| 0 <= i < k ==> s[i] == t[i],
        s[k] < t[k],
{
    if a < e {
        0
    } else if b < f {
        1
    } else if c < g {
        2
    } else {
        3
    }
}

proof fn field_differs(a: Seq<char>, b: Seq<char>, start: int, end: int, k: int)
    requires
        is_ascii_chars(a),
        is_ascii_chars(b),
        a.len() == 16,
        b.len() == 16,
        0 <= start <= end <= 16,
        0 <= k < end - start,
        forall|i: int| 0 <= i < start ==> a[i] == b[i],
        forall|i: int| 0 <= i < k ==> a.subrange(start, end)[i] == b.subrange(start, end)[i],
        a.subrange(start, end)[k] < b.subrange(start, end)[k],
    ensures
        text::text_before(a, b),
{
    assert forall|i: int| 0 <= i < start + k implies a[i] == b[i] by {
        if i >= start {
            assert(a.subrange(start, end)[i - start] == b.subrange(start, end)[i - start]);
        }
    }
    first_difference(a, b, start + k);
}

proof fn same_day_stamps(a: LocalTime, b: LocalTime, s: Seq<char>, t: Seq<char>)
    requires
        a.is_on_calendar(),
        b.is_on_calendar(),
        a.is_before(b),
        a.year == b.year,
        a.month == b.month,
        a.day == b.day,
        s == a.stamp(),
        t == b.stamp(),
        forall|i: int| 0 <= i < 8 ==> s[i] == t[i],
    ensures
        text::text_before(s, t),
{
    let _ = stamp_layout(a);
    let _ = stamp_layout(b);
    assert forall|i: int| 8 <= i < 11 implies s[i] == t[i] by {
        assert(i < 10 ==> s.subrange(8, 10)[i - 8] == t.subrange(8, 10)[i - 8]);
    }
    if a.hour != b.hour {
        let k = two_digits_differ(a.hour as int, b.hour as int);
        field_differs(s, t, 11, 13, k);
    } else {
        assert forall|i: int| 11 <= i < 14 implies s[i] == t[i] by {
            assert(i < 13 ==> s.subrange(11, 13)[i - 11] == t.subrange(11, 13)[i - 11]);
        }
        let k = two_digits_differ(a.minute as int, b.minute as int);
        field_differs(s, t, 14, 16, k);
    }
}

/// A moment that comes before another is written as a text that comes before the other's.
pub proof fn earlier_stamps_come_first(a: LocalTime, b: LocalTime)
    requires
        a.is_on_calendar(),
        b.is_on_calendar(),
        a.is_before(b),
    ensures
        text::text_before(a.stamp(), b.stamp()),
{
    let s = stamp_layout(a);
    let t = stamp_layout(b);
    if a.year != b.year {
        let k = four_digits_differ(a.year + 1900, b.year + 1900);
        field_differs(s, t, 0, 4, k);
    } else {
        assert forall|i: int| 0 <= i < 5 implies s[i] == t[i] by {
            assert(i < 4 ==> s.subrange(0, 4)[i] == t.subrange(0, 4)[i]);
        }
        if a.month != b.month {
            let k = two_digits_differ(a.month + 1, b.month + 1);
            field_differs(s, t, 5, 7, k);
        } else {
            assert forall|i: int| 5 <= i < 8 implies s[i] == t[i] by {
                assert(i < 7 ==> s.subrange(5, 7)[i - 5] == t.subrange(5, 7)[i - 5]);
            }
            if a.day != b.day {
                let k = two_digits_differ(a.day as int, b.day as int);
                field_differs(s, t, 8, 10, k);
            } else {
                same_day_stamps(a, b, s, t);
            }
        }
    }
}

/// A number that is padded keeps its value: its digits, behind the sign of a negative one,
/// stand for it, and together they are as wide as asked for or as the number needs.
pub proof fn padding_keeps_the_number(n: int, width: nat)
    requires
        width > 0,
    ensures
        padded(n, width).len() >= width,
        n >= 0 ==> text::all_digits(padded(n, width)) && text::digits_value(padded(n, width)) == n,
        n < 0 ==> padded(n, width)[0] == '-' && text::all_digits(padded(n, width).skip(1))
            && text::digits_value(padded(n, width).skip(1)) == -n,
        padded(n, width).len() > width ==> padded(n, width) == if n >= 0 {
            text::decimal(n as nat)
        } else {
            "-"@ + text::decimal((-n) as nat)
        },
{
    reveal_strlit("-");
    let digits = if n >= 0 {
        text::decimal(n as nat)
    } else {
        text::decimal((-n) as nat)
    };
    text::decimal_stands_for_the_number(
        if n >= 0 {
            n as nat
        } else {
            (-n) as nat
        },
    );
    let room = if n >= 0 {
        width - digits.len()
    } else {
        width - 1 - digits.len()
    };
    zeros_add_nothing(zeros(room).len(), digits);
    assert(zeros(room) =~= Seq::new(zeros(room).len(), |i: int| '0'));
    if n >= 0 {
        assert(padded(n, width).len() > width ==> padded(n, width) =~= digits);
    } else {
        assert(padded(n, width).skip(1) =~= zeros(room) + digits);
        assert(padded(n, width).len() > width ==> padded(n, width) =~= "-"@ + digits);
    }
}

proof fn zeros_add_nothing(n: nat, digits: Seq<char>)
    requires
        text::all_digits(digits),
    ensures
        text::all_digits(Seq::new(n, |i: int| '0') + digits),
        text::digits_value(Seq::new(n, |i: int| '0') + digits) == text::digits_value(digits),
    decreases n + digits.len(),
{
    let nought = Seq::new(n, |i: int| '0');
    let s = nought + digits;
    if digits.len() > 0 {
        let fewer = digits.drop_last();
        assert(text::all_digits(fewer)) by {
            assert forall|i: int| 0 <= i < fewer.len() implies '0' <= #[trigger] fewer[i]
                <= '9' by {
                assert(fewer[i] == digits[i]);
            }
        }
        zeros_add_nothing(n, fewer);
        assert(s.drop_last() =~= nought + fewer);
    } else if n > 0 {
        zeros_add_nothing((n - 1) as nat, digits);
        assert(s.drop_last() =~= Seq::new((n - 1) as nat, |i: int| '0') + digits);
    }
}

/// A moment on the calendar is written in sixteen characters, from which its year, month,
/// day, hour and minute can be read.
pub proof fn stamps_can_be_read(t: LocalTime)
    requires
        t.is_on_calendar(),
    ensures
        ({
            let s = t.stamp();
            &&& s.len() == 16
            &&& text::digits_value(s.subrange(0, 4)) == t.year + 1900
            &&& s[4] == '-'
            &&& text::digits_value(s.subrange(5, 7)) == t.month + 1
            &&& s[7] == '-'
            &&& text::digits_value(s.subrange(8, 10)) == t.day
            &&& s[10] == ' '
            &&& text::digits_value(s.subrange(11, 13)) == t.hour
            &&& s[13] == ':'
            &&& text::digits_value(s.subrange(14, 16)) == t.minute
        }),
{
    let _ = stamp_layout(t);
    padding_keeps_the_number(t.year + 1900, 4);
    padding_keeps_the_number(t.month + 1, 2);
    padding_keeps_the_number(t.day as int, 2);
    padding_keeps_the_number(t.hour as int, 2);
    padding_keeps_the_number(t.minute as int, 2);
}

/// Any moment is written by its parts in this order, each padded, with these signs between
/// them.
pub proof fn stamps_have_all_parts(t: LocalTime)
    ensures
        t.stamp() == padded(t.year + 1900, 4) + "-"@ + padded(t.month + 1, 2) + "-"@ + padded(
            t.day as int,
            2,
        ) + " "@ + padded(t.hour as int, 2) + ":"@ + padded(t.minute as int, 2),
{
}

/// Of two moments, the one whose timestamp comes first as a text is the earlier one.
pub proof fn timestamps_sort_by_time(
    a: LocalTime,
    b: LocalTime,
    earlier: String,
    later: String,
    first: &str,
    second: &str,
    before: bool,
)
    requires
        a.is_on_calendar(),
        b.is_on_calendar(),
        a.is_before(b),
        call_ensures(timestamp, (a,), earlier),
        call_ensures(timestamp, (b,), later),
        first@ == earlier@,
        second@ == later@,
        call_ensures(text::comes_before, (first, second), before),
    ensures
        before,
{
    earlier_stamps_come_first(a, b);
}

} // verus!
