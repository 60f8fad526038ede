//! Save-target configuration and filename construction.
//!
//! Saved captures are named `<directory>/rust_screenshot_<DD-MM-YYYY_HH-MM-SS><ext>`
//! unless the user chose an explicit path. The timestamp formatting is
//! verified digit by digit; only reading the clock itself is trusted.

use vstd::prelude::*;
use vstd::string::StringExecFns;

verus! {

/// A wall-clock instant broken into calendar fields.
#[derive(Clone, Copy, PartialEq, Eq, Structural, Debug)]
pub struct Timestamp {
    pub year: i32,
    pub month: u32,
    pub day: u32,
    pub hour: u32,
    pub minute: u32,
    pub second: u32,
}

impl Timestamp {
    /// Field ranges as a calendar produces them. The year is unconstrained.
    pub open spec fn wf(self) -> bool {
        &&& 1 <= self.month <= 12
        &&& 1 <= self.day <= 31
        &&& self.hour <= 23
        &&& self.minute <= 59
        &&& self.second <= 59
    }
}

/// Relies on chrono's `Utc::now` and the `Datelike`/`Timelike` accessors,
/// whose documented ranges are: month 1 to 12, day 1 to 31, hour 0 to 23,
/// minute 0 to 59, second 0 to 59 (a leap second is carried in the
/// nanosecond field, never here). `Utc::now` itself panics if the system
/// clock reads before the Unix epoch — an environmental fault, not one any
/// input can trigger.
#[verifier::external_body]
pub fn now_utc() -> (ts: Timestamp)
    ensures
        ts.wf(),
{
    let now = chrono::Utc::now();
    Timestamp {
        year: chrono::Datelike::year(&now),
        month: chrono::Datelike::month(&now),
        day: chrono::Datelike::day(&now),
        hour: chrono::Timelike::hour(&now),
        minute: chrono::Timelike::minute(&now),
        second: chrono::Timelike::second(&now),
    }
}

/// The character for one decimal digit.
pub open spec fn spec_digit(d: int) -> char {
    if d == 0 {
        '0'
    } else if d == 1 {
        '1'
    } else if d == 2 {
        '2'
    } else if d == 3 {
        '3'
    } else if d == 4 {
        '4'
    } else if d == 5 {
        '5'
    } else if d == 6 {
        '6'
    } else if d == 7 {
        '7'
    } else if d == 8 {
        '8'
    } else {
        '9'
    }
}

/// The decimal digits of `n`, most significant first, no leading zeros.
pub open spec fn spec_dec(n: nat) -> Seq<char>
    decreases n,
{
    if n < 10 {
        seq![spec_digit(n as int)]
    } else {
        spec_dec(n / 10) + seq![spec_digit((n % 10) as int)]
    }
}

/// `n` in decimal, zero-padded to at least two digits.
pub open spec fn spec_pad2(n: nat) -> Seq<char> {
    if n < 10 {
        seq!['0'] + spec_dec(n)
    } else {
        spec_dec(n)
    }
}

/// `n` in decimal, zero-padded to at least four digits.
pub open spec fn spec_pad4(n: nat) -> Seq<char> {
    if n < 10 {
        seq!['0', '0', '0'] + spec_dec(n)
    } else if n < 100 {
        seq!['0', '0'] + spec_dec(n)
    } else if n < 1000 {
        seq!['0'] + spec_dec(n)
    } else {
        spec_dec(n)
    }
}

/// A year: four-digit-padded decimal, with a leading minus sign for years
/// before year zero.
pub open spec fn spec_year(y: int) -> Seq<char> {
    if y < 0 {
        seq!['-'] + spec_pad4((-y) as nat)
    } else {
        spec_pad4(y as nat)
    }
}

/// The timestamp part of a default filename: `DD-MM-YYYY_HH-MM-SS`.
pub open spec fn spec_timestamp(ts: Timestamp) -> Seq<char> {
    spec_pad2(ts.day as nat) + seq!['-'] + spec_pad2(ts.month as nat) + seq!['-'] + spec_year(
        ts.year as int,
    ) + seq!['_'] + spec_pad2(ts.hour as nat) + seq!['-'] + spec_pad2(ts.minute as nat) + seq!['-']
        + spec_pad2(ts.second as nat)
}

/// One decimal digit as a string slice.
fn digit_str(d: u8) -> (r: &'static str)
    requires
        d < 10,
    ensures
        r@ == seq![spec_digit(d as int)],
{
    proof {
        reveal_strlit("0");
        reveal_strlit("1");
        reveal_strlit("2");
        reveal_strlit("3");
        reveal_strlit("4");
        reveal_strlit("5");
        reveal_strlit("6");
        reveal_strlit("7");
        reveal_strlit("8");
        reveal_strlit("9");
    }
    match d {
        0 => "0",
        1 => "1",
        2 => "2",
        3 => "3",
        4 => "4",
        5 => "5",
        6 => "6",
        7 => "7",
        8 => "8",
        _ => "9",
    }
}

/// `n` in decimal, most significant digit first.
pub fn dec_string(n: u64) -> (s: String)
    ensures
        s@ == spec_dec(n as nat),
    decreases n,
{
    if n < 10 {
        String::from_str(digit_str(n as u8))
    } else {
        let rest = dec_string(n / 10);
        rest.concat(digit_str((n % 10) as u8))
    }
}

/// `n` in decimal, zero-padded to at least two digits.
pub fn two_digit(n: u32) -> (s: String)
    ensures
        s@ == spec_pad2(n as nat),
{
    proof {
        reveal_strlit("0");
    }
    let ds = dec_string(n as u64);
    if n < 10 {
        String::from_str("0").concat(ds.as_str())
    } else {
        ds
    }
}

/// `n` in decimal, zero-padded to at least four digits.
pub fn four_digit(n: u64) -> (s: String)
    ensures
        s@ == spec_pad4(n as nat),
{
    proof {
        reveal_strlit("000");
        reveal_strlit("00");
        reveal_strlit("0");
        assert(("000")@ == seq!['0', '0', '0']);
        assert(("00")@ == seq!['0', '0']);
        assert(("0")@ == seq!['0']);
    }
    let ds = dec_string(n);
    if n < 10 {
        String::from_str("000").concat(ds.as_str())
    } else if n < 100 {
        String::from_str("00").concat(ds.as_str())
    } else if n < 1000 {
        String::from_str("0").concat(ds.as_str())
    } else {
        ds
    }
}

/// A year in decimal, sign included for years before year zero.
pub fn year_string(y: i32) -> (s: String)
    ensures
        s@ == spec_year(y as int),
{
    proof {
        reveal_strlit("-");
        assert(("-")@ == seq!['-']);
    }
    let wide: i64 = y as i64;
    if wide < 0 {
        let mag = four_digit((-wide) as u64);
        String::from_str("-").concat(mag.as_str())
    } else {
        four_digit(wide as u64)
    }
}

/// The `DD-MM-YYYY_HH-MM-SS` timestamp used in default filenames.
pub fn timestamp_string(ts: &Timestamp) -> (s: String)
    requires
        ts.wf(),
    ensures
        s@ == spec_timestamp(*ts),
{
    proof {
        reveal_strlit("-");
        reveal_strlit("_");
        assert(("-")@ == seq!['-']);
        assert(("_")@ == seq!['_']);
    }
    let mut s = two_digit(ts.day);
    s.append("-");
    let part_month = two_digit(ts.month);
    s.append(part_month.as_str());
    s.append("-");
    let part_year = year_string(ts.year);
    s.append(part_year.as_str());
    s.append("_");
    let part_hour = two_digit(ts.hour);
    s.append(part_hour.as_str());
    s.append("-");
    let part_minute = two_digit(ts.minute);
    s.append(part_minute.as_str());
    s.append("-");
    let part_second = two_digit(ts.second);
    s.append(part_second.as_str());
    proof {
        assert(s@ =~= spec_timestamp(*ts));
    }
    s
}

/// A supported output format for saved captures.
#[derive(Clone, Copy, PartialEq, Eq, Structural, Debug)]
pub enum FileExtension {
    Png,
    Jpeg,
    Gif,
}

impl FileExtension {
    /// The filename suffix, dot included.
    pub open spec fn spec_str(self) -> Seq<char> {
        match self {
            FileExtension::Png => seq!['.', 'p', 'n', 'g'],
            FileExtension::Jpeg => seq!['.', 'j', 'p', 'e', 'g'],
            FileExtension::Gif => seq!['.', 'g', 'i', 'f'],
        }
    }

    /// The filename suffix, dot included.
    pub fn as_str(&self) -> (r: &'static str)
        ensures
            r@ == self.spec_str(),
    {
        proof {
            reveal_strlit(".png");
            reveal_strlit(".jpeg");
            reveal_strlit(".gif");
        }
        match self {
            FileExtension::Png => ".png",
            FileExtension::Jpeg => ".jpeg",
            FileExtension::Gif => ".gif",
        }
    }
}

/// The stem a save-as falls back to when the user picked no path: the
/// configured directory plus the fixed filename stem, with no timestamp
/// and no extension.
pub open spec fn spec_default_stem(dir: Seq<char>) -> Seq<char> {
    dir + seq!['/', 'r', 'u', 's', 't', '_', 's', 'c', 'r', 'e', 'e', 'n', 's', 'h', 'o', 't']
}

/// Builds the fallback save-as stem under the configured directory.
pub fn default_stem(dir: &str) -> (p: String)
    ensures
        p@ == spec_default_stem(dir@),
{
    proof {
        reveal_strlit("/rust_screenshot");
        assert(("/rust_screenshot")@ =~= seq![
            '/',
            'r',
            'u',
            's',
            't',
            '_',
            's',
            'c',
            'r',
            'e',
            'e',
            'n',
            's',
            'h',
            'o',
            't',
        ]);
    }
    let mut p = String::from_str(dir);
    p.append("/rust_screenshot");
    proof {
        assert(p@ =~= spec_default_stem(dir@));
    }
    p
}

/// A save path built from a caller-chosen prefix: the prefix, an
/// underscore, the timestamp, and the extension.
pub open spec fn spec_prefixed_path(pre: Seq<char>, ts: Timestamp, ext: FileExtension) -> Seq<
    char,
> {
    pre + seq!['_'] + spec_timestamp(ts) + ext.spec_str()
}

/// Builds a save path from a caller-chosen prefix.
pub fn prefixed_path(pre: &str, ts: &Timestamp, ext: FileExtension) -> (p: String)
    requires
        ts.wf(),
    ensures
        p@ == spec_prefixed_path(pre@, *ts, ext),
{
    proof {
        reveal_strlit("_");
        assert(("_")@ == seq!['_']);
    }
    let mut p = String::from_str(pre);
    p.append("_");
    let stamp = timestamp_string(ts);
    p.append(stamp.as_str());
    p.append(ext.as_str());
    proof {
        assert(p@ =~= spec_prefixed_path(pre@, *ts, ext));
    }
    p
}

/// The default save path: the configured directory, the fixed filename
/// stem, the timestamp, and the extension.
pub open spec fn spec_save_path(dir: Seq<char>, ts: Timestamp, ext: FileExtension) -> Seq<char> {
    dir + seq!['/', 'r', 'u', 's', 't', '_', 's', 'c', 'r', 'e', 'e', 'n', 's', 'h', 'o', 't', '_']
        + spec_timestamp(ts) + ext.spec_str()
}

/// Builds the default save path for a capture taken at `ts`.
pub fn default_save_path(dir: &str, ts: &Timestamp, ext: FileExtension) -> (p: String)
    requires
        ts.wf(),
    ensures
        p@ == spec_save_path(dir@, *ts, ext),
{
    proof {
        reveal_strlit("/rust_screenshot_");
        assert(("/rust_screenshot_")@ =~= seq![
            '/',
            'r',
            'u',
            's',
            't',
            '_',
            's',
            'c',
            'r',
            'e',
            'e',
            'n',
            's',
            'h',
            'o',
            't',
            '_',
        ]);
    }
    let mut p = String::from_str(dir);
    p.append("/rust_screenshot_");
    let stamp = timestamp_string(ts);
    p.append(stamp.as_str());
    p.append(ext.as_str());
    proof {
        assert(p@ =~= spec_save_path(dir@, *ts, ext));
    }
    p
}

} // verus!
