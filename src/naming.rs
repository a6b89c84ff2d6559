//! The names that stages give to what they emit: event subjects and the object
//! paths that records are stored under.

use vstd::prelude::*;
use vstd::string::*;

verus! {

pub open spec fn digit_char(d: int) -> char {
    seq!['0', '1', '2', '3', '4', '5', '6', '7', '8', '9'][d]
}

/// The decimal digits of `n`, most significant first, without leading zeros.
pub open spec fn digits(n: nat) -> Seq<char>
    decreases n,
{
    if n < 10 {
        seq![digit_char(n as int)]
    } else {
        digits(n / 10).push(digit_char((n % 10) as int))
    }
}

/// `n` written in decimal, with a leading minus sign when negative.
pub open spec fn decimal_text(n: int) -> Seq<char> {
    if n < 0 {
        seq!['-'] + digits((-n) as nat)
    } else {
        digits(n as nat)
    }
}

/// The text of one decimal digit.
fn digit_text(d: u64) -> (r: &'static str)
    requires
        d < 10,
    ensures
        r@ == seq![digit_char(d as int)],
{
    proof {
        reveal_strlit("0");
        reveal_strlit("1");
        reveal_strlit("2");
        reveal_strlit("3");
        reveal_strlit("4");
        reveal_strlit("5");
        reveal_strlit("6");
        reveal_strlit("7");
        reveal_strlit("8");
        reveal_strlit("9");
    }
    let r = match d {
        0 => "0",
        1 => "1",
        2 => "2",
        3 => "3",
        4 => "4",
        5 => "5",
        6 => "6",
        7 => "7",
        8 => "8",
        _ => "9",
    };
    assert(r@ =~= seq![digit_char(d as int)]);
    r
}

/// The decimal digits of `n`.
fn digits_text(n: u64) -> (r: String)
    ensures
        r@ == digits(n as nat),
    decreases n,
{
    if n < 10 {
        String::from_str(digit_text(n))
    } else {
        let head = digits_text(n / 10);
        let r = head.concat(digit_text(n % 10));
        assert(r@ =~= digits(n as nat));
        r
    }
}

/// `n` in decimal, with a leading minus sign when negative.
pub fn i64_text(n: i64) -> (r: String)
    ensures
        r@ == decimal_text(n as int),
{
    if n < 0 {
        let magnitude: u64 = (0i128 - n as i128) as u64;
        proof {
            reveal_strlit("-");
        }
        let r = String::from_str("-").concat(digits_text(magnitude).as_str());
        assert(r@ =~= decimal_text(n as int));
        r
    } else {
        digits_text(n as u64)
    }
}

/// The date `YYYY-MM-DD`, in UTC, of a timestamp given in microseconds since
/// the Unix epoch.
pub uninterp spec fn utc_date_of(micros: int) -> Seq<char>;

/// From the first instant of year 1 to the last of year 9999, in microseconds
/// since the Unix epoch.
pub open spec fn in_calendar_range(micros: int) -> bool {
    -62135596800000000 <= micros <= 253402300799999999
}

/// Relies on chrono's `DateTime::<Utc>::from_timestamp_micros`, which fails only
/// some 262,000 years away from the common era, and its `%Y-%m-%d` format: the
/// UTC date of the instant.
#[verifier::external_body]
fn utc_date(micros: i64) -> (r: Option<String>)
    ensures
        r matches Some(d) ==> d@ == utc_date_of(micros as int),
        in_calendar_range(micros as int) ==> r is Some,
{
    match chrono::DateTime::from_timestamp_micros(micros) {
        Some(t) => Some(t.format("%Y-%m-%d").to_string()),
        None => None,
    }
}

/// Where the last `/`-separated segment of `s[..end]` starts.
pub open spec fn segment_start(s: Seq<char>, end: int) -> int
    decreases end,
{
    if end <= 0 {
        0
    } else if s[end - 1] == '/' {
        end
    } else {
        segment_start(s, end - 1)
    }
}

/// The part of a path after its last `/` (all of it when there is none).
pub open spec fn last_segment(s: Seq<char>) -> Seq<char> {
    s.subrange(segment_start(s, s.len() as int), s.len() as int)
}

proof fn lemma_segment_start_bounds(s: Seq<char>, end: int)
    requires
        0 <= end <= s.len(),
    ensures
        0 <= segment_start(s, end) <= end,
    decreases end,
{
    if end > 0 && s[end - 1] != '/' {
        lemma_segment_start_bounds(s, end - 1);
    }
}

/// The file name of a path: what follows its last `/`.
pub fn file_name(path: &str) -> (r: String)
    ensures
        r@ == last_segment(path@),
{
    let len = path.unicode_len();
    let mut end: usize = len;
    while end > 0 && path.get_char(end - 1) != '/'
        invariant
            end <= len,
            len == path@.len(),
            segment_start(path@, end as int) == segment_start(path@, len as int),
        decreases end,
    {
        end = end - 1;
    }
    proof {
        lemma_segment_start_bounds(path@, len as int);
    }
    String::from_str(path.substring_char(end, len))
}

/// The subject of a record read from a file: the file's name and the time of
/// reading, joined by a dot.
pub fn file_record_subject(path: &str, timestamp_micros: i64) -> (r: String)
    ensures
        r@ == last_segment(path@) + seq!['.'] + decimal_text(timestamp_micros as int),
{
    let name = file_name(path);
    let stamp = i64_text(timestamp_micros);
    let r = name.concat(".");
    proof {
        reveal_strlit(".");
    }
    r.concat(stamp.as_str())
}

/// The subject of a generated event: the stage's label, or `default` where it
/// has none, then a dot and the time of emission.
pub fn labelled_subject(label: &Option<String>, default: &str, timestamp_micros: i64) -> (r: String)
    ensures
        r@ == match label {
            Some(l) => l@,
            None => default@,
        } + seq!['.'] + decimal_text(timestamp_micros as int),
{
    let head = match label {
        Some(l) => l.clone(),
        None => String::from_str(default),
    };
    let stamp = i64_text(timestamp_micros);
    let r = head.concat(".");
    proof {
        reveal_strlit(".");
    }
    r.concat(stamp.as_str())
}

/// The name an event is stored under: its id, or else the time it was handled.
pub fn object_file_name(id: &Option<String>, timestamp_micros: i64) -> (r: String)
    ensures
        r@ == match id {
            Some(i) => i@,
            None => decimal_text(timestamp_micros as int),
        },
{
    match id {
        Some(i) => i.clone(),
        None => i64_text(timestamp_micros),
    }
}

/// `base/date/file.avro`.
pub open spec fn avro_path(base: Seq<char>, date: Seq<char>, file: Seq<char>) -> Seq<char> {
    base + seq!['/'] + date + seq!['/'] + file + seq!['.', 'a', 'v', 'r', 'o']
}

/// The path of an Avro object under `base`, in the folder of its date.
pub fn avro_object_path(base: &str, date: &str, file: &str) -> (r: String)
    ensures
        r@ == avro_path(base@, date@, file@),
{
    proof {
        reveal_strlit("/");
        reveal_strlit(".avro");
    }
    let r = String::from_str(base).concat("/").concat(date).concat("/").concat(file).concat(
        ".avro",
    );
    assert(r@ =~= avro_path(base@, date@, file@));
    r
}

/// Where an event handled at `timestamp_micros` is stored under `base`: in the
/// folder of that day (UTC), named after the event. Always found for the
/// years 1 to 9999.
pub fn event_object_path(base: &str, id: &Option<String>, timestamp_micros: i64) -> (r: Option<
    String,
>)
    ensures
        in_calendar_range(timestamp_micros as int) ==> r is Some,
        r matches Some(p) ==> p@ == avro_path(
            base@,
            utc_date_of(timestamp_micros as int),
            match id {
                Some(i) => i@,
                None => decimal_text(timestamp_micros as int),
            },
        ),
{
    match utc_date(timestamp_micros) {
        None => None,
        Some(date) => {
            let file = object_file_name(id, timestamp_micros);
            Some(avro_object_path(base, date.as_str(), file.as_str()))
        },
    }
}

} // verus!
