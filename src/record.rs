//! The text of a record: one JSON object per line, its keys in the order
//! `data`, `date`, `level`, `message`, `offset`, `src`, `time`, `topic`,
//! `unixnano`, the message and the timestamp present only when configured.
use vstd::prelude::*;
use vstd::string::StringExecFns;
use crate::logger::{LogLevel, level_text};
use crate::text::{decimal, digit_char, push_decimal, push_signed_decimal, signed_decimal};
use crate::timer::{
    civil_from_days,
    convert_unix_nano_to_date_and_time,
    date_text,
    local_day,
    local_time_of_day,
    time_text,
};

verus! {

/// The lowercase hexadecimal digit for `d`, which is below sixteen.
pub open spec fn hex_digit(d: nat) -> char {
    if d < 10 {
        digit_char(d)
    } else {
        ((d - 10 + 97) as u8) as char
    }
}

/// How a character stands inside a JSON string: `"` and `\` after a
/// backslash; backspace, form feed, newline, carriage return and tab as
/// `\b \f \n \r \t`; other characters below 0x20 as `\u00` and two
/// lowercase hex digits; every other character as itself.
pub open spec fn json_escaped_char(c: char) -> Seq<char> {
    let n = c as u32;
    if c == '"' {
        seq!['\\', '"']
    } else if c == '\\' {
        seq!['\\', '\\']
    } else if n == 8 {
        seq!['\\', 'b']
    } else if n == 12 {
        seq!['\\', 'f']
    } else if n == 10 {
        seq!['\\', 'n']
    } else if n == 13 {
        seq!['\\', 'r']
    } else if n == 9 {
        seq!['\\', 't']
    } else if n < 32 {
        seq!['\\', 'u', '0', '0', hex_digit(n as nat / 16), hex_digit(n as nat % 16)]
    } else {
        seq![c]
    }
}

/// The characters of `s`, each escaped as JSON asks.
pub open spec fn json_escaped(s: Seq<char>) -> Seq<char>
    decreases s.len(),
{
    if s.len() == 0 {
        Seq::empty()
    } else {
        json_escaped(s.drop_last()) + json_escaped_char(s.last())
    }
}

/// A string as a JSON string literal: quoted, with JSON's escapes.
pub open spec fn json_quoted(s: Seq<char>) -> Seq<char> {
    seq!['"'] + json_escaped(s) + seq!['"']
}

/// Relies on `serde_json::to_string` on a `str`: the string quoted, with
/// serde_json's escapes (its `ESCAPE` table and `\u00XX` for other control
/// characters). Serialising a string into memory does not fail.
#[verifier::external_body]
fn quote_json(s: &str) -> (r: String)
    ensures
        r@ == json_quoted(s@),
{
    match serde_json::to_string(s) {
        Ok(t) => t,
        Err(_) => String::new(),
    }
}

/// The line for a record whose fields are already JSON text, but for the
/// offset and the timestamp.
pub open spec fn record_text(
    data: Seq<char>,
    date: Seq<char>,
    level: Seq<char>,
    message: Option<Seq<char>>,
    offset: int,
    src: Seq<char>,
    time: Seq<char>,
    topic: Seq<char>,
    unixnano: Option<u64>,
) -> Seq<char> {
    "{\"data\":"@ + data + ",\"date\":"@ + date + ",\"level\":"@ + level + match message {
        Some(m) => ",\"message\":"@ + m,
        None => Seq::empty(),
    } + ",\"offset\":"@ + signed_decimal(offset) + ",\"src\":"@ + src + ",\"time\":"@ + time
        + ",\"topic\":"@ + topic + match unixnano {
        Some(n) => ",\"unixnano\":"@ + decimal(n as nat),
        None => Seq::empty(),
    } + "}\n"@
}

/// Lays out a record from fields that are already JSON text.
pub fn assemble_record(
    data: &str,
    date: &str,
    level: &str,
    message: Option<&str>,
    offset: i32,
    src: &str,
    time: &str,
    topic: &str,
    unixnano: Option<u64>,
) -> (r: String)
    ensures
        r@ == record_text(
            data@,
            date@,
            level@,
            match message {
                Some(m) => Some(m@),
                None => None,
            },
            offset as int,
            src@,
            time@,
            topic@,
            unixnano,
        ),
{
    let mut out = String::from_str("{\"data\":");
    out.append(data);
    out.append(",\"date\":");
    out.append(date);
    out.append(",\"level\":");
    out.append(level);
    let ghost with_level = out@;
    match message {
        Some(m) => {
            out.append(",\"message\":");
            out.append(m);
        },
        None => {},
    }
    let ghost with_message = out@;
    out.append(",\"offset\":");
    push_signed_decimal(&mut out, offset as i64);
    out.append(",\"src\":");
    out.append(src);
    out.append(",\"time\":");
    out.append(time);
    out.append(",\"topic\":");
    out.append(topic);
    let ghost with_topic = out@;
    match unixnano {
        Some(n) => {
            out.append(",\"unixnano\":");
            push_decimal(&mut out, n);
        },
        None => {},
    }
    let ghost with_stamp = out@;
    out.append("}\n");
    proof {
        let m = match message {
            Some(m) => Some(m@),
            None => None,
        };
        let mt: Seq<char> = match m {
            Some(m) => ",\"message\":"@ + m,
            None => Seq::empty(),
        };
        let nt: Seq<char> = match unixnano {
            Some(n) => ",\"unixnano\":"@ + decimal(n as nat),
            None => Seq::empty(),
        };
        assert(with_message =~= with_level + mt);
        assert(with_stamp =~= with_topic + nt);
        assert(out@ =~= record_text(
            data@,
            date@,
            level@,
            m,
            offset as int,
            src@,
            time@,
            topic@,
            unixnano,
        ));
    }
    out
}

/// The line for a record of `level` made at `unix_nano`, shown at
/// `utc_offset_hour`, from the source location `src`, under `topic`, with an
/// optional `message`, the JSON text `data`, and the raw timestamp when
/// `include_unixnano` is set.
pub fn format_record(
    unix_nano: u64,
    utc_offset_hour: i32,
    include_unixnano: bool,
    level: LogLevel,
    src: &str,
    topic: &str,
    message: Option<&str>,
    data: &str,
) -> (r: String)
    requires
        -24 < utc_offset_hour < 24,
    ensures
        r@ == record_text(
            data@,
            json_quoted(date_text(civil_from_days(local_day(unix_nano, utc_offset_hour)))),
            json_quoted(level_text(level)),
            match message {
                Some(m) => Some(json_quoted(m@)),
                None => None,
            },
            utc_offset_hour as int,
            json_quoted(src@),
            json_quoted(time_text(local_time_of_day(unix_nano, utc_offset_hour))),
            json_quoted(topic@),
            if include_unixnano {
                Some(unix_nano)
            } else {
                None
            },
        ),
{
    let (date, time) = convert_unix_nano_to_date_and_time(unix_nano, utc_offset_hour);
    let date_q = quote_json(date.as_str());
    let time_q = quote_json(time.as_str());
    let level_q = quote_json(level.as_str());
    let src_q = quote_json(src);
    let topic_q = quote_json(topic);
    let stamp = if include_unixnano {
        Some(unix_nano)
    } else {
        None
    };
    match message {
        Some(m) => {
            let message_q = quote_json(m);
            assemble_record(
                data,
                date_q.as_str(),
                level_q.as_str(),
                Some(message_q.as_str()),
                utc_offset_hour,
                src_q.as_str(),
                time_q.as_str(),
                topic_q.as_str(),
                stamp,
            )
        },
        None => assemble_record(
            data,
            date_q.as_str(),
            level_q.as_str(),
            None,
            utc_offset_hour,
            src_q.as_str(),
            time_q.as_str(),
            topic_q.as_str(),
            stamp,
        ),
    }
}

} // verus!
