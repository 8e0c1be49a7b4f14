//! The centered time label shown between message groups.  The calendar
//! formatting itself comes from chrono; converting the platform
//! timestamp and centering the label are verified here.

use vstd::prelude::*;
use vstd::string::StrSliceExecFns;
use crate::text::{chars_to_string, spaces, spaces_spec, push_chars, str_to_chars};

verus! {

/// Offset, in seconds, between the platform's epoch and the Unix epoch.
pub const EPOCH_OFFSET_SECS: i64 = 978307200;

/// Nanoseconds per second: message dates are in epoch nanoseconds.
pub const NANOS_PER_SEC: i64 = 1000000000;

/// The Unix seconds that a platform-epoch nanosecond date denotes
/// (truncating division, as the platform client computes it).
pub open spec fn label_secs_spec(date: int) -> int {
    if date >= 0 {
        date / (NANOS_PER_SEC as int) + EPOCH_OFFSET_SECS
    } else {
        EPOCH_OFFSET_SECS - ((-date) / (NANOS_PER_SEC as int))
    }
}

/// The calendar label ("month/day/year hour:minute", zero padded, UTC)
/// that chrono renders for the given Unix seconds.
pub uninterp spec fn date_label_of(secs: int) -> Seq<char>;

/// Relies on chrono's `DateTime::<Utc>::from_timestamp` and strftime
/// formatting: the label is a function of the Unix seconds alone (UTC,
/// no locale), and an out-of-range timestamp yields an empty label.
#[verifier::external_body]
fn format_timestamp(secs: i64) -> (r: String)
    ensures
        r@ == date_label_of(secs as int),
{
    match chrono::DateTime::<chrono::Utc>::from_timestamp(secs, 0) {
        Some(dt) => dt.format("%m/%d/%Y %H:%M").to_string(),
        None => String::new(),
    }
}

fn label_seconds(date: i64) -> (r: i64)
    ensures
        r as int == label_secs_spec(date as int),
{
    if date >= 0 {
        let q = (date as u64) / (NANOS_PER_SEC as u64);
        proof {
            vstd::arithmetic::div_mod::lemma_div_is_ordered(
                date as int,
                i64::MAX as int,
                NANOS_PER_SEC as int,
            );
            assert(i64::MAX as int / (NANOS_PER_SEC as int) == 9223372036);
        }
        (q as i64) + EPOCH_OFFSET_SECS
    } else {
        let m = (-(date as i128)) as u64;
        let q = m / (NANOS_PER_SEC as u64);
        proof {
            vstd::arithmetic::div_mod::lemma_div_is_ordered(
                m as int,
                u64::MAX as int,
                NANOS_PER_SEC as int,
            );
            assert(u64::MAX as int / (NANOS_PER_SEC as int) == 18446744073);
        }
        EPOCH_OFFSET_SECS - (q as i64)
    }
}

/// `s` centered in `width` columns: the same run of spaces on both
/// sides, as many as fit; a label wider than the field is unpadded.
pub open spec fn center_spec(s: Seq<char>, width: int) -> Seq<char> {
    let pad = if width >= s.len() {
        (width - s.len()) / 2
    } else {
        0
    };
    spaces_spec(pad as nat) + s + spaces_spec(pad as nat)
}

/// The centered time label for a message date.
pub open spec fn date_pad_spec(date: int, width: int) -> Seq<char> {
    center_spec(date_label_of(label_secs_spec(date)), width)
}

/// The time label of `date`, centered in `width` columns.
pub fn date_pad_string(date: i64, width: usize) -> (r: String)
    ensures
        r@ == date_pad_spec(date as int, width as int),
{
    let label = format_timestamp(label_seconds(date));
    let label_chars = str_to_chars(label.as_str());
    let n = label_chars.len();
    let pad: usize = if width >= n {
        (width - n) / 2
    } else {
        0
    };
    let mut out = spaces(pad);
    push_chars(&mut out, &label_chars);
    let tail = spaces(pad);
    push_chars(&mut out, &tail);
    let r = chars_to_string(&out);
    proof {
        assert(r@ =~= date_pad_spec(date as int, width as int));
    }
    r
}

/// The default path of the configuration file inside the given
/// platform configuration directory.
pub fn default_config(config_dir: &str) -> (r: String)
    ensures
        r@ == config_dir@ + "/smcurser.toml"@,
{
    let mut out = str_to_chars(config_dir);
    let tail = str_to_chars("/smcurser.toml");
    push_chars(&mut out, &tail);
    chars_to_string(&out)
}

/// The default path of the custom colorschemes file inside the given
/// platform configuration directory.
pub fn default_colorschemes(config_dir: &str) -> (r: String)
    ensures
        r@ == config_dir@ + "/colorschemes.toml"@,
{
    let mut out = str_to_chars(config_dir);
    let tail = str_to_chars("/colorschemes.toml");
    push_chars(&mut out, &tail);
    chars_to_string(&out)
}

} // verus!
