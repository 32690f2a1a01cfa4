use crate::text::{
    chars_of, push_all, push_zero_padded, string_of, zero_padded,
};
use chrono::{Datelike, Timelike};
use vstd::prelude::*;

verus! {

/// A local date and time of day, as the system clock reads it.
///
/// A leap second is carried as chrono carries it: `second` stays at 59 and
/// `nanosecond` runs past one billion.
#[derive(Clone, Copy, Debug, PartialEq, Eq, Structural)]
pub struct LocalStamp {
    pub year: i32,
    pub month: u32,
    pub day: u32,
    pub hour: u32,
    pub minute: u32,
    pub second: u32,
    pub nanosecond: u32,
}

impl LocalStamp {
    /// The fields name a date and a time of day.
    pub open spec fn wf(&self) -> bool {
        &&& 1 <= self.month <= 12
        &&& 1 <= self.day <= 31
        &&& self.hour < 24
        &&& self.minute < 60
        &&& self.second < 60
        &&& self.nanosecond < 2_000_000_000
    }

    /// The second as a clock shows it: 60 during a leap second.
    pub open spec fn shown_second(&self) -> nat {
        (self.second + self.nanosecond / 1_000_000_000) as nat
    }
}

/// The year as `%Y` writes it: four digits at least, and a sign outside 0..=9999.
pub open spec fn year_text(y: int) -> Seq<char> {
    if 0 <= y <= 9999 {
        zero_padded(y as nat, 4)
    } else if y < 0 {
        seq!['-'] + zero_padded((-y) as nat, 4)
    } else {
        seq!['+'] + zero_padded(y as nat, 4)
    }
}

/// The stamp in the layout `%Y%m%d_%H%M%S`.
pub open spec fn stamp_text(t: LocalStamp) -> Seq<char> {
    year_text(t.year as int) + zero_padded(t.month as nat, 2) + zero_padded(t.day as nat, 2)
        + seq!['_'] + zero_padded(t.hour as nat, 2) + zero_padded(t.minute as nat, 2)
        + zero_padded(t.shown_second(), 2)
}

/// The name of a saved batch: the batch name, the stamp, and `.json`.
pub open spec fn batch_file_text(batch_name: Seq<char>, t: LocalStamp) -> Seq<char> {
    batch_name + seq!['_'] + stamp_text(t) + ".json"@
}

/// The name of an archived audit overlay: `audit_`, the sample, the stamp, and `.png`.
pub open spec fn audit_file_text(sample_id: Seq<char>, t: LocalStamp) -> Seq<char> {
    "audit_"@ + sample_id + seq!['_'] + stamp_text(t) + ".png"@
}

/// Relies on chrono's `Local::now`, read through `Datelike` and `Timelike`: a
/// month and a day of a calendar date, an hour, a minute and a second of the
/// day, and nanoseconds below two billion (past one billion in a leap second).
#[verifier::external_body]
fn local_now() -> (r: LocalStamp)
    ensures
        r.wf(),
{
    let now = chrono::Local::now();
    LocalStamp {
        year: now.year(),
        month: now.month(),
        day: now.day(),
        hour: now.hour(),
        minute: now.minute(),
        second: now.second(),
        nanosecond: now.nanosecond(),
    }
}

fn push_stamp(out: &mut Vec<char>, t: &LocalStamp)
    requires
        t.wf(),
    ensures
        final(out)@ == old(out)@ + stamp_text(*t),
{
    let ghost start = out@;
    if 0 <= t.year && t.year <= 9999 {
        push_zero_padded(out, t.year as u64, 4);
    } else if t.year < 0 {
        out.push('-');
        let a: i64 = -(t.year as i64);
        push_zero_padded(out, a as u64, 4);
    } else {
        out.push('+');
        push_zero_padded(out, t.year as u64, 4);
    }
    assert(out@ =~= start + year_text(t.year as int));
    push_zero_padded(out, t.month as u64, 2);
    push_zero_padded(out, t.day as u64, 2);
    out.push('_');
    push_zero_padded(out, t.hour as u64, 2);
    push_zero_padded(out, t.minute as u64, 2);
    let shown: u32 = t.second + t.nanosecond / 1_000_000_000;
    push_zero_padded(out, shown as u64, 2);
    assert(out@ =~= start + stamp_text(*t));
}

/// The stamp in the layout `%Y%m%d_%H%M%S`.
pub fn format_stamp(t: &LocalStamp) -> (r: String)
    requires
        t.wf(),
    ensures
        r@ == stamp_text(*t),
{
    let mut v: Vec<char> = Vec::new();
    push_stamp(&mut v, t);
    assert(v@ =~= stamp_text(*t));
    string_of(&v)
}

/// The file name under which a batch is saved at time `t`.
pub fn batch_file_name_at(batch_name: &str, t: &LocalStamp) -> (r: String)
    requires
        t.wf(),
    ensures
        r@ == batch_file_text(batch_name@, *t),
{
    let mut v = chars_of(batch_name);
    v.push('_');
    push_stamp(&mut v, t);
    push_all(&mut v, &chars_of(".json"));
    assert(v@ =~= batch_file_text(batch_name@, *t));
    string_of(&v)
}

/// The file name under which an audit overlay of `sample_id` is archived at time `t`.
pub fn audit_file_name_at(sample_id: &str, t: &LocalStamp) -> (r: String)
    requires
        t.wf(),
    ensures
        r@ == audit_file_text(sample_id@, *t),
{
    let mut v = chars_of("audit_");
    push_all(&mut v, &chars_of(sample_id));
    v.push('_');
    push_stamp(&mut v, t);
    push_all(&mut v, &chars_of(".png"));
    assert(v@ =~= audit_file_text(sample_id@, *t));
    string_of(&v)
}

/// The file name under which a batch saved now is written.
pub fn batch_file_name(batch_name: &str) -> (r: String)
    ensures
        exists|t: LocalStamp| t.wf() && r@ == batch_file_text(batch_name@, t),
{
    let t = local_now();
    batch_file_name_at(batch_name, &t)
}

/// The file name under which an audit overlay archived now is written.
pub fn audit_file_name(sample_id: &str) -> (r: String)
    ensures
        exists|t: LocalStamp| t.wf() && r@ == audit_file_text(sample_id@, t),
{
    let t = local_now();
    audit_file_name_at(sample_id, &t)
}

} // verus!
