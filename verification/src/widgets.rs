use vstd::prelude::*;
use crate::text::{dec, dec2, push_char, push_dec, push_dec2, push_str};

verus! {

/// `mm:ss` for a number of seconds; the minutes grow past two digits when they must.
pub open spec fn clock_text(secs: nat) -> Seq<char> {
    dec2(secs / 60) + seq![':'] + dec2(secs % 60)
}

/// What `Duration::as_secs` returns for a duration: its whole seconds.
pub uninterp spec fn duration_secs(d: std::time::Duration) -> u64;

/// `Duration::as_secs`: the number of whole seconds in the duration, named `duration_secs`.
#[verifier::external_body]
fn whole_seconds(d: &std::time::Duration) -> (r: u64)
    ensures
        r == duration_secs(*d),
{
    d.as_secs()
}

/// The clock shown while recording, for a number of whole seconds.
pub fn clock_from_secs(secs: u64) -> (r: String)
    ensures
        r@ == clock_text(secs as nat),
{
    let mut s = String::new();
    push_dec2(&mut s, secs / 60);
    push_char(&mut s, ':');
    push_dec2(&mut s, secs % 60);
    s
}

/// The clock shown while recording: the whole seconds of `duration` as `mm:ss`.
pub fn format_clock(duration: std::time::Duration) -> (r: String)
    ensures
        r@ == clock_text(duration_secs(duration) as nat),
{
    let secs = whole_seconds(&duration);
    clock_from_secs(secs)
}

/// The note under the resolution setting: the recorded square and the two export sizes.
pub open spec fn resolution_note(side: nat) -> Seq<char> {
    let band = side * 9 / 16;
    "Records a "@ + dec(side) + "×"@ + dec(side) + " square, then exports "@ + dec(side) + "×"@
        + dec(band) + " landscape and "@ + dec(band) + "×"@ + dec(side) + " portrait."@
}

pub fn resolution_hint(side: u32) -> (r: String)
    requires
        side <= 477218588,
    ensures
        r@ == resolution_note(side as nat),
{
    let band = side * 9 / 16;
    let mut s = String::new();
    push_str(&mut s, "Records a ");
    push_dec(&mut s, side as u128);
    push_str(&mut s, "×");
    push_dec(&mut s, side as u128);
    push_str(&mut s, " square, then exports ");
    push_dec(&mut s, side as u128);
    push_str(&mut s, "×");
    push_dec(&mut s, band as u128);
    push_str(&mut s, " landscape and ");
    push_dec(&mut s, band as u128);
    push_str(&mut s, "×");
    push_dec(&mut s, side as u128);
    push_str(&mut s, " portrait.");
    s
}

} // verus!
