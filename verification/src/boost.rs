//! Loudness: a gain given in decibels, or normalisation to a fixed target.

use vstd::prelude::*;
use crate::error::{AudioError, ErrorView};
use crate::job::{fresh, Job, Rate, StepView};
use crate::plan::{plan_for, plan_of};
use crate::recipe::{single_pass, single_pass_steps};
use crate::text::{decimal, lowered, push_decimal, texts};

verus! {

/// The filter that changes the volume by a gain in decibels. A negative
/// gain makes the recording quieter.
pub open spec fn volume_filter(gain: int) -> Seq<char> {
    "volume="@ + decimal(gain) + "dB"@
}

/// The filter that normalises loudness in one pass: an integrated loudness
/// of -16 LUFS, a true peak of -1.5 dBTP, a loudness range of 11 LU.
pub open spec fn loudness_filter() -> Seq<char> {
    "loudnorm=I=-16:TP=-1.5:LRA=11"@
}

/// The steps of a pass with one filter, or the refusal of a format without
/// a plan.
pub open spec fn filter_steps(blob: usize, output_format: Seq<char>, filter: Seq<char>) -> Result<
    Seq<StepView>,
    ErrorView,
> {
    match plan_of(output_format) {
        Some(plan) => Ok(single_pass(blob, None, plan, seq![filter], Rate::Given(None))),
        None => Err(ErrorView::UnsupportedFormat(lowered(output_format))),
    }
}

fn filter_job(blob: usize, output_format: &str, filter: String) -> (r: Result<Job, AudioError>)
    ensures
        match filter_steps(blob, output_format@, filter@) {
            Ok(steps) => r is Ok && r.unwrap()@ == fresh(steps),
            Err(e) => r is Err && r.unwrap_err()@ == e,
        },
{
    let plan = match plan_for(output_format) {
        Ok(p) => p,
        Err(e) => {
            return Err(e);
        },
    };
    let mut filters: Vec<String> = Vec::new();
    filters.push(filter);
    assert(texts(filters@) =~= seq![filter@]);
    Ok(Job::new(single_pass_steps(blob, None, plan, filters, Rate::Given(None))))
}

/// Plans a change of volume of input number `blob` of a request, encoded in
/// the format asked for.
pub fn boost_file(blob: usize, output_format: &str, gain: i32) -> (r: Result<Job, AudioError>)
    ensures
        match filter_steps(blob, output_format@, volume_filter(gain as int)) {
            Ok(steps) => r is Ok && r.unwrap()@ == fresh(steps),
            Err(e) => r is Err && r.unwrap_err()@ == e,
        },
{
    let mut filter = "volume=".to_owned();
    push_decimal(&mut filter, gain as i64);
    filter.append("dB");
    filter_job(blob, output_format, filter)
}

/// Plans the normalisation of input number `blob` of a request, encoded in
/// the format asked for.
pub fn normalize_file(blob: usize, output_format: &str) -> (r: Result<Job, AudioError>)
    ensures
        match filter_steps(blob, output_format@, loudness_filter()) {
            Ok(steps) => r is Ok && r.unwrap()@ == fresh(steps),
            Err(e) => r is Err && r.unwrap_err()@ == e,
        },
{
    filter_job(blob, output_format, "loudnorm=I=-16:TP=-1.5:LRA=11".to_owned())
}

} // verus!
