//! Compression: one recording encoded anew in its own format, at a lower
//! rate.

use vstd::prelude::*;
use crate::engine::{encode_command, Tool};
use crate::error::{AudioError, ErrorView};
use crate::job::{actions_of, done, fresh, lemma_actions_unfold, lemma_first_turn, lemma_next_turn,
    step_of, step_views, ActionView, EventView, Job, JobView, Keep, Rate, Step, StepView};
use crate::plan::{plan_for, plan_of, PlanView};
use crate::probe::probe_command;
use crate::rate::{rule_entry, rule_rate, RateRule};
use crate::recipe::{finish_steps, push_finish, push_step, single_pass, single_pass_steps};
use crate::text::{lowered, texts};

verus! {

/// The rate at which a recording is compressed where none is asked for.
pub const DEFAULT_KBPS: i32 = 128;

/// The rate asked for, or the default.
pub open spec fn rate_or_default(bitrate: Option<i32>) -> i32 {
    match bitrate {
        Some(k) => k,
        None => DEFAULT_KBPS,
    }
}

/// The steps of a compression at a rate that is known, or the refusal of a
/// format without a plan.
pub open spec fn compress_steps(blob: usize, output_format: Seq<char>, bitrate: Option<i32>)
    -> Result<Seq<StepView>, ErrorView> {
    match plan_of(output_format) {
        Some(plan) => Ok(
            single_pass(
                blob,
                None,
                plan,
                Seq::empty(),
                Rate::Given(Some(rate_or_default(bitrate))),
            ),
        ),
        None => Err(ErrorView::UnsupportedFormat(lowered(output_format))),
    }
}

/// The steps of a compression with a plan at a rate that follows from a
/// probe: stage the input, probe it, then encode at the rate that the rule
/// gives.
pub open spec fn probed_plan_steps(blob: usize, plan: PlanView, rule: RateRule) -> Seq<StepView> {
    seq![StepView::Stage { blob, hint: None }, StepView::Probe { rule }] + finish_steps(
        plan,
        Seq::empty(),
        Rate::Probed,
    )
}

/// The steps of a compression at a rate that follows from a probe, or the
/// refusal of a format without a plan.
pub open spec fn probed_steps(blob: usize, output_format: Seq<char>, rule: RateRule) -> Result<
    Seq<StepView>,
    ErrorView,
> {
    match plan_of(output_format) {
        Some(plan) => Ok(probed_plan_steps(blob, plan, rule)),
        None => Err(ErrorView::UnsupportedFormat(lowered(output_format))),
    }
}

/// Plans the compression of input number `blob` of a request at a given
/// rate, in kilobits per second.
pub fn compress_file(blob: usize, output_format: &str, bitrate: Option<i32>) -> (r: Result<
    Job,
    AudioError,
>)
    ensures
        match compress_steps(blob, output_format@, bitrate) {
            Ok(steps) => r is Ok && r.unwrap()@ == fresh(steps),
            Err(e) => r is Err && r.unwrap_err()@ == e,
        },
{
    let plan = match plan_for(output_format) {
        Ok(p) => p,
        Err(e) => {
            return Err(e);
        },
    };
    let kbps = match bitrate {
        Some(k) => k,
        None => DEFAULT_KBPS,
    };
    let filters: Vec<String> = Vec::new();
    assert(texts(filters@) =~= Seq::empty());
    Ok(Job::new(single_pass_steps(blob, None, plan, filters, Rate::Given(Some(kbps)))))
}

/// Plans the compression of input number `blob` of a request at the rate
/// that a rule derives from a probe of the input.
pub fn compress_probed(blob: usize, output_format: &str, rule: RateRule) -> (r: Result<
    Job,
    AudioError,
>)
    ensures
        match probed_steps(blob, output_format@, rule) {
            Ok(steps) => r is Ok && r.unwrap()@ == fresh(steps),
            Err(e) => r is Err && r.unwrap_err()@ == e,
        },
{
    let plan = match plan_for(output_format) {
        Ok(p) => p,
        Err(e) => {
            return Err(e);
        },
    };
    let filters: Vec<String> = Vec::new();
    assert(texts(filters@) =~= Seq::empty());
    let mut steps: Vec<Step> = Vec::new();
    push_step(&mut steps, Step::Stage { blob, hint: None });
    push_step(&mut steps, Step::Probe { rule });
    push_finish(&mut steps, plan, filters, Rate::Probed);
    assert(step_views(steps@) =~= probed_plan_steps(blob, plan@, rule));
    Ok(Job::new(steps))
}

/// A compression by a rule, where nothing fails, probes the staged input
/// for what the rule needs, and encodes that same input at the rate that
/// the rule makes of the prober's answer.
pub proof fn lemma_probed_rate_is_encoded(
    blob: usize,
    plan: PlanView,
    rule: RateRule,
    input: Seq<char>,
    answer: Seq<char>,
    output: Seq<char>,
    kbps: i32,
)
    requires
        rule_rate(rule, true, answer, Seq::empty()) == Ok::<i32, ErrorView>(kbps),
    ensures
        actions_of(
            fresh(probed_plan_steps(blob, plan, rule)),
            seq![
                EventView::Start,
                EventView::Path(input),
                EventView::Exit { success: true, stdout: answer, stderr: Seq::empty() },
                EventView::Path(output),
                done(),
            ],
        ) == seq![
            ActionView::Stage { blob, hint: None },
            ActionView::Invoke {
                tool: Tool::Prober,
                args: probe_command(rule_entry(rule), input),
            },
            ActionView::Reserve { hint: Some(plan.extension) },
            ActionView::Invoke {
                tool: Tool::Encoder,
                args: encode_command(input, plan, Seq::empty(), Some(kbps), output),
            },
            ActionView::Collect { path: output },
        ],
{
    let steps = probed_plan_steps(blob, plan, rule);
    assert(steps =~= seq![
        StepView::Stage { blob, hint: None },
        StepView::Probe { rule },
        StepView::Reserve { hint: Some(plan.extension) },
        StepView::Encode { plan, filters: Seq::empty(), rate: Rate::Probed, keep: Keep::Advance },
        StepView::Collect,
    ]);
    let probed = EventView::Exit { success: true, stdout: answer, stderr: Seq::empty() };
    let j0 = fresh(steps);
    let e4 = seq![done()];
    let e3 = seq![EventView::Path(output)] + e4;
    let e2 = seq![probed] + e3;
    let e1 = seq![EventView::Path(input)] + e2;
    let e0 = seq![EventView::Start] + e1;
    let j1 = JobView { started: true, ..j0 };
    let j2 = JobView { pc: 1, source: input, ..j1 };
    let j3 = JobView { pc: 2, kbps: Some(kbps), ..j2 };
    let j4 = JobView { pc: 3, target: output, ..j3 };
    lemma_first_turn(j0);
    lemma_next_turn(j1, EventView::Path(input), JobView { source: input, ..j1 });
    lemma_next_turn(j2, probed, JobView { kbps: Some(kbps), ..j2 });
    lemma_next_turn(j3, EventView::Path(output), JobView { target: output, ..j3 });
    lemma_next_turn(j4, done(), JobView { source: output, ..j4 });
    lemma_actions_unfold(j0, EventView::Start, e1);
    lemma_actions_unfold(j1, EventView::Path(input), e2);
    lemma_actions_unfold(j2, probed, e3);
    lemma_actions_unfold(j3, EventView::Path(output), e4);
    lemma_actions_unfold(j4, done(), Seq::empty());
    assert(e0 =~= seq![
        EventView::Start,
        EventView::Path(input),
        probed,
        EventView::Path(output),
        done(),
    ]);
    assert(actions_of(j0, e0) =~= seq![
        step_of(j0, EventView::Start).1,
        step_of(j1, EventView::Path(input)).1,
        step_of(j2, probed).1,
        step_of(j3, EventView::Path(output)).1,
        step_of(j4, done()).1,
    ]);
}

} // verus!
