//! Trimming: keeping one range of a recording, or removing it.

use vstd::prelude::*;
use crate::engine::{preamble, push, push_kv, push_text};
use crate::error::{AudioError, ErrorView, Fault};
use crate::engine::{encode_command, Tool};
use crate::job::{actions_of, done, fresh, lemma_actions_unfold, lemma_first_turn, lemma_next_turn,
    step_of, step_views, ActionView, EventView, Job, JobView, Keep, Rate, Step, StepView};
use crate::merge::{concat_command, concat_list};
use crate::plan::{plan_for, plan_of, PlanView};
use crate::recipe::{decode_steps, finish_steps, join_steps, lossless, lossless_plan, push_decode,
    push_finish, push_join, push_step};
use crate::text::{decimal, decimal_string, lowered, same_text, texts};

verus! {

/// The start of a cut, where one is given.
pub open spec fn from_part(from: Option<i32>) -> Seq<Seq<char>> {
    match from {
        Some(s) => seq!["-ss"@, decimal(s as int)],
        None => Seq::empty(),
    }
}

/// The end of a cut, where one is given.
pub open spec fn to_part(to: Option<i32>) -> Seq<Seq<char>> {
    match to {
        Some(e) => seq!["-to"@, decimal(e as int)],
        None => Seq::empty(),
    }
}

/// The arguments of one cut: the range from `from` to `to`, in seconds, is
/// copied out of the lossless input without encoding it anew. A bound that
/// is absent leaves that side open.
#[verifier::opaque]
pub open spec fn cut_command(
    input: Seq<char>,
    from: Option<i32>,
    to: Option<i32>,
    output: Seq<char>,
) -> Seq<Seq<char>> {
    preamble() + seq!["-i"@, input] + from_part(from) + to_part(to) + seq![
        "-c"@,
        "copy"@,
        "-f"@,
        "wav"@,
        output,
    ]
}

/// Builds the arguments of one cut.
pub fn cut_args(input: &str, from: Option<i32>, to: Option<i32>, output: &str) -> (args: Vec<
    String,
>)
    ensures
        texts(args@) == cut_command(input@, from, to, output@),
{
    reveal(cut_command);
    let mut args: Vec<String> = Vec::new();
    push(&mut args, &["-y", "-hide_banner", "-loglevel", "error"]);
    push_kv(&mut args, "-i", input);
    match from {
        Some(s) => {
            let n = decimal_string(s as i64);
            push_kv(&mut args, "-ss", n.as_str());
        },
        None => {},
    }
    match to {
        Some(e) => {
            let n = decimal_string(e as i64);
            push_kv(&mut args, "-to", n.as_str());
        },
        None => {},
    }
    push(&mut args, &["-c", "copy", "-f", "wav"]);
    push_text(&mut args, output.to_owned());
    args
}

/// The steps that cut one range in the lossless form: reserve the output,
/// cut.
pub open spec fn cut_steps(from: Option<i32>, to: Option<i32>, keep: Keep, spare: bool) -> Seq<
    StepView,
> {
    seq![
        StepView::Reserve { hint: Some(lossless().extension) },
        StepView::Cut { from, to, keep, spare },
    ]
}

/// The steps that keep the range from `start` to `end`: decode, cut the
/// range, encode it in the format asked for.
pub open spec fn keep_steps(blob: usize, plan: PlanView, start: Option<i32>, end: Option<i32>)
    -> Seq<StepView> {
    decode_steps(blob, None, Keep::Advance) + cut_steps(start, end, Keep::Advance, false)
        + finish_steps(plan, Seq::empty(), Rate::Given(None))
}

/// The cut of what comes before the range, where the range has a start.
pub open spec fn head_steps(start: Option<i32>) -> Seq<StepView> {
    match start {
        Some(s) => cut_steps(None, Some(s), Keep::Part, true),
        None => Seq::empty(),
    }
}

/// The cut of what comes after the range, where the range has an end.
pub open spec fn tail_steps(end: Option<i32>) -> Seq<StepView> {
    match end {
        Some(e) => cut_steps(Some(e), None, Keep::Part, true),
        None => Seq::empty(),
    }
}

/// The steps that remove the range from `start` to `end`: decode, cut what
/// comes before the range and what comes after it, join the cuts that
/// succeeded in that order, encode the whole in the format asked for.
pub open spec fn remove_steps(blob: usize, plan: PlanView, start: Option<i32>, end: Option<i32>)
    -> Seq<StepView> {
    decode_steps(blob, None, Keep::Advance) + head_steps(start) + tail_steps(end) + join_steps()
        + finish_steps(plan, Seq::empty(), Rate::Given(None))
}

/// The steps of a trim, or the reason for which the request is refused: a
/// range whose end is not after its start, an action that is neither `keep`
/// nor `remove`, a removal without bounds, a format without a plan. The
/// first reason that holds, in this order, is the one given.
pub open spec fn trim_steps(
    blob: usize,
    output_format: Seq<char>,
    start: Option<i32>,
    end: Option<i32>,
    action: Seq<char>,
) -> Result<Seq<StepView>, ErrorView> {
    if start is Some && end is Some && end->0 <= start->0 {
        Err(ErrorView::InvalidArgument(Fault::EmptyRange))
    } else if action != "keep"@ && action != "remove"@ {
        Err(ErrorView::InvalidArgument(Fault::UnknownAction))
    } else if action == "remove"@ && start is None && end is None {
        Err(ErrorView::InvalidArgument(Fault::NothingToRemove))
    } else {
        match plan_of(output_format) {
            None => Err(ErrorView::UnsupportedFormat(lowered(output_format))),
            Some(plan) => if action == "keep"@ {
                Ok(keep_steps(blob, plan, start, end))
            } else {
                Ok(remove_steps(blob, plan, start, end))
            },
        }
    }
}

fn push_cut(steps: &mut Vec<Step>, from: Option<i32>, to: Option<i32>, keep: Keep, spare: bool)
    ensures
        step_views(final(steps)@) == step_views(old(steps)@) + cut_steps(from, to, keep, spare),
{
    let ext = lossless_plan().extension;
    push_step(steps, Step::Reserve { hint: Some(ext) });
    push_step(steps, Step::Cut { from, to, keep, spare });
}

/// Plans the trim of input number `blob` of a request: with the action
/// `keep` the range from `start_sec` to `end_sec` is what stays, with
/// `remove` it is what goes. A bound that is absent leaves that side open.
pub fn trim_file(
    blob: usize,
    output_format: &str,
    start_sec: Option<i32>,
    end_sec: Option<i32>,
    action: &str,
) -> (r: Result<Job, AudioError>)
    ensures
        match trim_steps(blob, output_format@, start_sec, end_sec, action@) {
            Ok(steps) => r is Ok && r.unwrap()@ == fresh(steps),
            Err(e) => r is Err && r.unwrap_err()@ == e,
        },
{
    match (start_sec, end_sec) {
        (Some(s), Some(e)) => {
            if e <= s {
                return Err(AudioError::InvalidArgument(Fault::EmptyRange));
            }
        },
        _ => {},
    }
    let keep = same_text(action, "keep");
    if !keep && !same_text(action, "remove") {
        return Err(AudioError::InvalidArgument(Fault::UnknownAction));
    }
    if !keep && start_sec.is_none() && end_sec.is_none() {
        return Err(AudioError::InvalidArgument(Fault::NothingToRemove));
    }
    proof {
        reveal_strlit("keep");
        reveal_strlit("remove");
        assert("keep"@.len() != "remove"@.len());
    }
    let plan = match plan_for(output_format) {
        Ok(p) => p,
        Err(e) => {
            return Err(e);
        },
    };
    let mut steps: Vec<Step> = Vec::new();
    push_decode(&mut steps, blob, None, Keep::Advance);
    if keep {
        push_cut(&mut steps, start_sec, end_sec, Keep::Advance, false);
    } else {
        match start_sec {
            Some(s) => push_cut(&mut steps, None, Some(s), Keep::Part, true),
            None => {},
        }
        assert(step_views(steps@) =~= decode_steps(blob, None, Keep::Advance) + head_steps(
            start_sec,
        ));
        match end_sec {
            Some(e) => push_cut(&mut steps, Some(e), None, Keep::Part, true),
            None => {},
        }
        assert(step_views(steps@) =~= decode_steps(blob, None, Keep::Advance) + head_steps(
            start_sec,
        ) + tail_steps(end_sec));
        push_join(&mut steps);
    }
    let filters: Vec<String> = Vec::new();
    assert(texts(filters@) =~= Seq::empty());
    push_finish(&mut steps, plan, filters, Rate::Given(None));
    Ok(Job::new(steps))
}

/// The steps of a trim that keeps a range, one by one.
pub proof fn lemma_keep_steps_listed(
    blob: usize,
    plan: PlanView,
    start: Option<i32>,
    end: Option<i32>,
)
    ensures
        keep_steps(blob, plan, start, end) == seq![
            StepView::Stage { blob, hint: None },
            StepView::Reserve { hint: Some(lossless().extension) },
            StepView::Encode {
                plan: lossless(),
                filters: Seq::empty(),
                rate: Rate::Given(None),
                keep: Keep::Advance,
            },
            StepView::Reserve { hint: Some(lossless().extension) },
            StepView::Cut { from: start, to: end, keep: Keep::Advance, spare: false },
            StepView::Reserve { hint: Some(plan.extension) },
            StepView::Encode {
                plan,
                filters: Seq::empty(),
                rate: Rate::Given(None),
                keep: Keep::Advance,
            },
            StepView::Collect,
        ],
{
    assert(keep_steps(blob, plan, start, end) =~= seq![
        StepView::Stage { blob, hint: None },
        StepView::Reserve { hint: Some(lossless().extension) },
        StepView::Encode {
            plan: lossless(),
            filters: Seq::empty(),
            rate: Rate::Given(None),
            keep: Keep::Advance,
        },
        StepView::Reserve { hint: Some(lossless().extension) },
        StepView::Cut { from: start, to: end, keep: Keep::Advance, spare: false },
        StepView::Reserve { hint: Some(plan.extension) },
        StepView::Encode {
            plan,
            filters: Seq::empty(),
            rate: Rate::Given(None),
            keep: Keep::Advance,
        },
        StepView::Collect,
    ]);
}

/// A trim that keeps a range, where nothing fails, runs the encoder three
/// times: it decodes the input, cuts the range from `start` to `end` out
/// of the decoded file, and encodes the cut in the format asked for.
pub proof fn lemma_keep_cuts_the_range(
    blob: usize,
    plan: PlanView,
    start: Option<i32>,
    end: Option<i32>,
    input: Seq<char>,
    decoded: Seq<char>,
    cut: Seq<char>,
    output: Seq<char>,
)
    ensures
        actions_of(
            fresh(keep_steps(blob, plan, start, end)),
            seq![
                EventView::Start,
                EventView::Path(input),
                EventView::Path(decoded),
                done(),
                EventView::Path(cut),
                done(),
                EventView::Path(output),
                done(),
            ],
        ) == seq![
            ActionView::Stage { blob, hint: None },
            ActionView::Reserve { hint: Some(lossless().extension) },
            ActionView::Invoke {
                tool: Tool::Encoder,
                args: encode_command(input, lossless(), Seq::empty(), None, decoded),
            },
            ActionView::Reserve { hint: Some(lossless().extension) },
            ActionView::Invoke { tool: Tool::Encoder, args: cut_command(decoded, start, end, cut) },
            ActionView::Reserve { hint: Some(plan.extension) },
            ActionView::Invoke {
                tool: Tool::Encoder,
                args: encode_command(cut, plan, Seq::empty(), None, output),
            },
            ActionView::Collect { path: output },
        ],
{
    let steps = keep_steps(blob, plan, start, end);
    lemma_keep_steps_listed(blob, plan, start, end);
    let j0 = fresh(steps);
    let e7 = seq![done()];
    let e6 = seq![EventView::Path(output)] + e7;
    let e5 = seq![done()] + e6;
    let e4 = seq![EventView::Path(cut)] + e5;
    let e3 = seq![done()] + e4;
    let e2 = seq![EventView::Path(decoded)] + e3;
    let e1 = seq![EventView::Path(input)] + e2;
    let e0 = seq![EventView::Start] + e1;
    let j1 = JobView { started: true, ..j0 };
    let j2 = JobView { pc: 1, source: input, ..j1 };
    let j3 = JobView { pc: 2, target: decoded, ..j2 };
    let j4 = JobView { pc: 3, source: decoded, ..j3 };
    let j5 = JobView { pc: 4, target: cut, ..j4 };
    let j6 = JobView { pc: 5, source: cut, ..j5 };
    let j7 = JobView { pc: 6, target: output, ..j6 };
    lemma_first_turn(j0);
    lemma_next_turn(j1, EventView::Path(input), JobView { source: input, ..j1 });
    lemma_next_turn(j2, EventView::Path(decoded), JobView { target: decoded, ..j2 });
    lemma_next_turn(j3, done(), JobView { source: decoded, ..j3 });
    lemma_next_turn(j4, EventView::Path(cut), JobView { target: cut, ..j4 });
    lemma_next_turn(j5, done(), JobView { source: cut, ..j5 });
    lemma_next_turn(j6, EventView::Path(output), JobView { target: output, ..j6 });
    lemma_next_turn(j7, done(), JobView { source: output, ..j7 });
    lemma_actions_unfold(j0, EventView::Start, e1);
    lemma_actions_unfold(j1, EventView::Path(input), e2);
    lemma_actions_unfold(j2, EventView::Path(decoded), e3);
    lemma_actions_unfold(j3, done(), e4);
    lemma_actions_unfold(j4, EventView::Path(cut), e5);
    lemma_actions_unfold(j5, done(), e6);
    lemma_actions_unfold(j6, EventView::Path(output), e7);
    lemma_actions_unfold(j7, done(), Seq::empty());
    assert(e0 =~= seq![
        EventView::Start,
        EventView::Path(input),
        EventView::Path(decoded),
        done(),
        EventView::Path(cut),
        done(),
        EventView::Path(output),
        done(),
    ]);
    assert(actions_of(j0, e0) =~= seq![
        step_of(j0, EventView::Start).1,
        step_of(j1, EventView::Path(input)).1,
        step_of(j2, EventView::Path(decoded)).1,
        step_of(j3, done()).1,
        step_of(j4, EventView::Path(cut)).1,
        step_of(j5, done()).1,
        step_of(j6, EventView::Path(output)).1,
        step_of(j7, done()).1,
    ]);
}

/// A trim that removes what follows a start, no end being given, cuts one
/// part, the one before the start, and joins that part alone: what stays
/// is the recording up to the start.
pub proof fn lemma_remove_after_start_keeps_head(
    blob: usize,
    plan: PlanView,
    start: i32,
    input: Seq<char>,
    decoded: Seq<char>,
    head: Seq<char>,
    list: Seq<char>,
    joined: Seq<char>,
    output: Seq<char>,
)
    ensures
        actions_of(
            fresh(remove_steps(blob, plan, Some(start), None)),
            seq![
                EventView::Start,
                EventView::Path(input),
                EventView::Path(decoded),
                done(),
                EventView::Path(head),
                done(),
                EventView::Path(list),
                EventView::Path(joined),
                done(),
                EventView::Path(output),
                done(),
            ],
        ) == seq![
            ActionView::Stage { blob, hint: None },
            ActionView::Reserve { hint: Some(lossless().extension) },
            ActionView::Invoke {
                tool: Tool::Encoder,
                args: encode_command(input, lossless(), Seq::empty(), None, decoded),
            },
            ActionView::Reserve { hint: Some(lossless().extension) },
            ActionView::Invoke {
                tool: Tool::Encoder,
                args: cut_command(decoded, None, Some(start), head),
            },
            ActionView::StageText { text: concat_list(seq![head]) },
            ActionView::Reserve { hint: Some(lossless().extension) },
            ActionView::Invoke { tool: Tool::Encoder, args: concat_command(list, joined) },
            ActionView::Reserve { hint: Some(plan.extension) },
            ActionView::Invoke {
                tool: Tool::Encoder,
                args: encode_command(joined, plan, Seq::empty(), None, output),
            },
            ActionView::Collect { path: output },
        ],
{
    let wav = StepView::Reserve { hint: Some(lossless().extension) };
    let steps = remove_steps(blob, plan, Some(start), None);
    assert(steps =~= seq![
        StepView::Stage { blob, hint: None },
        wav,
        StepView::Encode {
            plan: lossless(),
            filters: Seq::empty(),
            rate: Rate::Given(None),
            keep: Keep::Advance,
        },
        wav,
        StepView::Cut { from: None, to: Some(start), keep: Keep::Part, spare: true },
        StepView::List,
        wav,
        StepView::Concat,
        StepView::Reserve { hint: Some(plan.extension) },
        StepView::Encode {
            plan,
            filters: Seq::empty(),
            rate: Rate::Given(None),
            keep: Keep::Advance,
        },
        StepView::Collect,
    ]);
    let j0 = fresh(steps);
    let e10 = seq![done()];
    let e9 = seq![EventView::Path(output)] + e10;
    let e8 = seq![done()] + e9;
    let e7 = seq![EventView::Path(joined)] + e8;
    let e6 = seq![EventView::Path(list)] + e7;
    let e5 = seq![done()] + e6;
    let e4 = seq![EventView::Path(head)] + e5;
    let e3 = seq![done()] + e4;
    let e2 = seq![EventView::Path(decoded)] + e3;
    let e1 = seq![EventView::Path(input)] + e2;
    let e0 = seq![EventView::Start] + e1;
    let j1 = JobView { started: true, ..j0 };
    let j2 = JobView { pc: 1, source: input, ..j1 };
    let j3 = JobView { pc: 2, target: decoded, ..j2 };
    let j4 = JobView { pc: 3, source: decoded, ..j3 };
    let j5 = JobView { pc: 4, target: head, ..j4 };
    let j6 = JobView { pc: 5, parts: seq![head], ..j5 };
    let j7 = JobView { pc: 6, source: list, ..j6 };
    let j8 = JobView { pc: 7, target: joined, ..j7 };
    let j9 = JobView { pc: 8, source: joined, ..j8 };
    let j10 = JobView { pc: 9, target: output, ..j9 };
    lemma_first_turn(j0);
    lemma_next_turn(j1, EventView::Path(input), JobView { source: input, ..j1 });
    lemma_next_turn(j2, EventView::Path(decoded), JobView { target: decoded, ..j2 });
    lemma_next_turn(j3, done(), JobView { source: decoded, ..j3 });
    lemma_next_turn(j4, EventView::Path(head), JobView { target: head, ..j4 });
    lemma_next_turn(j5, done(), JobView { parts: seq![head], ..j5 });
    lemma_next_turn(j6, EventView::Path(list), JobView { source: list, ..j6 });
    lemma_next_turn(j7, EventView::Path(joined), JobView { target: joined, ..j7 });
    lemma_next_turn(j8, done(), JobView { source: joined, ..j8 });
    lemma_next_turn(j9, EventView::Path(output), JobView { target: output, ..j9 });
    lemma_next_turn(j10, done(), JobView { source: output, ..j10 });
    lemma_actions_unfold(j0, EventView::Start, e1);
    lemma_actions_unfold(j1, EventView::Path(input), e2);
    lemma_actions_unfold(j2, EventView::Path(decoded), e3);
    lemma_actions_unfold(j3, done(), e4);
    lemma_actions_unfold(j4, EventView::Path(head), e5);
    lemma_actions_unfold(j5, done(), e6);
    lemma_actions_unfold(j6, EventView::Path(list), e7);
    lemma_actions_unfold(j7, EventView::Path(joined), e8);
    lemma_actions_unfold(j8, done(), e9);
    lemma_actions_unfold(j9, EventView::Path(output), e10);
    lemma_actions_unfold(j10, done(), Seq::empty());
    assert(e0 =~= seq![
        EventView::Start,
        EventView::Path(input),
        EventView::Path(decoded),
        done(),
        EventView::Path(head),
        done(),
        EventView::Path(list),
        EventView::Path(joined),
        done(),
        EventView::Path(output),
        done(),
    ]);
    assert(actions_of(j0, e0) =~= seq![
        step_of(j0, EventView::Start).1,
        step_of(j1, EventView::Path(input)).1,
        step_of(j2, EventView::Path(decoded)).1,
        step_of(j3, done()).1,
        step_of(j4, EventView::Path(head)).1,
        step_of(j5, done()).1,
        step_of(j6, EventView::Path(list)).1,
        step_of(j7, EventView::Path(joined)).1,
        step_of(j8, done()).1,
        step_of(j9, EventView::Path(output)).1,
        step_of(j10, done()).1,
    ]);
}

/// A range to keep whose end is not after its start is refused before
/// anything is asked of the engine, whatever the format.
pub proof fn lemma_empty_range_is_refused(
    blob: usize,
    output_format: Seq<char>,
    start: i32,
    end: i32,
    action: Seq<char>,
)
    requires
        start >= end,
    ensures
        trim_steps(blob, output_format, Some(start), Some(end), action) == Err::<
            Seq<StepView>,
            ErrorView,
        >(ErrorView::InvalidArgument(Fault::EmptyRange)),
{
}

} // verus!
