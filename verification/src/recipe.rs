//! The runs of steps that operations have in common.

use vstd::prelude::*;
use crate::engine::{encode_command, Tool};
use crate::job::{actions_of, done, fresh, lemma_actions_unfold, lemma_first_turn, lemma_next_turn,
    rate_of, step_of, step_views, ActionView, EventView, JobView, Keep, Rate, Step, StepView};
use crate::metadata::text_of;
use crate::engine::push;
use crate::plan::{plan_of, EncodePlan, PlanView};
use crate::text::{lowered, texts};

verus! {

/// The plan of the lossless form in which recordings are cut and joined.
pub open spec fn lossless() -> PlanView {
    PlanView {
        muxer: "wav"@,
        codec_args: seq!["-c:a"@, "pcm_s16le"@],
        takes_bitrate: false,
        extension: "wav"@,
    }
}

/// The steps that bring an input into the lossless form: stage it, reserve
/// the output, decode. The output is kept as `keep` says.
pub open spec fn decode_steps(blob: usize, hint: Option<Seq<char>>, keep: Keep) -> Seq<StepView> {
    seq![
        StepView::Stage { blob, hint },
        StepView::Reserve { hint: Some(lossless().extension) },
        StepView::Encode { plan: lossless(), filters: Seq::empty(), rate: Rate::Given(None), keep },
    ]
}

/// The steps that end a job: reserve an output named for the plan, encode
/// the source into it, hand it out.
pub open spec fn finish_steps(plan: PlanView, filters: Seq<Seq<char>>, rate: Rate) -> Seq<
    StepView,
> {
    seq![
        StepView::Reserve { hint: Some(plan.extension) },
        StepView::Encode { plan, filters, rate, keep: Keep::Advance },
        StepView::Collect,
    ]
}

/// The steps that join the parts set aside: list them, reserve the output,
/// join.
pub open spec fn join_steps() -> Seq<StepView> {
    seq![
        StepView::List,
        StepView::Reserve { hint: Some(lossless().extension) },
        StepView::Concat,
    ]
}

/// The steps of a job of one pass: stage the input, then finish.
pub open spec fn single_pass(
    blob: usize,
    hint: Option<Seq<char>>,
    plan: PlanView,
    filters: Seq<Seq<char>>,
    rate: Rate,
) -> Seq<StepView> {
    seq![StepView::Stage { blob, hint }] + finish_steps(plan, filters, rate)
}

/// Appends a step to a list of steps.
pub fn push_step(steps: &mut Vec<Step>, step: Step)
    ensures
        step_views(final(steps)@) == step_views(old(steps)@).push(step@),
{
    steps.push(step);
}

/// The plan of the lossless form.
pub fn lossless_plan() -> (p: EncodePlan)
    ensures
        p@ == lossless(),
{
    let mut codec_args: Vec<String> = Vec::new();
    push(&mut codec_args, &["-c:a", "pcm_s16le"]);
    assert(texts(codec_args@) =~= seq!["-c:a"@, "pcm_s16le"@]);
    EncodePlan {
        muxer: "wav".to_owned(),
        codec_args,
        takes_bitrate: false,
        extension: "wav".to_owned(),
    }
}

/// The lossless form is the plan of the format `wav`.
pub proof fn lemma_lossless_is_wav()
    ensures
        plan_of("wav"@) == Some(lossless()),
{
    reveal_strlit("wav");
    reveal_strlit("mp3");
    reveal_strlit("ogg");
    reveal_strlit("opus");
    reveal_strlit("aac");
    reveal_strlit("m4a");
    reveal_strlit("alac");
    reveal_strlit("wma");
    let w = "wav"@;
    assert(lowered(w) =~= w);
    assert(w[0] != "mp3"@[0] && w[0] != "ogg"@[0] && w[0] != "aac"@[0] && w[0] != "m4a"@[0]);
    assert(w[1] != "wma"@[1]);
}

/// Appends the steps that bring an input into the lossless form.
pub fn push_decode(steps: &mut Vec<Step>, blob: usize, hint: Option<String>, keep: Keep)
    ensures
        step_views(final(steps)@) == step_views(old(steps)@) + decode_steps(
            blob,
            text_of(hint),
            keep,
        ),
{
    let plan = lossless_plan();
    let ext = plan.extension.clone();
    let filters: Vec<String> = Vec::new();
    assert(texts(filters@) =~= Seq::empty());
    push_step(steps, Step::Stage { blob, hint });
    push_step(steps, Step::Reserve { hint: Some(ext) });
    push_step(steps, Step::Encode { plan, filters, rate: Rate::Given(None), keep });
    assert(step_views(steps@) =~= step_views(old(steps)@) + decode_steps(
        blob,
        text_of(hint),
        keep,
    ));
}

/// Appends the steps that join the parts set aside.
pub fn push_join(steps: &mut Vec<Step>)
    ensures
        step_views(final(steps)@) == step_views(old(steps)@) + join_steps(),
{
    let ext = lossless_plan().extension;
    push_step(steps, Step::List);
    push_step(steps, Step::Reserve { hint: Some(ext) });
    push_step(steps, Step::Concat);
}

/// Appends the steps that end a job.
pub fn push_finish(steps: &mut Vec<Step>, plan: EncodePlan, filters: Vec<String>, rate: Rate)
    ensures
        step_views(final(steps)@) == step_views(old(steps)@) + finish_steps(
            plan@,
            texts(filters@),
            rate,
        ),
{
    let ext = plan.extension.clone();
    push_step(steps, Step::Reserve { hint: Some(ext) });
    push_step(steps, Step::Encode { plan, filters, rate, keep: Keep::Advance });
    push_step(steps, Step::Collect);
    assert(step_views(steps@) =~= step_views(old(steps)@) + finish_steps(
        plan@,
        texts(filters@),
        rate,
    ));
}

/// The steps of a job of one pass.
pub fn single_pass_steps(
    blob: usize,
    hint: Option<String>,
    plan: EncodePlan,
    filters: Vec<String>,
    rate: Rate,
) -> (steps: Vec<Step>)
    ensures
        step_views(steps@) == single_pass(blob, text_of(hint), plan@, texts(filters@), rate),
{
    let mut steps: Vec<Step> = Vec::new();
    push_step(&mut steps, Step::Stage { blob, hint });
    push_finish(&mut steps, plan, filters, rate);
    steps
}

/// A job of one pass, where nothing fails, asks for four things in turn:
/// the input staged under its hint, an output named for the plan, one run
/// of the encoder from the one to the other with the arguments of the
/// plan, the filters and the rate, and the output as the result.
pub proof fn lemma_single_pass_runs_once(
    blob: usize,
    hint: Option<Seq<char>>,
    plan: PlanView,
    filters: Seq<Seq<char>>,
    rate: Rate,
    input: Seq<char>,
    output: Seq<char>,
)
    ensures
        actions_of(
            fresh(single_pass(blob, hint, plan, filters, rate)),
            seq![EventView::Start, EventView::Path(input), EventView::Path(output), done()],
        ) == seq![
            ActionView::Stage { blob, hint },
            ActionView::Reserve { hint: Some(plan.extension) },
            ActionView::Invoke {
                tool: Tool::Encoder,
                args: encode_command(input, plan, filters, rate_of(rate, None), output),
            },
            ActionView::Collect { path: output },
        ],
{
    let steps = single_pass(blob, hint, plan, filters, rate);
    assert(steps =~= seq![
        StepView::Stage { blob, hint },
        StepView::Reserve { hint: Some(plan.extension) },
        StepView::Encode { plan, filters, rate, keep: Keep::Advance },
        StepView::Collect,
    ]);
    let j0 = fresh(steps);
    let e3 = seq![done()];
    let e2 = seq![EventView::Path(output)] + e3;
    let e1 = seq![EventView::Path(input)] + e2;
    let e0 = seq![EventView::Start] + e1;
    let j1 = JobView { started: true, ..j0 };
    let j2 = JobView { pc: 1, source: input, ..j1 };
    let j3 = JobView { pc: 2, target: output, ..j2 };
    lemma_first_turn(j0);
    lemma_next_turn(j1, EventView::Path(input), JobView { source: input, ..j1 });
    lemma_next_turn(j2, EventView::Path(output), JobView { target: output, ..j2 });
    lemma_next_turn(j3, done(), JobView { source: output, ..j3 });
    lemma_actions_unfold(j0, EventView::Start, e1);
    lemma_actions_unfold(j1, EventView::Path(input), e2);
    lemma_actions_unfold(j2, EventView::Path(output), e3);
    lemma_actions_unfold(j3, done(), Seq::empty());
    assert(e0 =~= seq![EventView::Start, EventView::Path(input), EventView::Path(output), done()]);
    assert(actions_of(j0, e0) =~= seq![
        step_of(j0, EventView::Start).1,
        step_of(j1, EventView::Path(input)).1,
        step_of(j2, EventView::Path(output)).1,
        step_of(j3, done()).1,
    ]);
}

} // verus!
