//! Merging: joining recordings end to end, in the order given.

use vstd::prelude::*;
use crate::engine::{preamble, push, push_kv, push_text};
use crate::error::{AudioError, ErrorView, Fault};
use crate::job::{actions_of, after, done, fresh, lemma_first_turn, lemma_next_turn,
    lemma_one_more_event, step_views, ActionView, EventView, Job, JobView, Keep, Rate, Step,
    StepView};
use crate::name::{ext_of, extension};
use crate::plan::{plan_for, plan_of, PlanView};
use crate::recipe::{decode_steps, finish_steps, join_steps, lossless, push_decode, push_finish,
    push_join};
use crate::text::{lowered, push_char, texts};

verus! {

/// A path as it stands between single quotes in a list of files: each
/// single quote of the path closes the quotation, stands escaped, and
/// opens it again.
pub open spec fn quoted(path: Seq<char>) -> Seq<char>
    decreases path.len(),
{
    if path.len() == 0 {
        Seq::empty()
    } else if path.last() == '\'' {
        quoted(path.drop_last()) + seq!['\'', '\\', '\'', '\'']
    } else {
        quoted(path.drop_last()).push(path.last())
    }
}

/// The line that names one file in a list of files to join.
pub open spec fn list_line(path: Seq<char>) -> Seq<char> {
    "file '"@ + quoted(path) + "'\n"@
}

/// The list of files to join: one line for each path, in order.
pub open spec fn concat_list(paths: Seq<Seq<char>>) -> Seq<char>
    decreases paths.len(),
{
    if paths.len() == 0 {
        Seq::empty()
    } else {
        concat_list(paths.drop_last()) + list_line(paths.last())
    }
}

/// The arguments of one joining pass: the files that the list names are
/// copied end to end into one lossless output.
#[verifier::opaque]
pub open spec fn concat_command(list: Seq<char>, output: Seq<char>) -> Seq<Seq<char>> {
    preamble() + seq!["-f"@, "concat"@, "-safe"@, "0"@, "-i"@, list, "-c"@, "copy"@, "-f"@, "wav"@,
        output]
}

/// Builds the list of files to join.
pub fn concat_list_text(paths: &Vec<String>) -> (r: String)
    ensures
        r@ == concat_list(texts(paths@)),
{
    let mut r = String::new();
    let mut i: usize = 0;
    while i < paths.len()
        invariant
            i <= paths.len(),
            r@ == concat_list(texts(paths@).subrange(0, i as int)),
        decreases paths.len() - i,
    {
        let ghost head = texts(paths@).subrange(0, i as int);
        let ghost next = texts(paths@).subrange(0, i + 1);
        assert(next.drop_last() =~= head);
        r.append("file '");
        let path = paths[i].as_str();
        let ghost opened = r@;
        for c in it: path.chars()
            invariant
                it.seq() == path@,
                r@ == opened + quoted(path@.subrange(0, it.index())),
        {
            let ghost seen = path@.subrange(0, it.index());
            let ghost more = path@.subrange(0, it.index() + 1);
            assert(more.drop_last() =~= seen);
            if c == '\'' {
                push_char(&mut r, '\'');
                push_char(&mut r, '\\');
                push_char(&mut r, '\'');
                push_char(&mut r, '\'');
            } else {
                push_char(&mut r, c);
            }
        }
        assert(path@.subrange(0, path@.len() as int) =~= path@);
        r.append("'\n");
        i = i + 1;
    }
    assert(texts(paths@).subrange(0, i as int) =~= texts(paths@));
    r
}

/// Builds the arguments of one joining pass.
pub fn concat_args(list: &str, output: &str) -> (args: Vec<String>)
    ensures
        texts(args@) == concat_command(list@, output@),
{
    reveal(concat_command);
    let mut args: Vec<String> = Vec::new();
    push(&mut args, &["-y", "-hide_banner", "-loglevel", "error"]);
    push(&mut args, &["-f", "concat", "-safe", "0"]);
    push_kv(&mut args, "-i", list);
    push(&mut args, &["-c", "copy", "-f", "wav"]);
    push_text(&mut args, output.to_owned());
    args
}

/// The steps that bring the first `n` inputs into the lossless form, one
/// after the other, each staged under the extension of its name and each
/// set aside as a part.
pub open spec fn inputs_steps(names: Seq<Seq<char>>, n: nat) -> Seq<StepView>
    decreases n,
{
    if n == 0 {
        Seq::empty()
    } else {
        inputs_steps(names, (n - 1) as nat) + decode_steps(
            (n - 1) as usize,
            extension(names[n - 1]),
            Keep::Part,
        )
    }
}

/// The steps of a merge: decode every input in the order of the request,
/// join the parts in that order, encode the whole in the format asked for.
/// A merge without inputs is refused, and so is a format without a plan.
pub open spec fn merge_steps(names: Seq<Seq<char>>, output_format: Seq<char>) -> Result<
    Seq<StepView>,
    ErrorView,
> {
    if names.len() == 0 {
        Err(ErrorView::InvalidArgument(Fault::NoInputs))
    } else {
        match plan_of(output_format) {
            Some(plan) => Ok(merge_plan_steps(names, plan)),
            None => Err(ErrorView::UnsupportedFormat(lowered(output_format))),
        }
    }
}

/// Plans the merge of the inputs of a request, which are named in `names`
/// in the order in which they are to sound.
pub fn merge_sequential(names: &Vec<String>, output_format: &str) -> (r: Result<Job, AudioError>)
    ensures
        match merge_steps(texts(names@), output_format@) {
            Ok(steps) => r is Ok && r.unwrap()@ == fresh(steps),
            Err(e) => r is Err && r.unwrap_err()@ == e,
        },
{
    if names.len() == 0 {
        return Err(AudioError::InvalidArgument(Fault::NoInputs));
    }
    let plan = match plan_for(output_format) {
        Ok(p) => p,
        Err(e) => {
            return Err(e);
        },
    };
    let mut steps: Vec<Step> = Vec::new();
    let mut i: usize = 0;
    while i < names.len()
        invariant
            i <= names.len(),
            step_views(steps@) == inputs_steps(texts(names@), i as nat),
        decreases names.len() - i,
    {
        let hint = ext_of(names[i].as_str());
        push_decode(&mut steps, i, hint, Keep::Part);
        i = i + 1;
    }
    push_join(&mut steps);
    let filters: Vec<String> = Vec::new();
    assert(texts(filters@) =~= Seq::empty());
    push_finish(&mut steps, plan, filters, Rate::Given(None));
    Ok(Job::new(steps))
}

/// The steps of a merge whose format has the given plan.
pub open spec fn merge_plan_steps(names: Seq<Seq<char>>, plan: PlanView) -> Seq<StepView> {
    inputs_steps(names, names.len()) + join_steps() + finish_steps(
        plan,
        Seq::empty(),
        Rate::Given(None),
    )
}

/// What a merge is told while it decodes its first `k` inputs and nothing
/// fails: to start, and then for each input, in order, the path at which
/// it was staged, the path of the file reserved for its decoded form, and
/// that the decoding succeeded.
pub open spec fn decoding_events(staged: Seq<Seq<char>>, decoded: Seq<Seq<char>>, k: nat) -> Seq<
    EventView,
>
    decreases k,
{
    if k == 0 {
        seq![EventView::Start]
    } else {
        decoding_events(staged, decoded, (k - 1) as nat).push(EventView::Path(staged[k - 1])).push(
            EventView::Path(decoded[k - 1]),
        ).push(done())
    }
}

proof fn lemma_inputs_steps_len(names: Seq<Seq<char>>, n: nat)
    ensures
        inputs_steps(names, n).len() == 3 * n,
    decreases n,
{
    if n > 0 {
        lemma_inputs_steps_len(names, (n - 1) as nat);
    }
}

proof fn lemma_inputs_steps(names: Seq<Seq<char>>, n: nat, i: int)
    requires
        0 <= i < n,
    ensures
        inputs_steps(names, n).len() == 3 * n,
        inputs_steps(names, n)[3 * i] == (StepView::Stage {
            blob: i as usize,
            hint: extension(names[i]),
        }),
        inputs_steps(names, n)[3 * i + 1] == (StepView::Reserve {
            hint: Some(lossless().extension),
        }),
        inputs_steps(names, n)[3 * i + 2] == (StepView::Encode {
            plan: lossless(),
            filters: Seq::empty(),
            rate: Rate::Given(None),
            keep: Keep::Part,
        }),
    decreases n,
{
    lemma_inputs_steps_len(names, n);
    lemma_inputs_steps_len(names, (n - 1) as nat);
    if i < n - 1 {
        lemma_inputs_steps(names, (n - 1) as nat, i);
    }
}

/// The state of a merge after its first `k` inputs are decoded.
spec fn decoded_state(
    steps: Seq<StepView>,
    staged: Seq<Seq<char>>,
    decoded: Seq<Seq<char>>,
    k: nat,
) -> JobView {
    JobView {
        started: true,
        pc: 3 * k,
        parts: decoded.subrange(0, k as int),
        source: if k == 0 {
            Seq::empty()
        } else {
            staged[k - 1]
        },
        target: if k == 0 {
            Seq::empty()
        } else {
            decoded[k - 1]
        },
        ..fresh(steps)
    }
}

proof fn lemma_merge_decodes(
    names: Seq<Seq<char>>,
    plan: PlanView,
    staged: Seq<Seq<char>>,
    decoded: Seq<Seq<char>>,
    k: nat,
)
    requires
        0 < names.len() <= usize::MAX,
        staged.len() == names.len(),
        decoded.len() == names.len(),
        k <= names.len(),
    ensures
        ({
            let steps = merge_plan_steps(names, plan);
            let events = decoding_events(staged, decoded, k);
            let actions = actions_of(fresh(steps), events);
            &&& events.len() == 3 * k + 1
            &&& actions.len() == 3 * k + 1
            &&& after(fresh(steps), events) == decoded_state(steps, staged, decoded, k)
            &&& forall|i: int|
                0 <= i < k ==> #[trigger] actions[3 * i] == (ActionView::Stage {
                    blob: i as usize,
                    hint: extension(names[i]),
                })
            &&& k < names.len() ==> actions[3 * (k as int)] == (ActionView::Stage {
                blob: k as usize,
                hint: extension(names[k as int]),
            })
            &&& k == names.len() ==> actions[3 * (k as int)] == (ActionView::StageText {
                text: concat_list(decoded),
            })
        }),
    decreases k,
{
    let n = names.len();
    let steps = merge_plan_steps(names, plan);
    let j0 = fresh(steps);
    lemma_inputs_steps(names, n, 0);
    if k == 0 {
        lemma_one_more_event(j0, Seq::empty(), EventView::Start);
        lemma_first_turn(j0);
        assert(decoded.subrange(0, 0) =~= Seq::<Seq<char>>::empty());
    } else {
        let m = (k - 1) as nat;
        lemma_merge_decodes(names, plan, staged, decoded, m);
        lemma_inputs_steps(names, n, m as int);
        if k < n {
            lemma_inputs_steps(names, n, k as int);
        }
        let e0 = decoding_events(staged, decoded, m);
        let e1 = e0.push(EventView::Path(staged[m as int]));
        let e2 = e1.push(EventView::Path(decoded[m as int]));
        let e3 = e2.push(done());
        let s0 = decoded_state(steps, staged, decoded, m);
        let s1 = JobView { pc: 3 * m + 1, source: staged[m as int], ..s0 };
        let s2 = JobView { pc: 3 * m + 2, target: decoded[m as int], ..s1 };
        lemma_one_more_event(j0, e0, EventView::Path(staged[m as int]));
        lemma_one_more_event(j0, e1, EventView::Path(decoded[m as int]));
        lemma_one_more_event(j0, e2, done());
        lemma_next_turn(s0, EventView::Path(staged[m as int]), JobView {
            source: staged[m as int],
            ..s0
        });
        lemma_next_turn(s1, EventView::Path(decoded[m as int]), JobView {
            target: decoded[m as int],
            ..s1
        });
        assert(decoded.subrange(0, m as int).push(decoded[m as int]) =~= decoded.subrange(
            0,
            k as int,
        ));
        lemma_next_turn(s2, done(), JobView { parts: decoded.subrange(0, k as int), ..s2 });
        assert(decoded.subrange(0, n as int) =~= decoded);
    }
}

/// A merge, where nothing fails, stages its inputs in the order of the
/// request, each under the extension of its name, and then lists their
/// decoded forms in that same order for the joining pass: the order of
/// the request is the order in which the recordings are joined.
pub proof fn lemma_merge_keeps_order(
    names: Seq<Seq<char>>,
    plan: PlanView,
    staged: Seq<Seq<char>>,
    decoded: Seq<Seq<char>>,
)
    requires
        0 < names.len() <= usize::MAX,
        staged.len() == names.len(),
        decoded.len() == names.len(),
    ensures
        ({
            let actions = actions_of(
                fresh(merge_plan_steps(names, plan)),
                decoding_events(staged, decoded, names.len()),
            );
            &&& actions.len() == 3 * names.len() + 1
            &&& forall|i: int|
                0 <= i < names.len() ==> #[trigger] actions[3 * i] == (ActionView::Stage {
                    blob: i as usize,
                    hint: extension(names[i]),
                })
            &&& actions.last() == (ActionView::StageText { text: concat_list(decoded) })
        }),
{
    lemma_merge_decodes(names, plan, staged, decoded, names.len());
}

} // verus!
