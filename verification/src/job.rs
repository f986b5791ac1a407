//! Jobs: what one operation asks of its surroundings, one request at a time.
//!
//! A job is a list of steps and a few registers. It neither touches files
//! nor runs the engine. It hands out an action, is told what came of it,
//! and hands out the next one, until it asks for its result to be
//! collected or fails.

use vstd::prelude::*;
use crate::engine::{encode_args, encode_command, Tool};
use crate::error::{AudioError, ErrorView, Fault};
use crate::merge::{concat_args, concat_command, concat_list, concat_list_text};
use crate::metadata::{complaint_of_tagging, tag_args, tag_command, tag_complaint, text_of, CoverMode,
    MetaPlan, MetaPlanView, Tags, TagsView};
use crate::plan::{EncodePlan, PlanView};
use crate::probe::{probe_args, probe_command};
use crate::rate::{rule_entry, rule_rate, RateRule};
use crate::text::texts;
use crate::trim::{cut_args, cut_command};

verus! {

/// Where the bit rate of an encoding pass comes from.
#[derive(Debug, Clone, Copy, PartialEq, Eq, Structural)]
pub enum Rate {
    /// From the request; `None` leaves the rate to the encoder.
    Given(Option<i32>),
    /// From the probe that ran earlier in the job.
    Probed,
}

/// What becomes of the output of a pass that succeeded.
#[derive(Debug, Clone, Copy, PartialEq, Eq, Structural)]
pub enum Keep {
    /// It is the input of the passes that follow.
    Advance,
    /// It is set aside as the next part to join.
    Part,
}

/// One step of a job. Each step asks for one thing and waits for its
/// outcome.
#[derive(Debug, PartialEq, Eq)]
pub enum Step {
    /// Write an input of the request to a new scratch file, which becomes
    /// the source.
    Stage { blob: usize, hint: Option<String> },
    /// Write an input of the request to a new scratch file, which becomes
    /// the cover art.
    Cover { blob: usize },
    /// Make an empty scratch file, which becomes the target.
    Reserve { hint: Option<String> },
    /// Probe the source and derive the target rate from the answer.
    Probe { rule: RateRule },
    /// Encode the source into the target.
    Encode { plan: EncodePlan, filters: Vec<String>, rate: Rate, keep: Keep },
    /// Copy a range of the source into the target. A cut that may be spared
    /// does not end the job when the engine fails at it.
    Cut { from: Option<i32>, to: Option<i32>, keep: Keep, spare: bool },
    /// Write the list of the parts set aside to a new scratch file, which
    /// becomes the source.
    List,
    /// Join the files that the source lists into the target.
    Concat,
    /// Copy the source into the target, with tags.
    Tag { meta: MetaPlan, tags: Tags },
    /// Hand the source out as the result.
    Collect,
}

/// The mathematical form of a `Step`.
pub enum StepView {
    Stage { blob: usize, hint: Option<Seq<char>> },
    Cover { blob: usize },
    Reserve { hint: Option<Seq<char>> },
    Probe { rule: RateRule },
    Encode { plan: PlanView, filters: Seq<Seq<char>>, rate: Rate, keep: Keep },
    Cut { from: Option<i32>, to: Option<i32>, keep: Keep, spare: bool },
    List,
    Concat,
    Tag { meta: MetaPlanView, tags: TagsView },
    Collect,
}

impl View for Step {
    type V = StepView;

    open spec fn view(&self) -> StepView {
        match self {
            Step::Stage { blob, hint } => StepView::Stage { blob: *blob, hint: text_of(*hint) },
            Step::Cover { blob } => StepView::Cover { blob: *blob },
            Step::Reserve { hint } => StepView::Reserve { hint: text_of(*hint) },
            Step::Probe { rule } => StepView::Probe { rule: *rule },
            Step::Encode { plan, filters, rate, keep } => StepView::Encode {
                plan: plan@,
                filters: texts(filters@),
                rate: *rate,
                keep: *keep,
            },
            Step::Cut { from, to, keep, spare } => StepView::Cut {
                from: *from,
                to: *to,
                keep: *keep,
                spare: *spare,
            },
            Step::List => StepView::List,
            Step::Concat => StepView::Concat,
            Step::Tag { meta, tags } => StepView::Tag { meta: meta@, tags: tags@ },
            Step::Collect => StepView::Collect,
        }
    }
}

/// The views of a list of steps.
pub open spec fn step_views(steps: Seq<Step>) -> Seq<StepView> {
    Seq::new(steps.len(), |i: int| steps[i]@)
}

/// What a finished request hands back: the bytes, their format, and the
/// name of the file.
#[derive(Debug, PartialEq, Eq)]
pub struct Response {
    pub file_data: Vec<u8>,
    pub format: String,
    pub filename: String,
}

/// The mathematical form of a `Response`.
pub struct ResponseView {
    pub file_data: Seq<u8>,
    pub format: Seq<char>,
    pub filename: Seq<char>,
}

impl View for Response {
    type V = ResponseView;

    open spec fn view(&self) -> ResponseView {
        ResponseView { file_data: self.file_data@, format: self.format@, filename: self.filename@ }
    }
}

/// What is asked of the surroundings.
#[derive(Debug, PartialEq, Eq)]
pub enum Action {
    /// Write input number `blob` of the request to a new scratch file
    /// whose name ends in the hinted extension, and report its path.
    Stage { blob: usize, hint: Option<String> },
    /// Write a text to a new scratch file, and report its path.
    StageText { text: String },
    /// Make an empty scratch file whose name ends in the hinted extension,
    /// and report its path.
    Reserve { hint: Option<String> },
    /// Run a program of the engine with these arguments, and report how it
    /// ended.
    Invoke { tool: Tool, args: Vec<String> },
    /// Read a scratch file: its content is the result.
    Collect { path: String },
    /// The request is served.
    Respond(Response),
    /// The operation failed. Nothing more is asked.
    Fail(AudioError),
}

/// The mathematical form of an `Action`.
pub enum ActionView {
    Stage { blob: usize, hint: Option<Seq<char>> },
    StageText { text: Seq<char> },
    Reserve { hint: Option<Seq<char>> },
    Invoke { tool: Tool, args: Seq<Seq<char>> },
    Collect { path: Seq<char> },
    Respond(ResponseView),
    Fail(ErrorView),
}

impl View for Action {
    type V = ActionView;

    open spec fn view(&self) -> ActionView {
        match self {
            Action::Stage { blob, hint } => ActionView::Stage { blob: *blob, hint: text_of(*hint) },
            Action::StageText { text } => ActionView::StageText { text: text@ },
            Action::Reserve { hint } => ActionView::Reserve { hint: text_of(*hint) },
            Action::Invoke { tool, args } => ActionView::Invoke { tool: *tool, args: texts(args@) },
            Action::Collect { path } => ActionView::Collect { path: path@ },
            Action::Respond(r) => ActionView::Respond(r@),
            Action::Fail(e) => ActionView::Fail(e@),
        }
    }
}

/// What came of an action.
#[derive(Debug, PartialEq, Eq)]
pub enum Event {
    /// Nothing yet: the first action is asked for.
    Start,
    /// The scratch file was made; this is its path.
    Path(String),
    /// The program ran and ended, with what it printed.
    Exit { success: bool, stdout: String, stderr: String },
    /// The scratch file was read; this is its content.
    Bytes(Vec<u8>),
    /// The action could not be carried out, for this reason.
    Failed(String),
}

/// The mathematical form of an `Event`.
pub enum EventView {
    Start,
    Path(Seq<char>),
    Exit { success: bool, stdout: Seq<char>, stderr: Seq<char> },
    Bytes(Seq<u8>),
    Failed(Seq<char>),
}

impl View for Event {
    type V = EventView;

    open spec fn view(&self) -> EventView {
        match self {
            Event::Start => EventView::Start,
            Event::Path(p) => EventView::Path(p@),
            Event::Exit { success, stdout, stderr } => EventView::Exit {
                success: *success,
                stdout: stdout@,
                stderr: stderr@,
            },
            Event::Bytes(b) => EventView::Bytes(b@),
            Event::Failed(m) => EventView::Failed(m@),
        }
    }
}

/// One operation under way.
#[derive(Debug, PartialEq, Eq)]
pub struct Job {
    /// The steps of the operation, in order.
    pub steps: Vec<Step>,
    /// The number of steps that are settled.
    pub pc: usize,
    /// Whether the first action was asked for.
    pub started: bool,
    /// Whether the job has asked for its result or failed.
    pub over: bool,
    /// The scratch file that the next pass reads.
    pub source: String,
    /// The scratch file that the next pass writes.
    pub target: String,
    /// The scratch file that holds the cover art, once it is staged.
    pub cover: Option<String>,
    /// The scratch files set aside for joining, in order.
    pub parts: Vec<String>,
    /// The rate that the probe gave, once it ran.
    pub kbps: Option<i32>,
    /// What the engine wrote when it last failed at a cut that was spared.
    pub complaint: String,
}

/// The mathematical form of a `Job`.
pub struct JobView {
    pub steps: Seq<StepView>,
    pub pc: nat,
    pub started: bool,
    pub over: bool,
    pub source: Seq<char>,
    pub target: Seq<char>,
    pub cover: Option<Seq<char>>,
    pub parts: Seq<Seq<char>>,
    pub kbps: Option<i32>,
    pub complaint: Seq<char>,
}

impl View for Job {
    type V = JobView;

    open spec fn view(&self) -> JobView {
        JobView {
            steps: step_views(self.steps@),
            pc: self.pc as nat,
            started: self.started,
            over: self.over,
            source: self.source@,
            target: self.target@,
            cover: text_of(self.cover),
            parts: texts(self.parts@),
            kbps: self.kbps,
            complaint: self.complaint@,
        }
    }
}

/// A job that has not begun, with empty registers.
pub open spec fn fresh(steps: Seq<StepView>) -> JobView {
    JobView {
        steps,
        pc: 0,
        started: false,
        over: false,
        source: Seq::empty(),
        target: Seq::empty(),
        cover: None,
        parts: Seq::empty(),
        kbps: None,
        complaint: Seq::empty(),
    }
}

/// The event was not the one awaited.
pub open spec fn out_of_turn() -> ErrorView {
    ErrorView::InvalidArgument(Fault::OutOfTurn)
}

/// The rate of an encoding pass.
pub open spec fn rate_of(rate: Rate, probed: Option<i32>) -> Option<i32> {
    match rate {
        Rate::Given(k) => k,
        Rate::Probed => probed,
    }
}

/// What a step asks for, with the registers as they stand.
pub open spec fn request(step: StepView, j: JobView) -> ActionView {
    match step {
        StepView::Stage { blob, hint } => ActionView::Stage { blob, hint },
        StepView::Cover { blob } => ActionView::Stage { blob, hint: None },
        StepView::Reserve { hint } => ActionView::Reserve { hint },
        StepView::Probe { rule } => ActionView::Invoke {
            tool: Tool::Prober,
            args: probe_command(rule_entry(rule), j.source),
        },
        StepView::Encode { plan, filters, rate, keep } => ActionView::Invoke {
            tool: Tool::Encoder,
            args: encode_command(j.source, plan, filters, rate_of(rate, j.kbps), j.target),
        },
        StepView::Cut { from, to, keep, spare } => ActionView::Invoke {
            tool: Tool::Encoder,
            args: cut_command(j.source, from, to, j.target),
        },
        StepView::List => if j.parts.len() == 0 {
            ActionView::Fail(ErrorView::EngineExecution(j.complaint))
        } else {
            ActionView::StageText { text: concat_list(j.parts) }
        },
        StepView::Concat => ActionView::Invoke {
            tool: Tool::Encoder,
            args: concat_command(j.source, j.target),
        },
        StepView::Tag { meta, tags } => ActionView::Invoke {
            tool: Tool::Encoder,
            args: tag_command(j.source, j.cover, meta, tags, j.target),
        },
        StepView::Collect => ActionView::Collect { path: j.source },
    }
}

/// The registers after a pass that succeeded.
pub open spec fn kept(j: JobView, keep: Keep) -> JobView {
    match keep {
        Keep::Advance => JobView { source: j.target, ..j },
        Keep::Part => JobView { parts: j.parts.push(j.target), ..j },
    }
}

/// What a step that waits for a scratch file makes of an event: the path,
/// or the failure.
pub open spec fn path_of(e: EventView) -> Result<Seq<char>, ErrorView> {
    match e {
        EventView::Path(p) => Ok(p),
        EventView::Failed(m) => Err(ErrorView::ScratchIo(m)),
        _ => Err(out_of_turn()),
    }
}

/// What a pass makes of an event: nothing where the engine succeeded, its
/// complaint where it ran and failed and the pass may be spared, else the
/// failure.
pub open spec fn exit_of(e: EventView, spare: bool) -> Result<Option<Seq<char>>, ErrorView> {
    match e {
        EventView::Exit { success, stdout, stderr } => if success {
            Ok(None)
        } else if spare {
            Ok(Some(stderr))
        } else {
            Err(ErrorView::EngineExecution(stderr))
        },
        EventView::Failed(m) => Err(ErrorView::EngineExecution(m)),
        _ => Err(out_of_turn()),
    }
}

/// The registers after a pass, given what `exit_of` made of its event.
pub open spec fn passed(j: JobView, keep: Keep, outcome: Option<Seq<char>>) -> JobView {
    match outcome {
        None => kept(j, keep),
        Some(complaint) => JobView { complaint, ..j },
    }
}

/// The registers after the awaited event of a step, or the failure that
/// the event amounts to.
pub open spec fn settle(step: StepView, j: JobView, e: EventView) -> Result<JobView, ErrorView> {
    match step {
        StepView::Stage { blob, hint } => match path_of(e) {
            Ok(p) => Ok(JobView { source: p, ..j }),
            Err(x) => Err(x),
        },
        StepView::Cover { blob } => match path_of(e) {
            Ok(p) => Ok(JobView { cover: Some(p), ..j }),
            Err(x) => Err(x),
        },
        StepView::Reserve { hint } => match path_of(e) {
            Ok(p) => Ok(JobView { target: p, ..j }),
            Err(x) => Err(x),
        },
        StepView::List => match path_of(e) {
            Ok(p) => Ok(JobView { source: p, ..j }),
            Err(x) => Err(x),
        },
        StepView::Probe { rule } => match e {
            EventView::Exit { success, stdout, stderr } => match rule_rate(
                rule,
                success,
                stdout,
                stderr,
            ) {
                Ok(k) => Ok(JobView { kbps: Some(k), ..j }),
                Err(x) => Err(x),
            },
            EventView::Failed(m) => Err(ErrorView::EngineExecution(m)),
            _ => Err(out_of_turn()),
        },
        StepView::Encode { plan, filters, rate, keep } => match exit_of(e, false) {
            Ok(o) => Ok(passed(j, keep, o)),
            Err(x) => Err(x),
        },
        StepView::Cut { from, to, keep, spare } => match exit_of(e, spare) {
            Ok(o) => Ok(passed(j, keep, o)),
            Err(x) => Err(x),
        },
        StepView::Concat => match exit_of(e, false) {
            Ok(o) => Ok(passed(j, Keep::Advance, o)),
            Err(x) => Err(x),
        },
        StepView::Tag { meta, tags } => match e {
            EventView::Exit { success, stdout, stderr } => if success {
                Ok(kept(j, Keep::Advance))
            } else {
                Err(ErrorView::EngineExecution(tag_complaint(meta.cover_mode, j.cover, stderr)))
            },
            EventView::Failed(m) => Err(ErrorView::EngineExecution(m)),
            _ => Err(out_of_turn()),
        },
        StepView::Collect => Err(out_of_turn()),
    }
}

/// A job that is over, and the failure that ended it.
pub open spec fn failed(j: JobView, e: ErrorView) -> (JobView, ActionView) {
    (JobView { over: true, ..j }, ActionView::Fail(e))
}

/// Whether an action is the last of its job.
pub open spec fn is_last(a: ActionView) -> bool {
    a is Fail || a is Collect || a is Respond
}

/// The action of the step that is next, and the job as it then stands: over
/// where the action is the last, or where no step is left.
pub open spec fn issue(j: JobView) -> (JobView, ActionView) {
    if j.pc >= j.steps.len() {
        failed(j, out_of_turn())
    } else {
        let a = request(j.steps[j.pc as int], j);
        (JobView { over: is_last(a), ..j }, a)
    }
}

/// One turn of a job: the job after an event, and the action it then asks
/// for. A job that is over fails every event; one that has not begun
/// accepts `Start` alone; else the step that waits settles the event, and
/// the next step is issued, or the job fails.
#[verifier::opaque]
pub open spec fn step_of(j: JobView, e: EventView) -> (JobView, ActionView) {
    if j.over {
        (j, ActionView::Fail(out_of_turn()))
    } else if !j.started {
        if e is Start {
            issue(JobView { started: true, ..j })
        } else {
            failed(j, out_of_turn())
        }
    } else if j.pc >= j.steps.len() {
        failed(j, out_of_turn())
    } else {
        match settle(j.steps[j.pc as int], j, e) {
            Ok(next) => issue(JobView { pc: j.pc + 1, ..next }),
            Err(x) => failed(j, x),
        }
    }
}

/// What a step waits for, and what it does with it.
enum Wait {
    /// A path for the source register.
    Source,
    /// A path for the cover register.
    Cover,
    /// A path for the target register.
    Target,
    /// The prober's answer, for this rule.
    Answer(RateRule),
    /// The end of a pass, whose output is kept in this way, and which may
    /// or may not be spared.
    Pass(Keep, bool),
    /// The end of a tagging pass, for a container that carries cover art in
    /// this way.
    Tagged(CoverMode),
    /// Nothing: the step is the last.
    Nothing,
}

fn copy_hint(hint: &Option<String>) -> (r: Option<String>)
    ensures
        text_of(r) == text_of(*hint),
{
    match hint {
        Some(h) => Some(h.clone()),
        None => None,
    }
}

fn take_path(event: Event) -> (r: Result<String, AudioError>)
    ensures
        match path_of(event@) {
            Ok(p) => r is Ok && r.unwrap()@ == p,
            Err(x) => r is Err && r.unwrap_err()@ == x,
        },
{
    match event {
        Event::Path(p) => Ok(p),
        Event::Failed(m) => Err(AudioError::ScratchIo(m)),
        _ => Err(AudioError::InvalidArgument(Fault::OutOfTurn)),
    }
}

fn take_exit(event: Event, spare: bool) -> (r: Result<Option<String>, AudioError>)
    ensures
        match exit_of(event@, spare) {
            Ok(o) => r is Ok && text_of(r.unwrap()) == o,
            Err(x) => r is Err && r.unwrap_err()@ == x,
        },
{
    match event {
        Event::Exit { success, stdout, stderr } => {
            if success {
                Ok(None)
            } else if spare {
                Ok(Some(stderr))
            } else {
                Err(AudioError::EngineExecution(stderr))
            }
        },
        Event::Failed(m) => Err(AudioError::EngineExecution(m)),
        _ => Err(AudioError::InvalidArgument(Fault::OutOfTurn)),
    }
}

impl Job {
    /// A job that has not begun.
    pub fn new(steps: Vec<Step>) -> (job: Job)
        ensures
            job@ == fresh(step_views(steps@)),
    {
        let job = Job {
            steps,
            pc: 0,
            started: false,
            over: false,
            source: String::new(),
            target: String::new(),
            cover: None,
            parts: Vec::new(),
            kbps: None,
            complaint: String::new(),
        };
        assert(texts(job.parts@) =~= Seq::empty());
        job
    }

    /// Whether the job has asked for its result or failed.
    pub fn is_over(&self) -> (r: bool)
        ensures
            r == self@.over,
    {
        self.over
    }

    fn ask(&self) -> (a: Action)
        requires
            self.pc < self.steps.len(),
        ensures
            a@ == request(self@.steps[self.pc as int], self@),
    {
        match &self.steps[self.pc] {
            Step::Stage { blob, hint } => Action::Stage { blob: *blob, hint: copy_hint(hint) },
            Step::Cover { blob } => Action::Stage { blob: *blob, hint: None },
            Step::Reserve { hint } => Action::Reserve { hint: copy_hint(hint) },
            Step::Probe { rule } => Action::Invoke {
                tool: Tool::Prober,
                args: probe_args(rule.entry(), self.source.as_str()),
            },
            Step::Encode { plan, filters, rate, keep } => {
                let kbps = match rate {
                    Rate::Given(k) => *k,
                    Rate::Probed => self.kbps,
                };
                Action::Invoke {
                    tool: Tool::Encoder,
                    args: encode_args(
                        self.source.as_str(),
                        plan,
                        filters,
                        kbps,
                        self.target.as_str(),
                    ),
                }
            },
            Step::Cut { from, to, keep, spare } => Action::Invoke {
                tool: Tool::Encoder,
                args: cut_args(self.source.as_str(), *from, *to, self.target.as_str()),
            },
            Step::List => {
                if self.parts.len() == 0 {
                    Action::Fail(AudioError::EngineExecution(self.complaint.clone()))
                } else {
                    Action::StageText { text: concat_list_text(&self.parts) }
                }
            },
            Step::Concat => Action::Invoke {
                tool: Tool::Encoder,
                args: concat_args(self.source.as_str(), self.target.as_str()),
            },
            Step::Tag { meta, tags } => Action::Invoke {
                tool: Tool::Encoder,
                args: tag_args(self.source.as_str(), &self.cover, meta, tags, self.target.as_str()),
            },
            Step::Collect => Action::Collect { path: self.source.clone() },
        }
    }

    fn issue_next(&mut self) -> (a: Action)
        ensures
            (final(self)@, a@) == issue(old(self)@),
    {
        if self.pc >= self.steps.len() {
            self.over = true;
            return Action::Fail(AudioError::InvalidArgument(Fault::OutOfTurn));
        }
        let a = self.ask();
        self.over = match &a {
            Action::Fail(_) => true,
            Action::Collect { .. } => true,
            Action::Respond(_) => true,
            _ => false,
        };
        a
    }

    fn keep_target(&mut self, keep: Keep)
        ensures
            final(self)@ == kept(old(self)@, keep),
    {
        match keep {
            Keep::Advance => {
                self.source = self.target.clone();
            },
            Keep::Part => {
                let ghost before = self.parts@;
                let part = self.target.clone();
                self.parts.push(part);
                assert(texts(self.parts@) =~= texts(before).push(part@));
            },
        }
    }

    fn pass_over(&mut self, keep: Keep, outcome: Option<String>)
        ensures
            final(self)@ == passed(old(self)@, keep, text_of(outcome)),
    {
        match outcome {
            None => self.keep_target(keep),
            Some(complaint) => {
                self.complaint = complaint;
            },
        }
    }

    fn absorb(&mut self, event: Event) -> (r: Result<(), AudioError>)
        requires
            old(self).pc < old(self).steps.len(),
        ensures
            match settle(old(self)@.steps[old(self).pc as int], old(self)@, event@) {
                Ok(j) => r is Ok && final(self)@ == j,
                Err(x) => r is Err && r.unwrap_err()@ == x && final(self)@ == old(self)@,
            },
    {
        let wait = match &self.steps[self.pc] {
            Step::Stage { .. } => Wait::Source,
            Step::List => Wait::Source,
            Step::Cover { .. } => Wait::Cover,
            Step::Reserve { .. } => Wait::Target,
            Step::Probe { rule } => Wait::Answer(*rule),
            Step::Encode { keep, .. } => Wait::Pass(*keep, false),
            Step::Cut { keep, spare, .. } => Wait::Pass(*keep, *spare),
            Step::Concat => Wait::Pass(Keep::Advance, false),
            Step::Tag { meta, .. } => Wait::Tagged(meta.cover_mode),
            Step::Collect => Wait::Nothing,
        };
        match wait {
            Wait::Source => match take_path(event) {
                Ok(p) => {
                    self.source = p;
                    Ok(())
                },
                Err(x) => Err(x),
            },
            Wait::Cover => match take_path(event) {
                Ok(p) => {
                    self.cover = Some(p);
                    Ok(())
                },
                Err(x) => Err(x),
            },
            Wait::Target => match take_path(event) {
                Ok(p) => {
                    self.target = p;
                    Ok(())
                },
                Err(x) => Err(x),
            },
            Wait::Answer(rule) => match event {
                Event::Exit { success, stdout, stderr } => {
                    match rule.rate(success, stdout.as_str(), stderr.as_str()) {
                        Ok(k) => {
                            self.kbps = Some(k);
                            Ok(())
                        },
                        Err(x) => Err(x),
                    }
                },
                Event::Failed(m) => Err(AudioError::EngineExecution(m)),
                _ => Err(AudioError::InvalidArgument(Fault::OutOfTurn)),
            },
            Wait::Pass(keep, spare) => match take_exit(event, spare) {
                Ok(o) => {
                    self.pass_over(keep, o);
                    Ok(())
                },
                Err(x) => Err(x),
            },
            Wait::Tagged(mode) => match event {
                Event::Exit { success, stdout, stderr } => {
                    if success {
                        self.keep_target(Keep::Advance);
                        Ok(())
                    } else {
                        Err(
                            AudioError::EngineExecution(
                                complaint_of_tagging(mode, &self.cover, stderr),
                            ),
                        )
                    }
                },
                Event::Failed(m) => Err(AudioError::EngineExecution(m)),
                _ => Err(AudioError::InvalidArgument(Fault::OutOfTurn)),
            },
            Wait::Nothing => Err(AudioError::InvalidArgument(Fault::OutOfTurn)),
        }
    }

    /// Takes one turn: tells the job what came of its last action, and
    /// returns the action it asks for next.
    pub fn step(&mut self, event: Event) -> (action: Action)
        ensures
            (final(self)@, action@) == step_of(old(self)@, event@),
    {
        reveal(step_of);
        if self.over {
            return Action::Fail(AudioError::InvalidArgument(Fault::OutOfTurn));
        }
        if !self.started {
            match event {
                Event::Start => {
                    self.started = true;
                    return self.issue_next();
                },
                _ => {
                    self.over = true;
                    return Action::Fail(AudioError::InvalidArgument(Fault::OutOfTurn));
                },
            }
        }
        if self.pc >= self.steps.len() {
            self.over = true;
            return Action::Fail(AudioError::InvalidArgument(Fault::OutOfTurn));
        }
        match self.absorb(event) {
            Ok(()) => {
                self.pc = self.pc + 1;
                self.issue_next()
            },
            Err(x) => {
                self.over = true;
                Action::Fail(x)
            },
        }
    }
}

/// The actions that a job asks for, one after the other, while it is told
/// a list of events.
pub open spec fn actions_of(j: JobView, events: Seq<EventView>) -> Seq<ActionView>
    decreases events.len(),
{
    if events.len() == 0 {
        Seq::empty()
    } else {
        seq![step_of(j, events[0]).1] + actions_of(step_of(j, events[0]).0, events.drop_first())
    }
}

/// A job as it stands after it was told a list of events.
pub open spec fn after(j: JobView, events: Seq<EventView>) -> JobView
    decreases events.len(),
{
    if events.len() == 0 {
        j
    } else {
        after(step_of(j, events[0]).0, events.drop_first())
    }
}

/// The event of a program that ran and succeeded, having printed nothing.
pub open spec fn done() -> EventView {
    EventView::Exit { success: true, stdout: Seq::empty(), stderr: Seq::empty() }
}

/// The actions of a job that is told one event and then more are the
/// action of the first turn and then the actions of the job as that turn
/// left it.
pub proof fn lemma_actions_unfold(j: JobView, e: EventView, more: Seq<EventView>)
    ensures
        actions_of(j, seq![e] + more) == seq![step_of(j, e).1] + actions_of(step_of(j, e).0, more),
{
    let events = seq![e] + more;
    assert(events.drop_first() =~= more);
}

/// One more event at the end of a list is one more turn of the job as the
/// list left it.
pub proof fn lemma_one_more_event(j: JobView, events: Seq<EventView>, e: EventView)
    ensures
        after(j, events.push(e)) == step_of(after(j, events), e).0,
        actions_of(j, events.push(e)) == actions_of(j, events).push(
            step_of(after(j, events), e).1,
        ),
        actions_of(j, events).len() == events.len(),
    decreases events.len(),
{
    let all = events.push(e);
    if events.len() == 0 {
        let next = step_of(j, e).0;
        assert(actions_of(next, all.drop_first()) =~= Seq::<ActionView>::empty());
        assert(after(next, all.drop_first()) == next);
    } else {
        let next = step_of(j, events[0]).0;
        assert(all.drop_first() =~= events.drop_first().push(e));
        lemma_one_more_event(next, events.drop_first(), e);
    }
}

/// The first turn of a job: told to start, it issues its first step.
pub proof fn lemma_first_turn(j: JobView)
    requires
        !j.over,
        !j.started,
    ensures
        step_of(j, EventView::Start) == issue(JobView { started: true, ..j }),
{
    reveal(step_of);
}

/// A later turn of a job: where the step that waits settles the event,
/// the job issues the step after it.
pub proof fn lemma_next_turn(j: JobView, e: EventView, settled: JobView)
    requires
        !j.over,
        j.started,
        j.pc < j.steps.len(),
        settle(j.steps[j.pc as int], j, e) == Ok::<JobView, ErrorView>(settled),
    ensures
        step_of(j, e) == issue(JobView { pc: j.pc + 1, ..settled }),
{
    reveal(step_of);
}

/// A job that is over stays as it is, and fails whatever it is told.
pub proof fn lemma_over_is_final(j: JobView, e: EventView)
    requires
        j.over,
    ensures
        step_of(j, e) == (j, ActionView::Fail(out_of_turn())),
{
    reveal(step_of);
}

/// A job asks for nothing after a failure, and for nothing after it has
/// asked for its result: the action that ends a job leaves it over, and no
/// other action does. Nothing is tried a second time.
pub proof fn lemma_last_action_ends_job(j: JobView, e: EventView)
    requires
        !j.over,
    ensures
        step_of(j, e).0.over <==> is_last(step_of(j, e).1),
{
    reveal(step_of);
}

/// A turn that does not end the job settles one step, and leaves the list
/// of steps as it was.
pub proof fn lemma_turn_settles_one_step(j: JobView, e: EventView)
    requires
        j.started,
        !step_of(j, e).0.over,
    ensures
        step_of(j, e).0.pc == j.pc + 1,
        step_of(j, e).0.steps == j.steps,
{
    reveal(step_of);
}

/// The parts set aside are never dropped or reordered: a turn leaves them
/// as they were, or adds the target to their end.
pub proof fn lemma_parts_grow_at_end(j: JobView, e: EventView)
    ensures
        step_of(j, e).0.parts == j.parts || step_of(j, e).0.parts == j.parts.push(j.target),
{
    reveal(step_of);
}

} // verus!
