//! The services: each request as a batch of jobs, and the response that
//! the results are packed into.

use vstd::prelude::*;
use crate::boost::{boost_file, filter_steps, loudness_filter, normalize_file, volume_filter};
use crate::bundle::{all_distinct, bundle_entries, bundle_file_name, bundle_response, entry_names,
    file_views, lemma_entry_names_are_distinct, lemma_refusal, make_zip, names_of, refusal,
    zip_fits, zip_image};
use crate::compress::{compress_file, compress_probed, compress_steps, probed_steps};
use crate::convert::{convert_file, convert_steps};
use crate::error::{AudioError, ErrorView, Fault};
use crate::trim::{trim_file, trim_steps};
use crate::job::{fresh, out_of_turn, step_of, Action, ActionView, Event, EventView, Job, JobView,
    Response, ResponseView, StepView};
use crate::merge::{merge_sequential, merge_steps};
use crate::metadata::{metadata_steps, text_of, write_metadata, Tags, TagsView};
use crate::name::{ext_of, extension, file_name_at, lemma_suffix_has_no_dot, lemma_suffix_of_dotted,
    name_at, stem, stem_of, strip_ending, suffix, suffix_of, without_ending};
use crate::plan::{plan_for, plan_of};
use crate::rate::{quality_kbps, quality_rate, RateRule};
use crate::text::{lowered, texts, to_lowercase};

verus! {

/// Compression to a share of the present rate, to a size, or to a quality.
#[derive(Debug, Default)]
pub struct CompressService {}

/// Conversion to another format.
#[derive(Debug, Default)]
pub struct ConvertService {}

/// A gain in decibels, or normalisation.
#[derive(Debug, Default)]
pub struct BoostService {}

/// Recordings joined end to end.
#[derive(Debug, Default)]
pub struct MergeService {}

/// Tags written into a file.
#[derive(Debug, Default)]
pub struct MetadataService {}

/// A range kept or removed.
#[derive(Debug, Default)]
pub struct TrimService {}

/// What a batch does: to each of its files, or to all of them at once.
#[derive(Debug, PartialEq, Eq)]
pub enum Recipe {
    CompressPercentage { percentage: i32 },
    CompressSize { size: u32 },
    CompressQuality { quality: String },
    Convert { output_format: String, bitrate: i32 },
    BoostManual { gain: i32 },
    BoostNormalize,
    Merge { output_format: String, inputs: usize },
    Trim { start: Option<i32>, end: Option<i32>, action: String },
    Metadata { tags: Tags, cover: bool },
}

/// The mathematical form of a `Recipe`.
pub enum RecipeView {
    CompressPercentage { percentage: i32 },
    CompressSize { size: u32 },
    CompressQuality { quality: Seq<char> },
    Convert { output_format: Seq<char>, bitrate: i32 },
    BoostManual { gain: i32 },
    BoostNormalize,
    Merge { output_format: Seq<char>, inputs: usize },
    Trim { start: Option<i32>, end: Option<i32>, action: Seq<char> },
    Metadata { tags: TagsView, cover: bool },
}

impl View for Recipe {
    type V = RecipeView;

    open spec fn view(&self) -> RecipeView {
        match self {
            Recipe::CompressPercentage { percentage } => RecipeView::CompressPercentage {
                percentage: *percentage,
            },
            Recipe::CompressSize { size } => RecipeView::CompressSize { size: *size },
            Recipe::CompressQuality { quality } => RecipeView::CompressQuality {
                quality: quality@,
            },
            Recipe::Convert { output_format, bitrate } => RecipeView::Convert {
                output_format: output_format@,
                bitrate: *bitrate,
            },
            Recipe::BoostManual { gain } => RecipeView::BoostManual { gain: *gain },
            Recipe::BoostNormalize => RecipeView::BoostNormalize,
            Recipe::Merge { output_format, inputs } => RecipeView::Merge {
                output_format: output_format@,
                inputs: *inputs,
            },
            Recipe::Trim { start, end, action } => RecipeView::Trim {
                start: *start,
                end: *end,
                action: action@,
            },
            Recipe::Metadata { tags, cover } => RecipeView::Metadata { tags: tags@, cover: *cover },
        }
    }
}

/// Where a batch stands.
#[derive(Debug, Clone, Copy, PartialEq, Eq, Structural)]
pub enum Phase {
    /// Nothing was asked yet.
    Fresh,
    /// A job is under way.
    Running,
    /// A job has asked for its result, which is awaited.
    Collecting,
    /// The batch has responded or failed.
    Over,
}

/// One request under way.
#[derive(Debug, PartialEq, Eq)]
pub struct Batch {
    /// What is done to the files.
    pub recipe: Recipe,
    /// The names of the files, as far as the request gives them.
    pub names: Vec<String>,
    /// The number of jobs that the request comes to.
    pub total: usize,
    /// The results so far, each under its name.
    pub done: Vec<(String, Vec<u8>)>,
    /// The job under way.
    pub job: Job,
    /// Where the batch stands.
    pub phase: Phase,
}

/// The mathematical form of a `Batch`.
pub struct BatchView {
    pub recipe: RecipeView,
    pub names: Seq<Seq<char>>,
    pub total: nat,
    pub done: Seq<(Seq<char>, Seq<u8>)>,
    pub job: JobView,
    pub phase: Phase,
}

impl View for Batch {
    type V = BatchView;

    open spec fn view(&self) -> BatchView {
        BatchView {
            recipe: self.recipe@,
            names: texts(self.names@),
            total: self.total as nat,
            done: file_views(self.done@),
            job: self.job@,
            phase: self.phase,
        }
    }
}

/// A batch of which nothing was asked yet.
pub open spec fn new_batch(recipe: RecipeView, names: Seq<Seq<char>>, total: nat) -> BatchView {
    BatchView {
        recipe,
        names,
        total,
        done: Seq::empty(),
        job: fresh(Seq::empty()),
        phase: Phase::Fresh,
    }
}

/// The steps of the merge of a request, or the reason for which it is
/// refused: no file, a list of names that does not match the files, no
/// format, or what the merge itself refuses.
pub open spec fn merge_request_steps(names: Seq<Seq<char>>, output_format: Seq<char>, inputs: usize)
    -> Result<Seq<StepView>, ErrorView> {
    if inputs == 0 {
        Err(ErrorView::InvalidArgument(Fault::NoInputs))
    } else if names.len() != inputs {
        Err(ErrorView::InvalidArgument(Fault::LengthMismatch))
    } else if output_format.len() == 0 {
        Err(ErrorView::InvalidArgument(Fault::MissingFormat))
    } else {
        merge_steps(names, output_format)
    }
}

/// The steps of job number `i` of a batch, or the reason for which it is
/// refused. A job on one file reads that file, and takes the format from
/// what follows the last dot of its name, but for a conversion, whose
/// format the request gives.
pub open spec fn recipe_steps(recipe: RecipeView, names: Seq<Seq<char>>, i: usize) -> Result<
    Seq<StepView>,
    ErrorView,
> {
    let name = name_at(names, i as int);
    let format = suffix(name);
    match recipe {
        RecipeView::CompressPercentage { percentage } => probed_steps(
            i,
            format,
            RateRule::Percentage(percentage),
        ),
        RecipeView::CompressSize { size } => probed_steps(i, format, RateRule::Size(size)),
        RecipeView::CompressQuality { quality } => compress_steps(
            i,
            format,
            Some(quality_rate(quality) as i32),
        ),
        RecipeView::Convert { output_format, bitrate } => convert_steps(
            i,
            lowered(output_format),
            bitrate,
            extension(name),
        ),
        RecipeView::BoostManual { gain } => filter_steps(i, format, volume_filter(gain as int)),
        RecipeView::BoostNormalize => filter_steps(i, format, loudness_filter()),
        RecipeView::Merge { output_format, inputs } => merge_request_steps(
            names,
            output_format,
            inputs,
        ),
        RecipeView::Trim { start, end, action } => trim_steps(i, format, start, end, action),
        RecipeView::Metadata { tags, cover } => metadata_steps(
            i,
            format,
            tags,
            if cover && i < usize::MAX {
                Some((i + 1) as usize)
            } else {
                None
            },
        ),
    }
}

/// The extension that a conversion gives its results: that of the plan.
pub open spec fn converted_extension(output_format: Seq<char>) -> Seq<char> {
    match plan_of(output_format) {
        Some(plan) => plan.extension,
        None => lowered(output_format),
    }
}

/// The stem of a file name, or `output` where the name has none.
pub open spec fn stem_or_default(name: Seq<char>) -> Seq<char> {
    match stem(name) {
        Some(s) => s,
        None => "output"@,
    }
}

/// The name under which the result of job number `i` is handed back.
pub open spec fn output_name(recipe: RecipeView, names: Seq<Seq<char>>, i: int) -> Seq<char> {
    let name = name_at(names, i);
    let ext = suffix(name);
    match recipe {
        RecipeView::CompressPercentage { percentage } => without_ending(name, "."@ + ext) + "."@
            + ext,
        RecipeView::CompressSize { size } => without_ending(name, "."@ + ext) + "_compressed."@
            + ext,
        RecipeView::Convert { output_format, bitrate } => stem_or_default(name) + "."@
            + converted_extension(output_format),
        RecipeView::Merge { output_format, inputs } => "merged."@ + output_format,
        _ => name,
    }
}

/// The format that a result handed back on its own is said to have: for
/// a conversion the extension of the plan, which is what the result holds;
/// for a merge the format asked for; else what follows the last dot of the
/// name of the result.
pub open spec fn output_format(recipe: RecipeView, out_name: Seq<char>) -> Seq<char> {
    match recipe {
        RecipeView::Convert { output_format, bitrate } => converted_extension(output_format),
        RecipeView::Merge { output_format, inputs } => output_format,
        _ => suffix(out_name),
    }
}

/// A batch that is over, its results handed on.
pub open spec fn finished(b: BatchView) -> BatchView {
    BatchView { phase: Phase::Over, done: Seq::empty(), ..b }
}

/// A batch that has failed.
pub open spec fn failed_batch(b: BatchView, e: ErrorView) -> (BatchView, ActionView) {
    (BatchView { phase: Phase::Over, ..b }, ActionView::Fail(e))
}

/// The batch after a turn of its job: it passes the job's action on, waits
/// for the result where the job asks for it to be collected, and is over
/// where the job failed.
pub open spec fn relay(b: BatchView, turn: (JobView, ActionView)) -> (BatchView, ActionView) {
    let phase = match turn.1 {
        ActionView::Fail(_) => Phase::Over,
        ActionView::Respond(_) => Phase::Over,
        ActionView::Collect { path } => Phase::Collecting,
        _ => Phase::Running,
    };
    (BatchView { job: turn.0, phase, ..b }, turn.1)
}

/// What comes of results handed to the archiver: their bundle, where
/// they can be bundled, and else the failure that says why they cannot.
pub open spec fn bundled(files: Seq<(Seq<char>, Seq<u8>)>) -> ActionView {
    match refusal(files) {
        None => ActionView::Respond(
            ResponseView {
                file_data: zip_image(bundle_entries(files)),
                format: "zip"@,
                filename: bundle_file_name(),
            },
        ),
        Some(reason) => ActionView::Fail(ErrorView::Archive(reason)),
    }
}

/// What a batch does once a job is done or none has begun: it begins the
/// next job, where one is left; else it hands back its one result as it is,
/// or the bundle of its results.
pub open spec fn proceed(b: BatchView) -> (BatchView, ActionView) {
    if b.done.len() < b.total {
        match recipe_steps(b.recipe, b.names, b.done.len() as usize) {
            Ok(steps) => relay(b, step_of(fresh(steps), EventView::Start)),
            Err(e) => failed_batch(b, e),
        }
    } else if b.done.len() == 1 {
        (
            finished(b),
            ActionView::Respond(
                ResponseView {
                    file_data: b.done[0].1,
                    format: output_format(b.recipe, b.done[0].0),
                    filename: b.done[0].0,
                },
            ),
        )
    } else {
        (finished(b), bundled(b.done))
    }
}

/// The results of a batch as a turn leaves them before it responds: with
/// the result that the turn brings, where it brings one.
pub open spec fn results_with(b: BatchView, e: EventView) -> Seq<(Seq<char>, Seq<u8>)> {
    match (b.phase, e) {
        (Phase::Collecting, EventView::Bytes(data)) => b.done.push(
            (output_name(b.recipe, b.names, b.done.len() as int), data),
        ),
        _ => b.done,
    }
}

/// One turn of a batch: the batch after an event, and the action it then
/// asks for.
pub open spec fn batch_step(b: BatchView, e: EventView) -> (BatchView, ActionView) {
    match b.phase {
        Phase::Over => (b, ActionView::Fail(out_of_turn())),
        Phase::Fresh => if e is Start {
            proceed(b)
        } else {
            failed_batch(b, out_of_turn())
        },
        Phase::Running => relay(b, step_of(b.job, e)),
        Phase::Collecting => match e {
            EventView::Bytes(data) => proceed(BatchView { done: results_with(b, e), ..b }),
            EventView::Failed(m) => failed_batch(b, ErrorView::ScratchIo(m)),
            _ => failed_batch(b, out_of_turn()),
        },
    }
}

fn copy_text(text: &Option<String>) -> (r: Option<String>)
    ensures
        text_of(r) == text_of(*text),
{
    match text {
        Some(t) => Some(t.clone()),
        None => None,
    }
}

fn with_tail(mut head: String, tail: &str) -> (r: String)
    ensures
        r@ == head@ + tail@,
{
    head.append(tail);
    head
}

fn with_ending(mut head: String, sep: &str, tail: &str) -> (r: String)
    ensures
        r@ == head@ + sep@ + tail@,
{
    head.append(sep);
    head.append(tail);
    head
}

impl Recipe {
    /// Plans job number `i` of a batch with this recipe.
    pub fn job_for(&self, names: &Vec<String>, i: usize) -> (r: Result<Job, AudioError>)
        ensures
            match recipe_steps(self@, texts(names@), i) {
                Ok(steps) => r is Ok && r.unwrap()@ == fresh(steps),
                Err(e) => r is Err && r.unwrap_err()@ == e,
            },
    {
        let name = file_name_at(names, i);
        let format = suffix_of(name.as_str());
        match self {
            Recipe::CompressPercentage { percentage } => compress_probed(
                i,
                format.as_str(),
                RateRule::Percentage(*percentage),
            ),
            Recipe::CompressSize { size } => compress_probed(
                i,
                format.as_str(),
                RateRule::Size(*size),
            ),
            Recipe::CompressQuality { quality } => compress_file(
                i,
                format.as_str(),
                Some(quality_kbps(quality.as_str())),
            ),
            Recipe::Convert { output_format, bitrate } => {
                let low = to_lowercase(output_format.as_str());
                match ext_of(name.as_str()) {
                    Some(e) => convert_file(i, low.as_str(), *bitrate, Some(e.as_str())),
                    None => convert_file(i, low.as_str(), *bitrate, None),
                }
            },
            Recipe::BoostManual { gain } => boost_file(i, format.as_str(), *gain),
            Recipe::BoostNormalize => normalize_file(i, format.as_str()),
            Recipe::Merge { output_format, inputs } => {
                if *inputs == 0 {
                    Err(AudioError::InvalidArgument(Fault::NoInputs))
                } else if names.len() != *inputs {
                    Err(AudioError::InvalidArgument(Fault::LengthMismatch))
                } else if output_format.as_str().is_empty() {
                    Err(AudioError::InvalidArgument(Fault::MissingFormat))
                } else {
                    merge_sequential(names, output_format.as_str())
                }
            },
            Recipe::Trim { start, end, action } => trim_file(
                i,
                format.as_str(),
                *start,
                *end,
                action.as_str(),
            ),
            Recipe::Metadata { tags, cover } => write_metadata(
                i,
                format.as_str(),
                copy_text(&tags.title),
                copy_text(&tags.artist),
                copy_text(&tags.album),
                copy_text(&tags.year),
                if *cover && i < usize::MAX {
                    Some(i + 1)
                } else {
                    None
                },
            ),
        }
    }

    /// The name under which the result of job number `i` is handed back.
    pub fn output_name(&self, names: &Vec<String>, i: usize) -> (r: String)
        ensures
            r@ == output_name(self@, texts(names@), i as int),
    {
        let name = file_name_at(names, i);
        match self {
            Recipe::CompressPercentage { .. } => {
                let ext = suffix_of(name.as_str());
                let ending = with_tail(".".to_owned(), ext.as_str());
                let head = strip_ending(name.as_str(), ending.as_str());
                with_ending(head, ".", ext.as_str())
            },
            Recipe::CompressSize { .. } => {
                let ext = suffix_of(name.as_str());
                let ending = with_tail(".".to_owned(), ext.as_str());
                let head = strip_ending(name.as_str(), ending.as_str());
                with_ending(head, "_compressed.", ext.as_str())
            },
            Recipe::Convert { output_format, .. } => {
                let head = match stem_of(name.as_str()) {
                    Some(s) => s,
                    None => "output".to_owned(),
                };
                let ext = match plan_for(output_format.as_str()) {
                    Ok(plan) => plan.extension,
                    Err(_) => to_lowercase(output_format.as_str()),
                };
                with_ending(head, ".", ext.as_str())
            },
            Recipe::Merge { output_format, .. } => {
                with_tail("merged.".to_owned(), output_format.as_str())
            },
            _ => name,
        }
    }

    /// The format that a result handed back on its own is said to have.
    pub fn output_format(&self, out_name: &str) -> (r: String)
        ensures
            r@ == output_format(self@, out_name@),
    {
        match self {
            Recipe::Convert { output_format, .. } => match plan_for(output_format.as_str()) {
                Ok(plan) => plan.extension,
                Err(_) => to_lowercase(output_format.as_str()),
            },
            Recipe::Merge { output_format, .. } => output_format.clone(),
            _ => suffix_of(out_name),
        }
    }
}

impl Batch {
    /// A batch of which nothing was asked yet.
    pub fn new(recipe: Recipe, names: Vec<String>, total: usize) -> (b: Batch)
        ensures
            b@ == new_batch(recipe@, texts(names@), total as nat),
    {
        let b = Batch {
            recipe,
            names,
            total,
            done: Vec::new(),
            job: Job::new(Vec::new()),
            phase: Phase::Fresh,
        };
        assert(file_views(b.done@) =~= Seq::empty());
        assert(b.job@.steps =~= Seq::empty());
        b
    }

    /// Whether the batch has responded or failed.
    pub fn is_over(&self) -> (r: bool)
        ensures
            r == (self@.phase == Phase::Over),
    {
        match self.phase {
            Phase::Over => true,
            _ => false,
        }
    }

    fn relay(&mut self, action: &Action)
        ensures
            final(self)@ == (BatchView {
                phase: match action@ {
                    ActionView::Fail(_) => Phase::Over,
                    ActionView::Respond(_) => Phase::Over,
                    ActionView::Collect { path } => Phase::Collecting,
                    _ => Phase::Running,
                },
                ..old(self)@
            }),
    {
        self.phase = match action {
            Action::Fail(_) => Phase::Over,
            Action::Respond(_) => Phase::Over,
            Action::Collect { .. } => Phase::Collecting,
            _ => Phase::Running,
        };
    }

    fn proceed(&mut self) -> (action: Action)
        ensures
            (final(self)@, action@) == proceed(old(self)@),
    {
        let i = self.done.len();
        if i < self.total {
            match self.recipe.job_for(&self.names, i) {
                Ok(job) => {
                    self.job = job;
                    let action = self.job.step(Event::Start);
                    self.relay(&action);
                    action
                },
                Err(e) => {
                    self.phase = Phase::Over;
                    Action::Fail(e)
                },
            }
        } else if i == 1 {
            let (name, data) = self.done.pop().unwrap();
            let format = self.recipe.output_format(name.as_str());
            self.phase = Phase::Over;
            assert(file_views(self.done@) =~= Seq::empty());
            Action::Respond(Response { file_data: data, format, filename: name })
        } else {
            let mut files: Vec<(String, Vec<u8>)> = Vec::new();
            std::mem::swap(&mut self.done, &mut files);
            self.phase = Phase::Over;
            assert(file_views(self.done@) =~= Seq::empty());
            match make_zip(files) {
                Ok(zip_bytes) => Action::Respond(bundle_response(zip_bytes)),
                Err(e) => Action::Fail(e),
            }
        }
    }

    /// Takes one turn: tells the batch what came of its last action, and
    /// returns the action it asks for next.
    pub fn step(&mut self, event: Event) -> (action: Action)
        ensures
            (final(self)@, action@) == batch_step(old(self)@, event@),
    {
        match self.phase {
            Phase::Over => Action::Fail(AudioError::InvalidArgument(Fault::OutOfTurn)),
            Phase::Fresh => match event {
                Event::Start => self.proceed(),
                _ => {
                    self.phase = Phase::Over;
                    Action::Fail(AudioError::InvalidArgument(Fault::OutOfTurn))
                },
            },
            Phase::Running => {
                let action = self.job.step(event);
                self.relay(&action);
                action
            },
            Phase::Collecting => match event {
                Event::Bytes(data) => {
                    let ghost before = self.done@;
                    let name = self.recipe.output_name(&self.names, self.done.len());
                    self.done.push((name, data));
                    assert(file_views(self.done@) =~= file_views(before).push((name@, data@)));
                    self.proceed()
                },
                Event::Failed(m) => {
                    self.phase = Phase::Over;
                    Action::Fail(AudioError::ScratchIo(m))
                },
                _ => {
                    self.phase = Phase::Over;
                    Action::Fail(AudioError::InvalidArgument(Fault::OutOfTurn))
                },
            },
        }
    }
}

/// The action of a trim: `keep` where the request names none.
pub open spec fn action_or_keep(action: Seq<char>) -> Seq<char> {
    if action.len() == 0 {
        "keep"@
    } else {
        action
    }
}

fn one_name(filename: String) -> (names: Vec<String>)
    ensures
        texts(names@) == seq![filename@],
{
    let mut names: Vec<String> = Vec::new();
    names.push(filename);
    names
}

impl CompressService {
    /// The batch that compresses each file to a percentage of its bit rate.
    pub fn compress_percentage(&self, filenames: Vec<String>, files: usize, percentage: i32) -> (b:
        Batch)
        ensures
            b@ == new_batch(
                RecipeView::CompressPercentage { percentage },
                texts(filenames@),
                files as nat,
            ),
    {
        Batch::new(Recipe::CompressPercentage { percentage }, filenames, files)
    }

    /// The batch that compresses each file to a size in mebibytes.
    pub fn compress_size(&self, filenames: Vec<String>, files: usize, size: u32) -> (b: Batch)
        ensures
            b@ == new_batch(RecipeView::CompressSize { size }, texts(filenames@), files as nat),
    {
        Batch::new(Recipe::CompressSize { size }, filenames, files)
    }

    /// The batch that compresses each file to a named quality.
    pub fn compress_quality(&self, filenames: Vec<String>, files: usize, quality: String) -> (b:
        Batch)
        ensures
            b@ == new_batch(
                RecipeView::CompressQuality { quality: quality@ },
                texts(filenames@),
                files as nat,
            ),
    {
        Batch::new(Recipe::CompressQuality { quality }, filenames, files)
    }
}

impl ConvertService {
    /// The batch that converts each file to a format, at a bit rate where
    /// the format takes one and the rate is above zero.
    pub fn convert(&self, filenames: Vec<String>, files: usize, output_format: String, bitrate: i32)
        -> (b: Batch)
        ensures
            b@ == new_batch(
                RecipeView::Convert { output_format: output_format@, bitrate },
                texts(filenames@),
                files as nat,
            ),
    {
        Batch::new(Recipe::Convert { output_format, bitrate }, filenames, files)
    }
}

impl BoostService {
    /// The batch that changes the volume of each file by a gain in
    /// decibels.
    pub fn boost_manual(&self, filenames: Vec<String>, files: usize, gain: i32) -> (b: Batch)
        ensures
            b@ == new_batch(RecipeView::BoostManual { gain }, texts(filenames@), files as nat),
    {
        Batch::new(Recipe::BoostManual { gain }, filenames, files)
    }

    /// The batch that normalises the loudness of each file.
    pub fn boost_normalize(&self, filenames: Vec<String>, files: usize) -> (b: Batch)
        ensures
            b@ == new_batch(RecipeView::BoostNormalize, texts(filenames@), files as nat),
    {
        Batch::new(Recipe::BoostNormalize, filenames, files)
    }
}

impl MergeService {
    /// The batch that merges the files of a request, in their order, into
    /// one file of a format, which is taken in lower case.
    pub fn merge(&self, filenames: Vec<String>, files: usize, output_format: &str) -> (b: Batch)
        ensures
            b@ == new_batch(
                RecipeView::Merge { output_format: lowered(output_format@), inputs: files },
                texts(filenames@),
                1,
            ),
    {
        Batch::new(
            Recipe::Merge { output_format: to_lowercase(output_format), inputs: files },
            filenames,
            1,
        )
    }
}

impl MetadataService {
    /// The batch that writes tags into one file. Where `cover` is set, the
    /// request carries cover art after the file.
    pub fn metadata(
        &self,
        filename: String,
        title: Option<String>,
        artist: Option<String>,
        album: Option<String>,
        year: Option<String>,
        cover: bool,
    ) -> (b: Batch)
        ensures
            b@ == new_batch(
                RecipeView::Metadata {
                    tags: TagsView {
                        title: text_of(title),
                        artist: text_of(artist),
                        album: text_of(album),
                        year: text_of(year),
                    },
                    cover,
                },
                seq![filename@],
                1,
            ),
    {
        Batch::new(
            Recipe::Metadata { tags: Tags { title, artist, album, year }, cover },
            one_name(filename),
            1,
        )
    }
}

impl TrimService {
    /// The batch that trims one file. An action that is empty stands for
    /// `keep`.
    pub fn trim(
        &self,
        filename: String,
        start_s: Option<i32>,
        end_s: Option<i32>,
        action: String,
    ) -> (b: Batch)
        ensures
            b@ == new_batch(
                RecipeView::Trim { start: start_s, end: end_s, action: action_or_keep(action@) },
                seq![filename@],
                1,
            ),
    {
        let action = if action.as_str().is_empty() {
            "keep".to_owned()
        } else {
            action
        };
        Batch::new(Recipe::Trim { start: start_s, end: end_s, action }, one_name(filename), 1)
    }
}

/// What holds of a batch between its turns: nothing is done before it
/// begins, and while a job runs or its result is awaited, a job is left.
pub open spec fn batch_inv(b: BatchView) -> bool {
    match b.phase {
        Phase::Fresh => b.done.len() == 0,
        Phase::Running => b.done.len() < b.total,
        Phase::Collecting => b.done.len() < b.total,
        Phase::Over => true,
    }
}

/// A batch of which nothing was asked yet is as a batch should be, and
/// every turn leaves it so.
pub proof fn lemma_batch_inv_holds(b: BatchView, e: EventView)
    requires
        batch_inv(b),
    ensures
        batch_inv(batch_step(b, e).0),
        forall|recipe: RecipeView, names: Seq<Seq<char>>, total: nat| #[trigger]
            batch_inv(new_batch(recipe, names, total)),
{
}

/// A batch responds with all its results or with none. When it responds,
/// it has one result for each of its jobs: the result of its only job is
/// handed back on its own, and the results of any other number of jobs as
/// their bundle. A failure leaves the batch over, with nothing handed
/// back, and no other action does.
pub proof fn lemma_batch_responds_in_full(b: BatchView, e: EventView)
    requires
        batch_inv(b),
        b.phase != Phase::Over,
    ensures
        match batch_step(b, e).1 {
            ActionView::Respond(r) => {
                &&& batch_step(b, e).0.phase == Phase::Over
                &&& results_with(b, e).len() == b.total
                &&& b.total != 1 ==> batch_step(b, e).1 == bundled(results_with(b, e))
            },
            ActionView::Fail(_) => batch_step(b, e).0.phase == Phase::Over,
            _ => batch_step(b, e).0.phase != Phase::Over,
        },
{
    reveal(step_of);
}

/// The last result of a batch of two or more files brings the bundle,
/// where the results can be bundled: an archive with one entry for each
/// file, in the order of the batch, no two under the same name.
pub proof fn lemma_last_result_brings_bundle(b: BatchView, data: Seq<u8>)
    requires
        b.phase == Phase::Collecting,
        b.total >= 2,
        b.done.len() + 1 == b.total,
        zip_fits(results_with(b, EventView::Bytes(data))),
    ensures
        ({
            let results = results_with(b, EventView::Bytes(data));
            &&& batch_step(b, EventView::Bytes(data)).1 == ActionView::Respond(
                ResponseView {
                    file_data: zip_image(bundle_entries(results)),
                    format: "zip"@,
                    filename: bundle_file_name(),
                },
            )
            &&& bundle_entries(results).len() == b.total
            &&& all_distinct(entry_names(names_of(results)))
        }),
{
    let results = results_with(b, EventView::Bytes(data));
    lemma_refusal(results, 0);
    lemma_entry_names_are_distinct(names_of(results));
}

/// Whether a recipe takes the format of a job from the name of its file.
pub open spec fn goes_by_name(recipe: RecipeView) -> bool {
    !(recipe is Convert) && !(recipe is Merge)
}

/// A result that is handed back on its own bears the format in which its
/// job encoded it: where the format comes from the name of the file, the
/// name of the result ends in that same format.
pub proof fn lemma_result_bears_its_format(recipe: RecipeView, names: Seq<Seq<char>>, i: int)
    requires
        goes_by_name(recipe),
    ensures
        output_format(recipe, output_name(recipe, names, i)) == suffix(name_at(names, i)),
{
    let name = name_at(names, i);
    let ext = suffix(name);
    let head = without_ending(name, "."@ + ext);
    lemma_suffix_has_no_dot(name);
    reveal_strlit(".");
    reveal_strlit("_compressed.");
    assert("."@ =~= seq!['.']);
    match recipe {
        RecipeView::CompressPercentage { percentage } => {
            lemma_suffix_of_dotted(head, ext);
        },
        RecipeView::CompressSize { size } => {
            let marked = head + "_compressed."@.subrange(0, 11);
            assert(head + "_compressed."@ + ext =~= marked + seq!['.'] + ext);
            lemma_suffix_of_dotted(marked, ext);
        },
        _ => {},
    }
}

} // verus!
