//! Tagging: writing title, artist, album, year and cover art into a file
//! whose audio is copied as it is.

use vstd::prelude::*;
use crate::engine::{preamble, push, push_all, push_kv, push_text, words};
use crate::error::{AudioError, ErrorView};
use crate::engine::Tool;
use crate::job::{actions_of, done, fresh, lemma_actions_unfold, lemma_first_turn, lemma_next_turn,
    step_of, step_views, ActionView, EventView, Job, JobView, Step, StepView};
use crate::recipe::push_step;
use crate::text::{contains, has_infix, lowered, same_text, texts, to_lowercase};

verus! {

/// How a container carries cover art.
#[derive(Debug, Clone, Copy, PartialEq, Eq, Structural)]
pub enum CoverMode {
    /// The container carries none.
    NoCover,
    /// As a picture attached to the tag block, as MP3 files carry it.
    Mp3Attached,
    /// As the cover of the container itself, as MP4 files carry it.
    Mp4CoverAtom,
}

/// How the engine is told to write tags into one kind of file.
#[derive(Debug, PartialEq, Eq)]
pub struct MetaPlan {
    /// The container that the output is packaged into.
    pub muxer: String,
    /// The flags that the container's tags call for.
    pub extra_args: Vec<String>,
    /// How the container carries cover art.
    pub cover_mode: CoverMode,
}

/// The mathematical form of a `MetaPlan`.
pub struct MetaPlanView {
    pub muxer: Seq<char>,
    pub extra_args: Seq<Seq<char>>,
    pub cover_mode: CoverMode,
}

impl View for MetaPlan {
    type V = MetaPlanView;

    open spec fn view(&self) -> MetaPlanView {
        MetaPlanView {
            muxer: self.muxer@,
            extra_args: texts(self.extra_args@),
            cover_mode: self.cover_mode,
        }
    }
}

/// The text fields of a tag. A field that is absent or empty is not written.
#[derive(Debug, PartialEq, Eq)]
pub struct Tags {
    pub title: Option<String>,
    pub artist: Option<String>,
    pub album: Option<String>,
    pub year: Option<String>,
}

/// The mathematical form of `Tags`.
pub struct TagsView {
    pub title: Option<Seq<char>>,
    pub artist: Option<Seq<char>>,
    pub album: Option<Seq<char>>,
    pub year: Option<Seq<char>>,
}

/// The view of a text that may be absent.
pub open spec fn text_of(s: Option<String>) -> Option<Seq<char>> {
    match s {
        Some(t) => Some(t@),
        None => None,
    }
}

impl View for Tags {
    type V = TagsView;

    open spec fn view(&self) -> TagsView {
        TagsView {
            title: text_of(self.title),
            artist: text_of(self.artist),
            album: text_of(self.album),
            year: text_of(self.year),
        }
    }
}

/// The tagging plan of a file extension, whatever its case, or `None` where
/// files of that kind are not handled.
pub open spec fn meta_plan_of(ext: Seq<char>) -> Option<MetaPlanView> {
    let e = lowered(ext);
    if e == "m4a"@ {
        Some(
            MetaPlanView {
                muxer: "mp4"@,
                extra_args: seq!["-movflags"@, "+faststart"@],
                cover_mode: CoverMode::Mp4CoverAtom,
            },
        )
    } else if e == "wma"@ {
        Some(MetaPlanView { muxer: "asf"@, extra_args: Seq::empty(), cover_mode: CoverMode::NoCover })
    } else if e == "aac"@ {
        Some(MetaPlanView { muxer: "adts"@, extra_args: Seq::empty(), cover_mode: CoverMode::NoCover })
    } else if e == "mp3"@ {
        Some(
            MetaPlanView {
                muxer: "mp3"@,
                extra_args: seq!["-id3v2_version"@, "3"@, "-write_id3v1"@, "1"@],
                cover_mode: CoverMode::Mp3Attached,
            },
        )
    } else if e == "ogg"@ || e == "opus"@ {
        Some(MetaPlanView { muxer: "ogg"@, extra_args: Seq::empty(), cover_mode: CoverMode::NoCover })
    } else if e == "wav"@ {
        Some(MetaPlanView { muxer: "wav"@, extra_args: Seq::empty(), cover_mode: CoverMode::NoCover })
    } else if e == "flac"@ {
        Some(MetaPlanView { muxer: "flac"@, extra_args: Seq::empty(), cover_mode: CoverMode::NoCover })
    } else if e == "aiff"@ || e == "aif"@ {
        Some(MetaPlanView { muxer: "aiff"@, extra_args: Seq::empty(), cover_mode: CoverMode::NoCover })
    } else {
        None
    }
}

/// Whether a field is given and is not empty.
pub open spec fn is_filled(field: Option<Seq<char>>) -> bool {
    field is Some && field->0.len() > 0
}

/// Whether a request asks for anything to be written: a field that is
/// filled, or cover art.
pub open spec fn metadata_requested(tags: TagsView, cover: bool) -> bool {
    is_filled(tags.title) || is_filled(tags.artist) || is_filled(tags.album) || is_filled(
        tags.year,
    ) || cover
}

/// How the streams of the output are chosen: with cover art, where the
/// container carries it and art was staged, the audio and the picture;
/// else the audio alone.
pub open spec fn cover_part(mode: CoverMode, cover: Option<Seq<char>>) -> Seq<Seq<char>> {
    match (mode, cover) {
        (CoverMode::Mp3Attached, Some(art)) => seq![
            "-i"@,
            art,
            "-map"@,
            "0:a"@,
            "-map"@,
            "1:v"@,
            "-c:a"@,
            "copy"@,
            "-c:v"@,
            "mjpeg"@,
            "-disposition:v"@,
            "attached_pic"@,
        ],
        (CoverMode::Mp4CoverAtom, Some(art)) => seq![
            "-i"@,
            art,
            "-map"@,
            "0:a"@,
            "-map"@,
            "1:v"@,
            "-c:a"@,
            "copy"@,
            "-c:v"@,
            "copy"@,
        ],
        _ => seq!["-map"@, "0:a"@, "-c"@, "copy"@],
    }
}

/// One text field of the tag: written where it is filled.
pub open spec fn field_part(key: Seq<char>, value: Option<Seq<char>>) -> Seq<Seq<char>> {
    if is_filled(value) {
        seq!["-metadata"@, key + "="@ + value->0]
    } else {
        Seq::empty()
    }
}

/// The text fields of the tag, in the order title, artist, album, date.
pub open spec fn fields_part(tags: TagsView) -> Seq<Seq<char>> {
    field_part("title"@, tags.title) + field_part("artist"@, tags.artist) + field_part(
        "album"@,
        tags.album,
    ) + field_part("date"@, tags.year)
}

/// The arguments of one tagging pass: the common flags, the input, the
/// choice of streams, the container's flags, the fields, the muxer and the
/// output.
#[verifier::opaque]
pub open spec fn tag_command(
    input: Seq<char>,
    cover: Option<Seq<char>>,
    plan: MetaPlanView,
    tags: TagsView,
    output: Seq<char>,
) -> Seq<Seq<char>> {
    preamble() + seq!["-i"@, input] + cover_part(plan.cover_mode, cover) + plan.extra_args
        + fields_part(tags) + seq!["-f"@, plan.muxer, output]
}

/// What the engine writes when it cannot put a picture into an MP4 file.
pub open spec fn no_tag_for_codec() -> Seq<char> {
    "could not find tag for codec"@
}

/// The advice that goes with that complaint.
pub open spec fn cover_hint() -> Seq<char> {
    "\nHint: some cover formats are not allowed in MP4. Try JPEG or PNG."@
}

/// The complaint of a tagging pass that failed: what the engine wrote, and
/// after it the advice on cover formats where cover art was staged for an
/// MP4 file and the engine could not find a tag for its codec.
pub open spec fn tag_complaint(mode: CoverMode, cover: Option<Seq<char>>, stderr: Seq<char>)
    -> Seq<char> {
    if mode == CoverMode::Mp4CoverAtom && cover is Some && has_infix(stderr, no_tag_for_codec()) {
        stderr + cover_hint()
    } else {
        stderr
    }
}

/// The complaint of a tagging pass that failed.
pub fn complaint_of_tagging(mode: CoverMode, cover: &Option<String>, stderr: String) -> (r: String)
    ensures
        r@ == tag_complaint(mode, text_of(*cover), stderr@),
{
    let for_mp4 = match mode {
        CoverMode::Mp4CoverAtom => true,
        _ => false,
    };
    if for_mp4 && cover.is_some() && contains(stderr.as_str(), "could not find tag for codec") {
        let mut r = stderr;
        r.append("\nHint: some cover formats are not allowed in MP4. Try JPEG or PNG.");
        r
    } else {
        stderr
    }
}

fn make_meta_plan(muxer: &str, extra_args: &[&str], cover_mode: CoverMode) -> (p: MetaPlan)
    ensures
        p@ == (MetaPlanView { muxer: muxer@, extra_args: words(extra_args@), cover_mode }),
{
    let mut args: Vec<String> = Vec::new();
    push(&mut args, extra_args);
    MetaPlan { muxer: muxer.to_owned(), extra_args: args, cover_mode }
}

/// Resolves a file extension to its tagging plan. The extension is matched
/// without regard to case; one that is not handled is handed back, in lower
/// case, in the error.
pub fn plan_for_meta(ext: &str) -> (r: Result<MetaPlan, AudioError>)
    ensures
        match meta_plan_of(ext@) {
            Some(p) => r is Ok && r.unwrap()@ == p,
            None => r is Err && r.unwrap_err()@ == ErrorView::UnsupportedFormat(lowered(ext@)),
        },
{
    let low = to_lowercase(ext);
    let e = low.as_str();
    if same_text(e, "m4a") {
        let p = make_meta_plan("mp4", &["-movflags", "+faststart"], CoverMode::Mp4CoverAtom);
        assert(p@.extra_args =~= seq!["-movflags"@, "+faststart"@]);
        Ok(p)
    } else if same_text(e, "wma") {
        let p = make_meta_plan("asf", &[], CoverMode::NoCover);
        assert(p@.extra_args =~= Seq::empty());
        Ok(p)
    } else if same_text(e, "aac") {
        let p = make_meta_plan("adts", &[], CoverMode::NoCover);
        assert(p@.extra_args =~= Seq::empty());
        Ok(p)
    } else if same_text(e, "mp3") {
        let p = make_meta_plan(
            "mp3",
            &["-id3v2_version", "3", "-write_id3v1", "1"],
            CoverMode::Mp3Attached,
        );
        assert(p@.extra_args =~= seq!["-id3v2_version"@, "3"@, "-write_id3v1"@, "1"@]);
        Ok(p)
    } else if same_text(e, "ogg") || same_text(e, "opus") {
        let p = make_meta_plan("ogg", &[], CoverMode::NoCover);
        assert(p@.extra_args =~= Seq::empty());
        Ok(p)
    } else if same_text(e, "wav") {
        let p = make_meta_plan("wav", &[], CoverMode::NoCover);
        assert(p@.extra_args =~= Seq::empty());
        Ok(p)
    } else if same_text(e, "flac") {
        let p = make_meta_plan("flac", &[], CoverMode::NoCover);
        assert(p@.extra_args =~= Seq::empty());
        Ok(p)
    } else if same_text(e, "aiff") || same_text(e, "aif") {
        let p = make_meta_plan("aiff", &[], CoverMode::NoCover);
        assert(p@.extra_args =~= Seq::empty());
        Ok(p)
    } else {
        Err(AudioError::UnsupportedFormat(low))
    }
}

fn field_is_filled(field: &Option<String>) -> (r: bool)
    ensures
        r == is_filled(text_of(*field)),
{
    match field {
        Some(s) => !s.as_str().is_empty(),
        None => false,
    }
}

/// Whether a request asks for anything to be written.
pub fn any_metadata_requested(
    title: &Option<String>,
    artist: &Option<String>,
    album: &Option<String>,
    year: &Option<String>,
    cover: &Option<Vec<u8>>,
) -> (r: bool)
    ensures
        r == metadata_requested(
            TagsView {
                title: text_of(*title),
                artist: text_of(*artist),
                album: text_of(*album),
                year: text_of(*year),
            },
            cover is Some,
        ),
{
    field_is_filled(title) || field_is_filled(artist) || field_is_filled(album) || field_is_filled(
        year,
    ) || cover.is_some()
}

fn push_field(args: &mut Vec<String>, key: &str, value: &Option<String>)
    ensures
        texts(final(args)@) == texts(old(args)@) + field_part(key@, text_of(*value)),
{
    if field_is_filled(value) {
        match value {
            Some(v) => {
                let mut pair = key.to_owned();
                pair.append("=");
                pair.append(v.as_str());
                push_kv(args, "-metadata", pair.as_str());
            },
            None => {},
        }
    }
}

/// Builds the arguments of one tagging pass.
pub fn tag_args(input: &str, cover: &Option<String>, plan: &MetaPlan, tags: &Tags, output: &str)
    -> (args: Vec<String>)
    ensures
        texts(args@) == tag_command(input@, text_of(*cover), plan@, tags@, output@),
{
    reveal(tag_command);
    let mut args: Vec<String> = Vec::new();
    push(&mut args, &["-y", "-hide_banner", "-loglevel", "error"]);
    push_kv(&mut args, "-i", input);
    match (plan.cover_mode, cover) {
        (CoverMode::Mp3Attached, Some(art)) => {
            push_kv(&mut args, "-i", art.as_str());
            push(
                &mut args,
                &[
                    "-map",
                    "0:a",
                    "-map",
                    "1:v",
                    "-c:a",
                    "copy",
                    "-c:v",
                    "mjpeg",
                    "-disposition:v",
                    "attached_pic",
                ],
            );
        },
        (CoverMode::Mp4CoverAtom, Some(art)) => {
            push_kv(&mut args, "-i", art.as_str());
            push(&mut args, &["-map", "0:a", "-map", "1:v", "-c:a", "copy", "-c:v", "copy"]);
        },
        _ => {
            push(&mut args, &["-map", "0:a", "-c", "copy"]);
        },
    }
    push_all(&mut args, &plan.extra_args);
    let ghost middle = texts(args@);
    push_field(&mut args, "title", &tags.title);
    push_field(&mut args, "artist", &tags.artist);
    push_field(&mut args, "album", &tags.album);
    push_field(&mut args, "date", &tags.year);
    assert(texts(args@) =~= middle + fields_part(tags@));
    push_kv(&mut args, "-f", plan.muxer.as_str());
    push_text(&mut args, output.to_owned());
    args
}

/// The staging of the cover art: where art is supplied, as input number
/// `cover`, and the container carries cover art.
pub open spec fn cover_steps(mode: CoverMode, cover: Option<usize>) -> Seq<StepView> {
    match cover {
        Some(blob) => if mode == CoverMode::NoCover {
            Seq::empty()
        } else {
            seq![StepView::Cover { blob }]
        },
        None => Seq::empty(),
    }
}

/// The steps of a tagging with a plan: stage the input, reserve an output
/// named for the extension, stage the cover art where it is used, copy the
/// audio with the tags, hand the output out.
pub open spec fn tagging_steps(
    blob: usize,
    ext: Seq<char>,
    meta: MetaPlanView,
    tags: TagsView,
    cover: Option<usize>,
) -> Seq<StepView> {
    seq![StepView::Stage { blob, hint: None }, StepView::Reserve { hint: Some(ext) }]
        + cover_steps(meta.cover_mode, cover) + seq![
        StepView::Tag { meta, tags },
        StepView::Collect,
    ]
}

/// The steps of a tagging, or the reason for which it is refused. A raw
/// AAC file is refused where anything is to be written, for its container
/// carries no tags; an extension without a tagging plan is refused too.
pub open spec fn metadata_steps(blob: usize, ext: Seq<char>, tags: TagsView, cover: Option<usize>)
    -> Result<Seq<StepView>, ErrorView> {
    if lowered(ext) == "aac"@ && metadata_requested(tags, cover is Some) {
        Err(ErrorView::UnsupportedMetadataTarget)
    } else {
        match meta_plan_of(ext) {
            Some(meta) => Ok(tagging_steps(blob, ext, meta, tags, cover)),
            None => Err(ErrorView::UnsupportedFormat(lowered(ext))),
        }
    }
}

/// Plans the tagging of input number `blob` of a request, a file with the
/// extension `ext`. The cover art, where there is any, is input number
/// `cover` of the request.
pub fn write_metadata(
    blob: usize,
    ext: &str,
    title: Option<String>,
    artist: Option<String>,
    album: Option<String>,
    year: Option<String>,
    cover: Option<usize>,
) -> (r: Result<Job, AudioError>)
    ensures
        match metadata_steps(
            blob,
            ext@,
            TagsView {
                title: text_of(title),
                artist: text_of(artist),
                album: text_of(album),
                year: text_of(year),
            },
            cover,
        ) {
            Ok(steps) => r is Ok && r.unwrap()@ == fresh(steps),
            Err(e) => r is Err && r.unwrap_err()@ == e,
        },
{
    let low = to_lowercase(ext);
    let requested = field_is_filled(&title) || field_is_filled(&artist) || field_is_filled(&album)
        || field_is_filled(&year) || cover.is_some();
    if same_text(low.as_str(), "aac") && requested {
        return Err(AudioError::UnsupportedMetadataTarget);
    }
    let meta = match plan_for_meta(ext) {
        Ok(p) => p,
        Err(e) => {
            return Err(e);
        },
    };
    let tags = Tags { title, artist, album, year };
    let mut steps: Vec<Step> = Vec::new();
    push_step(&mut steps, Step::Stage { blob, hint: None });
    push_step(&mut steps, Step::Reserve { hint: Some(ext.to_owned()) });
    match cover {
        Some(c) => {
            match meta.cover_mode {
                CoverMode::NoCover => {},
                _ => {
                    push_step(&mut steps, Step::Cover { blob: c });
                },
            }
        },
        None => {},
    }
    assert(step_views(steps@) =~= seq![
        StepView::Stage { blob, hint: None },
        StepView::Reserve { hint: Some(ext@) },
    ] + cover_steps(meta@.cover_mode, cover));
    push_step(&mut steps, Step::Tag { meta, tags });
    push_step(&mut steps, Step::Collect);
    assert(step_views(steps@) =~= tagging_steps(blob, ext@, meta@, tags@, cover));
    Ok(Job::new(steps))
}

/// A tagging with cover art for a container that carries it, where nothing
/// fails, stages the art after the file and runs the engine once, on both.
pub proof fn lemma_cover_is_staged_and_attached(
    blob: usize,
    ext: Seq<char>,
    meta: MetaPlanView,
    tags: TagsView,
    cover: usize,
    input: Seq<char>,
    output: Seq<char>,
    art: Seq<char>,
)
    requires
        meta.cover_mode != CoverMode::NoCover,
    ensures
        actions_of(
            fresh(tagging_steps(blob, ext, meta, tags, Some(cover))),
            seq![
                EventView::Start,
                EventView::Path(input),
                EventView::Path(output),
                EventView::Path(art),
                done(),
            ],
        ) == seq![
            ActionView::Stage { blob, hint: None },
            ActionView::Reserve { hint: Some(ext) },
            ActionView::Stage { blob: cover, hint: None },
            ActionView::Invoke {
                tool: Tool::Encoder,
                args: tag_command(input, Some(art), meta, tags, output),
            },
            ActionView::Collect { path: output },
        ],
{
    let steps = tagging_steps(blob, ext, meta, tags, Some(cover));
    assert(steps =~= seq![
        StepView::Stage { blob, hint: None },
        StepView::Reserve { hint: Some(ext) },
        StepView::Cover { blob: cover },
        StepView::Tag { meta, tags },
        StepView::Collect,
    ]);
    let j0 = fresh(steps);
    let e4 = seq![done()];
    let e3 = seq![EventView::Path(art)] + e4;
    let e2 = seq![EventView::Path(output)] + e3;
    let e1 = seq![EventView::Path(input)] + e2;
    let e0 = seq![EventView::Start] + e1;
    let j1 = JobView { started: true, ..j0 };
    let j2 = JobView { pc: 1, source: input, ..j1 };
    let j3 = JobView { pc: 2, target: output, ..j2 };
    let j4 = JobView { pc: 3, cover: Some(art), ..j3 };
    lemma_first_turn(j0);
    lemma_next_turn(j1, EventView::Path(input), JobView { source: input, ..j1 });
    lemma_next_turn(j2, EventView::Path(output), JobView { target: output, ..j2 });
    lemma_next_turn(j3, EventView::Path(art), JobView { cover: Some(art), ..j3 });
    lemma_next_turn(j4, done(), JobView { source: output, ..j4 });
    lemma_actions_unfold(j0, EventView::Start, e1);
    lemma_actions_unfold(j1, EventView::Path(input), e2);
    lemma_actions_unfold(j2, EventView::Path(output), e3);
    lemma_actions_unfold(j3, EventView::Path(art), e4);
    lemma_actions_unfold(j4, done(), Seq::empty());
    assert(e0 =~= seq![
        EventView::Start,
        EventView::Path(input),
        EventView::Path(output),
        EventView::Path(art),
        done(),
    ]);
    assert(actions_of(j0, e0) =~= seq![
        step_of(j0, EventView::Start).1,
        step_of(j1, EventView::Path(input)).1,
        step_of(j2, EventView::Path(output)).1,
        step_of(j3, EventView::Path(art)).1,
        step_of(j4, done()).1,
    ]);
}

/// A raw AAC file takes no tags: where anything is to be written into
/// one, the request is refused, and no job is made that could run the
/// engine.
pub proof fn lemma_raw_aac_takes_no_tags(
    blob: usize,
    ext: Seq<char>,
    tags: TagsView,
    cover: Option<usize>,
)
    requires
        lowered(ext) == "aac"@,
        metadata_requested(tags, cover is Some),
    ensures
        metadata_steps(blob, ext, tags, cover) == Err::<Seq<StepView>, ErrorView>(
            ErrorView::UnsupportedMetadataTarget,
        ),
{
}

} // verus!
