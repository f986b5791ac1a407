//! Encoder settings by output format.

use vstd::prelude::*;
use crate::engine::push;
use crate::error::{AudioError, ErrorView};
use crate::text::{lowered, same_text, texts, to_lowercase};

verus! {

/// How the engine is told to encode and package one output format.
#[derive(Debug, PartialEq, Eq)]
pub struct EncodePlan {
    /// The container that the output is packaged into.
    pub muxer: String,
    /// The codec and its flags, placed before the muxer.
    pub codec_args: Vec<String>,
    /// Whether a target bit rate means anything to the codec.
    pub takes_bitrate: bool,
    /// The extension of a file in this format.
    pub extension: String,
}

/// The mathematical form of an `EncodePlan`.
pub struct PlanView {
    pub muxer: Seq<char>,
    pub codec_args: Seq<Seq<char>>,
    pub takes_bitrate: bool,
    pub extension: Seq<char>,
}

impl View for EncodePlan {
    type V = PlanView;

    open spec fn view(&self) -> PlanView {
        PlanView {
            muxer: self.muxer@,
            codec_args: texts(self.codec_args@),
            takes_bitrate: self.takes_bitrate,
            extension: self.extension@,
        }
    }
}

/// The plan of a format name, whatever its case, or `None` where the format
/// is not supported. `alac` stands for `m4a`, and `aif` for `aiff`.
pub open spec fn plan_of(format: Seq<char>) -> Option<PlanView> {
    let f = lowered(format);
    if f == "mp3"@ {
        Some(
            PlanView {
                muxer: "mp3"@,
                codec_args: seq!["-c:a"@, "libmp3lame"@],
                takes_bitrate: true,
                extension: "mp3"@,
            },
        )
    } else if f == "ogg"@ {
        Some(
            PlanView {
                muxer: "ogg"@,
                codec_args: seq!["-c:a"@, "libvorbis"@],
                takes_bitrate: true,
                extension: "ogg"@,
            },
        )
    } else if f == "opus"@ {
        Some(
            PlanView {
                muxer: "ogg"@,
                codec_args: seq!["-c:a"@, "libopus"@],
                takes_bitrate: true,
                extension: "opus"@,
            },
        )
    } else if f == "aac"@ {
        Some(
            PlanView {
                muxer: "adts"@,
                codec_args: seq!["-c:a"@, "aac"@],
                takes_bitrate: true,
                extension: "aac"@,
            },
        )
    } else if f == "m4a"@ || f == "alac"@ {
        Some(
            PlanView {
                muxer: "mp4"@,
                codec_args: seq!["-c:a"@, "aac"@, "-movflags"@, "+faststart"@],
                takes_bitrate: true,
                extension: "m4a"@,
            },
        )
    } else if f == "wma"@ {
        Some(
            PlanView {
                muxer: "asf"@,
                codec_args: seq!["-c:a"@, "wmav2"@, "-ar"@, "44100"@, "-ac"@, "2"@],
                takes_bitrate: true,
                extension: "wma"@,
            },
        )
    } else if f == "wav"@ {
        Some(
            PlanView {
                muxer: "wav"@,
                codec_args: seq!["-c:a"@, "pcm_s16le"@],
                takes_bitrate: false,
                extension: "wav"@,
            },
        )
    } else if f == "flac"@ {
        Some(
            PlanView {
                muxer: "flac"@,
                codec_args: seq!["-c:a"@, "flac"@],
                takes_bitrate: false,
                extension: "flac"@,
            },
        )
    } else if f == "aiff"@ || f == "aif"@ {
        Some(
            PlanView {
                muxer: "aiff"@,
                codec_args: seq!["-c:a"@, "pcm_s16be"@],
                takes_bitrate: false,
                extension: "aiff"@,
            },
        )
    } else {
        None
    }
}

/// Whether a format name, whatever its case, has a plan.
pub open spec fn is_supported(format: Seq<char>) -> bool {
    let f = lowered(format);
    f == "mp3"@ || f == "ogg"@ || f == "opus"@ || f == "aac"@ || f == "m4a"@ || f == "alac"@ || f
        == "wma"@ || f == "wav"@ || f == "flac"@ || f == "aiff"@ || f == "aif"@
}

fn make_plan(muxer: &str, codec_args: &[&str], takes_bitrate: bool, extension: &str) -> (p:
    EncodePlan)
    ensures
        p@ == (PlanView {
            muxer: muxer@,
            codec_args: crate::engine::words(codec_args@),
            takes_bitrate,
            extension: extension@,
        }),
{
    let mut args: Vec<String> = Vec::new();
    push(&mut args, codec_args);
    EncodePlan { muxer: muxer.to_owned(), codec_args: args, takes_bitrate, extension: extension.to_owned() }
}

/// Resolves a format name to its plan. The name is matched without regard
/// to case; a name that is not supported is handed back, in lower case, in
/// the error.
pub fn plan_for(format: &str) -> (r: Result<EncodePlan, AudioError>)
    ensures
        match plan_of(format@) {
            Some(p) => r is Ok && r.unwrap()@ == p,
            None => r is Err && r.unwrap_err()@ == ErrorView::UnsupportedFormat(lowered(format@)),
        },
        r is Ok <==> is_supported(format@),
        r is Ok ==> r.unwrap()@.muxer.len() > 0,
{
    proof {
        lemma_supported_formats_have_plans(format@);
    }
    let low = to_lowercase(format);
    let f = low.as_str();
    if same_text(f, "mp3") {
        let p = make_plan("mp3", &["-c:a", "libmp3lame"], true, "mp3");
        assert(p@.codec_args =~= seq!["-c:a"@, "libmp3lame"@]);
        Ok(p)
    } else if same_text(f, "ogg") {
        let p = make_plan("ogg", &["-c:a", "libvorbis"], true, "ogg");
        assert(p@.codec_args =~= seq!["-c:a"@, "libvorbis"@]);
        Ok(p)
    } else if same_text(f, "opus") {
        let p = make_plan("ogg", &["-c:a", "libopus"], true, "opus");
        assert(p@.codec_args =~= seq!["-c:a"@, "libopus"@]);
        Ok(p)
    } else if same_text(f, "aac") {
        let p = make_plan("adts", &["-c:a", "aac"], true, "aac");
        assert(p@.codec_args =~= seq!["-c:a"@, "aac"@]);
        Ok(p)
    } else if same_text(f, "m4a") || same_text(f, "alac") {
        let p = make_plan("mp4", &["-c:a", "aac", "-movflags", "+faststart"], true, "m4a");
        assert(p@.codec_args =~= seq!["-c:a"@, "aac"@, "-movflags"@, "+faststart"@]);
        Ok(p)
    } else if same_text(f, "wma") {
        let p = make_plan("asf", &["-c:a", "wmav2", "-ar", "44100", "-ac", "2"], true, "wma");
        assert(p@.codec_args =~= seq!["-c:a"@, "wmav2"@, "-ar"@, "44100"@, "-ac"@, "2"@]);
        Ok(p)
    } else if same_text(f, "wav") {
        let p = make_plan("wav", &["-c:a", "pcm_s16le"], false, "wav");
        assert(p@.codec_args =~= seq!["-c:a"@, "pcm_s16le"@]);
        Ok(p)
    } else if same_text(f, "flac") {
        let p = make_plan("flac", &["-c:a", "flac"], false, "flac");
        assert(p@.codec_args =~= seq!["-c:a"@, "flac"@]);
        Ok(p)
    } else if same_text(f, "aiff") || same_text(f, "aif") {
        let p = make_plan("aiff", &["-c:a", "pcm_s16be"], false, "aiff");
        assert(p@.codec_args =~= seq!["-c:a"@, "pcm_s16be"@]);
        Ok(p)
    } else {
        Err(AudioError::UnsupportedFormat(low))
    }
}

/// Every supported format has a plan, and its muxer is not empty; no other
/// name has a plan.
pub proof fn lemma_supported_formats_have_plans(format: Seq<char>)
    ensures
        is_supported(format) <==> plan_of(format) is Some,
        plan_of(format) matches Some(p) ==> p.muxer.len() > 0,
{
    reveal_strlit("mp3");
    reveal_strlit("ogg");
    reveal_strlit("adts");
    reveal_strlit("mp4");
    reveal_strlit("asf");
    reveal_strlit("wav");
    reveal_strlit("flac");
    reveal_strlit("aiff");
}

} // verus!
