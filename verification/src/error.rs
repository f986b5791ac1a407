//! The ways in which an operation fails.

use vstd::prelude::*;

verus! {

/// Why a request was refused before any work was done for it.
#[derive(Debug, Clone, Copy, PartialEq, Eq, Structural)]
pub enum Fault {
    /// A range to keep whose start is not before its end.
    EmptyRange,
    /// A removal with neither a start nor an end.
    NothingToRemove,
    /// A trim action other than `keep` and `remove`.
    UnknownAction,
    /// A merge without inputs.
    NoInputs,
    /// A merge whose list of names and list of files differ in length.
    LengthMismatch,
    /// A merge without an output format.
    MissingFormat,
    /// An event that the job was not waiting for.
    OutOfTurn,
}

/// A failed operation. No partial result comes with it.
#[derive(Debug, PartialEq, Eq)]
pub enum AudioError {
    /// No encoder settings are known for the format, given here in lower case.
    UnsupportedFormat(String),
    /// The request contradicts itself or lacks what the operation needs.
    InvalidArgument(Fault),
    /// A scratch file could not be made, written or read.
    ScratchIo(String),
    /// The engine did not start or ended in failure; the text is what it
    /// wrote to its error stream.
    EngineExecution(String),
    /// The prober printed something that is not the number asked for.
    ProbeParse(String),
    /// Tags were asked for on a container that cannot carry any.
    UnsupportedMetadataTarget,
    /// The results could not be packed into an archive; the text is the
    /// reason that the archiver gave.
    Archive(String),
}

/// The mathematical form of an `AudioError`.
pub enum ErrorView {
    UnsupportedFormat(Seq<char>),
    InvalidArgument(Fault),
    ScratchIo(Seq<char>),
    EngineExecution(Seq<char>),
    ProbeParse(Seq<char>),
    UnsupportedMetadataTarget,
    Archive(Seq<char>),
}

impl View for AudioError {
    type V = ErrorView;

    open spec fn view(&self) -> ErrorView {
        match self {
            AudioError::UnsupportedFormat(s) => ErrorView::UnsupportedFormat(s@),
            AudioError::InvalidArgument(f) => ErrorView::InvalidArgument(*f),
            AudioError::ScratchIo(s) => ErrorView::ScratchIo(s@),
            AudioError::EngineExecution(s) => ErrorView::EngineExecution(s@),
            AudioError::ProbeParse(s) => ErrorView::ProbeParse(s@),
            AudioError::UnsupportedMetadataTarget => ErrorView::UnsupportedMetadataTarget,
            AudioError::Archive(s) => ErrorView::Archive(s@),
        }
    }
}

/// What is wrong with a request that was refused.
pub open spec fn fault_text(f: Fault) -> Seq<char> {
    match f {
        Fault::EmptyRange => "the end of the range must be after its start"@,
        Fault::NothingToRemove => "a removal needs a start or an end"@,
        Fault::UnknownAction => "the action must be 'keep' or 'remove'"@,
        Fault::NoInputs => "no files provided"@,
        Fault::LengthMismatch => "the lists of file names and of files differ in length"@,
        Fault::MissingFormat => "an output format is required (e.g. mp3, wav, flac, m4a)"@,
        Fault::OutOfTurn => "event out of turn"@,
    }
}

/// The sentence that tells a failure to a reader. What the engine or the
/// system wrote stands in it unchanged.
pub open spec fn message_of(e: ErrorView) -> Seq<char> {
    match e {
        ErrorView::UnsupportedFormat(format) => "unsupported format: "@ + format,
        ErrorView::InvalidArgument(f) => "invalid argument: "@ + fault_text(f),
        ErrorView::ScratchIo(reason) => "scratch file: "@ + reason,
        ErrorView::EngineExecution(stderr) => "engine failed: "@ + stderr,
        ErrorView::ProbeParse(text) => "could not read the probed value from '"@ + text + "'"@,
        ErrorView::UnsupportedMetadataTarget =>
            "raw AAC (.aac/ADTS) does not carry embedded metadata; use .m4a instead"@,
        ErrorView::Archive(reason) => "archive: "@ + reason,
    }
}

fn sentence(head: &str, text: &str, tail: &str) -> (r: String)
    ensures
        r@ == head@ + text@ + tail@,
{
    let mut r = head.to_owned();
    r.append(text);
    r.append(tail);
    r
}

fn phrase(head: &str, text: &str) -> (r: String)
    ensures
        r@ == head@ + text@,
{
    let mut r = head.to_owned();
    r.append(text);
    r
}

impl Fault {
    /// What is wrong with the request.
    pub fn text(&self) -> (r: &'static str)
        ensures
            r@ == fault_text(*self),
    {
        match self {
            Fault::EmptyRange => "the end of the range must be after its start",
            Fault::NothingToRemove => "a removal needs a start or an end",
            Fault::UnknownAction => "the action must be 'keep' or 'remove'",
            Fault::NoInputs => "no files provided",
            Fault::LengthMismatch => "the lists of file names and of files differ in length",
            Fault::MissingFormat => "an output format is required (e.g. mp3, wav, flac, m4a)",
            Fault::OutOfTurn => "event out of turn",
        }
    }
}

impl AudioError {
    /// The sentence that tells the failure to a reader.
    pub fn message(&self) -> (r: String)
        ensures
            r@ == message_of(self@),
    {
        match self {
            AudioError::UnsupportedFormat(format) => phrase("unsupported format: ", format.as_str()),
            AudioError::InvalidArgument(f) => phrase("invalid argument: ", f.text()),
            AudioError::ScratchIo(reason) => phrase("scratch file: ", reason.as_str()),
            AudioError::EngineExecution(stderr) => phrase("engine failed: ", stderr.as_str()),
            AudioError::ProbeParse(text) => sentence(
                "could not read the probed value from '",
                text.as_str(),
                "'",
            ),
            AudioError::UnsupportedMetadataTarget => {
                "raw AAC (.aac/ADTS) does not carry embedded metadata; use .m4a instead".to_owned()
            },
            AudioError::Archive(reason) => phrase("archive: ", reason.as_str()),
        }
    }

    /// Whether the failure lies in the request itself, not in its
    /// execution.
    pub fn is_invalid_argument(&self) -> (r: bool)
        ensures
            r == (self@ is InvalidArgument),
    {
        match self {
            AudioError::InvalidArgument(_) => true,
            _ => false,
        }
    }
}

} // verus!
