use rust_audio::error::{AudioError, Fault};

#[test]
fn every_failure_has_its_sentence() {
    assert_eq!(
        AudioError::UnsupportedFormat("midi".to_string()).message(),
        "unsupported format: midi"
    );
    assert_eq!(
        AudioError::InvalidArgument(Fault::EmptyRange).message(),
        "invalid argument: the end of the range must be after its start"
    );
    assert_eq!(AudioError::ScratchIo("disk full".to_string()).message(), "scratch file: disk full");
    assert_eq!(
        AudioError::EngineExecution("line 1\nline 2".to_string()).message(),
        "engine failed: line 1\nline 2"
    );
    assert_eq!(
        AudioError::ProbeParse("N/A".to_string()).message(),
        "could not read the probed value from 'N/A'"
    );
    assert_eq!(
        AudioError::UnsupportedMetadataTarget.message(),
        "raw AAC (.aac/ADTS) does not carry embedded metadata; use .m4a instead"
    );
    assert_eq!(AudioError::Archive("duplicate".to_string()).message(), "archive: duplicate");
}

#[test]
fn every_fault_has_its_text() {
    assert_eq!(Fault::EmptyRange.text(), "the end of the range must be after its start");
    assert_eq!(Fault::NothingToRemove.text(), "a removal needs a start or an end");
    assert_eq!(Fault::UnknownAction.text(), "the action must be 'keep' or 'remove'");
    assert_eq!(Fault::NoInputs.text(), "no files provided");
    assert_eq!(
        Fault::LengthMismatch.text(),
        "the lists of file names and of files differ in length"
    );
    assert_eq!(
        Fault::MissingFormat.text(),
        "an output format is required (e.g. mp3, wav, flac, m4a)"
    );
    assert_eq!(Fault::OutOfTurn.text(), "event out of turn");
}

#[test]
fn only_a_refused_request_is_an_invalid_argument() {
    assert!(AudioError::InvalidArgument(Fault::NoInputs).is_invalid_argument());
    assert!(!AudioError::UnsupportedFormat(String::new()).is_invalid_argument());
    assert!(!AudioError::EngineExecution(String::new()).is_invalid_argument());
    assert!(!AudioError::UnsupportedMetadataTarget.is_invalid_argument());
}
