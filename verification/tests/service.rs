use rust_audio::engine::Tool;
use rust_audio::error::{AudioError, Fault};
use rust_audio::job::{Action, Event, Response};
use rust_audio::service::{
    Batch, BoostService, CompressService, ConvertService, MergeService, MetadataService, Phase,
    Recipe, TrimService,
};
use std::io::Read;

fn sv_names(names: &[&str]) -> Vec<String> {
    names.iter().map(|s| s.to_string()).collect()
}

fn sv_path(p: &str) -> Event {
    Event::Path(p.to_string())
}

fn sv_done(stdout: &str) -> Event {
    Event::Exit { success: true, stdout: stdout.to_string(), stderr: String::new() }
}

fn sv_respond(data: &[u8], format: &str, filename: &str) -> Action {
    Action::Respond(Response {
        file_data: data.to_vec(),
        format: format.to_string(),
        filename: filename.to_string(),
    })
}

// Serves one job of one pass and hands back the given bytes as its result.
fn sv_serve_pass(batch: &mut Batch, first: Event, data: &[u8]) -> Action {
    assert!(matches!(batch.step(first), Action::Stage { .. }));
    assert!(matches!(batch.step(sv_path("in")), Action::Reserve { .. }));
    assert!(matches!(batch.step(sv_path("out")), Action::Invoke { tool: Tool::Encoder, .. }));
    assert_eq!(batch.step(sv_done("")), Action::Collect { path: "out".to_string() });
    batch.step(Event::Bytes(data.to_vec()))
}

fn sv_entries(bytes: &[u8]) -> Vec<(String, Vec<u8>)> {
    let mut archive = zip::ZipArchive::new(std::io::Cursor::new(bytes.to_vec())).unwrap();
    let mut entries = Vec::new();
    for i in 0..archive.len() {
        let mut entry = archive.by_index(i).unwrap();
        let mut data = Vec::new();
        entry.read_to_end(&mut data).unwrap();
        entries.push((entry.name().to_string(), data));
    }
    entries
}

#[test]
fn one_file_comes_back_as_it_is() {
    let mut batch = BoostService::default().boost_manual(sv_names(&["loud.mp3"]), 1, 3);
    assert_eq!(batch.step(Event::Start), Action::Stage { blob: 0, hint: None });
    assert_eq!(batch.step(sv_path("in")), Action::Reserve { hint: Some("mp3".to_string()) });
    assert_eq!(
        batch.step(sv_path("out")),
        Action::Invoke {
            tool: Tool::Encoder,
            args: sv_names(&[
                "-y", "-hide_banner", "-loglevel", "error", "-i", "in", "-af", "volume=3dB", "-c:a",
                "libmp3lame", "-f", "mp3", "out",
            ]),
        }
    );
    assert_eq!(batch.step(sv_done("")), Action::Collect { path: "out".to_string() });
    assert!(!batch.is_over());
    assert_eq!(batch.step(Event::Bytes(vec![9, 8, 7])), sv_respond(&[9, 8, 7], "mp3", "loud.mp3"));
    assert!(batch.is_over());
    assert_eq!(
        batch.step(Event::Start),
        Action::Fail(AudioError::InvalidArgument(Fault::OutOfTurn))
    );
}

#[test]
fn two_files_come_back_as_a_bundle() {
    let mut batch = BoostService::default().boost_normalize(sv_names(&["a.mp3", "a.mp3"]), 2);
    let second = sv_serve_pass(&mut batch, Event::Start, b"one");
    assert_eq!(second, Action::Stage { blob: 1, hint: None });
    assert!(matches!(batch.step(sv_path("in")), Action::Reserve { .. }));
    assert!(matches!(batch.step(sv_path("out")), Action::Invoke { .. }));
    assert!(matches!(batch.step(sv_done("")), Action::Collect { .. }));
    match batch.step(Event::Bytes(b"two".to_vec())) {
        Action::Respond(response) => {
            assert_eq!(response.format, "zip");
            assert_eq!(response.filename, "sonic-tools.zip");
            assert_eq!(
                sv_entries(&response.file_data),
                vec![
                    ("a.mp3".to_string(), b"one".to_vec()),
                    ("a_(1).mp3".to_string(), b"two".to_vec()),
                ]
            );
        },
        other => panic!("{other:?}"),
    }
    assert!(batch.is_over());
}

#[test]
fn bundle_has_as_many_entries_as_the_batch_has_files() {
    for count in [2usize, 3, 5] {
        let names: Vec<String> = (0..count).map(|i| format!("f{}.ogg", i % 2)).collect();
        let mut batch = CompressService::default().compress_quality(names, count, "low".to_string());
        let mut action = batch.step(Event::Start);
        for i in 0..count {
            assert_eq!(action, Action::Stage { blob: i, hint: None });
            batch.step(sv_path("in"));
            batch.step(sv_path("out"));
            batch.step(sv_done(""));
            action = batch.step(Event::Bytes(vec![i as u8]));
        }
        match action {
            Action::Respond(response) => {
                let entries = sv_entries(&response.file_data);
                assert_eq!(entries.len(), count);
                for (i, (name, data)) in entries.iter().enumerate() {
                    assert_eq!(data, &vec![i as u8]);
                    assert_eq!(entries.iter().filter(|(n, _)| n == name).count(), 1);
                }
            },
            other => panic!("{other:?}"),
        }
    }
}

#[test]
fn results_that_come_to_colliding_names_are_bundled_all_the_same() {
    let mut batch = ConvertService::default().convert(
        sv_names(&["a.wav", "a.flac", "a_(1).wav"]),
        3,
        "mp3".to_string(),
        0,
    );
    let mut action = batch.step(Event::Start);
    for i in 0..3usize {
        assert!(matches!(action, Action::Stage { blob, .. } if blob == i));
        batch.step(sv_path("in"));
        batch.step(sv_path("out"));
        batch.step(sv_done(""));
        action = batch.step(Event::Bytes(vec![i as u8]));
    }
    match action {
        Action::Respond(response) => {
            assert_eq!(response.format, "zip");
            assert_eq!(
                sv_entries(&response.file_data),
                vec![
                    ("a.mp3".to_string(), vec![0u8]),
                    ("a_(2).mp3".to_string(), vec![1u8]),
                    ("a_(1).mp3".to_string(), vec![2u8]),
                ]
            );
        },
        other => panic!("{other:?}"),
    }
}

#[test]
fn result_with_a_name_too_long_for_an_entry_fails_the_batch() {
    let long = format!("{}.mp3", "a".repeat(65532));
    let mut batch = BoostService::default().boost_normalize(vec![long, "b.mp3".to_string()], 2);
    sv_serve_pass(&mut batch, Event::Start, b"one");
    batch.step(sv_path("in"));
    batch.step(sv_path("out"));
    batch.step(sv_done(""));
    assert_eq!(
        batch.step(Event::Bytes(b"two".to_vec())),
        Action::Fail(AudioError::Archive("file name too long".to_string()))
    );
    assert!(batch.is_over());
}

#[test]
fn batch_without_files_comes_back_as_an_empty_bundle() {
    let mut batch = ConvertService::default().convert(Vec::new(), 0, "mp3".to_string(), 0);
    match batch.step(Event::Start) {
        Action::Respond(response) => {
            assert_eq!(response.format, "zip");
            assert!(sv_entries(&response.file_data).is_empty());
        },
        other => panic!("{other:?}"),
    }
    assert!(batch.is_over());
}

#[test]
fn failure_on_one_file_fails_the_whole_batch() {
    let mut batch = BoostService::default().boost_manual(sv_names(&["a.mp3", "b.mp3"]), 2, 1);
    sv_serve_pass(&mut batch, Event::Start, b"one");
    batch.step(sv_path("in"));
    batch.step(sv_path("out"));
    assert_eq!(
        batch.step(Event::Exit { success: false, stdout: String::new(), stderr: "broken".to_string() }),
        Action::Fail(AudioError::EngineExecution("broken".to_string()))
    );
    assert!(batch.is_over());
    assert_eq!(
        batch.step(Event::Bytes(vec![1])),
        Action::Fail(AudioError::InvalidArgument(Fault::OutOfTurn))
    );
}

#[test]
fn file_of_an_unknown_format_fails_the_batch_before_any_work() {
    let mut batch = BoostService::default().boost_manual(sv_names(&["notes.txt"]), 1, 1);
    assert_eq!(
        batch.step(Event::Start),
        Action::Fail(AudioError::UnsupportedFormat("txt".to_string()))
    );
    assert!(batch.is_over());
}

#[test]
fn missing_file_name_defaults_to_output_which_is_no_format() {
    let mut batch = BoostService::default().boost_manual(sv_names(&["a.mp3"]), 2, 1);
    let second = sv_serve_pass(&mut batch, Event::Start, b"one");
    assert_eq!(second, Action::Fail(AudioError::UnsupportedFormat("output".to_string())));
    assert!(batch.is_over());
}

#[test]
fn result_that_cannot_be_read_fails_the_batch() {
    let mut batch = BoostService::default().boost_manual(sv_names(&["a.mp3"]), 1, 1);
    batch.step(Event::Start);
    batch.step(sv_path("in"));
    batch.step(sv_path("out"));
    batch.step(sv_done(""));
    assert_eq!(
        batch.step(Event::Failed("gone".to_string())),
        Action::Fail(AudioError::ScratchIo("gone".to_string()))
    );
    assert!(batch.is_over());
}

#[test]
fn batch_must_be_started_first() {
    let mut batch = BoostService::default().boost_manual(sv_names(&["a.mp3"]), 1, 1);
    assert_eq!(batch.phase, Phase::Fresh);
    assert_eq!(
        batch.step(sv_path("in")),
        Action::Fail(AudioError::InvalidArgument(Fault::OutOfTurn))
    );
    assert!(batch.is_over());
}

#[test]
fn compression_by_percentage_names_the_result_after_the_file() {
    let mut batch = CompressService::default().compress_percentage(sv_names(&["song.mp3"]), 1, 50);
    assert_eq!(batch.step(Event::Start), Action::Stage { blob: 0, hint: None });
    assert!(matches!(batch.step(sv_path("in")), Action::Invoke { tool: Tool::Prober, .. }));
    assert_eq!(batch.step(sv_done("320000\n")), Action::Reserve { hint: Some("mp3".to_string()) });
    match batch.step(sv_path("out")) {
        Action::Invoke { tool: Tool::Encoder, args } => assert_eq!(args[6..8], ["-b:a", "160k"]),
        other => panic!("{other:?}"),
    }
    batch.step(sv_done(""));
    assert_eq!(batch.step(Event::Bytes(vec![1])), sv_respond(&[1], "mp3", "song.mp3"));
}

#[test]
fn compression_by_size_marks_the_result_as_compressed() {
    let mut batch = CompressService::default().compress_size(sv_names(&["talk.v2.ogg"]), 1, 1);
    batch.step(Event::Start);
    assert!(matches!(batch.step(sv_path("in")), Action::Invoke { tool: Tool::Prober, .. }));
    batch.step(sv_done("60.000000\n"));
    match batch.step(sv_path("out")) {
        Action::Invoke { tool: Tool::Encoder, args } => assert_eq!(args[6..8], ["-b:a", "139k"]),
        other => panic!("{other:?}"),
    }
    batch.step(sv_done(""));
    assert_eq!(
        batch.step(Event::Bytes(vec![2])),
        sv_respond(&[2], "ogg", "talk.v2_compressed.ogg")
    );
}

#[test]
fn output_names_follow_the_recipe() {
    let names = sv_names(&["a.mp3.mp3", "dir/b.wav", "noext"]);
    let percentage = Recipe::CompressPercentage { percentage: 10 };
    assert_eq!(percentage.output_name(&names, 0), "a.mp3");
    assert_eq!(percentage.output_name(&names, 1), "dir/b.wav");
    assert_eq!(percentage.output_name(&names, 2), "noext.noext");
    assert_eq!(percentage.output_name(&names, 3), "output.output");
    let size = Recipe::CompressSize { size: 1 };
    assert_eq!(size.output_name(&names, 0), "a_compressed.mp3");
    assert_eq!(size.output_name(&names, 1), "dir/b_compressed.wav");
    let quality = Recipe::CompressQuality { quality: "high".to_string() };
    assert_eq!(quality.output_name(&names, 0), "a.mp3.mp3");
    assert_eq!(quality.output_name(&names, 7), "output");
    let convert = Recipe::Convert { output_format: "AIF".to_string(), bitrate: 0 };
    assert_eq!(convert.output_name(&names, 0), "a.mp3.aiff");
    assert_eq!(convert.output_name(&names, 1), "b.aiff");
    assert_eq!(convert.output_name(&names, 2), "noext.aiff");
    assert_eq!(convert.output_name(&sv_names(&["", "x/.."]), 0), "output.aiff");
    assert_eq!(convert.output_name(&sv_names(&["", "x/.."]), 1), "output.aiff");
    let alac = Recipe::Convert { output_format: "alac".to_string(), bitrate: 0 };
    assert_eq!(alac.output_name(&names, 1), "b.m4a");
    let merge = Recipe::Merge { output_format: "flac".to_string(), inputs: 3 };
    assert_eq!(merge.output_name(&names, 0), "merged.flac");
    assert_eq!(Recipe::BoostNormalize.output_name(&names, 1), "dir/b.wav");
}

#[test]
fn output_format_is_the_suffix_unless_the_request_names_one() {
    assert_eq!(Recipe::BoostNormalize.output_format("a.b.mp3"), "mp3");
    assert_eq!(Recipe::BoostManual { gain: 1 }.output_format("noext"), "noext");
    assert_eq!(
        Recipe::Convert { output_format: "WAV".to_string(), bitrate: 0 }.output_format("a.wav"),
        "wav"
    );
    assert_eq!(
        Recipe::Convert { output_format: "alac".to_string(), bitrate: 0 }.output_format("a.m4a"),
        "m4a"
    );
    assert_eq!(
        Recipe::Convert { output_format: "Aif".to_string(), bitrate: 0 }.output_format("a.aiff"),
        "aiff"
    );
    assert_eq!(
        Recipe::Merge { output_format: "ogg".to_string(), inputs: 2 }.output_format("merged.ogg"),
        "ogg"
    );
}

#[test]
fn quality_is_a_fixed_rate() {
    for (quality, rate) in [("low", "64k"), ("medium", "128k"), ("high", "256k"), ("other", "128k")] {
        let mut batch =
            CompressService::default().compress_quality(sv_names(&["a.mp3"]), 1, quality.to_string());
        batch.step(Event::Start);
        batch.step(sv_path("in"));
        match batch.step(sv_path("out")) {
            Action::Invoke { args, .. } => assert_eq!(args[7], rate),
            other => panic!("{other:?}"),
        }
    }
}

#[test]
fn conversion_names_the_result_by_stem_and_plan() {
    let mut batch =
        ConvertService::default().convert(sv_names(&["dir/Song.WAV"]), 1, "Mp3".to_string(), 192);
    assert_eq!(batch.step(Event::Start), Action::Stage { blob: 0, hint: Some("WAV".to_string()) });
    assert_eq!(batch.step(sv_path("in")), Action::Reserve { hint: Some("mp3".to_string()) });
    match batch.step(sv_path("out")) {
        Action::Invoke { args, .. } => assert_eq!(args[6..8], ["-b:a", "192k"]),
        other => panic!("{other:?}"),
    }
    batch.step(sv_done(""));
    assert_eq!(batch.step(Event::Bytes(vec![5])), sv_respond(&[5], "mp3", "Song.mp3"));
}

#[test]
fn conversion_to_an_unknown_format_fails_at_the_start() {
    let mut batch = ConvertService::default().convert(sv_names(&["a.wav"]), 1, "MIDI".to_string(), 0);
    assert_eq!(
        batch.step(Event::Start),
        Action::Fail(AudioError::UnsupportedFormat("midi".to_string()))
    );
}

#[test]
fn merge_is_one_job_over_all_files() {
    let mut batch = MergeService::default().merge(sv_names(&["a.mp3", "b.mp3"]), 2, "FLAC");
    assert_eq!(batch.step(Event::Start), Action::Stage { blob: 0, hint: Some("mp3".to_string()) });
    batch.step(sv_path("i0"));
    batch.step(sv_path("w0"));
    assert_eq!(batch.step(sv_done("")), Action::Stage { blob: 1, hint: Some("mp3".to_string()) });
    batch.step(sv_path("i1"));
    batch.step(sv_path("w1"));
    assert_eq!(
        batch.step(sv_done("")),
        Action::StageText { text: "file 'w0'\nfile 'w1'\n".to_string() }
    );
    batch.step(sv_path("list"));
    batch.step(sv_path("joined"));
    batch.step(sv_done(""));
    batch.step(sv_path("out"));
    assert_eq!(batch.step(sv_done("")), Action::Collect { path: "out".to_string() });
    assert_eq!(batch.step(Event::Bytes(vec![4, 2])), sv_respond(&[4, 2], "flac", "merged.flac"));
    assert!(batch.is_over());
}

#[test]
fn merge_request_is_checked_before_any_work() {
    let fails = |names: &[&str], files: usize, format: &str| {
        MergeService::default().merge(sv_names(names), files, format).step(Event::Start)
    };
    assert_eq!(fails(&[], 0, "mp3"), Action::Fail(AudioError::InvalidArgument(Fault::NoInputs)));
    assert_eq!(
        fails(&["a.mp3"], 2, "mp3"),
        Action::Fail(AudioError::InvalidArgument(Fault::LengthMismatch))
    );
    assert_eq!(
        fails(&["a.mp3", "b.mp3"], 1, "mp3"),
        Action::Fail(AudioError::InvalidArgument(Fault::LengthMismatch))
    );
    assert_eq!(
        fails(&["a.mp3"], 1, ""),
        Action::Fail(AudioError::InvalidArgument(Fault::MissingFormat))
    );
    assert_eq!(
        fails(&["a.mp3"], 1, "midi"),
        Action::Fail(AudioError::UnsupportedFormat("midi".to_string()))
    );
}

#[test]
fn trim_defaults_to_keep() {
    let mut batch = TrimService::default().trim("a.mp3".to_string(), Some(3), Some(5), String::new());
    assert_eq!(batch.step(Event::Start), Action::Stage { blob: 0, hint: None });
    batch.step(sv_path("in"));
    batch.step(sv_path("w"));
    batch.step(sv_done(""));
    match batch.step(sv_path("c")) {
        Action::Invoke { args, .. } => assert_eq!(args[6..10], ["-ss", "3", "-to", "5"]),
        other => panic!("{other:?}"),
    }
    batch.step(sv_done(""));
    batch.step(sv_path("out"));
    batch.step(sv_done(""));
    assert_eq!(batch.step(Event::Bytes(vec![3])), sv_respond(&[3], "mp3", "a.mp3"));
}

#[test]
fn trim_with_an_empty_range_fails_at_the_start() {
    let mut batch =
        TrimService::default().trim("a.mp3".to_string(), Some(5), Some(3), "keep".to_string());
    assert_eq!(
        batch.step(Event::Start),
        Action::Fail(AudioError::InvalidArgument(Fault::EmptyRange))
    );
    let mut batch =
        TrimService::default().trim("a.mp3".to_string(), None, None, "remove".to_string());
    assert_eq!(
        batch.step(Event::Start),
        Action::Fail(AudioError::InvalidArgument(Fault::NothingToRemove))
    );
}

#[test]
fn metadata_on_raw_aac_fails_before_the_engine_is_asked() {
    let mut batch = MetadataService::default().metadata(
        "voice.aac".to_string(),
        Some("Title".to_string()),
        None,
        None,
        None,
        false,
    );
    assert_eq!(batch.step(Event::Start), Action::Fail(AudioError::UnsupportedMetadataTarget));
    assert!(batch.is_over());
}

#[test]
fn metadata_takes_the_cover_from_the_input_after_the_file() {
    let mut batch = MetadataService::default().metadata(
        "song.mp3".to_string(),
        Some("T".to_string()),
        None,
        None,
        None,
        true,
    );
    assert_eq!(batch.step(Event::Start), Action::Stage { blob: 0, hint: None });
    assert_eq!(batch.step(sv_path("in")), Action::Reserve { hint: Some("mp3".to_string()) });
    assert_eq!(batch.step(sv_path("out")), Action::Stage { blob: 1, hint: None });
    assert!(matches!(batch.step(sv_path("art")), Action::Invoke { tool: Tool::Encoder, .. }));
    assert_eq!(batch.step(sv_done("")), Action::Collect { path: "out".to_string() });
    assert_eq!(batch.step(Event::Bytes(vec![6])), sv_respond(&[6], "mp3", "song.mp3"));
}
