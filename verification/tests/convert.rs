use rust_audio::boost::{boost_file, normalize_file};
use rust_audio::compress::{compress_file, compress_probed, DEFAULT_KBPS};
use rust_audio::convert::{bare_ext, convert_file};
use rust_audio::engine::Tool;
use rust_audio::error::AudioError;
use rust_audio::job::{Action, Event, Job};
use rust_audio::rate::RateRule;

fn cv_path(p: &str) -> Event {
    Event::Path(p.to_string())
}

fn cv_done(stdout: &str) -> Event {
    Event::Exit { success: true, stdout: stdout.to_string(), stderr: String::new() }
}

fn cv_invoke(tool: Tool, args: &[&str]) -> Action {
    Action::Invoke { tool, args: args.iter().map(|s| s.to_string()).collect() }
}

fn cv_run(job: &mut Job, events: Vec<Event>) -> Vec<Action> {
    events.into_iter().map(|e| job.step(e)).collect()
}

#[test]
fn conversion_is_one_pass_with_the_plan_of_the_format() {
    let mut job = convert_file(2, "M4A", 192, Some("wav")).unwrap();
    let actions = cv_run(&mut job, vec![Event::Start, cv_path("/s/in.wav"), cv_path("/s/out.m4a"), cv_done("")]);
    assert_eq!(
        actions,
        vec![
            Action::Stage { blob: 2, hint: Some("wav".to_string()) },
            Action::Reserve { hint: Some("m4a".to_string()) },
            cv_invoke(
                Tool::Encoder,
                &[
                    "-y", "-hide_banner", "-loglevel", "error", "-i", "/s/in.wav", "-b:a", "192k",
                    "-c:a", "aac", "-movflags", "+faststart", "-f", "mp4", "/s/out.m4a",
                ]
            ),
            Action::Collect { path: "/s/out.m4a".to_string() },
        ]
    );
    assert!(job.is_over());
}

#[test]
fn conversion_to_lossless_drops_the_rate() {
    let mut job = convert_file(0, "wav", 192, None).unwrap();
    let actions = cv_run(&mut job, vec![Event::Start, cv_path("in"), cv_path("out")]);
    assert_eq!(actions[0], Action::Stage { blob: 0, hint: None });
    assert_eq!(actions[1], Action::Reserve { hint: Some("wav".to_string()) });
    assert_eq!(
        actions[2],
        cv_invoke(
            Tool::Encoder,
            &["-y", "-hide_banner", "-loglevel", "error", "-i", "in", "-c:a", "pcm_s16le", "-f", "wav", "out"]
        )
    );
}

#[test]
fn conversion_to_an_unknown_format_makes_no_job() {
    assert_eq!(
        convert_file(0, "XYZ", 128, None),
        Err(AudioError::UnsupportedFormat("xyz".to_string()))
    );
}

#[test]
fn input_hint_has_no_leading_dots() {
    assert_eq!(bare_ext(".mp3"), "mp3");
    assert_eq!(bare_ext("...mp3"), "mp3");
    assert_eq!(bare_ext("mp3"), "mp3");
    assert_eq!(bare_ext("m.p3"), "m.p3");
    assert_eq!(bare_ext("..."), "");
    let mut job = convert_file(0, "mp3", 0, Some("..ogg")).unwrap();
    assert_eq!(job.step(Event::Start), Action::Stage { blob: 0, hint: Some("ogg".to_string()) });
}

#[test]
fn boost_applies_the_gain_as_a_volume_filter() {
    let mut job = boost_file(0, "mp3", 6).unwrap();
    let actions = cv_run(&mut job, vec![Event::Start, cv_path("in"), cv_path("out"), cv_done("")]);
    assert_eq!(actions[0], Action::Stage { blob: 0, hint: None });
    assert_eq!(
        actions[2],
        cv_invoke(
            Tool::Encoder,
            &[
                "-y", "-hide_banner", "-loglevel", "error", "-i", "in", "-af", "volume=6dB", "-c:a",
                "libmp3lame", "-f", "mp3", "out",
            ]
        )
    );
    assert_eq!(actions[3], Action::Collect { path: "out".to_string() });
}

#[test]
fn negative_gain_attenuates() {
    let mut job = boost_file(0, "flac", -3).unwrap();
    let actions = cv_run(&mut job, vec![Event::Start, cv_path("in"), cv_path("out")]);
    assert_eq!(
        actions[2],
        cv_invoke(
            Tool::Encoder,
            &[
                "-y", "-hide_banner", "-loglevel", "error", "-i", "in", "-af", "volume=-3dB", "-c:a",
                "flac", "-f", "flac", "out",
            ]
        )
    );
}

#[test]
fn normalisation_uses_the_fixed_loudness_target() {
    let mut job = normalize_file(1, "ogg").unwrap();
    let actions = cv_run(&mut job, vec![Event::Start, cv_path("in"), cv_path("out")]);
    assert_eq!(actions[0], Action::Stage { blob: 1, hint: None });
    assert_eq!(
        actions[2],
        cv_invoke(
            Tool::Encoder,
            &[
                "-y", "-hide_banner", "-loglevel", "error", "-i", "in", "-af",
                "loudnorm=I=-16:TP=-1.5:LRA=11", "-c:a", "libvorbis", "-f", "ogg", "out",
            ]
        )
    );
}

#[test]
fn boost_of_an_unknown_format_makes_no_job() {
    assert_eq!(boost_file(0, "output", 3), Err(AudioError::UnsupportedFormat("output".to_string())));
    assert_eq!(normalize_file(0, "txt"), Err(AudioError::UnsupportedFormat("txt".to_string())));
}

#[test]
fn compression_defaults_to_128_kilobits() {
    assert_eq!(DEFAULT_KBPS, 128);
    let mut job = compress_file(0, "mp3", None).unwrap();
    let actions = cv_run(&mut job, vec![Event::Start, cv_path("in"), cv_path("out")]);
    assert_eq!(
        actions[2],
        cv_invoke(
            Tool::Encoder,
            &[
                "-y", "-hide_banner", "-loglevel", "error", "-i", "in", "-b:a", "128k", "-c:a",
                "libmp3lame", "-f", "mp3", "out",
            ]
        )
    );
    let mut job = compress_file(0, "mp3", Some(64)).unwrap();
    let actions = cv_run(&mut job, vec![Event::Start, cv_path("in"), cv_path("out")]);
    assert!(matches!(&actions[2], Action::Invoke { args, .. } if args[7] == "64k"));
}

#[test]
fn compression_by_percentage_probes_then_encodes() {
    let mut job = compress_probed(3, "mp3", RateRule::Percentage(50)).unwrap();
    let actions = cv_run(
        &mut job,
        vec![Event::Start, cv_path("in"), cv_done("320000\n"), cv_path("out"), cv_done("")],
    );
    assert_eq!(
        actions,
        vec![
            Action::Stage { blob: 3, hint: None },
            cv_invoke(
                Tool::Prober,
                &["-v", "error", "-of", "csv=p=0", "-show_entries", "format=bit_rate", "in"]
            ),
            Action::Reserve { hint: Some("mp3".to_string()) },
            cv_invoke(
                Tool::Encoder,
                &[
                    "-y", "-hide_banner", "-loglevel", "error", "-i", "in", "-b:a", "160k", "-c:a",
                    "libmp3lame", "-f", "mp3", "out",
                ]
            ),
            Action::Collect { path: "out".to_string() },
        ]
    );
}

#[test]
fn compression_by_size_probes_the_duration() {
    let mut job = compress_probed(0, "ogg", RateRule::Size(1)).unwrap();
    let actions = cv_run(
        &mut job,
        vec![Event::Start, cv_path("in"), cv_done("60.000000\n"), cv_path("out")],
    );
    assert_eq!(
        actions[1],
        cv_invoke(
            Tool::Prober,
            &["-v", "error", "-of", "csv=p=0", "-show_entries", "format=duration", "in"]
        )
    );
    assert!(matches!(&actions[3], Action::Invoke { args, .. } if args[6] == "-b:a" && args[7] == "139k"));
}

#[test]
fn probe_that_prints_no_number_ends_the_job() {
    let mut job = compress_probed(0, "mp3", RateRule::Percentage(50)).unwrap();
    job.step(Event::Start);
    job.step(cv_path("in"));
    assert_eq!(job.step(cv_done("N/A\n")), Action::Fail(AudioError::ProbeParse("N/A".to_string())));
    assert!(job.is_over());
}

#[test]
fn probe_that_fails_ends_the_job() {
    let mut job = compress_probed(0, "mp3", RateRule::Size(2)).unwrap();
    job.step(Event::Start);
    job.step(cv_path("in"));
    assert_eq!(
        job.step(Event::Exit { success: false, stdout: "1.0".to_string(), stderr: "bad".to_string() }),
        Action::Fail(AudioError::EngineExecution("bad".to_string()))
    );
    let mut job = compress_probed(0, "mp3", RateRule::Size(2)).unwrap();
    job.step(Event::Start);
    job.step(cv_path("in"));
    assert_eq!(
        job.step(Event::Failed("no ffprobe".to_string())),
        Action::Fail(AudioError::EngineExecution("no ffprobe".to_string()))
    );
}
