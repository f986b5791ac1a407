use rust_audio::engine::Tool;
use rust_audio::error::{AudioError, Fault};
use rust_audio::job::{Action, Event, Job};
use rust_audio::merge::{concat_args, concat_list_text, merge_sequential};

fn mg_path(p: &str) -> Event {
    Event::Path(p.to_string())
}

fn mg_done() -> Event {
    Event::Exit { success: true, stdout: String::new(), stderr: String::new() }
}

fn mg_encoder(args: &[&str]) -> Action {
    Action::Invoke { tool: Tool::Encoder, args: args.iter().map(|s| s.to_string()).collect() }
}

fn mg_wav() -> Action {
    Action::Reserve { hint: Some("wav".to_string()) }
}

fn mg_names(names: &[&str]) -> Vec<String> {
    names.iter().map(|s| s.to_string()).collect()
}

fn mg_run(job: &mut Job, events: Vec<Event>) -> Vec<Action> {
    events.into_iter().map(|e| job.step(e)).collect()
}

#[test]
fn merge_of_three_inputs_keeps_their_order() {
    let mut job = merge_sequential(&mg_names(&["c.mp3", "a.ogg", "b"]), "mp3").unwrap();
    let actions = mg_run(
        &mut job,
        vec![
            Event::Start,
            mg_path("i0"),
            mg_path("w0"),
            mg_done(),
            mg_path("i1"),
            mg_path("w1"),
            mg_done(),
            mg_path("i2"),
            mg_path("w2"),
            mg_done(),
            mg_path("list"),
            mg_path("joined"),
            mg_done(),
            mg_path("out"),
            mg_done(),
        ],
    );
    assert_eq!(
        actions,
        vec![
            Action::Stage { blob: 0, hint: Some("mp3".to_string()) },
            mg_wav(),
            mg_encoder(&[
                "-y", "-hide_banner", "-loglevel", "error", "-i", "i0", "-c:a", "pcm_s16le", "-f",
                "wav", "w0",
            ]),
            Action::Stage { blob: 1, hint: Some("ogg".to_string()) },
            mg_wav(),
            mg_encoder(&[
                "-y", "-hide_banner", "-loglevel", "error", "-i", "i1", "-c:a", "pcm_s16le", "-f",
                "wav", "w1",
            ]),
            Action::Stage { blob: 2, hint: None },
            mg_wav(),
            mg_encoder(&[
                "-y", "-hide_banner", "-loglevel", "error", "-i", "i2", "-c:a", "pcm_s16le", "-f",
                "wav", "w2",
            ]),
            Action::StageText { text: "file 'w0'\nfile 'w1'\nfile 'w2'\n".to_string() },
            mg_wav(),
            mg_encoder(&[
                "-y", "-hide_banner", "-loglevel", "error", "-f", "concat", "-safe", "0", "-i",
                "list", "-c", "copy", "-f", "wav", "joined",
            ]),
            Action::Reserve { hint: Some("mp3".to_string()) },
            mg_encoder(&[
                "-y", "-hide_banner", "-loglevel", "error", "-i", "joined", "-c:a", "libmp3lame",
                "-f", "mp3", "out",
            ]),
            Action::Collect { path: "out".to_string() },
        ]
    );
}

#[test]
fn merge_of_one_input_lists_that_input() {
    let mut job = merge_sequential(&mg_names(&["only.flac"]), "flac").unwrap();
    let actions = mg_run(&mut job, vec![Event::Start, mg_path("i"), mg_path("w"), mg_done()]);
    assert_eq!(actions[3], Action::StageText { text: "file 'w'\n".to_string() });
}

#[test]
fn merge_without_inputs_is_refused() {
    assert_eq!(
        merge_sequential(&Vec::new(), "mp3"),
        Err(AudioError::InvalidArgument(Fault::NoInputs))
    );
    // and that before the format is looked at
    assert_eq!(
        merge_sequential(&Vec::new(), "nope"),
        Err(AudioError::InvalidArgument(Fault::NoInputs))
    );
}

#[test]
fn merge_to_an_unknown_format_makes_no_job() {
    assert_eq!(
        merge_sequential(&mg_names(&["a.mp3"]), "midi"),
        Err(AudioError::UnsupportedFormat("midi".to_string()))
    );
}

#[test]
fn failed_decoding_ends_the_merge() {
    let mut job = merge_sequential(&mg_names(&["a.mp3", "b.mp3"]), "mp3").unwrap();
    mg_run(&mut job, vec![Event::Start, mg_path("i0"), mg_path("w0"), mg_done(), mg_path("i1"), mg_path("w1")]);
    assert_eq!(
        job.step(Event::Exit { success: false, stdout: String::new(), stderr: "corrupt".to_string() }),
        Action::Fail(AudioError::EngineExecution("corrupt".to_string()))
    );
    assert!(job.is_over());
}

#[test]
fn list_quotes_each_path_and_escapes_quotes() {
    assert_eq!(concat_list_text(&Vec::new()), "");
    assert_eq!(concat_list_text(&mg_names(&["/tmp/a b.wav"])), "file '/tmp/a b.wav'\n");
    assert_eq!(
        concat_list_text(&mg_names(&["/tmp/it's.wav", "''"])),
        "file '/tmp/it'\\''s.wav'\nfile ''\\'''\\'''\n"
    );
}

#[test]
fn list_agrees_with_the_plain_replacement() {
    for path in ["plain", "it's", "'", "a''b", "ends'", "'starts", "back\\slash"] {
        assert_eq!(
            concat_list_text(&mg_names(&[path])),
            format!("file '{}'\n", path.replace('\'', "'\\''")),
            "{path}"
        );
    }
}

#[test]
fn joining_pass_copies_the_listed_files() {
    assert_eq!(
        concat_args("/tmp/list", "/tmp/out.wav"),
        vec![
            "-y", "-hide_banner", "-loglevel", "error", "-f", "concat", "-safe", "0", "-i",
            "/tmp/list", "-c", "copy", "-f", "wav", "/tmp/out.wav",
        ]
    );
}
