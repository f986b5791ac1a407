use rust_audio::engine::Tool;
use rust_audio::error::AudioError;
use rust_audio::job::{Action, Event, Job};
use rust_audio::metadata::{
    any_metadata_requested, complaint_of_tagging, plan_for_meta, tag_args, write_metadata,
    CoverMode, MetaPlan, Tags,
};

fn md_text(s: &str) -> Option<String> {
    Some(s.to_string())
}

fn md_path(p: &str) -> Event {
    Event::Path(p.to_string())
}

fn md_done() -> Event {
    Event::Exit { success: true, stdout: String::new(), stderr: String::new() }
}

fn md_encoder(args: &[&str]) -> Action {
    Action::Invoke { tool: Tool::Encoder, args: args.iter().map(|s| s.to_string()).collect() }
}

fn md_run(job: &mut Job, events: Vec<Event>) -> Vec<Action> {
    events.into_iter().map(|e| job.step(e)).collect()
}

fn md_plan(muxer: &str, extra: &[&str], cover_mode: CoverMode) -> MetaPlan {
    MetaPlan {
        muxer: muxer.to_string(),
        extra_args: extra.iter().map(|s| s.to_string()).collect(),
        cover_mode,
    }
}

#[test]
fn raw_aac_with_a_tag_is_refused() {
    assert_eq!(
        write_metadata(0, "aac", md_text("Title"), None, None, None, None),
        Err(AudioError::UnsupportedMetadataTarget)
    );
    assert_eq!(
        write_metadata(0, "AAC", None, None, None, md_text("1999"), None),
        Err(AudioError::UnsupportedMetadataTarget)
    );
    assert_eq!(
        write_metadata(0, "Aac", None, md_text("x"), md_text("y"), None, None),
        Err(AudioError::UnsupportedMetadataTarget)
    );
}

#[test]
fn raw_aac_with_cover_art_is_refused() {
    assert_eq!(
        write_metadata(0, "aac", None, None, None, None, Some(1)),
        Err(AudioError::UnsupportedMetadataTarget)
    );
}

#[test]
fn raw_aac_with_a_blank_tag_is_refused() {
    assert_eq!(
        write_metadata(0, "aac", md_text(" "), None, None, None, None),
        Err(AudioError::UnsupportedMetadataTarget)
    );
}

#[test]
fn raw_aac_with_nothing_to_write_is_copied() {
    let mut job = write_metadata(0, "aac", md_text(""), None, None, md_text(""), None).unwrap();
    let actions = md_run(&mut job, vec![Event::Start, md_path("in"), md_path("out.aac"), md_done()]);
    assert_eq!(
        actions,
        vec![
            Action::Stage { blob: 0, hint: None },
            Action::Reserve { hint: Some("aac".to_string()) },
            md_encoder(&[
                "-y", "-hide_banner", "-loglevel", "error", "-i", "in", "-map", "0:a", "-c", "copy",
                "-f", "adts", "out.aac",
            ]),
            Action::Collect { path: "out.aac".to_string() },
        ]
    );
}

#[test]
fn mp3_takes_tags_and_an_attached_picture() {
    let mut job = write_metadata(
        0,
        "mp3",
        md_text("A Title"),
        md_text("An Artist"),
        md_text("An Album"),
        md_text("2001"),
        Some(1),
    )
    .unwrap();
    let actions = md_run(
        &mut job,
        vec![Event::Start, md_path("in"), md_path("out.mp3"), md_path("art"), md_done()],
    );
    assert_eq!(
        actions,
        vec![
            Action::Stage { blob: 0, hint: None },
            Action::Reserve { hint: Some("mp3".to_string()) },
            Action::Stage { blob: 1, hint: None },
            md_encoder(&[
                "-y",
                "-hide_banner",
                "-loglevel",
                "error",
                "-i",
                "in",
                "-i",
                "art",
                "-map",
                "0:a",
                "-map",
                "1:v",
                "-c:a",
                "copy",
                "-c:v",
                "mjpeg",
                "-disposition:v",
                "attached_pic",
                "-id3v2_version",
                "3",
                "-write_id3v1",
                "1",
                "-metadata",
                "title=A Title",
                "-metadata",
                "artist=An Artist",
                "-metadata",
                "album=An Album",
                "-metadata",
                "date=2001",
                "-f",
                "mp3",
                "out.mp3",
            ]),
            Action::Collect { path: "out.mp3".to_string() },
        ]
    );
}

#[test]
fn m4a_takes_the_cover_as_it_is() {
    let mut job = write_metadata(0, "M4A", md_text("T"), None, None, None, Some(1)).unwrap();
    let actions = md_run(
        &mut job,
        vec![Event::Start, md_path("in"), md_path("out"), md_path("art"), md_done()],
    );
    assert_eq!(actions[1], Action::Reserve { hint: Some("M4A".to_string()) });
    assert_eq!(
        actions[3],
        md_encoder(&[
            "-y", "-hide_banner", "-loglevel", "error", "-i", "in", "-i", "art", "-map", "0:a",
            "-map", "1:v", "-c:a", "copy", "-c:v", "copy", "-movflags", "+faststart", "-metadata",
            "title=T", "-f", "mp4", "out",
        ])
    );
}

#[test]
fn container_without_cover_art_never_stages_the_cover() {
    for ext in ["wav", "flac", "ogg", "opus", "aiff", "aif", "wma"] {
        let mut job = write_metadata(0, ext, md_text("T"), None, None, None, Some(1)).unwrap();
        let actions = md_run(&mut job, vec![Event::Start, md_path("in"), md_path("out")]);
        match &actions[2] {
            Action::Invoke { tool: Tool::Encoder, args } => {
                assert_eq!(args[6..10], ["-map", "0:a", "-c", "copy"], "{ext}");
                assert_eq!(args.iter().filter(|a| a.as_str() == "-i").count(), 1, "{ext}");
            },
            other => panic!("{ext}: {other:?}"),
        }
    }
}

#[test]
fn empty_fields_are_not_written() {
    let tags = Tags { title: md_text(""), artist: md_text("Band"), album: None, year: md_text("") };
    let args = tag_args("in", &None, &plan_for_meta("flac").unwrap(), &tags, "out");
    assert_eq!(
        args,
        vec![
            "-y", "-hide_banner", "-loglevel", "error", "-i", "in", "-map", "0:a", "-c", "copy",
            "-metadata", "artist=Band", "-f", "flac", "out",
        ]
    );
}

#[test]
fn field_of_white_space_is_written() {
    let tags = Tags { title: md_text(" "), artist: None, album: md_text(" \t"), year: None };
    let args = tag_args("in", &None, &plan_for_meta("mp3").unwrap(), &tags, "out");
    assert_eq!(
        args[10..],
        [
            "-id3v2_version", "3", "-write_id3v1", "1", "-metadata", "title= ", "-metadata",
            "album= \t", "-f", "mp3", "out",
        ]
    );
}

#[test]
fn filled_field_is_written_as_given() {
    let tags = Tags { title: md_text("  padded = yes "), artist: None, album: None, year: None };
    let args = tag_args("in", &None, &plan_for_meta("wav").unwrap(), &tags, "out");
    assert_eq!(args[10..12], ["-metadata", "title=  padded = yes "]);
}

#[test]
fn cover_without_a_plan_for_it_is_left_out_of_the_arguments() {
    let tags = Tags { title: None, artist: None, album: None, year: None };
    let args = tag_args("in", &md_text("art"), &plan_for_meta("ogg").unwrap(), &tags, "out");
    assert_eq!(
        args,
        vec!["-y", "-hide_banner", "-loglevel", "error", "-i", "in", "-map", "0:a", "-c", "copy", "-f", "ogg", "out"]
    );
}

#[test]
fn every_handled_extension_has_its_tagging_plan() {
    assert_eq!(
        plan_for_meta("m4a"),
        Ok(md_plan("mp4", &["-movflags", "+faststart"], CoverMode::Mp4CoverAtom))
    );
    assert_eq!(
        plan_for_meta("mp3"),
        Ok(md_plan("mp3", &["-id3v2_version", "3", "-write_id3v1", "1"], CoverMode::Mp3Attached))
    );
    assert_eq!(plan_for_meta("wma"), Ok(md_plan("asf", &[], CoverMode::NoCover)));
    assert_eq!(plan_for_meta("aac"), Ok(md_plan("adts", &[], CoverMode::NoCover)));
    assert_eq!(plan_for_meta("ogg"), Ok(md_plan("ogg", &[], CoverMode::NoCover)));
    assert_eq!(plan_for_meta("opus"), Ok(md_plan("ogg", &[], CoverMode::NoCover)));
    assert_eq!(plan_for_meta("wav"), Ok(md_plan("wav", &[], CoverMode::NoCover)));
    assert_eq!(plan_for_meta("flac"), Ok(md_plan("flac", &[], CoverMode::NoCover)));
    assert_eq!(plan_for_meta("aiff"), Ok(md_plan("aiff", &[], CoverMode::NoCover)));
    assert_eq!(plan_for_meta("AIF"), Ok(md_plan("aiff", &[], CoverMode::NoCover)));
}

#[test]
fn extension_without_a_tagging_plan_is_refused() {
    assert_eq!(plan_for_meta("alac"), Err(AudioError::UnsupportedFormat("alac".to_string())));
    assert_eq!(plan_for_meta("TXT"), Err(AudioError::UnsupportedFormat("txt".to_string())));
    assert_eq!(
        write_metadata(0, "Mp4", md_text("T"), None, None, None, None),
        Err(AudioError::UnsupportedFormat("mp4".to_string()))
    );
}

#[test]
fn request_asks_for_something_when_a_field_is_filled_or_art_is_given() {
    assert!(!any_metadata_requested(&None, &None, &None, &None, &None));
    assert!(!any_metadata_requested(&md_text(""), &md_text(""), &md_text(""), &md_text(""), &None));
    assert!(any_metadata_requested(&md_text(" "), &None, &None, &None, &None));
    assert!(any_metadata_requested(&None, &None, &None, &md_text("\n"), &None));
    assert!(any_metadata_requested(&md_text("t"), &None, &None, &None, &None));
    assert!(any_metadata_requested(&None, &md_text("a"), &None, &None, &None));
    assert!(any_metadata_requested(&None, &None, &md_text("b"), &None, &None));
    assert!(any_metadata_requested(&None, &None, &None, &md_text("1"), &None));
    assert!(any_metadata_requested(&None, &None, &None, &None, &Some(Vec::new())));
}

fn md_fail_tagging(ext: &str, cover: Option<usize>, stderr: &str) -> Action {
    let mut job = write_metadata(0, ext, md_text("T"), None, None, None, cover).unwrap();
    let mut events = vec![Event::Start, md_path("in"), md_path("out")];
    if cover.is_some() && (ext == "m4a" || ext == "mp3") {
        events.push(md_path("art"));
    }
    md_run(&mut job, events);
    job.step(Event::Exit { success: false, stdout: String::new(), stderr: stderr.to_string() })
}

#[test]
fn failed_tagging_hands_on_the_complaint() {
    assert_eq!(
        md_fail_tagging("flac", None, "Invalid data found"),
        Action::Fail(AudioError::EngineExecution("Invalid data found".to_string()))
    );
    assert_eq!(
        md_fail_tagging("m4a", Some(1), "Invalid data found"),
        Action::Fail(AudioError::EngineExecution("Invalid data found".to_string()))
    );
}

#[test]
fn cover_that_mp4_cannot_carry_comes_with_advice() {
    assert_eq!(
        md_fail_tagging("m4a", Some(1), "[mp4] could not find tag for codec bmp\n"),
        Action::Fail(AudioError::EngineExecution(
            "[mp4] could not find tag for codec bmp\n\nHint: some cover formats are not allowed in MP4. Try JPEG or PNG."
                .to_string()
        ))
    );
}

#[test]
fn advice_is_for_mp4_with_cover_art_only() {
    let complaint = "could not find tag for codec";
    let plain = Action::Fail(AudioError::EngineExecution(complaint.to_string()));
    assert_eq!(md_fail_tagging("m4a", None, complaint), plain);
    assert_eq!(md_fail_tagging("mp3", Some(1), complaint), plain);
    assert_eq!(md_fail_tagging("ogg", Some(1), complaint), plain);
    assert_eq!(
        complaint_of_tagging(CoverMode::Mp4CoverAtom, &md_text("art"), "Could Not Find Tag For Codec".to_string()),
        "Could Not Find Tag For Codec"
    );
}
