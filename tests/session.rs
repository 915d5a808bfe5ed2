use twba_splitter::duration::Duration;
use twba_splitter::errors::SplitterError;
use twba_splitter::session::{video_paths, Action, Event, Phase, SplitSession, Status};

/// A stand-in for the file system, encoder and store: it answers each action
/// and keeps a log of what was asked.
struct Fake {
    input_exists: bool,
    manifest: String,
    log: Vec<String>,
    statuses: Vec<(Status, Option<usize>)>,
}

impl Fake {
    fn answer(&mut self, action: &Action) -> Event {
        match action {
            Action::SaveStatus(s, n) => {
                self.statuses.push((*s, *n));
                Event::Done
            }
            Action::CheckPaths { .. } => Event::Paths {
                base_exists: true,
                input_exists: self.input_exists,
                input_is_file: true,
            },
            Action::CreateFolder(p) => {
                self.log.push(format!("mkdir {}", p));
                Event::Done
            }
            Action::RunSplit { input, pattern, playlist, segment_time } => {
                self.log.push(format!("split {} {} {} {}", input, pattern, playlist, segment_time));
                Event::Done
            }
            Action::ReadText(p) => {
                self.log.push(format!("read {}", p));
                Event::Text(self.manifest.clone())
            }
            Action::Canonicalize(p) => Event::Text(p.clone()),
            Action::WriteText { path, text } => {
                self.log.push(format!("write {} {}", path, text));
                Event::Done
            }
            Action::RunConcat { list, output } => {
                self.log.push(format!("concat {} {}", list, output));
                Event::Done
            }
            Action::Remove(p) => {
                self.log.push(format!("rm {}", p));
                Event::Done
            }
            Action::Rename { from, to } => {
                self.log.push(format!("mv {} {}", from, to));
                Event::Done
            }
            Action::Finish(_) => Event::Done,
        }
    }
}

fn run(fake: &mut Fake, seconds_hard_cap: u64) -> (SplitSession, Result<usize, SplitterError>) {
    let soft = Duration::from_minutes(10).unwrap();
    let hard = Duration::from_millis(seconds_hard_cap * 1000);
    let mut session = SplitSession::new("/dl", "v1", soft, hard);
    let mut event = Event::Done;
    loop {
        assert!(session.accepts(&event));
        let action = session.step(event);
        if let Action::Finish(outcome) = action {
            assert_eq!(session.phase, Phase::Finished);
            return (session, outcome);
        }
        event = fake.answer(&action);
    }
}

fn manifest(seconds: &[u64]) -> String {
    let mut text = String::from("#EXTM3U\n#EXT-X-VERSION:3\n");
    for (i, s) in seconds.iter().enumerate() {
        text.push_str(&format!("#EXTINF:{}.000000,\n{:03}.mp4\n", s, i));
    }
    text.push_str("#EXT-X-ENDLIST\n");
    text
}

fn fake(input_exists: bool, manifest: String) -> Fake {
    Fake { input_exists, manifest, log: Vec::new(), statuses: Vec::new() }
}

#[test]
fn paths_are_laid_out_under_base() {
    let p = video_paths("/dl", "v1");
    assert_eq!(p.input, "/dl/v1.mp4");
    assert_eq!(p.output_folder, "/dl/v1");
    assert_eq!(p.output_pattern, "/dl/v1/%03d.mp4");
    assert_eq!(p.playlist, "/dl/v1/output.m3u8");
    assert_eq!(p.join_list, "/dl/v1/join.txt");
    assert_eq!(p.join_out, "/dl/v1/join_out_tmp.mp4");
}

#[test]
fn scenario_three_long_parts_are_kept() {
    let mut f = fake(true, manifest(&[600, 600, 600]));
    let (_, outcome) = run(&mut f, 15 * 60);
    assert_eq!(outcome, Ok(3));
    assert_eq!(
        f.statuses,
        vec![(Status::Splitting, None), (Status::Split, Some(3))]
    );
    assert_eq!(
        f.log,
        vec![
            "mkdir /dl/v1",
            "split /dl/v1.mp4 /dl/v1/%03d.mp4 /dl/v1/output.m3u8 00:10:00",
            "read /dl/v1/output.m3u8",
            "rm /dl/v1/output.m3u8",
            "rm /dl/v1.mp4",
        ]
    );
}

#[test]
fn scenario_short_tail_is_merged() {
    let mut f = fake(true, manifest(&[600, 600, 120]));
    let (session, outcome) = run(&mut f, 15 * 60);
    assert_eq!(outcome, Ok(2));
    assert_eq!(session.info.parts.len(), 2);
    assert_eq!(session.info.parts[1].duration.millis, 720_000);
    assert_eq!(f.statuses, vec![(Status::Splitting, None), (Status::Split, Some(2))]);
    assert_eq!(
        f.log,
        vec![
            "mkdir /dl/v1",
            "split /dl/v1.mp4 /dl/v1/%03d.mp4 /dl/v1/output.m3u8 00:10:00",
            "read /dl/v1/output.m3u8",
            "rm /dl/v1/output.m3u8",
            "write /dl/v1/join.txt file '/dl/v1/001.mp4'\nfile '/dl/v1/002.mp4'",
            "concat /dl/v1/join.txt /dl/v1/join_out_tmp.mp4",
            "rm /dl/v1/002.mp4",
            "rm /dl/v1/001.mp4",
            "rm /dl/v1/join.txt",
            "mv /dl/v1/join_out_tmp.mp4 /dl/v1/001.mp4",
            "rm /dl/v1.mp4",
        ]
    );
}

#[test]
fn scenario_missing_input_fails() {
    let mut f = fake(false, manifest(&[600]));
    let (_, outcome) = run(&mut f, 15 * 60);
    assert_eq!(outcome, Err(SplitterError::NotFound("/dl/v1.mp4".to_string())));
    assert_eq!(f.statuses, vec![(Status::Splitting, None), (Status::SplitFailed, None)]);
    assert!(f.log.is_empty());
}

#[test]
fn scenario_bad_duration_keeps_source() {
    let mut f = fake(true, "#EXTM3U\n#EXTINF:ten,\n000.mp4\n".to_string());
    let (_, outcome) = run(&mut f, 15 * 60);
    assert_eq!(outcome, Err(SplitterError::PlaylistParse(1)));
    assert_eq!(f.statuses, vec![(Status::Splitting, None), (Status::SplitFailed, None)]);
    assert!(!f.log.iter().any(|l| l == "rm /dl/v1.mp4"));
}

#[test]
fn input_that_is_no_file_fails() {
    let mut s = SplitSession::new("/dl", "v1", Duration::from_millis(1), Duration::from_millis(1));
    assert!(matches!(s.step(Event::Done), Action::SaveStatus(Status::Splitting, None)));
    assert!(matches!(s.step(Event::Done), Action::CheckPaths { .. }));
    let a = s.step(Event::Paths { base_exists: true, input_exists: true, input_is_file: false });
    assert!(matches!(a, Action::SaveStatus(Status::SplitFailed, None)));
    match s.step(Event::Done) {
        Action::Finish(r) => {
            assert_eq!(r, Err(SplitterError::InvalidInputFile("/dl/v1.mp4".to_string())))
        }
        _ => panic!("expected the run to finish"),
    }
}

#[test]
fn encoder_failure_is_recorded_and_returned() {
    let mut s = SplitSession::new("/dl", "v1", Duration::from_millis(1), Duration::from_millis(1));
    s.step(Event::Done);
    s.step(Event::Done);
    s.step(Event::Paths { base_exists: true, input_exists: true, input_is_file: true });
    assert!(matches!(s.step(Event::Done), Action::RunSplit { .. }));
    let err = SplitterError::FfmpegCommand("no ffmpeg".to_string());
    assert!(matches!(s.step(Event::Failed(err.clone())), Action::SaveStatus(Status::SplitFailed, None)));
    match s.step(Event::Done) {
        Action::Finish(r) => assert_eq!(r, Err(err)),
        _ => panic!("expected the run to finish"),
    }
    assert!(!s.accepts(&Event::Done));
}

#[test]
fn empty_manifest_fails_the_run() {
    let mut f = fake(true, "#EXTM3U\n#EXT-X-ENDLIST\n".to_string());
    let (_, outcome) = run(&mut f, 15 * 60);
    assert_eq!(outcome, Err(SplitterError::PlaylistEmpty));
    assert!(!f.log.iter().any(|l| l == "rm /dl/v1.mp4"));
}

#[test]
fn wrong_kind_of_report_is_not_accepted() {
    let mut s = SplitSession::new("/dl", "v1", Duration::from_millis(1), Duration::from_millis(1));
    s.step(Event::Done);
    assert!(s.accepts(&Event::Done));
    assert!(!s.accepts(&Event::Text(String::new())));
    s.step(Event::Done);
    assert!(!s.accepts(&Event::Done));
    assert!(s.accepts(&Event::Paths { base_exists: true, input_exists: true, input_is_file: true }));
}

#[test]
fn failed_splitting_write_ends_without_another_write() {
    let mut s = SplitSession::new("/dl", "v1", Duration::from_millis(1), Duration::from_millis(1));
    assert!(matches!(s.step(Event::Done), Action::SaveStatus(Status::Splitting, None)));
    let err = SplitterError::OpenDatabase("store down".to_string());
    match s.step(Event::Failed(err.clone())) {
        Action::Finish(r) => assert_eq!(r, Err(err)),
        _ => panic!("expected the run to finish at once"),
    }
    assert_eq!(s.phase, Phase::Finished);
}

#[test]
fn merge_keeps_parts_through_file_steps() {
    let mut f = fake(true, manifest(&[600, 600, 120]));
    let (session, outcome) = run(&mut f, 12 * 60);
    assert_eq!(outcome, Ok(2));
    assert_eq!(session.info.parts[1].path, "001.mp4");
    assert_eq!(session.info.total_duration.millis, 1_320_000);
}
