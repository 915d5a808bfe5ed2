//! The workflow for one video, as a state machine. The caller performs each
//! `Action` (a store update, a file operation, an encoder run) and reports
//! how it went as the next `Event`; the machine decides what comes next.
//! The source file is removed only after the manifest has been read and any
//! merge has finished; every failure records `SplitFailed` before it is
//! handed back.

use crate::duration::{clock_text, duration_to_string, Duration};
use crate::errors::SplitterError;
use crate::merge::{
    combine_path_as_string, join_last_parts_if_needed, join_list, join_list_text, joined, merge_due,
    merge_tail, JoinFiles,
};
use crate::playlist::{manifest_parts, parse_playlist, PlaylistInfo};
use crate::text::push_str;
use vstd::prelude::*;

verus! {

/// Where a video stands in the store.
#[derive(Debug, Clone, Copy, PartialEq, Eq, Structural)]
pub enum Status {
    Downloaded,
    Splitting,
    Split,
    SplitFailed,
}

/// The files of one video under the download folder.
pub struct VideoPaths {
    /// `{id}.mp4`, the source.
    pub input: String,
    /// `{id}/`, where the parts go.
    pub output_folder: String,
    /// `{id}/%03d.mp4`, the encoder's naming pattern for the parts.
    pub output_pattern: String,
    /// `{id}/output.m3u8`, the manifest.
    pub playlist: String,
    /// `{id}/join.txt`, the concat list of a merge.
    pub join_list: String,
    /// `{id}/join_out_tmp.mp4`, the output of a merge before it is renamed.
    pub join_out: String,
}

impl VideoPaths {
    pub open spec fn laid_out(&self, base: Seq<char>, id: Seq<char>) -> bool {
        let folder = joined(base, id);
        &&& self.input@ == joined(base, id + ".mp4"@)
        &&& self.output_folder@ == folder
        &&& self.output_pattern@ == joined(folder, "%03d.mp4"@)
        &&& self.playlist@ == joined(folder, "output.m3u8"@)
        &&& self.join_list@ == joined(folder, "join.txt"@)
        &&& self.join_out@ == joined(folder, "join_out_tmp.mp4"@)
    }
}

/// The paths of video `id` under the download folder `base`.
pub fn video_paths(base: &str, id: &str) -> (r: VideoPaths)
    ensures
        r.laid_out(base@, id@),
{
    let mut file = String::new();
    push_str(&mut file, id);
    push_str(&mut file, ".mp4");
    let input = combine_path_as_string(base, file.as_str());
    let output_folder = combine_path_as_string(base, id);
    let output_pattern = combine_path_as_string(output_folder.as_str(), "%03d.mp4");
    let playlist = combine_path_as_string(output_folder.as_str(), "output.m3u8");
    let join_list = combine_path_as_string(output_folder.as_str(), "join.txt");
    let join_out = combine_path_as_string(output_folder.as_str(), "join_out_tmp.mp4");
    VideoPaths { input, output_folder, output_pattern, playlist, join_list, join_out }
}

/// What the caller is to do next.
pub enum Action {
    /// Store `status` for the video, and `part_count` where one is given.
    SaveStatus(Status, Option<usize>),
    /// Report whether `base` and `input` exist and whether `input` is a file.
    CheckPaths { base: String, input: String },
    /// Create the folder and any missing parents.
    CreateFolder(String),
    /// Split `input` into parts named by `pattern`, of about `segment_time`
    /// (`HH:MM:SS`) each, and write the manifest to `playlist`.
    RunSplit { input: String, pattern: String, playlist: String, segment_time: String },
    /// Report the text of the file.
    ReadText(String),
    /// Report the canonical absolute form of the path.
    Canonicalize(String),
    /// Write the text to the file.
    WriteText { path: String, text: String },
    /// Join the files that the concat list names into `output`.
    RunConcat { list: String, output: String },
    /// Remove the file.
    Remove(String),
    /// Move the file `from` to `to`.
    Rename { from: String, to: String },
    /// The video is done: the number of parts, or the error that stopped it.
    Finish(Result<usize, SplitterError>),
}

/// How the last action went.
pub enum Event {
    /// It succeeded.
    Done,
    /// It succeeded and gave this text.
    Text(String),
    /// The answer to `CheckPaths`.
    Paths { base_exists: bool, input_exists: bool, input_is_file: bool },
    /// It failed.
    Failed(SplitterError),
}

/// The step that the machine waits on.
#[derive(Debug, Clone, Copy, PartialEq, Eq, Structural)]
pub enum Phase {
    Start,
    MarkSplitting,
    CheckPaths,
    CreateFolder,
    Split,
    ReadManifest,
    RemoveManifest,
    CanonicalizeFirst,
    CanonicalizeSecond,
    WriteJoinList,
    Concat,
    RemoveSecond,
    RemoveFirst,
    RemoveJoinList,
    RenameJoined,
    RemoveInput,
    Record,
    Finished,
}

/// One video's run.
pub struct SplitSession {
    pub phase: Phase,
    pub paths: VideoPaths,
    pub base: String,
    pub soft_cap: Duration,
    pub hard_cap: Duration,
    /// The parts as read from the manifest, after any merge.
    pub info: PlaylistInfo,
    /// The two files of the merge, once one is due.
    pub join: Option<JoinFiles>,
    /// The canonical path of the merge's first file.
    pub first_abs: String,
    /// The error that ended the run, once there is one.
    pub failure: Option<SplitterError>,
}

/// Where the phase waits for a report of success with no data.
pub open spec fn awaits_done(p: Phase) -> bool {
    !(p is Start || p is CheckPaths || p is ReadManifest || p is CanonicalizeFirst
        || p is CanonicalizeSecond || p is Finished)
}

/// Where the phase waits for a text.
pub open spec fn awaits_text(p: Phase) -> bool {
    p is ReadManifest || p is CanonicalizeFirst || p is CanonicalizeSecond
}

/// Whether `e` answers what phase `p` waits on. A failure answers any
/// phase but the first and the last.
pub open spec fn answers(p: Phase, e: Event) -> bool {
    if p is Start {
        true
    } else if p is Finished {
        false
    } else {
        match e {
            Event::Done => awaits_done(p),
            Event::Text(_) => awaits_text(p),
            Event::Paths { .. } => p is CheckPaths,
            Event::Failed(_) => true,
        }
    }
}

impl SplitSession {
    pub open spec fn wf(&self) -> bool {
        &&& self.info.wf()
        &&& self.join is Some <==> (self.phase is CanonicalizeFirst || self.phase is CanonicalizeSecond
            || self.phase is WriteJoinList || self.phase is Concat || self.phase is RemoveSecond
            || self.phase is RemoveFirst || self.phase is RemoveJoinList
            || self.phase is RenameJoined)
    }

    /// A run for video `id`, files under `base`, parts split at about
    /// `soft_cap` and a last pair merged up to `hard_cap`.
    pub fn new(base: &str, id: &str, soft_cap: Duration, hard_cap: Duration) -> (r: SplitSession)
        ensures
            r.wf(),
            r.phase is Start,
            r.paths.laid_out(base@, id@),
            r.base@ == base@,
            r.soft_cap == soft_cap,
            r.hard_cap == hard_cap,
            r.failure is None,
    {
        let mut b = String::new();
        push_str(&mut b, base);
        let info = PlaylistInfo { total_duration: Duration::from_millis(0), parts: Vec::new() };
        assert(info.parts_view() =~= Seq::<(nat, Seq<char>)>::empty());
        SplitSession {
            phase: Phase::Start,
            paths: video_paths(base, id),
            base: b,
            soft_cap,
            hard_cap,
            info,
            join: None,
            first_abs: String::new(),
            failure: None,
        }
    }

    /// Whether `event` answers the step that the run waits on.
    pub fn accepts(&self, event: &Event) -> (r: bool)
        ensures
            r == answers(self.phase, *event),
    {
        match self.phase {
            Phase::Start => true,
            Phase::Finished => false,
            _ => match event {
                Event::Done => !matches!(self.phase, Phase::CheckPaths | Phase::ReadManifest
                    | Phase::CanonicalizeFirst | Phase::CanonicalizeSecond),
                Event::Text(_) => matches!(self.phase, Phase::ReadManifest
                    | Phase::CanonicalizeFirst | Phase::CanonicalizeSecond),
                Event::Paths { .. } => matches!(self.phase, Phase::CheckPaths),
                Event::Failed(_) => true,
            },
        }
    }

    fn fail(&mut self, error: SplitterError) -> (a: Action)
        requires
            old(self).info.wf(),
        ensures
            final(self).wf(),
            final(self).phase is Record,
            final(self).failure == Some(error),
            final(self).paths == old(self).paths,
            final(self).base == old(self).base,
            final(self).soft_cap == old(self).soft_cap,
            final(self).hard_cap == old(self).hard_cap,
            final(self).info == old(self).info,
            a == Action::SaveStatus(Status::SplitFailed, None),
    {
        self.phase = Phase::Record;
        self.failure = Some(error);
        self.join = None;
        Action::SaveStatus(Status::SplitFailed, None)
    }

    /// Takes the report of the last action and gives the next one.
    pub fn step(&mut self, event: Event) -> (a: Action)
        requires
            old(self).wf(),
            answers(old(self).phase, event),
        ensures
            final(self).wf(),
            final(self).paths == old(self).paths,
            final(self).base == old(self).base,
            final(self).soft_cap == old(self).soft_cap,
            final(self).hard_cap == old(self).hard_cap,
            // a failure reported mid-run is recorded, then handed back
            // a failed write of `Splitting` ends the run at once: nothing was
            // touched, and the record stays as it was
            old(self).phase is MarkSplitting && event is Failed ==> {
                &&& a == Action::Finish(Err(event->Failed_0))
                &&& final(self).phase is Finished
            },
            event is Failed && !(old(self).phase is Start || old(self).phase is MarkSplitting
                || old(self).phase is Record) ==> {
                &&& a == Action::SaveStatus(Status::SplitFailed, None)
                &&& final(self).phase is Record
                &&& final(self).failure == Some(event->Failed_0)
            },
            old(self).phase is Record ==> {
                &&& final(self).phase is Finished
                &&& a == Action::Finish(
                    match event {
                        Event::Failed(e) => Err(e),
                        _ => match old(self).failure {
                            Some(e) => Err(e),
                            None => Ok(old(self).info.parts@.len() as usize),
                        },
                    },
                )
            },
            old(self).phase is Start ==> {
                &&& a == Action::SaveStatus(Status::Splitting, None)
                &&& final(self).phase is MarkSplitting
            },
            old(self).phase is MarkSplitting && event is Done ==> {
                &&& final(self).phase is CheckPaths
                &&& a is CheckPaths
                &&& a->CheckPaths_base@ == old(self).base@
                &&& a->CheckPaths_input@ == old(self).paths.input@
            },
            old(self).phase is CheckPaths && event is Paths ==> {
                if !event->Paths_base_exists || !event->Paths_input_exists {
                    &&& a == Action::SaveStatus(Status::SplitFailed, None)
                    &&& final(self).phase is Record
                    &&& final(self).failure is Some
                    &&& final(self).failure->Some_0 is NotFound
                    &&& final(self).failure->Some_0->NotFound_0@ == old(self).paths.input@
                } else if !event->Paths_input_is_file {
                    &&& a == Action::SaveStatus(Status::SplitFailed, None)
                    &&& final(self).phase is Record
                    &&& final(self).failure is Some
                    &&& final(self).failure->Some_0 is InvalidInputFile
                    &&& final(self).failure->Some_0->InvalidInputFile_0@ == old(self).paths.input@
                } else {
                    &&& final(self).phase is CreateFolder
                    &&& a is CreateFolder
                    &&& a->CreateFolder_0@ == old(self).paths.output_folder@
                }
            },
            old(self).phase is CreateFolder && event is Done ==> {
                &&& final(self).phase is Split
                &&& a is RunSplit
                &&& a->RunSplit_input@ == old(self).paths.input@
                &&& a->RunSplit_pattern@ == old(self).paths.output_pattern@
                &&& a->RunSplit_playlist@ == old(self).paths.playlist@
                &&& a->RunSplit_segment_time@ == clock_text(old(self).soft_cap.millis as nat / 1000)
            },
            old(self).phase is Split && event is Done ==> {
                &&& final(self).phase is ReadManifest
                &&& a is ReadText
                &&& a->ReadText_0@ == old(self).paths.playlist@
            },
            old(self).phase is ReadManifest && event is Text ==> match manifest_parts(
                event->Text_0@,
            ) {
                Ok(parts) => if parts.len() == 0 {
                    &&& a == Action::SaveStatus(Status::SplitFailed, None)
                    &&& final(self).phase is Record
                    &&& final(self).failure == Some(SplitterError::PlaylistEmpty)
                } else {
                    &&& final(self).phase is RemoveManifest
                    &&& final(self).info.parts_view() == parts
                    &&& a is Remove
                    &&& a->Remove_0@ == old(self).paths.playlist@
                },
                Err(line) => {
                    &&& a == Action::SaveStatus(Status::SplitFailed, None)
                    &&& final(self).phase is Record
                    &&& final(self).failure == Some(SplitterError::PlaylistParse(line as usize))
                },
            },
            old(self).phase is RemoveManifest && event is Done ==> if merge_due(
                old(self).info.parts_view(),
                old(self).hard_cap.millis as nat,
            ) {
                let n = old(self).info.parts@.len() as int;
                &&& final(self).phase is CanonicalizeFirst
                &&& final(self).info.parts_view() == merge_tail(old(self).info.parts_view())
                &&& final(self).join->Some_0.first@ == old(self).info.parts@[n - 2].path@
                &&& final(self).join->Some_0.second@ == old(self).info.parts@[n - 1].path@
                &&& a is Canonicalize
                &&& a->Canonicalize_0@ == joined(
                    old(self).paths.output_folder@,
                    old(self).info.parts@[n - 2].path@,
                )
            } else {
                &&& final(self).phase is RemoveInput
                &&& final(self).info == old(self).info
                &&& a is Remove
                &&& a->Remove_0@ == old(self).paths.input@
            },
            old(self).phase is CanonicalizeFirst && event is Text ==> {
                &&& final(self).info == old(self).info
                &&& final(self).join == old(self).join
                &&& final(self).phase is CanonicalizeSecond
                &&& final(self).first_abs@ == event->Text_0@
                &&& a is Canonicalize
                &&& a->Canonicalize_0@ == joined(
                    old(self).paths.output_folder@,
                    old(self).join->Some_0.second@,
                )
            },
            old(self).phase is CanonicalizeSecond && event is Text ==> {
                &&& final(self).info == old(self).info
                &&& final(self).join == old(self).join
                &&& final(self).phase is WriteJoinList
                &&& a is WriteText
                &&& a->WriteText_path@ == old(self).paths.join_list@
                &&& a->WriteText_text@ == join_list(old(self).first_abs@, event->Text_0@)
            },
            old(self).phase is WriteJoinList && event is Done ==> {
                &&& final(self).info == old(self).info
                &&& final(self).join == old(self).join
                &&& final(self).phase is Concat
                &&& a is RunConcat
                &&& a->RunConcat_list@ == old(self).paths.join_list@
                &&& a->RunConcat_output@ == old(self).paths.join_out@
            },
            old(self).phase is Concat && event is Done ==> {
                &&& final(self).info == old(self).info
                &&& final(self).join == old(self).join
                &&& final(self).phase is RemoveSecond
                &&& a is Remove
                &&& a->Remove_0@ == joined(
                    old(self).paths.output_folder@,
                    old(self).join->Some_0.second@,
                )
            },
            old(self).phase is RemoveSecond && event is Done ==> {
                &&& final(self).info == old(self).info
                &&& final(self).join == old(self).join
                &&& final(self).phase is RemoveFirst
                &&& a is Remove
                &&& a->Remove_0@ == joined(
                    old(self).paths.output_folder@,
                    old(self).join->Some_0.first@,
                )
            },
            old(self).phase is RemoveFirst && event is Done ==> {
                &&& final(self).info == old(self).info
                &&& final(self).join == old(self).join
                &&& final(self).phase is RemoveJoinList
                &&& a is Remove
                &&& a->Remove_0@ == old(self).paths.join_list@
            },
            old(self).phase is RemoveJoinList && event is Done ==> {
                &&& final(self).info == old(self).info
                &&& final(self).join == old(self).join
                &&& final(self).phase is RenameJoined
                &&& a is Rename
                &&& a->Rename_from@ == old(self).paths.join_out@
                &&& a->Rename_to@ == joined(
                    old(self).paths.output_folder@,
                    old(self).join->Some_0.first@,
                )
            },
            old(self).phase is RenameJoined && event is Done ==> {
                &&& final(self).phase is RemoveInput
                &&& final(self).info == old(self).info
                &&& a is Remove
                &&& a->Remove_0@ == old(self).paths.input@
            },
            old(self).phase is RemoveInput && event is Done ==> {
                &&& final(self).phase is Record
                &&& final(self).failure is None
                &&& final(self).info == old(self).info
                &&& a == Action::SaveStatus(
                    Status::Split,
                    Some(old(self).info.parts@.len() as usize),
                )
            },
    {
        let phase = self.phase;
        match phase {
            Phase::Start => {
                self.phase = Phase::MarkSplitting;
                return Action::SaveStatus(Status::Splitting, None);
            },
            Phase::Record => {
                self.phase = Phase::Finished;
                self.join = None;
                let failure = self.failure.take();
                let outcome = match event {
                    Event::Failed(e) => Err(e),
                    _ => match failure {
                        Some(e) => Err(e),
                        None => Ok(self.info.parts.len()),
                    },
                };
                return Action::Finish(outcome);
            },
            _ => {},
        }
        let event = match event {
            Event::Failed(e) => {
                if phase == Phase::MarkSplitting {
                    self.phase = Phase::Finished;
                    return Action::Finish(Err(e));
                }
                return self.fail(e);
            },
            other => other,
        };
        match phase {
            Phase::MarkSplitting => {
                self.phase = Phase::CheckPaths;
                Action::CheckPaths { base: self.base.clone(), input: self.paths.input.clone() }
            },
            Phase::CheckPaths => match event {
                Event::Paths { base_exists, input_exists, input_is_file } => {
                    if !base_exists || !input_exists {
                        let p = self.paths.input.clone();
                        self.fail(SplitterError::NotFound(p))
                    } else if !input_is_file {
                        let p = self.paths.input.clone();
                        self.fail(SplitterError::InvalidInputFile(p))
                    } else {
                        self.phase = Phase::CreateFolder;
                        Action::CreateFolder(self.paths.output_folder.clone())
                    }
                },
                _ => self.fail(SplitterError::JoinRequiresAtLeastTwoParts),
            },
            Phase::CreateFolder => {
                self.phase = Phase::Split;
                Action::RunSplit {
                    input: self.paths.input.clone(),
                    pattern: self.paths.output_pattern.clone(),
                    playlist: self.paths.playlist.clone(),
                    segment_time: duration_to_string(&self.soft_cap),
                }
            },
            Phase::Split => {
                self.phase = Phase::ReadManifest;
                Action::ReadText(self.paths.playlist.clone())
            },
            Phase::ReadManifest => match event {
                Event::Text(t) => match parse_playlist(t.as_str()) {
                    Ok(info) => {
                        self.info = info;
                        self.phase = Phase::RemoveManifest;
                        Action::Remove(self.paths.playlist.clone())
                    },
                    Err(e) => self.fail(e),
                },
                _ => self.fail(SplitterError::JoinRequiresAtLeastTwoParts),
            },
            Phase::RemoveManifest => {
                match join_last_parts_if_needed(&mut self.info, &self.hard_cap) {
                    Some(files) => {
                        let p = combine_path_as_string(
                            self.paths.output_folder.as_str(),
                            files.first.as_str(),
                        );
                        self.join = Some(files);
                        self.phase = Phase::CanonicalizeFirst;
                        Action::Canonicalize(p)
                    },
                    None => {
                        self.phase = Phase::RemoveInput;
                        Action::Remove(self.paths.input.clone())
                    },
                }
            },
            Phase::CanonicalizeFirst => match (event, &self.join) {
                (Event::Text(t), Some(files)) => {
                    let p = combine_path_as_string(
                        self.paths.output_folder.as_str(),
                        files.second.as_str(),
                    );
                    self.first_abs = t;
                    self.phase = Phase::CanonicalizeSecond;
                    Action::Canonicalize(p)
                },
                _ => self.fail(SplitterError::JoinRequiresAtLeastTwoParts),
            },
            Phase::CanonicalizeSecond => match event {
                Event::Text(t) => {
                    self.phase = Phase::WriteJoinList;
                    Action::WriteText {
                        path: self.paths.join_list.clone(),
                        text: join_list_text(self.first_abs.as_str(), t.as_str()),
                    }
                },
                _ => self.fail(SplitterError::JoinRequiresAtLeastTwoParts),
            },
            Phase::WriteJoinList => {
                self.phase = Phase::Concat;
                Action::RunConcat {
                    list: self.paths.join_list.clone(),
                    output: self.paths.join_out.clone(),
                }
            },
            Phase::Concat => match &self.join {
                Some(files) => {
                    let p = combine_path_as_string(
                        self.paths.output_folder.as_str(),
                        files.second.as_str(),
                    );
                    self.phase = Phase::RemoveSecond;
                    Action::Remove(p)
                },
                None => self.fail(SplitterError::JoinRequiresAtLeastTwoParts),
            },
            Phase::RemoveSecond => match &self.join {
                Some(files) => {
                    let p = combine_path_as_string(
                        self.paths.output_folder.as_str(),
                        files.first.as_str(),
                    );
                    self.phase = Phase::RemoveFirst;
                    Action::Remove(p)
                },
                None => self.fail(SplitterError::JoinRequiresAtLeastTwoParts),
            },
            Phase::RemoveFirst => {
                self.phase = Phase::RemoveJoinList;
                Action::Remove(self.paths.join_list.clone())
            },
            Phase::RemoveJoinList => match &self.join {
                Some(files) => {
                    let p = combine_path_as_string(
                        self.paths.output_folder.as_str(),
                        files.first.as_str(),
                    );
                    self.phase = Phase::RenameJoined;
                    Action::Rename { from: self.paths.join_out.clone(), to: p }
                },
                None => self.fail(SplitterError::JoinRequiresAtLeastTwoParts),
            },
            Phase::RenameJoined => {
                self.join = None;
                self.phase = Phase::RemoveInput;
                Action::Remove(self.paths.input.clone())
            },
            Phase::RemoveInput => {
                self.phase = Phase::Record;
                self.failure = None;
                Action::SaveStatus(Status::Split, Some(self.info.parts.len()))
            },
            _ => self.fail(SplitterError::JoinRequiresAtLeastTwoParts),
        }
    }
}

} // verus!
