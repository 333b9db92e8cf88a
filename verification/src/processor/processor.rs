//! The import job: from what ffprobe reports of a file to the library lookup
//! that finds it again, the decision to skip or transcode it, and where the
//! imported file is moved.
//!
//! Processing a job alternates outside work (running ffprobe, querying the
//! database, running ffmpeg) with decisions. The decisions are the state
//! machine of this module: `ProcessorJob::step` takes the state and what the
//! outside work gave, and returns the next state and the next work to do.
use vstd::prelude::*;
use std::sync::mpsc::{Receiver, Sender};
use crate::config::{Config, ConfigView};
use crate::processor::probe::{ProbeData, Stream};
use crate::storage::duplicata::{criteria_buildable, criteria_of, FindMetaCriteria};
use crate::number::{parse_unsigned, parsed_unsigned};
use crate::path::{file_name, file_name_of};
use crate::text::{
    append_chars, chars_of, lowered, string_of, to_lowercase, trim_chars, trim_white,
};

verus! {

/// A file waiting in the import directory.
pub struct ProcessorJob {
    pub path: String,
}

/// What processing a job came to.
pub ghost struct JobOutcome {
    /// The file is to leave the import directory.
    pub remove_import: bool,
    /// How many songs of the library matched it.
    pub matches: usize,
    /// It was transcoded.
    pub transcoded: bool,
}

/// What processing a job came to.
pub struct JobResult {
    remove_import: bool,
    matches: usize,
    transcoded: bool,
}

impl View for JobResult {
    type V = JobOutcome;

    closed spec fn view(&self) -> JobOutcome {
        JobOutcome {
            remove_import: self.remove_import,
            matches: self.matches,
            transcoded: self.transcoded,
        }
    }
}

impl JobResult {
    /// Whether the file is to leave the import directory.
    pub fn remove_import(&self) -> (r: bool)
        ensures
            r == self@.remove_import,
    {
        self.remove_import
    }

    /// How many songs of the library matched the file.
    pub fn matches(&self) -> (r: usize)
        ensures
            r == self@.matches,
    {
        self.matches
    }

    /// Whether the file was transcoded.
    pub fn transcoded(&self) -> (r: bool)
        ensures
            r == self@.transcoded,
    {
        self.transcoded
    }
}

/// The outcome of a job given up: the file stays where it is.
pub open spec fn aborted() -> JobOutcome {
    JobOutcome { remove_import: false, matches: 0, transcoded: false }
}

/// The result of a job given up.
pub fn job_result_abort() -> (r: JobResult)
    ensures
        r@ == aborted(),
{
    JobResult { remove_import: false, transcoded: false, matches: 0 }
}

/// The characters of an optional string, the empty string standing for none.
pub open spec fn text_or_empty(o: Option<String>) -> Seq<char> {
    match o {
        Some(s) => s@,
        None => Seq::empty(),
    }
}

/// The duration a stream reports, read as a `u32`; 0 when it is missing or
/// is not an unsigned integer that fits.
pub open spec fn stream_duration(s: Stream) -> u32 {
    match parsed_unsigned(text_or_empty(s.duration), u32::MAX as nat) {
        Some(v) => v as u32,
        None => 0,
    }
}

/// The streams once the first one is taken out and the last one put in its
/// place (`Vec::swap_remove(0)`).
pub open spec fn without_first(streams: Seq<Stream>) -> Seq<Stream> {
    streams.update(0, streams.last()).drop_last()
}

/// Building the lookup criteria of a probed file would fail on a trigram that
/// cuts a character: the file has a stream and tags, and its title or artist
/// (the artist standing in for the album too) cannot be tokenised.
pub open spec fn criteria_fail(p: ProbeData) -> bool {
    &&& p.streams@.len() > 0
    &&& p.format.tags matches Some(t)
    &&& !criteria_buildable(text_or_empty(t.title), text_or_empty(t.artist), text_or_empty(t.artist))
}

/// What building the lookup criteria does to the probe data and gives:
/// nothing for a file without streams; otherwise the first stream is taken
/// out, and nothing is given for a file without tags; otherwise the criteria
/// of the tagged title, the first stream's duration, and the tagged artist,
/// which also serves as the album.
pub open spec fn criteria_step(old_p: ProbeData, new_p: ProbeData, r: Option<FindMetaCriteria>) -> bool {
    if old_p.streams@.len() == 0 {
        r is None && new_p == old_p
    } else {
        &&& new_p.streams@ == without_first(old_p.streams@)
        &&& new_p.format == old_p.format
        &&& match old_p.format.tags {
            None => r is None,
            Some(t) => r matches Some(c) && criteria_of(
                c,
                text_or_empty(t.title),
                stream_duration(old_p.streams@[0]),
                text_or_empty(t.artist),
                text_or_empty(t.artist),
            ),
        }
    }
}

fn text_of(o: &Option<String>) -> (r: String)
    ensures
        r@ == text_or_empty(*o),
{
    match o {
        Some(s) => s.clone(),
        None => String::new(),
    }
}

/// Whether ffmpeg needs to run on an import.
pub enum TranscodePlan {
    /// Transcoding is off, or the file already has the configured codec at
    /// no more than the configured bitrate.
    Skip,
    /// The file lacks a bitrate or a codec: the job is given up.
    Fail,
    /// ffmpeg is to transcode the file.
    Run,
}

/// The bitrate in kbit/s that a bitrate string stands for: the integer
/// divided by 1024, the largest `u64` standing for anything unreadable.
pub open spec fn bitrate_kbs(b: Seq<char>) -> u64 {
    let bps: u64 = match parsed_unsigned(b, u64::MAX as nat) {
        Some(v) => v as u64,
        None => u64::MAX,
    };
    (bps / 1024) as u64
}

/// Deciding on transcoding reads the first stream, which a file may lack.
pub open spec fn transcode_fail(cfg: ConfigView, p: ProbeData) -> bool {
    cfg.transcode_enabled && p.format.bit_rate is Some && p.streams@.len() == 0
}

/// The decision on transcoding: skip when transcoding is off; give up
/// without a format bitrate or a codec on the first stream; skip when the
/// codec, lower-cased and trimmed, is the configured one and the bitrate is
/// at most the configured one; transcode otherwise.
pub open spec fn transcode_plan(cfg: ConfigView, p: ProbeData) -> TranscodePlan {
    if !cfg.transcode_enabled {
        TranscodePlan::Skip
    } else {
        match p.format.bit_rate {
            None => TranscodePlan::Fail,
            Some(b) => match p.streams@[0].codec {
                None => TranscodePlan::Fail,
                Some(c) => {
                    let same_codec = cfg.transcode_codec == trim_white(lowered(c@));
                    if same_codec && bitrate_kbs(b@) <= cfg.transcode_bitrate_kbs {
                        TranscodePlan::Skip
                    } else {
                        TranscodePlan::Run
                    }
                },
            },
        }
    }
}

/// The state of a job between two pieces of outside work.
pub enum ProcessState {
    /// ffprobe is to describe the file.
    AwaitProbe,
    /// The library is to be searched; the probe data are kept for the
    /// transcoding decision.
    AwaitMatches { probe: ProbeData },
    /// ffmpeg is to transcode the file.
    AwaitTranscode { result: JobResult },
    /// The job is over.
    Finished,
}

/// What a piece of outside work gave.
pub enum ProcessEvent {
    /// The probe data, or `None` when ffprobe failed.
    Probed(Option<ProbeData>),
    /// How many songs the library search found, or `None` when it failed.
    MatchesFound(Option<usize>),
    /// Whether ffmpeg succeeded.
    Transcoded(bool),
}

/// The outside work to do next.
pub enum ProcessAction {
    /// Run ffprobe on the job's file.
    RunProbe,
    /// Search the library with these criteria.
    RunFindMeta(FindMetaCriteria),
    /// Run ffmpeg on the job's file.
    RunTranscode,
    /// The job is over with this result.
    Complete(JobResult),
}

/// The job ends with the given outcome.
pub open spec fn finishes_with(next: ProcessState, action: ProcessAction, o: JobOutcome) -> bool {
    &&& next is Finished
    &&& action matches ProcessAction::Complete(r) && r@ == o
}

/// A step would fail where processing cannot go on: the
/// criteria of a probed file cannot be built, or the transcoding decision
/// would read a first stream the file no longer has.
pub open spec fn step_fail(cfg: ConfigView, state: ProcessState, event: ProcessEvent) -> bool {
    match state {
        ProcessState::AwaitProbe => match event {
            ProcessEvent::Probed(Some(p)) => criteria_fail(p),
            _ => false,
        },
        ProcessState::AwaitMatches { probe } => match event {
            ProcessEvent::MatchesFound(Some(n)) => (n == 0 || cfg.duplicates_reimport)
                && transcode_fail(cfg, probe),
            _ => false,
        },
        _ => false,
    }
}

/// One step of processing.
/// - Probing: a failed probe ends the job, given up; so does a file without
///   streams or tags. Otherwise the library is searched with the file's
///   criteria.
/// - Searching: a failed search ends the job, given up. When songs match and
///   duplicates are not reimported, the job ends: the file leaves the import
///   directory, untranscoded. Otherwise the transcoding decision is taken:
///   skipping ends the job the same way, failing gives it up, and running
///   starts ffmpeg.
/// - Transcoding: success ends the job with the file transcoded; failure
///   gives it up.
/// - Anything else ends the job, given up.
pub open spec fn step_spec(
    cfg: ConfigView,
    state: ProcessState,
    event: ProcessEvent,
    next: ProcessState,
    action: ProcessAction,
) -> bool {
    match state {
        ProcessState::AwaitProbe => match event {
            ProcessEvent::Probed(Some(p)) => {
                if p.streams@.len() == 0 || p.format.tags is None {
                    finishes_with(next, action, aborted())
                } else {
                    &&& next matches ProcessState::AwaitMatches { probe }
                    &&& action matches ProcessAction::RunFindMeta(c)
                    &&& criteria_step(p, probe, Some(c))
                }
            },
            _ => finishes_with(next, action, aborted()),
        },
        ProcessState::AwaitMatches { probe } => match event {
            ProcessEvent::MatchesFound(Some(n)) => {
                let found = JobOutcome { remove_import: true, matches: n, transcoded: false };
                if n > 0 && !cfg.duplicates_reimport {
                    finishes_with(next, action, found)
                } else {
                    match transcode_plan(cfg, probe) {
                        TranscodePlan::Skip => finishes_with(next, action, found),
                        TranscodePlan::Fail => finishes_with(next, action, aborted()),
                        TranscodePlan::Run => {
                            &&& next matches ProcessState::AwaitTranscode { result }
                            &&& result@ == found
                            &&& action is RunTranscode
                        },
                    }
                }
            },
            _ => finishes_with(next, action, aborted()),
        },
        ProcessState::AwaitTranscode { result } => match event {
            ProcessEvent::Transcoded(true) => finishes_with(
                next,
                action,
                JobOutcome { transcoded: true, ..result@ },
            ),
            _ => finishes_with(next, action, aborted()),
        },
        ProcessState::Finished => finishes_with(next, action, aborted()),
    }
}

/// The first state of a job and the first work to do: probe the file.
pub fn begin() -> (r: (ProcessState, ProcessAction))
    ensures
        r.0 is AwaitProbe,
        r.1 is RunProbe,
{
    (ProcessState::AwaitProbe, ProcessAction::RunProbe)
}

fn finish(o: JobResult) -> (r: (ProcessState, ProcessAction))
    ensures
        finishes_with(r.0, r.1, o@),
{
    (ProcessState::Finished, ProcessAction::Complete(o))
}

impl ProcessorJob {
    /// The lookup criteria, or `None` at the first place where building them
    /// would fail.
    fn try_match_criteria(&self, probemd: &mut ProbeData) -> (r: Option<
        Option<FindMetaCriteria>,
    >)
        ensures
            r is None <==> criteria_fail(*old(probemd)),
            r matches Some(c) ==> criteria_step(*old(probemd), *final(probemd), c),
            r is None ==> final(probemd).streams@ == without_first(old(probemd).streams@)
                && final(probemd).format == old(probemd).format,
    {
        if probemd.streams.len() < 1 {
            return Some(None);
        }
        let probestream = probemd.streams.swap_remove(0);
        let duration = text_of(&probestream.duration);
        let dur: u32 = match parse_unsigned(duration.as_str(), 0xffff_ffff) {
            Some(v) => v as u32,
            None => 0,
        };
        let tags = match &probemd.format.tags {
            Some(t) => t,
            None => {
                return Some(None);
            },
        };
        let title = text_of(&tags.title);
        let artist = text_of(&tags.artist);
        let album = text_of(&tags.artist);
        match FindMetaCriteria::try_new(title, dur, artist, album) {
            Some(c) => Some(Some(c)),
            None => None,
        }
    }

    /// The criteria to search the library with for a probed file. The first
    /// stream is taken out of the probe data (the last one takes its place);
    /// its duration, the tagged title and the tagged artist (also standing in
    /// for the album) make the criteria. Nothing is given for a file without
    /// streams or without tags.
    pub fn new_db_match_criteria(&self, path: &str, probemd: &mut ProbeData) -> (r: Option<
        FindMetaCriteria,
    >)
        requires
            !criteria_fail(*old(probemd)),
        ensures
            criteria_step(*old(probemd), *final(probemd), r),
    {
        match self.try_match_criteria(probemd) {
            Some(c) => c,
            None => {
                assert(false);
                None
            },
        }
    }

    /// Decides whether the file is to be transcoded (see `transcode_plan`).
    pub fn transcode(&self, cfg: &Config, path: &str, probemd: &ProbeData) -> (r: TranscodePlan)
        requires
            !transcode_fail(cfg@, *probemd),
        ensures
            r == transcode_plan(cfg@, *probemd),
    {
        if !cfg.transcode_enabled {
            return TranscodePlan::Skip;
        }
        let brate_str = match &probemd.format.bit_rate {
            Some(c) => c,
            None => {
                return TranscodePlan::Fail;
            },
        };
        let bps: u64 = match parse_unsigned(brate_str.as_str(), 0xffff_ffff_ffff_ffff) {
            Some(v) => v,
            None => 0xffff_ffff_ffff_ffff,
        };
        let brate_kbs = bps / 1024;
        let audio = &probemd.streams[0];
        let codec = match &audio.codec {
            Some(c) => c,
            None => {
                return TranscodePlan::Fail;
            },
        };
        let lower = to_lowercase(codec.as_str());
        let lower_chars = chars_of(lower.as_str());
        let trimmed = string_of(&trim_chars(&lower_chars));
        let same_codec = cfg.transcode_codec == trimmed;
        if same_codec && brate_kbs <= cfg.transcode_bitrate_kbs as u64 {
            return TranscodePlan::Skip;
        }
        TranscodePlan::Run
    }

    /// One step of processing (see `step_spec`), from a state and what the
    /// outside work gave, to the next state and the next work.
    pub fn step(&self, cfg: &Config, state: ProcessState, event: ProcessEvent) -> (r: (
        ProcessState,
        ProcessAction,
    ))
        requires
            !step_fail(cfg@, state, event),
        ensures
            step_spec(cfg@, state, event, r.0, r.1),
    {
        match self.try_step(cfg, state, event) {
            Some(r) => r,
            None => {
                assert(false);
                finish(job_result_abort())
            },
        }
    }

    /// One step of processing, or `None` exactly where the step would fail
    /// (see `step_fail`).
    pub fn try_step(&self, cfg: &Config, state: ProcessState, event: ProcessEvent) -> (r: Option<
        (ProcessState, ProcessAction),
    >)
        ensures
            r is None <==> step_fail(cfg@, state, event),
            r matches Some(n) ==> step_spec(cfg@, state, event, n.0, n.1),
    {
        match state {
            ProcessState::AwaitProbe => match event {
                ProcessEvent::Probed(Some(p)) => {
                    let mut probe = p;
                    match self.try_match_criteria(&mut probe) {
                        None => None,
                        Some(None) => Some(finish(job_result_abort())),
                        Some(Some(c)) => Some(
                            (ProcessState::AwaitMatches { probe }, ProcessAction::RunFindMeta(c)),
                        ),
                    }
                },
                _ => Some(finish(job_result_abort())),
            },
            ProcessState::AwaitMatches { probe } => match event {
                ProcessEvent::MatchesFound(Some(n)) => {
                    let found = JobResult { remove_import: true, transcoded: false, matches: n };
                    if n > 0 && !cfg.duplicates_reimport {
                        return Some(finish(found));
                    }
                    if cfg.transcode_enabled && probe.format.bit_rate.is_some()
                        && probe.streams.len() == 0 {
                        return None;
                    }
                    match self.transcode(cfg, self.path.as_str(), &probe) {
                        TranscodePlan::Skip => Some(finish(found)),
                        TranscodePlan::Fail => Some(finish(job_result_abort())),
                        TranscodePlan::Run => Some(
                            (ProcessState::AwaitTranscode { result: found }, ProcessAction::RunTranscode),
                        ),
                    }
                },
                _ => Some(finish(job_result_abort())),
            },
            ProcessState::AwaitTranscode { result } => match event {
                ProcessEvent::Transcoded(true) => {
                    let mut result = result;
                    result.transcoded = true;
                    Some(finish(result))
                },
                _ => Some(finish(job_result_abort())),
            },
            ProcessState::Finished => Some(finish(job_result_abort())),
        }
    }
}

/// `std::sync::mpsc::Sender`, the sending half of a channel.
#[verifier::external_type_specification]
#[verifier::external_body]
#[verifier::reject_recursive_types(T)]
pub struct ExSender<T>(std::sync::mpsc::Sender<T>);

/// `std::sync::mpsc::Receiver`, the receiving half of a channel.
#[verifier::external_type_specification]
#[verifier::external_body]
#[verifier::reject_recursive_types(T)]
pub struct ExReceiver<T>(std::sync::mpsc::Receiver<T>);

/// Calls `std::sync::mpsc::channel` to make a channel of jobs. Nothing is
/// stated of the two halves: they are opaque here.
#[verifier::external_body]
fn job_channel() -> (Sender<ProcessorJob>, Receiver<ProcessorJob>) {
    std::sync::mpsc::channel::<ProcessorJob>()
}

/// Calls `Sender::send` and drops its result, as the processor does: a job
/// sent after the receiving half is gone is lost. Nothing is stated of the
/// channel's contents.
#[verifier::external_body]
fn send_job(tx: &Sender<ProcessorJob>, job: ProcessorJob) {
    let _ = tx.send(job);
}

/// Receives import jobs and hands them to the worker that processes them.
pub struct Processor {
    sender: Option<Sender<ProcessorJob>>,
}

impl Processor {
    /// Whether the processor has a worker to send jobs to.
    pub closed spec fn started(&self) -> bool {
        self.sender is Some
    }

    /// A processor that is not started yet.
    pub fn new() -> (r: Self)
        ensures
            !r.started(),
    {
        Processor { sender: None }
    }

    /// Starts the processor: opens the channel that jobs go through and
    /// returns its receiving half, for the worker to process the jobs from.
    pub fn start(&mut self) -> (rx: Receiver<ProcessorJob>)
        ensures
            final(self).started(),
    {
        let (tx, rx) = job_channel();
        self.sender = Some(tx);
        rx
    }

    /// Sends a job to the worker.
    pub fn push(&self, job: ProcessorJob)
        requires
            self.started(),
    {
        match &self.sender {
            Some(tx) => send_job(tx, job),
            None => {
                assert(false);
            },
        }
    }
}

/// Where an imported file goes once processed: the `fs/origin/` directory
/// of the data directory, under the file's own name; nowhere when the path
/// has no file name.
pub open spec fn import_destination_of(path: Seq<char>, data_dir: Seq<char>) -> Option<Seq<char>> {
    match file_name_of(path) {
        None => None,
        Some(n) => Some(data_dir + "/fs/origin/"@ + n),
    }
}

impl ProcessorJob {
    /// The path the job's file is moved to (see `import_destination_of`).
    pub fn import_destination(&self, data_dir: &str) -> (r: Option<String>)
        ensures
            match import_destination_of(self.path@, data_dir@) {
                None => r is None,
                Some(d) => r matches Some(s) && s@ == d,
            },
    {
        let name = match file_name(self.path.as_str()) {
            Some(n) => n,
            None => {
                return None;
            },
        };
        let mut dst = chars_of(data_dir);
        let origin = chars_of("/fs/origin/");
        append_chars(&mut dst, &origin);
        let name_chars = chars_of(name.as_str());
        append_chars(&mut dst, &name_chars);
        Some(string_of(&dst))
    }
}

/// What every state of a job keeps: a job waiting for ffmpeg is one whose
/// file leaves the import directory and is not transcoded yet.
pub open spec fn state_ok(s: ProcessState) -> bool {
    s matches ProcessState::AwaitTranscode { result } ==> result@.remove_import
        && !result@.transcoded
}

/// What every result of a job says: a transcoded file leaves the import
/// directory, and a file that stays there is a job given up.
pub open spec fn outcome_ok(o: JobOutcome) -> bool {
    &&& o.transcoded ==> o.remove_import
    &&& !o.remove_import ==> o == aborted()
}

/// Processing starts in a state that keeps the invariant.
pub proof fn lemma_begin_ok(s: ProcessState)
    requires
        s is AwaitProbe,
    ensures
        state_ok(s),
{
}

/// Every step keeps the invariant of the states; a step ends the job exactly
/// when it completes it, and every result it completes a job with is
/// consistent.
pub proof fn lemma_step_keeps(
    cfg: ConfigView,
    state: ProcessState,
    event: ProcessEvent,
    next: ProcessState,
    action: ProcessAction,
)
    requires
        state_ok(state),
        step_spec(cfg, state, event, next, action),
    ensures
        state_ok(next),
        next is Finished <==> action is Complete,
        action matches ProcessAction::Complete(r) ==> outcome_ok(r@),
{
}

/// After a successful library search the job ends untranscoded with the
/// file leaving the import directory and the number of songs found, exactly
/// as for a duplicate that is not reimported, whenever transcoding is off or
/// the file already has the configured codec at no more than the configured
/// bitrate. A job is given up after a successful search only when the
/// transcoding decision lacks the file's bitrate or its first stream's codec.
pub proof fn lemma_search_then_finish(
    cfg: ConfigView,
    probe: ProbeData,
    n: usize,
    next: ProcessState,
    action: ProcessAction,
)
    requires
        step_spec(
            cfg,
            ProcessState::AwaitMatches { probe },
            ProcessEvent::MatchesFound(Some(n)),
            next,
            action,
        ),
    ensures
        (n > 0 && !cfg.duplicates_reimport) || !cfg.transcode_enabled ==> {
            &&& next is Finished
            &&& action matches ProcessAction::Complete(r) && r@.remove_import && r@.matches == n
                && !r@.transcoded
        },
        ({
            &&& cfg.transcode_enabled
            &&& probe.format.bit_rate matches Some(b)
            &&& probe.streams@.len() > 0
            &&& probe.streams@[0].codec matches Some(codec)
            &&& trim_white(lowered(codec@)) == cfg.transcode_codec
            &&& bitrate_kbs(b@) <= cfg.transcode_bitrate_kbs
        }) ==> {
            &&& next is Finished
            &&& action matches ProcessAction::Complete(r) && r@.remove_import && r@.matches == n
                && !r@.transcoded
        },
        action matches ProcessAction::Complete(r) ==> (!r@.remove_import ==> {
            &&& n == 0 || cfg.duplicates_reimport
            &&& cfg.transcode_enabled
            &&& (probe.format.bit_rate is None || probe.streams@[0].codec is None)
            &&& !r@.transcoded
            &&& r@.matches == 0
        }),
{
}

/// After a successful library search of a song that is new, or whose
/// duplicates are reimported, ffmpeg is run exactly when transcoding is on,
/// the file has a bitrate and a codec, and the codec is not the configured
/// one or the bitrate is above the configured one; the job then waits with
/// the file to leave the import directory and the number of songs found.
pub proof fn lemma_search_then_transcode(
    cfg: ConfigView,
    probe: ProbeData,
    n: usize,
    next: ProcessState,
    action: ProcessAction,
)
    requires
        step_spec(
            cfg,
            ProcessState::AwaitMatches { probe },
            ProcessEvent::MatchesFound(Some(n)),
            next,
            action,
        ),
        n == 0 || cfg.duplicates_reimport,
        probe.streams@.len() > 0,
    ensures
        action is RunTranscode <==> ({
            &&& cfg.transcode_enabled
            &&& probe.format.bit_rate matches Some(b)
            &&& probe.streams@[0].codec matches Some(codec)
            &&& (trim_white(lowered(codec@)) != cfg.transcode_codec || bitrate_kbs(b@)
                > cfg.transcode_bitrate_kbs)
        }),
        action is RunTranscode ==> (next matches ProcessState::AwaitTranscode { result }
            && result@.remove_import && result@.matches == n && !result@.transcoded),
{
}

/// When ffmpeg is done, a job waiting for it ends: transcoded, with the file
/// leaving the import directory and the songs found as before, when ffmpeg
/// succeeded; given up otherwise.
pub proof fn lemma_transcode_then_finish(
    cfg: ConfigView,
    result: JobResult,
    ok: bool,
    next: ProcessState,
    action: ProcessAction,
)
    requires
        step_spec(cfg, ProcessState::AwaitTranscode { result }, ProcessEvent::Transcoded(ok), next, action),
    ensures
        next is Finished,
        action matches ProcessAction::Complete(r) && r@.transcoded == ok && r@.remove_import == (ok
            && result@.remove_import) && r@.matches == (if ok {
            result@.matches
        } else {
            0
        }),
{
}

} // verus!
