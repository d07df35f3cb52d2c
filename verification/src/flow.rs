use vstd::prelude::*;
use crate::db::{is_answered, is_transcribed, QuestionRow};
use crate::gemini::chars_opt;
use crate::text::{dec, dec_int, push_dec, push_dec_i64, push_str, trim, trim_string};

verus! {

/// The screens of the app.
#[derive(Clone, Debug)]
pub enum Screen {
    KeyGate,
    Home,
    NewProject,
    Topic { project_id: String },
    Studio { project_id: String, selected: usize },
    Finish { project_id: String },
}

/// What background work reports back.
pub enum Job {
    KeyOk,
    KeyErr(String),
    QuestionsOk { project_id: String, questions: Vec<String> },
    QuestionsErr(String),
    Recorded { question_id: i64, square: String, wav: String },
    RecordErr(String),
    Transcript { question_id: i64, text: String },
    TranscribeProgress { done: usize, total: usize },
    TranscribeDone,
    TranscribeErr(String),
    ExportDone(usize),
    ExportErr(String),
}

/// What the app has to store after a job has been taken in.
pub enum Effect {
    Nothing,
    /// Keep this API key in the settings and save them.
    StoreKey { key: String },
    /// Replace the questions of a project.
    ReplaceQuestions { project_id: String, questions: Vec<String> },
    /// Store the transcript of a question.
    SaveTranscript { question_id: i64, text: String },
    /// Store the recorded answer of a question.
    SaveAnswer { question_id: i64, square: String, wav: String },
}

/// The state of the app's screens and forms.
pub struct FlowState {
    pub screen: Screen,
    pub status: String,
    pub busy: bool,
    pub saving: bool,
    pub gate_key: String,
    pub gate_error: Option<String>,
    pub new_title: String,
    pub topic_input: String,
    pub form_error: Option<String>,
    pub re_recording: bool,
    pub burn_captions: bool,
    pub transcribe_progress: Option<(usize, usize)>,
}

/// `Transcribing {done} / {total}`.
pub open spec fn transcribing_status(done: nat, total: nat) -> Seq<char> {
    "Transcribing "@ + dec(done) + " / "@ + dec(total)
}

/// `Exported {count} answer pair(s) to Movies.`
pub open spec fn exported_status(count: nat) -> Seq<char> {
    "Exported "@ + dec(count) + " answer pair(s) to Movies."@
}

fn transcribing_text(done: usize, total: usize) -> (r: String)
    ensures
        r@ == transcribing_status(done as nat, total as nat),
{
    let mut s = String::new();
    push_str(&mut s, "Transcribing ");
    push_dec(&mut s, done as u128);
    push_str(&mut s, " / ");
    push_dec(&mut s, total as u128);
    s
}

fn text(lit: &str) -> (r: String)
    ensures
        r@ == lit@,
{
    let mut s = String::new();
    push_str(&mut s, lit);
    s
}

/// The fields that a job leaves alone.
pub open spec fn same_forms(a: FlowState, b: FlowState) -> bool {
    &&& a.gate_key == b.gate_key
    &&& a.new_title == b.new_title
    &&& a.topic_input == b.topic_input
    &&& a.burn_captions == b.burn_captions
}

/// The screen a fresh start opens on: the key gate until a Gemini key is stored.
pub fn initial_screen(has_key: bool) -> (r: Screen)
    ensures
        has_key ==> r is Home,
        !has_key ==> r is KeyGate,
{
    if has_key {
        Screen::Home
    } else {
        Screen::KeyGate
    }
}

/// The project and question picked in the studio.
pub fn studio_selection(screen: &Screen) -> (r: Option<(String, usize)>)
    ensures
        match *screen {
            Screen::Studio { project_id, selected } => r matches Some((p, s)) && p@ == project_id@
                && s == selected,
            _ => r is None,
        },
{
    match screen {
        Screen::Studio { project_id, selected } => Some((project_id.clone(), *selected)),
        _ => None,
    }
}

/// The project shown on the finish screen.
pub fn finish_project_id(screen: &Screen) -> (r: Option<String>)
    ensures
        match *screen {
            Screen::Finish { project_id } => r matches Some(p) && p@ == project_id@,
            _ => r is None,
        },
{
    match screen {
        Screen::Finish { project_id } => Some(project_id.clone()),
        _ => None,
    }
}

/// The index of the first question at `position`.
pub fn find_question(rows: &Vec<QuestionRow>, position: i64) -> (r: Option<usize>)
    ensures
        match r {
            Some(i) => i < rows@.len() && rows@[i as int].position == position && forall|k: int|
                0 <= k < i ==> (#[trigger] rows@[k]).position != position,
            None => forall|k: int| 0 <= k < rows@.len() ==> (#[trigger] rows@[k]).position != position,
        },
{
    let mut i: usize = 0;
    while i < rows.len()
        invariant
            0 <= i <= rows@.len(),
            forall|k: int| 0 <= k < i ==> (#[trigger] rows@[k]).position != position,
        decreases rows@.len() - i,
    {
        if rows[i].position == position {
            return Some(i);
        }
        i = i + 1;
    }
    None
}

/// Whether the question at `position` has been answered (the first one at that position).
pub open spec fn position_answered(rows: Seq<QuestionRow>, position: int) -> bool {
    exists|i: int|
        0 <= i < rows.len() && rows[i].position == position && is_answered(rows[i]) && forall|k: int|
            0 <= k < i ==> (#[trigger] rows[k]).position != position
}

pub fn question_answered(rows: &Vec<QuestionRow>, position: i64) -> (r: bool)
    ensures
        r == position_answered(rows@, position as int),
{
    match find_question(rows, position) {
        Some(i) => {
            let a = rows[i].answered();
            proof {
                if !a {
                    assert forall|j: int|
                        0 <= j < rows@.len() && rows@[j].position == position && is_answered(
                            rows@[j],
                        ) implies exists|k: int| 0 <= k < j && (#[trigger] rows@[k]).position
                        == position by {
                        if j > i {
                            assert(rows@[i as int].position == position);
                        } else if j < i {
                        }
                    }
                }
            }
            a
        },
        None => false,
    }
}

/// The live camera shows in the studio while recording, while re-recording, and for
/// questions without an answer.
pub open spec fn live_preview(in_studio: bool, recording: bool, re_recording: bool, answered: bool) -> bool {
    in_studio && (recording || re_recording || !answered)
}

/// A recorded answer plays in the studio when nothing is being recorded.
pub open spec fn playback(in_studio: bool, recording: bool, re_recording: bool, answered: bool) -> bool {
    in_studio && !recording && !re_recording && answered
}

pub fn wants_live_preview(screen: &Screen, recording: bool, re_recording: bool, answered: bool) -> (r: bool)
    ensures
        r == live_preview(screen is Studio, recording, re_recording, answered),
{
    match screen {
        Screen::Studio { .. } => recording || re_recording || !answered,
        _ => false,
    }
}

pub fn wants_playback(screen: &Screen, recording: bool, re_recording: bool, answered: bool) -> (r: bool)
    ensures
        r == playback(screen is Studio, recording, re_recording, answered),
{
    match screen {
        Screen::Studio { .. } => !recording && !re_recording && answered,
        _ => false,
    }
}

/// In the studio exactly one of the live camera and the recorded answer is wanted; elsewhere
/// neither is.
pub proof fn lemma_preview_or_playback(in_studio: bool, recording: bool, re_recording: bool, answered: bool)
    ensures
        !(live_preview(in_studio, recording, re_recording, answered) && playback(
            in_studio,
            recording,
            re_recording,
            answered,
        )),
        in_studio ==> (live_preview(in_studio, recording, re_recording, answered) || playback(
            in_studio,
            recording,
            re_recording,
            answered,
        )),
{
}

// ---------------------------------------------------------------------------
// The finish screen
// ---------------------------------------------------------------------------

/// The number of rows among `rows` that satisfy `p`.
pub open spec fn count_rows(rows: Seq<QuestionRow>, p: spec_fn(QuestionRow) -> bool) -> nat
    decreases rows.len(),
{
    if rows.len() == 0 {
        0
    } else {
        count_rows(rows.drop_last(), p) + if p(rows.last()) {
            1nat
        } else {
            0nat
        }
    }
}

pub open spec fn answered_and_transcribed(row: QuestionRow) -> bool {
    is_answered(row) && is_transcribed(row)
}

/// Export is possible once something is answered and every answer has a transcript.
pub open spec fn export_ready(rows: Seq<QuestionRow>) -> bool {
    let answered = count_rows(rows, |r: QuestionRow| is_answered(r));
    answered > 0 && count_rows(rows, |r: QuestionRow| answered_and_transcribed(r)) == answered
}

/// How many questions are answered, how many of those are transcribed, and whether export
/// may start.
pub fn finish_summary(rows: &Vec<QuestionRow>) -> (r: (usize, usize, bool))
    ensures
        r.0 == count_rows(rows@, |row: QuestionRow| is_answered(row)),
        r.1 == count_rows(rows@, |row: QuestionRow| answered_and_transcribed(row)),
        r.2 == export_ready(rows@),
{
    let ghost pa = |row: QuestionRow| is_answered(row);
    let ghost pt = |row: QuestionRow| answered_and_transcribed(row);
    let mut answered: usize = 0;
    let mut transcribed: usize = 0;
    let mut i: usize = 0;
    while i < rows.len()
        invariant
            0 <= i <= rows@.len(),
            pa == (|row: QuestionRow| is_answered(row)),
            pt == (|row: QuestionRow| answered_and_transcribed(row)),
            answered == count_rows(rows@.take(i as int), pa),
            transcribed == count_rows(rows@.take(i as int), pt),
            transcribed <= answered <= i,
        decreases rows@.len() - i,
    {
        let a = rows[i].answered();
        let t = rows[i].transcribed();
        assert(rows@.take(i + 1).drop_last() =~= rows@.take(i as int));
        if a {
            answered = answered + 1;
            if t {
                transcribed = transcribed + 1;
            }
        }
        i = i + 1;
    }
    assert(rows@.take(rows@.len() as int) =~= rows@);
    (answered, transcribed, answered > 0 && transcribed == answered)
}

/// Each count only counts rows that the other predicate admits, so one count bounds the other.
proof fn lemma_count_mono(rows: Seq<QuestionRow>)
    ensures
        count_rows(rows, |r: QuestionRow| answered_and_transcribed(r)) <= count_rows(
            rows,
            |r: QuestionRow| is_answered(r),
        ),
        count_rows(rows, |r: QuestionRow| answered_and_transcribed(r)) == count_rows(
            rows,
            |r: QuestionRow| is_answered(r),
        ) <==> forall|k: int|
            0 <= k < rows.len() && is_answered(#[trigger] rows[k]) ==> is_transcribed(rows[k]),
        count_rows(rows, |r: QuestionRow| is_answered(r)) > 0 <==> exists|k: int|
            0 <= k < rows.len() && is_answered(#[trigger] rows[k]),
    decreases rows.len(),
{
    let pa = |r: QuestionRow| is_answered(r);
    let pt = |r: QuestionRow| answered_and_transcribed(r);
    if rows.len() > 0 {
        let init = rows.drop_last();
        lemma_count_mono(init);
        let n = rows.len() - 1;
        assert forall|k: int| 0 <= k < init.len() implies #[trigger] init[k] == rows[k] by {}
        if forall|k: int| 0 <= k < rows.len() && is_answered(#[trigger] rows[k]) ==> is_transcribed(
            rows[k],
        ) {
            assert forall|k: int| 0 <= k < init.len() && is_answered(#[trigger] init[k]) implies is_transcribed(
                init[k],
            ) by {
                assert(init[k] == rows[k]);
            }
        }
        if count_rows(rows, pt) == count_rows(rows, pa) {
            assert forall|k: int| 0 <= k < rows.len() && is_answered(#[trigger] rows[k]) implies is_transcribed(
                rows[k],
            ) by {
                if k < n {
                    assert(init[k] == rows[k]);
                }
            }
        }
        if exists|k: int| 0 <= k < rows.len() && is_answered(#[trigger] rows[k]) {
            let k = choose|k: int| 0 <= k < rows.len() && is_answered(#[trigger] rows[k]);
            if k < n {
                assert(init[k] == rows[k]);
            }
        }
        if exists|k: int| 0 <= k < init.len() && is_answered(#[trigger] init[k]) {
            let k = choose|k: int| 0 <= k < init.len() && is_answered(#[trigger] init[k]);
            assert(rows[k] == init[k]);
        }
    }
}

/// Export is ready exactly when some question is answered and every answered question has
/// a transcript: transcription is required before export.
pub proof fn lemma_export_ready(rows: Seq<QuestionRow>)
    ensures
        export_ready(rows) <==> (exists|k: int| 0 <= k < rows.len() && is_answered(#[trigger] rows[k]))
            && forall|k: int|
            0 <= k < rows.len() && is_answered(#[trigger] rows[k]) ==> is_transcribed(rows[k]),
{
    lemma_count_mono(rows);
}


// ---------------------------------------------------------------------------
// Background jobs
// ---------------------------------------------------------------------------

/// Whether a job reports the end of the background work that made the state busy.
pub open spec fn ends_work(job: Job) -> bool {
    match job {
        Job::KeyOk | Job::KeyErr(_) | Job::QuestionsOk { .. } | Job::QuestionsErr(_)
        | Job::TranscribeDone | Job::TranscribeErr(_) | Job::ExportDone(_) | Job::ExportErr(_) => true,
        _ => false,
    }
}

/// Whether a job reports the end of saving a recorded answer.
pub open spec fn ends_saving(job: Job) -> bool {
    job is Recorded || job is RecordErr
}

/// How taking in one job changes the `busy` and `saving` flags.
pub open spec fn job_flags(before: FlowState, job: Job, after: FlowState) -> bool {
    &&& after.busy == (before.busy && !ends_work(job))
    &&& after.saving == (before.saving && !ends_saving(job))
}

/// Jobs taken in one after the other, each by `on_job` and then `after_effect` (which keeps
/// both flags): `busy` ends cleared exactly when one of the jobs ended the work under way,
/// `saving` exactly when one of them ended saving an answer; otherwise each keeps its value.
/// `states[i]` is the state before job `i` is taken in.
pub proof fn lemma_drain_jobs(jobs: Seq<Job>, states: Seq<FlowState>)
    requires
        states.len() == jobs.len() + 1,
        forall|i: int| 0 <= i < jobs.len() ==> #[trigger] job_flags(states[i], jobs[i], states[i + 1]),
    ensures
        states.last().busy == (states[0].busy && forall|i: int|
            0 <= i < jobs.len() ==> !ends_work(#[trigger] jobs[i])),
        states.last().saving == (states[0].saving && forall|i: int|
            0 <= i < jobs.len() ==> !ends_saving(#[trigger] jobs[i])),
    decreases jobs.len(),
{
    if jobs.len() > 0 {
        let n = jobs.len() - 1;
        let js = jobs.drop_last();
        let ss = states.drop_last();
        assert forall|i: int| 0 <= i < js.len() implies #[trigger] job_flags(ss[i], js[i], ss[i + 1]) by {
            assert(job_flags(states[i], jobs[i], states[i + 1]));
        }
        lemma_drain_jobs(js, ss);
        assert(job_flags(states[n], jobs[n], states[n + 1]));
        assert(ss.last() == states[n]);
        assert(states.last() == states[n + 1]);
        if forall|i: int| 0 <= i < jobs.len() ==> !ends_work(#[trigger] jobs[i]) {
            assert forall|i: int| 0 <= i < js.len() implies !ends_work(#[trigger] js[i]) by {
                assert(js[i] == jobs[i]);
            }
        } else {
            let k = choose|k: int| 0 <= k < jobs.len() && ends_work(jobs[k]);
            if k < n {
                assert(js[k] == jobs[k]);
            }
        }
        if forall|i: int| 0 <= i < jobs.len() ==> !ends_saving(#[trigger] jobs[i]) {
            assert forall|i: int| 0 <= i < js.len() implies !ends_saving(#[trigger] js[i]) by {
                assert(js[i] == jobs[i]);
            }
        } else {
            let k = choose|k: int| 0 <= k < jobs.len() && ends_saving(jobs[k]);
            if k < n {
                assert(js[k] == jobs[k]);
            }
        }
        if states[0].busy && forall|i: int| 0 <= i < js.len() ==> !ends_work(#[trigger] js[i]) {
            if !ends_work(jobs[n]) {
                assert forall|i: int| 0 <= i < jobs.len() implies !ends_work(#[trigger] jobs[i]) by {
                    if i < n {
                        assert(js[i] == jobs[i]);
                    }
                }
            }
        }
        if states[0].saving && forall|i: int| 0 <= i < js.len() ==> !ends_saving(#[trigger] js[i]) {
            if !ends_saving(jobs[n]) {
                assert forall|i: int| 0 <= i < jobs.len() implies !ends_saving(#[trigger] jobs[i]) by {
                    if i < n {
                        assert(js[i] == jobs[i]);
                    }
                }
            }
        }
    }
}

impl FlowState {
    /// A fresh state on the given screen.
    pub fn new(screen: Screen) -> (r: FlowState)
        ensures
            r.screen == screen,
            r.status@ == Seq::<char>::empty(),
            !r.busy && !r.saving && !r.re_recording && !r.burn_captions,
            r.gate_key@ == Seq::<char>::empty(),
            r.new_title@ == Seq::<char>::empty(),
            r.topic_input@ == Seq::<char>::empty(),
            r.gate_error is None && r.form_error is None && r.transcribe_progress is None,
    {
        FlowState {
            screen,
            status: String::new(),
            busy: false,
            saving: false,
            gate_key: String::new(),
            gate_error: None,
            new_title: String::new(),
            topic_input: String::new(),
            form_error: None,
            re_recording: false,
            burn_captions: false,
            transcribe_progress: None,
        }
    }

    /// Takes in what a background job reports and says what has to be stored.
    pub fn on_job(&mut self, job: Job) -> (e: Effect)
        ensures
            same_forms(*old(self), *final(self)),
            job_flags(*old(self), job, *final(self)),
            match job {
                Job::KeyOk => {
                    &&& e matches Effect::StoreKey { key } && key@ == trim(old(self).gate_key@)
                    &&& !final(self).busy && final(self).gate_error is None
                    &&& final(self).screen is Home
                    &&& final(self).status == old(self).status
                    &&& final(self).form_error == old(self).form_error
                    &&& final(self).saving == old(self).saving
                    &&& final(self).re_recording == old(self).re_recording
                    &&& final(self).transcribe_progress == old(self).transcribe_progress
                },
                Job::KeyErr(err) => {
                    &&& e is Nothing
                    &&& !final(self).busy && final(self).gate_error == Some(err)
                    &&& final(self).screen == old(self).screen
                    &&& final(self).status == old(self).status
                    &&& final(self).form_error == old(self).form_error
                    &&& final(self).saving == old(self).saving
                    &&& final(self).re_recording == old(self).re_recording
                    &&& final(self).transcribe_progress == old(self).transcribe_progress
                },
                Job::QuestionsOk { project_id, questions } => {
                    &&& e matches Effect::ReplaceQuestions { project_id: p, questions: q } && p
                        == project_id && q == questions
                    &&& !final(self).busy
                    &&& final(self).screen == old(self).screen
                    &&& final(self).status == old(self).status
                    &&& final(self).gate_error == old(self).gate_error
                    &&& final(self).form_error == old(self).form_error
                    &&& final(self).saving == old(self).saving
                    &&& final(self).re_recording == old(self).re_recording
                    &&& final(self).transcribe_progress == old(self).transcribe_progress
                },
                Job::QuestionsErr(err) => {
                    &&& e is Nothing
                    &&& !final(self).busy
                    &&& final(self).form_error matches Some(f) && f@ == err@
                    &&& final(self).status == err
                    &&& final(self).screen == old(self).screen
                    &&& final(self).gate_error == old(self).gate_error
                    &&& final(self).saving == old(self).saving
                    &&& final(self).re_recording == old(self).re_recording
                    &&& final(self).transcribe_progress == old(self).transcribe_progress
                },
                Job::Recorded { question_id, square, wav } => {
                    &&& e matches Effect::SaveAnswer { question_id: i, square: s, wav: w } && i
                        == question_id && s == square && w == wav
                    &&& !final(self).saving && !final(self).re_recording
                    &&& final(self).busy == old(self).busy
                    &&& final(self).screen == old(self).screen
                    &&& final(self).status == old(self).status
                    &&& final(self).gate_error == old(self).gate_error
                    &&& final(self).form_error == old(self).form_error
                    &&& final(self).transcribe_progress == old(self).transcribe_progress
                },
                Job::RecordErr(err) => {
                    &&& e is Nothing
                    &&& !final(self).saving
                    &&& final(self).status == err
                    &&& final(self).busy == old(self).busy
                    &&& final(self).re_recording == old(self).re_recording
                    &&& final(self).screen == old(self).screen
                    &&& final(self).gate_error == old(self).gate_error
                    &&& final(self).form_error == old(self).form_error
                    &&& final(self).transcribe_progress == old(self).transcribe_progress
                },
                Job::Transcript { question_id, text } => {
                    &&& e matches Effect::SaveTranscript { question_id: i, text: t } && i
                        == question_id && t == text
                    &&& final(self).busy == old(self).busy
                    &&& final(self).saving == old(self).saving
                    &&& final(self).re_recording == old(self).re_recording
                    &&& final(self).screen == old(self).screen
                    &&& final(self).status == old(self).status
                    &&& final(self).gate_error == old(self).gate_error
                    &&& final(self).form_error == old(self).form_error
                    &&& final(self).transcribe_progress == old(self).transcribe_progress
                },
                Job::TranscribeProgress { done, total } => {
                    &&& e is Nothing
                    &&& final(self).transcribe_progress == Some((done, total))
                    &&& final(self).status@ == transcribing_status(done as nat, total as nat)
                    &&& final(self).busy == old(self).busy
                    &&& final(self).saving == old(self).saving
                    &&& final(self).re_recording == old(self).re_recording
                    &&& final(self).screen == old(self).screen
                    &&& final(self).gate_error == old(self).gate_error
                    &&& final(self).form_error == old(self).form_error
                },
                Job::TranscribeDone => {
                    &&& e is Nothing
                    &&& !final(self).busy
                    &&& final(self).status@ == "Transcription finished."@
                    &&& final(self).saving == old(self).saving
                    &&& final(self).re_recording == old(self).re_recording
                    &&& final(self).screen == old(self).screen
                    &&& final(self).gate_error == old(self).gate_error
                    &&& final(self).form_error == old(self).form_error
                    &&& final(self).transcribe_progress == old(self).transcribe_progress
                },
                Job::TranscribeErr(err) => {
                    &&& e is Nothing
                    &&& !final(self).busy
                    &&& final(self).status == err
                    &&& final(self).saving == old(self).saving
                    &&& final(self).re_recording == old(self).re_recording
                    &&& final(self).screen == old(self).screen
                    &&& final(self).gate_error == old(self).gate_error
                    &&& final(self).form_error == old(self).form_error
                    &&& final(self).transcribe_progress == old(self).transcribe_progress
                },
                Job::ExportDone(count) => {
                    &&& e is Nothing
                    &&& !final(self).busy
                    &&& final(self).status@ == exported_status(count as nat)
                    &&& final(self).saving == old(self).saving
                    &&& final(self).re_recording == old(self).re_recording
                    &&& final(self).screen == old(self).screen
                    &&& final(self).gate_error == old(self).gate_error
                    &&& final(self).form_error == old(self).form_error
                    &&& final(self).transcribe_progress == old(self).transcribe_progress
                },
                Job::ExportErr(err) => {
                    &&& e is Nothing
                    &&& !final(self).busy
                    &&& final(self).status == err
                    &&& final(self).saving == old(self).saving
                    &&& final(self).re_recording == old(self).re_recording
                    &&& final(self).screen == old(self).screen
                    &&& final(self).gate_error == old(self).gate_error
                    &&& final(self).form_error == old(self).form_error
                    &&& final(self).transcribe_progress == old(self).transcribe_progress
                },
            },
    {
        match job {
            Job::KeyOk => {
                let key = trim_string(self.gate_key.as_str());
                self.busy = false;
                self.gate_error = None;
                self.screen = Screen::Home;
                Effect::StoreKey { key }
            },
            Job::KeyErr(err) => {
                self.busy = false;
                self.gate_error = Some(err);
                Effect::Nothing
            },
            Job::QuestionsOk { project_id, questions } => {
                self.busy = false;
                Effect::ReplaceQuestions { project_id, questions }
            },
            Job::QuestionsErr(err) => {
                self.busy = false;
                self.form_error = Some(err.clone());
                self.status = err;
                Effect::Nothing
            },
            Job::Recorded { question_id, square, wav } => {
                self.saving = false;
                self.re_recording = false;
                Effect::SaveAnswer { question_id, square, wav }
            },
            Job::RecordErr(err) => {
                self.saving = false;
                self.status = err;
                Effect::Nothing
            },
            Job::Transcript { question_id, text } => Effect::SaveTranscript { question_id, text },
            Job::TranscribeProgress { done, total } => {
                self.transcribe_progress = Some((done, total));
                self.status = transcribing_text(done, total);
                Effect::Nothing
            },
            Job::TranscribeDone => {
                self.busy = false;
                self.status = text("Transcription finished.");
                Effect::Nothing
            },
            Job::TranscribeErr(err) => {
                self.busy = false;
                self.status = err;
                Effect::Nothing
            },
            Job::ExportDone(count) => {
                self.busy = false;
                let mut s = String::new();
                push_str(&mut s, "Exported ");
                push_dec(&mut s, count as u128);
                push_str(&mut s, " answer pair(s) to Movies.");
                self.status = s;
                Effect::Nothing
            },
            Job::ExportErr(err) => {
                self.busy = false;
                self.status = err;
                Effect::Nothing
            },
        }
    }

    /// Takes in how saving the settings went: a failure is shown in the status line.
    pub fn settings_saved(&mut self, result: Result<(), String>)
        ensures
            match result {
                Ok(_) => *final(self) == *old(self),
                Err(err) => {
                    &&& final(self).status@ == "Could not save settings: "@ + err@
                    &&& *final(self) == (FlowState { status: final(self).status, ..*old(self) })
                },
            },
    {
        if let Err(err) = result {
            let mut s = String::new();
            push_str(&mut s, "Could not save settings: ");
            push_str(&mut s, err.as_str());
            self.status = s;
        }
    }

    /// Takes in how storing an effect went.
    pub fn after_effect(&mut self, effect: &Effect, result: Result<(), String>)
        ensures
            same_forms(*old(self), *final(self)),
            final(self).busy == old(self).busy,
            final(self).saving == old(self).saving,
            final(self).re_recording == old(self).re_recording,
            final(self).gate_error == old(self).gate_error,
            final(self).transcribe_progress == old(self).transcribe_progress,
            match *effect {
                Effect::StoreKey { .. } => {
                    &&& final(self).screen == old(self).screen
                    &&& final(self).form_error == old(self).form_error
                    &&& match result {
                        Ok(_) => final(self).status == old(self).status,
                        Err(err) => final(self).status@ == "Could not save settings: "@ + err@,
                    }
                },
                Effect::ReplaceQuestions { project_id, .. } => match result {
                    Ok(_) => {
                        &&& final(self).status@ == Seq::<char>::empty()
                        &&& final(self).screen matches Screen::Studio { project_id: p, selected }
                            && p@ == project_id@ && selected == 1
                        &&& final(self).form_error == old(self).form_error
                    },
                    Err(err) => {
                        &&& final(self).form_error == Some(err)
                        &&& final(self).status == old(self).status
                        &&& final(self).screen == old(self).screen
                    },
                },
                Effect::SaveAnswer { square, .. } => {
                    &&& final(self).screen == old(self).screen
                    &&& final(self).form_error == old(self).form_error
                    &&& match result {
                        Ok(_) => final(self).status@ == "Saved "@ + square@,
                        Err(err) => final(self).status == err,
                    }
                },
                _ => {
                    &&& final(self).screen == old(self).screen
                    &&& final(self).form_error == old(self).form_error
                    &&& match result {
                        Ok(_) => final(self).status == old(self).status,
                        Err(err) => final(self).status == err,
                    }
                },
            },
    {
        match effect {
            Effect::StoreKey { .. } => {
                self.settings_saved(result);
            },
            Effect::ReplaceQuestions { project_id, .. } => match result {
                Ok(()) => {
                    self.status = String::new();
                    self.screen = Screen::Studio { project_id: project_id.clone(), selected: 1 };
                },
                Err(err) => {
                    self.form_error = Some(err);
                },
            },
            Effect::SaveAnswer { square, .. } => match result {
                Ok(()) => {
                    let mut s = String::new();
                    push_str(&mut s, "Saved ");
                    push_str(&mut s, square.as_str());
                    self.status = s;
                },
                Err(err) => {
                    self.status = err;
                },
            },
            _ => {
                if let Err(err) = result {
                    self.status = err;
                }
            },
        }
    }
}


// ---------------------------------------------------------------------------
// Forms and buttons
// ---------------------------------------------------------------------------

/// The positions in `rows` of the rows that satisfy `p`, in order.
pub open spec fn indices_where(rows: Seq<QuestionRow>, p: spec_fn(QuestionRow) -> bool) -> Seq<usize>
    decreases rows.len(),
{
    if rows.len() == 0 {
        seq![]
    } else {
        indices_where(rows.drop_last(), p) + if p(rows.last()) {
            seq![(rows.len() - 1) as usize]
        } else {
            Seq::<usize>::empty()
        }
    }
}

pub open spec fn needs_transcript(row: QuestionRow) -> bool {
    is_answered(row) && !is_transcribed(row)
}

/// Every answered question has a transcript.
pub open spec fn all_transcribed(rows: Seq<QuestionRow>) -> bool {
    forall|k: int| 0 <= k < rows.len() && is_answered(#[trigger] rows[k]) ==> is_transcribed(rows[k])
}

/// Some question has an answer.
pub open spec fn any_answered(rows: Seq<QuestionRow>) -> bool {
    exists|k: int| 0 <= k < rows.len() && is_answered(#[trigger] rows[k])
}

/// The positions of the rows that satisfy `answered` (and `!transcribed` when `pending`).
fn select_rows(rows: &Vec<QuestionRow>, pending: bool) -> (r: Vec<usize>)
    ensures
        pending ==> r@ == indices_where(rows@, |row: QuestionRow| needs_transcript(row)),
        !pending ==> r@ == indices_where(rows@, |row: QuestionRow| is_answered(row)),
{
    let ghost p = if pending {
        |row: QuestionRow| needs_transcript(row)
    } else {
        |row: QuestionRow| is_answered(row)
    };
    let mut r: Vec<usize> = Vec::new();
    let mut i: usize = 0;
    while i < rows.len()
        invariant
            0 <= i <= rows@.len(),
            p == (if pending {
                |row: QuestionRow| needs_transcript(row)
            } else {
                |row: QuestionRow| is_answered(row)
            }),
            r@ == indices_where(rows@.take(i as int), p),
        decreases rows@.len() - i,
    {
        assert(rows@.take(i + 1).drop_last() =~= rows@.take(i as int));
        assert(rows@.take(i + 1).last() == rows@[i as int]);
        let keep = if pending {
            rows[i].answered() && !rows[i].transcribed()
        } else {
            rows[i].answered()
        };
        if keep {
            r.push(i);
        }
        proof {
            assert(r@ =~= indices_where(rows@.take(i + 1), p));
        }
        i = i + 1;
    }
    assert(rows@.take(rows@.len() as int) =~= rows@);
    r
}

/// The entry of a question in the studio's list: a filled dot once it has an answer, its
/// number and its text.
pub open spec fn question_entry(answered: bool, position: int, text: Seq<char>) -> Seq<char> {
    (if answered {
        "●"@
    } else {
        "○"@
    }) + " Q"@ + dec_int(position) + "  "@ + text
}

pub fn question_list_label(answered: bool, position: i64, text: &str) -> (r: String)
    ensures
        r@ == question_entry(answered, position as int, text@),
{
    let mut s = if answered {
        self::text("●")
    } else {
        self::text("○")
    };
    push_str(&mut s, " Q");
    push_dec_i64(&mut s, position);
    push_str(&mut s, "  ");
    push_str(&mut s, text);
    s
}

/// The caption of the transcribe button: the progress while transcription runs.
pub fn transcribe_label(progress: Option<(usize, usize)>) -> (r: String)
    ensures
        match progress {
            Some((done, total)) => r@ == transcribing_status(done as nat, total as nat),
            None => r@ == "Transcribe videos"@,
        },
{
    match progress {
        Some((done, total)) => transcribing_text(done, total),
        None => text("Transcribe videos"),
    }
}

/// The line of the finish screen that counts the answers and transcripts.
pub open spec fn finish_counts(answered: nat, transcribed: nat) -> Seq<char> {
    dec(answered) + " answered · "@ + dec(transcribed)
        + " transcribed. Transcription is required before export."@
}

pub fn finish_counts_label(answered: usize, transcribed: usize) -> (r: String)
    ensures
        r@ == finish_counts(answered as nat, transcribed as nat),
{
    let mut s = String::new();
    push_dec(&mut s, answered as u128);
    push_str(&mut s, " answered · ");
    push_dec(&mut s, transcribed as u128);
    push_str(&mut s, " transcribed. Transcription is required before export.");
    s
}

/// The caption of the export button: `Exporting…` while an export (a background job that
/// is not a transcription) runs.
pub fn export_label(busy: bool, transcribing: bool) -> (r: &'static str)
    ensures
        busy && !transcribing ==> r@ == "Exporting…"@,
        !(busy && !transcribing) ==> r@ == "Export"@,
{
    if busy && !transcribing {
        "Exporting…"
    } else {
        "Export"
    }
}

/// What a click on the answer button does.
#[derive(Clone, Copy, Debug, PartialEq, Eq, Structural)]
pub enum AnswerClick {
    /// Stop the recording under way.
    Stop,
    /// Show the live camera again so that the answer can be recorded anew.
    ReRecord,
    /// Start recording.
    Start,
}

pub fn answer_click(recording: bool, answered: bool, re_recording: bool) -> (r: AnswerClick)
    ensures
        recording ==> r == AnswerClick::Stop,
        !recording && answered && !re_recording ==> r == AnswerClick::ReRecord,
        !recording && (!answered || re_recording) ==> r == AnswerClick::Start,
{
    if recording {
        AnswerClick::Stop
    } else if answered && !re_recording {
        AnswerClick::ReRecord
    } else {
        AnswerClick::Start
    }
}

/// The caption of the answer button, apart from the clock shown while recording.
pub open spec fn answer_caption(recording: bool, saving: bool, live: bool, answered: bool) -> Seq<char> {
    if recording {
        "Stop   "@
    } else if saving {
        "Saving…"@
    } else if live && answered {
        "Record your answer"@
    } else if answered {
        "Re-record your answer"@
    } else {
        "Record your answer"@
    }
}

/// The caption of the answer button; `clock` is shown after `Stop` while recording.
pub fn answer_label(recording: bool, saving: bool, live: bool, answered: bool, clock: &str) -> (r: String)
    ensures
        recording ==> r@ == answer_caption(recording, saving, live, answered) + clock@,
        !recording ==> r@ == answer_caption(recording, saving, live, answered),
{
    if recording {
        let mut s = text("Stop   ");
        push_str(&mut s, clock);
        s
    } else if saving {
        text("Saving…")
    } else if live && answered {
        text("Record your answer")
    } else if answered {
        text("Re-record your answer")
    } else {
        text("Record your answer")
    }
}

/// What the preview square shows while there is no picture.
pub fn preview_placeholder(permission_denied: bool, no_cameras: bool) -> (r: &'static str)
    ensures
        permission_denied ==> r@ == "Video permission denied"@,
        !permission_denied && no_cameras ==> r@ == "No video source found"@,
        !permission_denied && !no_cameras ==> r@ == "Waiting for video…"@,
{
    if permission_denied {
        "Video permission denied"
    } else if no_cameras {
        "No video source found"
    } else {
        "Waiting for video…"
    }
}

impl FlowState {
    /// Starts checking the entered API key and returns the key to check.
    pub fn begin_key_check(&mut self) -> (key: String)
        ensures
            key@ == trim(old(self).gate_key@),
            final(self).busy,
            final(self).gate_error is None,
            same_forms(*old(self), *final(self)),
            final(self).screen == old(self).screen,
            final(self).status == old(self).status,
            final(self).form_error == old(self).form_error,
    {
        let key = trim_string(self.gate_key.as_str());
        self.busy = true;
        self.gate_error = None;
        key
    }

    /// Checks the new project's name: returns the title to create, or asks for one.
    pub fn begin_create_project(&mut self) -> (r: Option<String>)
        ensures
            trim(old(self).new_title@).len() == 0 ==> (r is None && (final(self).form_error matches Some(
                e,
            ) && e@ == "Give the project a name."@)),
            trim(old(self).new_title@).len() > 0 ==> (r matches Some(t) && t@ == trim(
                old(self).new_title@,
            ) && final(self).form_error == old(self).form_error),
            same_forms(*old(self), *final(self)),
            final(self).screen == old(self).screen,
            final(self).status == old(self).status,
            final(self).busy == old(self).busy,
    {
        let title = trim_string(self.new_title.as_str());
        if title.as_str().unicode_len() == 0 {
            self.form_error = Some(text("Give the project a name."));
            return None;
        }
        Some(title)
    }

    /// The project has been created: clear the forms and ask for its topic.
    pub fn project_created(&mut self, project_id: String)
        ensures
            final(self).new_title@ == Seq::<char>::empty(),
            final(self).topic_input@ == Seq::<char>::empty(),
            final(self).form_error is None,
            final(self).screen == (Screen::Topic { project_id }),
            final(self).status == old(self).status,
            final(self).busy == old(self).busy,
            final(self).gate_key == old(self).gate_key,
    {
        self.new_title = String::new();
        self.topic_input = String::new();
        self.form_error = None;
        self.screen = Screen::Topic { project_id };
    }

    /// Opens a project. `project` is the stored topic of the project, or the error of looking
    /// it up; `question_count` the number of its questions, which counts only when it has a
    /// topic. A project without a topic or questions opens on the topic form, any other in
    /// the studio on its first question.
    pub fn open_project(
        &mut self,
        project_id: String,
        project: Result<Option<String>, String>,
        question_count: Result<usize, String>,
    )
        ensures
            match project {
                Err(err) => {
                    &&& final(self).status == err
                    &&& final(self).screen == old(self).screen
                    &&& final(self).form_error == old(self).form_error
                    &&& final(self).re_recording == old(self).re_recording
                    &&& final(self).topic_input == old(self).topic_input
                },
                Ok(topic) => {
                    &&& final(self).form_error is None
                    &&& !final(self).re_recording
                    &&& final(self).topic_input@ == match topic {
                        Some(t) => t@,
                        None => Seq::<char>::empty(),
                    }
                    &&& match (topic, question_count) {
                        (None, _) => final(self).screen == (Screen::Topic { project_id })
                            && final(self).status == old(self).status,
                        (Some(_), Ok(n)) => final(self).status == old(self).status && if n == 0 {
                            final(self).screen == (Screen::Topic { project_id })
                        } else {
                            final(self).screen == (Screen::Studio { project_id, selected: 1 })
                        },
                        (Some(_), Err(err)) => final(self).status == err && final(self).screen
                            == old(self).screen,
                    }
                },
            },
            final(self).busy == old(self).busy,
            final(self).new_title == old(self).new_title,
    {
        match project {
            Err(err) => {
                self.status = err;
            },
            Ok(topic) => {
                self.form_error = None;
                self.re_recording = false;
                match topic {
                    None => {
                        self.topic_input = String::new();
                        self.screen = Screen::Topic { project_id };
                    },
                    Some(t) => {
                        self.topic_input = t;
                        match question_count {
                            Ok(n) => {
                                if n == 0 {
                                    self.screen = Screen::Topic { project_id };
                                } else {
                                    self.screen = Screen::Studio { project_id, selected: 1 };
                                }
                            },
                            Err(err) => {
                                self.status = err;
                            },
                        }
                    },
                }
            },
        }
    }

    /// Checks the topic form: returns the project and the topic to ask questions about.
    pub fn begin_topic(&mut self) -> (r: Option<(String, String)>)
        ensures
            match old(self).screen {
                Screen::Topic { project_id } => if trim(old(self).topic_input@).len() == 0 {
                    &&& r is None
                    &&& final(self).form_error matches Some(e) && e@
                        == "What would you like to speak about?"@
                } else {
                    &&& r matches Some((p, t)) && p@ == project_id@ && t@ == trim(
                        old(self).topic_input@,
                    )
                    &&& final(self).form_error == old(self).form_error
                },
                _ => r is None && final(self).form_error == old(self).form_error,
            },
            final(self).screen == old(self).screen,
            final(self).status == old(self).status,
            final(self).busy == old(self).busy,
            same_forms(*old(self), *final(self)),
    {
        let project_id = match &self.screen {
            Screen::Topic { project_id } => project_id.clone(),
            _ => {
                return None;
            },
        };
        let topic = trim_string(self.topic_input.as_str());
        if topic.as_str().unicode_len() == 0 {
            self.form_error = Some(text("What would you like to speak about?"));
            return None;
        }
        Some((project_id, topic))
    }

    /// The topic has been stored (or not): on success Gemini is asked for the questions.
    pub fn topic_saved(&mut self, result: Result<(), String>) -> (ask: bool)
        ensures
            ask == result is Ok,
            match result {
                Ok(_) => {
                    &&& final(self).busy
                    &&& final(self).form_error is None
                    &&& final(self).status@ == "Asking Gemini for 10 questions…"@
                },
                Err(err) => {
                    &&& final(self).form_error == Some(err)
                    &&& final(self).busy == old(self).busy
                    &&& final(self).status == old(self).status
                },
            },
            final(self).screen == old(self).screen,
            same_forms(*old(self), *final(self)),
    {
        match result {
            Ok(()) => {
                self.busy = true;
                self.form_error = None;
                self.status = text("Asking Gemini for 10 questions…");
                true
            },
            Err(err) => {
                self.form_error = Some(err);
                false
            },
        }
    }

    /// Starts transcribing: returns the positions of the answered questions that still lack
    /// a transcript, or says that there are none.
    pub fn start_transcribe(&mut self, rows: &Vec<QuestionRow>) -> (r: Option<Vec<usize>>)
        ensures
            ({
                let pending = indices_where(rows@, |row: QuestionRow| needs_transcript(row));
                if pending.len() == 0 {
                    &&& r is None
                    &&& final(self).status@ == "Every answered question already has a transcript."@
                    &&& *final(self) == (FlowState { status: final(self).status, ..*old(self) })
                } else {
                    &&& r matches Some(v) && v@ == pending
                    &&& final(self).status@ == transcribing_status(0, pending.len())
                    &&& *final(self) == (FlowState {
                        status: final(self).status,
                        busy: true,
                        transcribe_progress: Some((0usize, pending.len() as usize)),
                        ..*old(self)
                    })
                }
            }),
    {
        let pending = select_rows(rows, true);
        if pending.len() == 0 {
            self.status = text("Every answered question already has a transcript.");
            return None;
        }
        self.busy = true;
        self.transcribe_progress = Some((0, pending.len()));
        self.status = transcribing_text(0, pending.len());
        Some(pending)
    }

    /// Starts the export: returns the positions of the answered questions, or says why the
    /// export cannot start (an answer without transcript, or no answer at all).
    pub fn start_export(&mut self, rows: &Vec<QuestionRow>) -> (r: Option<Vec<usize>>)
        ensures
            !all_transcribed(rows@) ==> r is None && final(self).status@
                == "Transcribe every answered question before export."@,
            all_transcribed(rows@) && !any_answered(rows@) ==> r is None && final(self).status@
                == "Record at least one answer before export."@,
            all_transcribed(rows@) && any_answered(rows@) ==> (r matches Some(v) && v@
                == indices_where(rows@, |row: QuestionRow| is_answered(row)) && final(self).busy
                && final(self).status@ == "Exporting horizontal and vertical videos…"@),
            *final(self) == (FlowState {
                status: final(self).status,
                busy: final(self).busy,
                ..*old(self)
            }),
            r is None ==> final(self).busy == old(self).busy,
    {
        let mut i: usize = 0;
        let mut any = false;
        while i < rows.len()
            invariant
                0 <= i <= rows@.len(),
                *self == *old(self),
                forall|k: int|
                    0 <= k < i && is_answered(#[trigger] rows@[k]) ==> is_transcribed(rows@[k]),
                any == exists|k: int| 0 <= k < i && is_answered(#[trigger] rows@[k]),
            decreases rows@.len() - i,
        {
            if rows[i].answered() {
                if !rows[i].transcribed() {
                    self.status = text("Transcribe every answered question before export.");
                    return None;
                }
                any = true;
            }
            i = i + 1;
        }
        if !any {
            self.status = text("Record at least one answer before export.");
            return None;
        }
        let ready = select_rows(rows, false);
        self.busy = true;
        self.status = text("Exporting horizontal and vertical videos…");
        Some(ready)
    }

    /// Shows the live camera again so that an answer can be recorded anew.
    pub fn enter_re_record(&mut self)
        ensures
            final(self).re_recording,
            final(self).status@ == "Live preview ready. Record when you want to replace this answer."@,
            final(self).screen == old(self).screen,
            final(self).busy == old(self).busy,
            final(self).saving == old(self).saving,
            same_forms(*old(self), *final(self)),
    {
        self.re_recording = true;
        self.status = text("Live preview ready. Record when you want to replace this answer.");
    }
}

/// The export starts exactly when the finish screen shows it as ready.
pub proof fn lemma_export_starts_when_ready(rows: Seq<QuestionRow>)
    ensures
        export_ready(rows) <==> all_transcribed(rows) && any_answered(rows),
{
    lemma_export_ready(rows);
}

// ---------------------------------------------------------------------------
// Navigation
// ---------------------------------------------------------------------------

impl FlowState {
    /// Opens the form for a new project, empty.
    pub fn begin_new_project(&mut self)
        ensures
            final(self).new_title@ == Seq::<char>::empty(),
            *final(self) == (FlowState {
                screen: Screen::NewProject,
                new_title: final(self).new_title,
                form_error: None,
                ..*old(self)
            }),
    {
        self.new_title = String::new();
        self.form_error = None;
        self.screen = Screen::NewProject;
    }

    /// Leaves the new-project form for the project list.
    pub fn cancel_new_project(&mut self)
        ensures
            *final(self) == (FlowState { screen: Screen::Home, form_error: None, ..*old(self) }),
    {
        self.form_error = None;
        self.screen = Screen::Home;
    }

    /// Creating the project failed: the form shows why.
    pub fn create_failed(&mut self, err: String)
        ensures
            *final(self) == (FlowState { form_error: Some(err), ..*old(self) }),
    {
        self.form_error = Some(err);
    }

    /// Leaves the topic form for the project list.
    pub fn leave_topic(&mut self)
        ensures
            *final(self) == (FlowState { screen: Screen::Home, ..*old(self) }),
    {
        self.screen = Screen::Home;
    }

    /// Leaves the studio for the project list.
    pub fn leave_studio(&mut self)
        ensures
            *final(self) == (FlowState { screen: Screen::Home, re_recording: false, ..*old(self) }),
    {
        self.re_recording = false;
        self.screen = Screen::Home;
    }

    /// Selects another question of the project in the studio; elsewhere nothing changes.
    pub fn select_question(&mut self, position: usize)
        ensures
            match old(self).screen {
                Screen::Studio { project_id, .. } => *final(self) == (FlowState {
                    screen: Screen::Studio { project_id, selected: position },
                    re_recording: false,
                    ..*old(self)
                }),
                _ => *final(self) == *old(self),
            },
    {
        let project_id = match &self.screen {
            Screen::Studio { project_id, .. } => project_id.clone(),
            _ => {
                return;
            },
        };
        self.re_recording = false;
        self.screen = Screen::Studio { project_id, selected: position };
    }

    /// Goes from the studio to the finish screen of the same project; elsewhere nothing
    /// changes.
    pub fn go_to_finish(&mut self)
        ensures
            match old(self).screen {
                Screen::Studio { project_id, .. } => *final(self) == (FlowState {
                    screen: Screen::Finish { project_id },
                    ..*old(self)
                }),
                _ => *final(self) == *old(self),
            },
    {
        let project_id = match &self.screen {
            Screen::Studio { project_id, .. } => project_id.clone(),
            _ => {
                return;
            },
        };
        self.screen = Screen::Finish { project_id };
    }

    /// Goes back from the finish screen to the project's first question; elsewhere nothing
    /// changes.
    pub fn back_to_studio(&mut self)
        ensures
            match old(self).screen {
                Screen::Finish { project_id } => *final(self) == (FlowState {
                    screen: Screen::Studio { project_id, selected: 1 },
                    transcribe_progress: None,
                    ..*old(self)
                }),
                _ => *final(self) == *old(self),
            },
    {
        let project_id = match &self.screen {
            Screen::Finish { project_id } => project_id.clone(),
            _ => {
                return;
            },
        };
        self.transcribe_progress = None;
        self.screen = Screen::Studio { project_id, selected: 1 };
    }
}

// ---------------------------------------------------------------------------
// Recording
// ---------------------------------------------------------------------------

/// Why recording cannot start, checked in this order: `None` when it can, `Some(None)` when
/// it quietly does not (no question is selected, or the questions could not be read), and
/// `Some(Some(message))` when the status line says why.
pub open spec fn recording_check(
    in_studio: bool,
    ffmpeg_error: Option<Seq<char>>,
    project_found: bool,
    questions_loaded: bool,
    question_found: bool,
    has_camera: bool,
    has_frame: bool,
    has_mic: bool,
) -> Option<Option<Seq<char>>> {
    if ffmpeg_error is Some {
        Some(ffmpeg_error)
    } else if !in_studio {
        Some(None)
    } else if !project_found {
        Some(Some("Project not found."@))
    } else if !questions_loaded {
        Some(None)
    } else if !question_found {
        Some(Some("Select a question first."@))
    } else if !has_camera {
        Some(Some("Select a video source first."@))
    } else if !has_frame {
        Some(Some("Wait for the video preview before recording."@))
    } else if !has_mic {
        Some(Some("Select a microphone first."@))
    } else {
        None
    }
}

impl FlowState {
    /// Checks whether recording can start: ffmpeg must run, a question of a stored project
    /// must be selected in the studio, and the camera (with a picture) and a microphone must
    /// be chosen. Returns whether to start; a refusal may say why in the status line.
    pub fn begin_recording(
        &mut self,
        ffmpeg_error: Option<String>,
        project_found: bool,
        questions_loaded: bool,
        question_found: bool,
        has_camera: bool,
        has_frame: bool,
        has_mic: bool,
    ) -> (go: bool)
        ensures
            ({
                let check = recording_check(
                    old(self).screen is Studio,
                    chars_opt(ffmpeg_error),
                    project_found,
                    questions_loaded,
                    question_found,
                    has_camera,
                    has_frame,
                    has_mic,
                );
                &&& go == check is None
                &&& match check {
                    Some(Some(m)) => final(self).status@ == m && *final(self) == (FlowState {
                        status: final(self).status,
                        ..*old(self)
                    }),
                    _ => *final(self) == *old(self),
                }
            }),
    {
        if let Some(err) = ffmpeg_error {
            self.status = err;
            return false;
        }
        let in_studio = matches!(self.screen, Screen::Studio { .. });
        if !in_studio || (project_found && !questions_loaded) {
            return false;
        }
        let message = if !project_found {
            "Project not found."
        } else if !question_found {
            "Select a question first."
        } else if !has_camera {
            "Select a video source first."
        } else if !has_frame {
            "Wait for the video preview before recording."
        } else if !has_mic {
            "Select a microphone first."
        } else {
            return true;
        };
        self.status = text(message);
        false
    }

    /// Takes in whether the recording started.
    pub fn recording_started(&mut self, result: Result<(), String>)
        ensures
            match result {
                Ok(_) => final(self).status@ == "Recording…"@,
                Err(err) => final(self).status == err,
            },
            *final(self) == (FlowState { status: final(self).status, ..*old(self) }),
    {
        self.status = match result {
            Ok(()) => text("Recording…"),
            Err(err) => err,
        };
    }

    /// The recording has stopped and its files are being saved.
    pub fn recording_stopped(&mut self)
        ensures
            final(self).status@ == "Saving Q answer…"@,
            *final(self) == (FlowState { status: final(self).status, saving: true, ..*old(self) }),
    {
        self.saving = true;
        self.status = text("Saving Q answer…");
    }
}

// ---------------------------------------------------------------------------
// The transcription worker
// ---------------------------------------------------------------------------

/// The next row at or after `from` that has audio to transcribe (rows without audio are
/// skipped).
pub fn next_with_audio(rows: &Vec<QuestionRow>, from: usize) -> (r: Option<usize>)
    ensures
        match r {
            Some(k) => from <= k < rows@.len() && rows@[k as int].wav_path is Some && forall|i: int|
                from <= i < k ==> (#[trigger] rows@[i]).wav_path is None,
            None => forall|i: int| from <= i < rows@.len() ==> (#[trigger] rows@[i]).wav_path is None,
        },
{
    let mut k = from;
    while k < rows.len()
        invariant
            from <= k,
            forall|i: int| from <= i < k && i < rows@.len() ==> (#[trigger] rows@[i]).wav_path is None,
        decreases rows@.len() - k,
    {
        if rows[k].wav_path.is_some() {
            return Some(k);
        }
        k = k + 1;
    }
    None
}

/// What the worker reports after transcribing row `index` of `total`: the transcript and the
/// progress, or the error, after which it stops (the `bool` says whether it stops).
pub fn transcription_jobs(row: &QuestionRow, index: usize, total: usize, result: Result<String, String>) -> (r: (
    Vec<Job>,
    bool,
))
    requires
        index < total,
    ensures
        match result {
            Ok(text) => !r.1 && r.0@ == seq![
                Job::Transcript { question_id: row.id, text },
                Job::TranscribeProgress { done: (index + 1) as usize, total },
            ],
            Err(err) => r.1 && r.0@ == seq![Job::TranscribeErr(err)],
        },
{
    let mut jobs: Vec<Job> = Vec::new();
    match result {
        Ok(text) => {
            jobs.push(Job::Transcript { question_id: row.id, text });
            jobs.push(Job::TranscribeProgress { done: index + 1, total });
            (jobs, false)
        },
        Err(err) => {
            jobs.push(Job::TranscribeErr(err));
            (jobs, true)
        },
    }
}

} // verus!
