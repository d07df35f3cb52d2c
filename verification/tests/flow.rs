use speakeasy::db::{answer_media, numbered_questions, Project, QuestionRow};
use speakeasy::flow::{
    answer_click, answer_label, finish_project_id, finish_summary, find_question, initial_screen,
    preview_placeholder, question_answered, studio_selection, wants_live_preview, wants_playback,
    AnswerClick, Effect, FlowState, Job, Screen,
};
use speakeasy::flow::{next_with_audio, transcription_jobs};
use speakeasy::flow::{export_label, finish_counts_label, question_list_label, transcribe_label};

fn row(position: i64, answered: bool, transcript: Option<&str>) -> QuestionRow {
    QuestionRow {
        id: position * 10,
        position,
        text: format!("Question {position}"),
        square_path: if answered { Some(format!("Q{position}.mp4")) } else { None },
        wav_path: if answered { Some(format!("Q{position}.wav")) } else { None },
        transcript: transcript.map(|t| t.to_string()),
    }
}

#[test]
fn rows_report_answers_and_transcripts() {
    assert!(row(1, true, None).answered());
    assert!(!row(1, false, None).answered());
    assert!(row(1, true, Some("words")).transcribed());
    assert!(!row(1, true, Some("  \n")).transcribed());
    assert!(!row(1, true, None).transcribed());
    let project = Project {
        id: "p".into(),
        title: "T".into(),
        slug: "T".into(),
        movies_path: "/m/T".into(),
        topic: None,
        created_at: "now".into(),
    };
    assert_eq!(project.dir(), "/m/T");
    assert_eq!(
        answer_media("/m/T", &row(2, true, None)),
        Some(("/m/T/Q2.mp4".to_string(), Some("/m/T/Q2.wav".to_string())))
    );
    assert_eq!(answer_media("/m/T", &row(2, false, None)), None);
}

#[test]
fn questions_are_numbered_from_one() {
    let q = numbered_questions(&vec!["a".to_string(), "b".to_string()]);
    assert_eq!(q, vec![(1, "a".to_string()), (2, "b".to_string())]);
}

#[test]
fn screens_and_selection() {
    assert!(matches!(initial_screen(true), Screen::Home));
    assert!(matches!(initial_screen(false), Screen::KeyGate));
    let studio = Screen::Studio { project_id: "p".into(), selected: 3 };
    assert_eq!(studio_selection(&studio), Some(("p".to_string(), 3)));
    assert_eq!(studio_selection(&Screen::Home), None);
    assert_eq!(finish_project_id(&Screen::Finish { project_id: "f".into() }), Some("f".to_string()));
    assert_eq!(finish_project_id(&studio), None);
    let rows = vec![row(1, false, None), row(2, true, None), row(2, false, None)];
    assert_eq!(find_question(&rows, 2), Some(1));
    assert_eq!(find_question(&rows, 5), None);
    assert!(question_answered(&rows, 2));
    assert!(!question_answered(&rows, 1));
    assert!(!question_answered(&rows, 9));
}

#[test]
fn live_preview_and_playback_never_overlap() {
    let studio = Screen::Studio { project_id: "p".into(), selected: 1 };
    for recording in [false, true] {
        for re in [false, true] {
            for answered in [false, true] {
                let live = wants_live_preview(&studio, recording, re, answered);
                let play = wants_playback(&studio, recording, re, answered);
                assert!(live != play);
                assert!(!wants_live_preview(&Screen::Home, recording, re, answered));
                assert!(!wants_playback(&Screen::Home, recording, re, answered));
            }
        }
    }
    assert!(wants_playback(&studio, false, false, true));
}

#[test]
fn finish_summary_counts() {
    let rows = vec![row(1, true, Some("a")), row(2, true, None), row(3, false, Some("x"))];
    assert_eq!(finish_summary(&rows), (2, 1, false));
    let ready = vec![row(1, true, Some("a")), row(2, false, None)];
    assert_eq!(finish_summary(&ready), (1, 1, true));
    assert_eq!(finish_summary(&vec![]), (0, 0, false));
}

#[test]
fn export_needs_transcripts() {
    let mut s = FlowState::new(Screen::Finish { project_id: "p".into() });
    let missing = vec![row(1, true, Some("a")), row(2, true, None)];
    assert_eq!(s.start_export(&missing), None);
    assert_eq!(s.status, "Transcribe every answered question before export.");
    assert!(!s.busy);
    assert_eq!(s.start_export(&vec![row(1, false, None)]), None);
    assert_eq!(s.status, "Record at least one answer before export.");
    let ready = vec![row(1, true, Some("a")), row(2, false, None), row(3, true, Some("c"))];
    assert_eq!(s.start_export(&ready), Some(vec![0, 2]));
    assert!(s.busy);
    assert_eq!(s.status, "Exporting horizontal and vertical videos…");
    let (_, _, shown_ready) = finish_summary(&ready);
    assert!(shown_ready);
}

#[test]
fn transcribe_picks_pending_answers() {
    let mut s = FlowState::new(Screen::Home);
    let rows = vec![row(1, true, Some("a")), row(2, true, None), row(3, false, None), row(4, true, Some(" "))];
    assert_eq!(s.start_transcribe(&rows), Some(vec![1, 3]));
    assert_eq!(s.transcribe_progress, Some((0, 2)));
    assert_eq!(s.status, "Transcribing 0 / 2");
    let mut t = FlowState::new(Screen::Home);
    assert_eq!(t.start_transcribe(&vec![row(1, true, Some("a"))]), None);
    assert_eq!(t.status, "Every answered question already has a transcript.");
}

#[test]
fn jobs_move_the_screens() {
    let mut s = FlowState::new(Screen::KeyGate);
    s.gate_key = "  key  ".into();
    let key = s.begin_key_check();
    assert_eq!(key, "key");
    assert!(s.busy);
    match s.on_job(Job::KeyOk) {
        Effect::StoreKey { key } => assert_eq!(key, "key"),
        _ => panic!("expected the key to be stored"),
    }
    assert!(matches!(s.screen, Screen::Home));
    assert!(!s.busy);

    let e = s.on_job(Job::QuestionsOk { project_id: "p".into(), questions: vec!["q".into()] });
    s.after_effect(&e, Ok(()));
    assert!(matches!(&s.screen, Screen::Studio { project_id, selected: 1 } if project_id == "p"));

    s.on_job(Job::TranscribeProgress { done: 3, total: 5 });
    assert_eq!(s.status, "Transcribing 3 / 5");
    assert_eq!(s.transcribe_progress, Some((3, 5)));
    s.busy = true;
    s.on_job(Job::ExportDone(4));
    assert_eq!(s.status, "Exported 4 answer pair(s) to Movies.");
    assert!(!s.busy);
    s.on_job(Job::TranscribeDone);
    assert_eq!(s.status, "Transcription finished.");

    s.saving = true;
    s.re_recording = true;
    let e = s.on_job(Job::Recorded { question_id: 1, square: "Q1.mp4".into(), wav: "Q1.wav".into() });
    assert!(!s.saving && !s.re_recording);
    s.after_effect(&e, Ok(()));
    assert_eq!(s.status, "Saved Q1.mp4");
    s.after_effect(&Effect::StoreKey { key: "k".into() }, Err("disk full".into()));
    assert_eq!(s.status, "Could not save settings: disk full");

    s.on_job(Job::QuestionsErr("nope".into()));
    assert_eq!(s.status, "nope");
    assert_eq!(s.form_error.as_deref(), Some("nope"));
    s.on_job(Job::KeyErr("bad key".into()));
    assert_eq!(s.gate_error.as_deref(), Some("bad key"));
}

#[test]
fn project_forms() {
    let mut s = FlowState::new(Screen::NewProject);
    s.new_title = "   ".into();
    assert_eq!(s.begin_create_project(), None);
    assert_eq!(s.form_error.as_deref(), Some("Give the project a name."));
    s.new_title = " Talk ".into();
    assert_eq!(s.begin_create_project(), Some("Talk".to_string()));
    s.project_created("id1".into());
    assert!(s.new_title.is_empty() && s.form_error.is_none());
    assert!(matches!(&s.screen, Screen::Topic { project_id } if project_id == "id1"));
    s.topic_input = "  ".into();
    assert_eq!(s.begin_topic(), None);
    assert_eq!(s.form_error.as_deref(), Some("What would you like to speak about?"));
    s.topic_input = " Rust ".into();
    assert_eq!(s.begin_topic(), Some(("id1".to_string(), "Rust".to_string())));
    assert!(s.topic_saved(Ok(())));
    assert_eq!(s.status, "Asking Gemini for 10 questions…");
    assert!(!s.topic_saved(Err("locked".into())));
    assert_eq!(s.form_error.as_deref(), Some("locked"));
}

#[test]
fn opening_projects() {
    let mut s = FlowState::new(Screen::Home);
    s.open_project("a".into(), Ok(None), Ok(3));
    assert!(matches!(&s.screen, Screen::Topic { project_id } if project_id == "a"));
    s.open_project("b".into(), Ok(Some("topic".into())), Ok(0));
    assert!(matches!(&s.screen, Screen::Topic { project_id } if project_id == "b"));
    assert_eq!(s.topic_input, "topic");
    s.open_project("c".into(), Ok(Some("topic".into())), Ok(10));
    assert!(matches!(&s.screen, Screen::Studio { project_id, selected: 1 } if project_id == "c"));
    s.open_project("d".into(), Err("missing".into()), Ok(10));
    assert_eq!(s.status, "missing");
    assert!(matches!(&s.screen, Screen::Studio { project_id, .. } if project_id == "c"));
}

#[test]
fn answer_button() {
    assert_eq!(answer_click(true, true, false), AnswerClick::Stop);
    assert_eq!(answer_click(false, true, false), AnswerClick::ReRecord);
    assert_eq!(answer_click(false, true, true), AnswerClick::Start);
    assert_eq!(answer_click(false, false, false), AnswerClick::Start);
    assert_eq!(answer_label(true, false, true, false, "00:05"), "Stop   00:05");
    assert_eq!(answer_label(false, true, true, true, ""), "Saving…");
    assert_eq!(answer_label(false, false, false, true, ""), "Re-record your answer");
    assert_eq!(answer_label(false, false, true, true, ""), "Record your answer");
    let mut s = FlowState::new(Screen::Home);
    s.enter_re_record();
    assert!(s.re_recording);
    assert_eq!(preview_placeholder(true, true), "Video permission denied");
    assert_eq!(preview_placeholder(false, true), "No video source found");
    assert_eq!(preview_placeholder(false, false), "Waiting for video…");
}

#[test]
fn studio_and_finish_labels() {
    assert_eq!(question_list_label(true, 3, "Why?"), "● Q3  Why?");
    assert_eq!(question_list_label(false, 10, "How?"), "○ Q10  How?");
    assert_eq!(transcribe_label(None), "Transcribe videos");
    assert_eq!(transcribe_label(Some((2, 7))), "Transcribing 2 / 7");
    assert_eq!(
        finish_counts_label(4, 3),
        "4 answered · 3 transcribed. Transcription is required before export."
    );
    assert_eq!(export_label(true, false), "Exporting…");
    assert_eq!(export_label(true, true), "Export");
    assert_eq!(export_label(false, false), "Export");
}

#[test]
fn failed_settings_save_is_reported() {
    let mut f = FlowState::new(Screen::Home);
    f.status = "before".into();
    f.settings_saved(Ok(()));
    assert_eq!(f.status, "before");
    f.settings_saved(Err("disk full".into()));
    assert_eq!(f.status, "Could not save settings: disk full");
    assert!(matches!(f.screen, Screen::Home));
}

#[test]
fn navigation_moves_between_screens() {
    let mut f = FlowState::new(Screen::Home);
    f.new_title = "old".into();
    f.form_error = Some("e".into());
    f.begin_new_project();
    assert!(matches!(f.screen, Screen::NewProject));
    assert_eq!(f.new_title, "");
    assert!(f.form_error.is_none());
    f.create_failed("disk".into());
    assert_eq!(f.form_error, Some("disk".to_string()));
    f.cancel_new_project();
    assert!(matches!(f.screen, Screen::Home) && f.form_error.is_none());

    f.screen = Screen::Studio { project_id: "p".into(), selected: 1 };
    f.re_recording = true;
    f.select_question(4);
    assert!(matches!(&f.screen, Screen::Studio { project_id, selected: 4 } if project_id == "p"));
    assert!(!f.re_recording);
    f.go_to_finish();
    assert!(matches!(&f.screen, Screen::Finish { project_id } if project_id == "p"));
    f.transcribe_progress = Some((1, 2));
    f.back_to_studio();
    assert!(matches!(&f.screen, Screen::Studio { project_id, selected: 1 } if project_id == "p"));
    assert!(f.transcribe_progress.is_none());
    f.re_recording = true;
    f.leave_studio();
    assert!(matches!(f.screen, Screen::Home) && !f.re_recording);
    // outside the studio, selecting a question does nothing.
    f.select_question(2);
    assert!(matches!(f.screen, Screen::Home));
    f.screen = Screen::Topic { project_id: "p".into() };
    f.leave_topic();
    assert!(matches!(f.screen, Screen::Home));
}

#[test]
fn recording_starts_only_when_everything_is_ready() {
    let mut f = FlowState::new(Screen::Studio { project_id: "p".into(), selected: 1 });
    assert!(!f.begin_recording(Some("no ffmpeg".into()), true, true, true, true, true, true));
    assert_eq!(f.status, "no ffmpeg");
    assert!(!f.begin_recording(None, false, true, true, true, true, true));
    assert_eq!(f.status, "Project not found.");
    f.status = "x".into();
    assert!(!f.begin_recording(None, true, false, true, true, true, true));
    assert_eq!(f.status, "x");
    assert!(!f.begin_recording(None, true, true, false, true, true, true));
    assert_eq!(f.status, "Select a question first.");
    assert!(!f.begin_recording(None, true, true, true, false, true, true));
    assert_eq!(f.status, "Select a video source first.");
    assert!(!f.begin_recording(None, true, true, true, true, false, true));
    assert_eq!(f.status, "Wait for the video preview before recording.");
    assert!(!f.begin_recording(None, true, true, true, true, true, false));
    assert_eq!(f.status, "Select a microphone first.");
    assert!(f.begin_recording(None, true, true, true, true, true, true));
    f.recording_started(Ok(()));
    assert_eq!(f.status, "Recording…");
    f.recording_started(Err("mic".into()));
    assert_eq!(f.status, "mic");
    f.recording_stopped();
    assert!(f.saving);
    assert_eq!(f.status, "Saving Q answer…");
    let mut home = FlowState::new(Screen::Home);
    assert!(!home.begin_recording(None, true, true, true, true, true, true));
    assert_eq!(home.status, "");
}

#[test]
fn transcription_worker_skips_rows_without_audio_and_stops_on_error() {
    let rows = vec![row(1, false, None), row(2, true, None), row(3, false, None), row(4, true, None)];
    assert_eq!(next_with_audio(&rows, 0), Some(1));
    assert_eq!(next_with_audio(&rows, 2), Some(3));
    assert_eq!(next_with_audio(&rows, 4), None);
    let (jobs, stop) = transcription_jobs(&rows[1], 1, 4, Ok("words".into()));
    assert!(!stop);
    assert!(matches!(&jobs[0], Job::Transcript { question_id: 20, text } if text == "words"));
    assert!(matches!(jobs[1], Job::TranscribeProgress { done: 2, total: 4 }));
    let (jobs, stop) = transcription_jobs(&rows[1], 1, 4, Err("net".into()));
    assert!(stop);
    assert!(matches!(&jobs[..], [Job::TranscribeErr(e)] if e == "net"));
}
