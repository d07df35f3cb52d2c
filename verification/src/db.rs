use vstd::prelude::*;
use crate::storage::{join_path, path_join};
use crate::text::{is_blank, trim};

verus! {

/// A project as the database stores it.
#[derive(Clone, Debug)]
pub struct Project {
    pub id: String,
    pub title: String,
    pub slug: String,
    pub movies_path: String,
    pub topic: Option<String>,
    pub created_at: String,
}

impl Project {
    /// The folder that holds the project's recordings.
    pub fn dir(&self) -> (r: String)
        ensures
            r@ == self.movies_path@,
    {
        self.movies_path.clone()
    }
}

/// A question of a project with its recorded answer and transcript, if any.
#[derive(Clone, Debug)]
pub struct QuestionRow {
    pub id: i64,
    pub position: i64,
    pub text: String,
    pub square_path: Option<String>,
    pub wav_path: Option<String>,
    pub transcript: Option<String>,
}

/// Whether a question has a recorded answer.
pub open spec fn is_answered(row: QuestionRow) -> bool {
    row.square_path is Some
}

/// Whether a question has a transcript with some text in it.
pub open spec fn is_transcribed(row: QuestionRow) -> bool {
    match row.transcript {
        Some(t) => trim(t@).len() > 0,
        None => false,
    }
}

impl QuestionRow {
    pub fn answered(&self) -> (r: bool)
        ensures
            r == is_answered(*self),
    {
        self.square_path.is_some()
    }

    pub fn transcribed(&self) -> (r: bool)
        ensures
            r == is_transcribed(*self),
    {
        match &self.transcript {
            Some(t) => !is_blank(t.as_str()),
            None => false,
        }
    }
}

/// The questions of a project numbered from 1 in their order, as they are stored.
pub fn numbered_questions(questions: &Vec<String>) -> (r: Vec<(i64, String)>)
    requires
        questions@.len() < i64::MAX,
    ensures
        r@.len() == questions@.len(),
        forall|i: int|
            0 <= i < r@.len() ==> (#[trigger] r@[i]).0 == i + 1 && r@[i].1@ == questions@[i]@,
{
    let mut r: Vec<(i64, String)> = Vec::new();
    let mut i: usize = 0;
    while i < questions.len()
        invariant
            0 <= i <= questions@.len(),
            questions@.len() < i64::MAX,
            r@.len() == i,
            forall|k: int|
                0 <= k < i ==> (#[trigger] r@[k]).0 == k + 1 && r@[k].1@ == questions@[k]@,
        decreases questions@.len() - i,
    {
        r.push(((i + 1) as i64, questions[i].clone()));
        i = i + 1;
    }
    r
}

/// The files of a question's answer in the project folder: the square video and, when it
/// has one, the audio. `None` when the question has no answer.
pub fn answer_media(project_dir: &str, row: &QuestionRow) -> (r: Option<(String, Option<String>)>)
    ensures
        match row.square_path {
            None => r is None,
            Some(sq) => r matches Some((v, a)) && v@ == path_join(project_dir@, sq@) && match row.wav_path {
                None => a is None,
                Some(w) => a matches Some(x) && x@ == path_join(project_dir@, w@),
            },
        },
{
    let square = match &row.square_path {
        Some(sq) => join_path(project_dir, sq.as_str()),
        None => {
            return None;
        },
    };
    let wav = match &row.wav_path {
        Some(w) => Some(join_path(project_dir, w.as_str())),
        None => None,
    };
    Some((square, wav))
}

} // verus!
