# speakeasy

The logic of SpeakEasy, a desktop app for interview-style video: a project gets ten
questions from Gemini on a topic, an answer is recorded as a square video for each, and
every answer is exported as a 16:9 horizontal and a vertical crop, optionally with burned-in
captions once it has been transcribed.

`src/` is the library, verified with Verus: the crops and the pixel scaling of camera
frames, caption chunking, line wrapping and the dot-matrix rendering of caption images,
folder and file names, the ffmpeg command lines, the Gemini request bodies and the reading
of its replies, the choice of camera mode and microphone, and the app's screen and job state
machine (`flow.rs`). `app/` is the unverified shell around it: the egui window, the camera,
microphone and player threads, SQLite, the HTTP client, and the files on disk. `tests/` runs
the library on concrete values.