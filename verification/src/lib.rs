pub mod text;
pub mod crop;
pub mod captions;
pub mod quality;
pub mod storage;
pub mod db;
pub mod flow;
pub mod gemini;
pub mod export;
pub mod widgets;
pub mod ffmpeg;
pub mod recorder;
pub mod audio;
pub mod camera;
pub mod devices;
pub mod player;
pub mod font;
