pub mod audio;
pub mod dictation;
pub mod pipeline;
pub mod settings;
pub mod startup;
pub mod stt;
pub mod text;

