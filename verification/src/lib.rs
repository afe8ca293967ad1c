//! The LocalBench decision library.

pub mod cached_run;
pub mod calendar;
pub mod chat;
pub mod cli;
pub mod cli_laws;
pub mod coach;
pub mod coach_drive;
pub mod commit;
pub mod consumer;
pub mod container;
pub mod container_laws;
pub mod diagnostics;
pub mod drive_laws;
pub mod export;
pub mod gguf;
pub mod gguf_layout;
pub mod json;
pub mod ledger_laws;
pub mod matrix;
pub mod matrix_laws;
pub mod matrix_run;
pub mod oracle;
pub mod output;
pub mod overrides;
pub mod run_laws;
pub mod scorecard;
pub mod screen;
pub mod screen_laws;
pub mod solver;
pub mod text;
pub mod text_laws;
pub mod trial;
pub mod trial_laws;
pub mod trial_run;
pub mod tuner;
pub mod tuner_course;
pub mod tuner_laws;
pub mod tuner_model;
pub mod tuner_moves;
pub mod tuner_notes;
pub mod tuner_run;
pub mod tuner_silence;
pub mod uplift_run;
pub mod upliftrun;
