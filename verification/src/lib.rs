//! Verified core of the dy-screen desktop client: activation decisions, the
//! AI project domain, subtitle planning, export planning and text handling.

pub mod text;
pub mod digest;
pub mod json;
pub mod activation_secret;
pub mod activation;
pub mod domain;
pub mod repository;
pub mod llm;
pub mod clip_export;
pub mod export_probe;
pub mod timeline;
pub mod clip_subtitle;
pub mod clip_frame_laws;
pub mod clip_projection;
pub mod clip_timeline;
pub mod smart_clip;
pub mod clip_text_correction;
pub mod highlight;
pub mod projection;
pub mod service;
pub mod commands;
pub mod processor;
pub mod desktop_runtime;
pub mod lifecycle;
pub mod recovery;
pub mod row_updates;
