//! Verified core of the open-weights spec tool: the GGUF metadata parser,
//! the `.openw8s.yml` manifest rules, Hugging Face repo-id handling and the
//! integer parts of VRAM estimation.
pub mod binary64;
pub mod text;
pub mod vram;
pub mod gguf;
pub mod encoding;
pub mod manifest;
pub mod inspect;
pub mod init;
pub mod run;
