//! Self-extracting C64 program builder.
//!
//! Any number of `.prg` files are collected in a 64 KB memory image
//! ([`image`]). A packed format is planned around it ([`plan`]): which way it is
//! unpacked, and where the packed stream, the decoder, its scratch buffer and
//! the mover go. A build ([`sfx`]) then decides, reply by reply, what the
//! encoders and the assembler are asked for, and ends with the finished program
//! or with the reasons against every direction. [`workshop`] holds the
//! workspace around all of that: the settings, the history and the last result.

pub mod address;
pub mod address_laws;
pub mod basic;
pub mod basic_laws;
pub mod blocks;
pub mod compare;
pub mod compare_laws;
pub mod config;
pub mod epilogue_laws;
pub mod formats;
pub mod image;
pub mod image_laws;
pub mod import;
pub mod inplace;
pub mod names;
pub mod placement;
pub mod plan;
pub mod plan_laws;
pub mod program_laws;
pub mod ranks;
pub mod report;
pub mod request_laws;
pub mod run_laws;
pub mod settings;
pub mod settings_laws;
pub mod sfx;
pub mod sfx_laws;
pub mod site_laws;
pub mod start;
pub mod start_laws;
pub mod text;
pub mod workshop;
pub mod workshop_laws;
