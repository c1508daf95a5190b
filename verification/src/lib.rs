//! Verified core of a Cargo project initializer: project descriptions,
//! starter catalogues, dependency merging, manifest rendering and the
//! decisions the web service and its front end take around them.

pub mod text;
pub mod project_description;
pub mod starter;
pub mod cargo_toml_parser_extensions;
pub mod deps_set;
pub mod manifest;
pub mod project;
pub mod project_generation_service;
pub mod storage;
pub mod extractor;
pub mod stores;
pub mod download_link;
pub mod handlers;
pub mod env;
pub mod generator;
pub mod compressor;
pub mod standalone;
pub mod config;
pub mod repository;
