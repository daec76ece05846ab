//! The logic of a manager of OpenVPN profiles.
//!
//! Profiles are made from templates: texts with placeholders, and metadata of the variables that
//! the placeholders name. The certificates and keys of a profile come from Minica, a certificate
//! authority service. Everything that is decided or computed on the way stands here, with its
//! contract: what a template holds, which values are accepted, what is asked of Minica and in
//! which order, what a profile holds in the end, how it is shown, and which requests are let
//! through. What reaches the disk, the network and the clock is left to the program around it,
//! or to the few functions of `outside`.
pub mod access_laws;
pub mod api;
pub mod assets;
pub mod clock;
pub mod config;
pub mod editing;
pub mod editing_laws;
pub mod encoding;
pub mod html;
pub mod issue;
pub mod issue_flow;
pub mod issue_outcome;
pub mod issuing_laws;
pub mod layout;
pub mod listing;
pub mod listing_laws;
pub mod minica;
pub mod number;
pub mod openapi;
pub mod order;
pub mod outside;
pub mod page_laws;
pub mod pages;
pub mod placeholders;
pub mod rendering;
pub mod requests;
pub mod security;
pub mod self_contained;
pub mod settings_laws;
pub mod sorting;
pub mod storage;
pub mod string_map;
pub mod template_names;
pub mod templates;
pub mod text;
pub mod text_laws;
pub mod text_operation_laws;
pub mod tokens;
pub mod trials;
pub mod variable_laws;
pub mod variables;
