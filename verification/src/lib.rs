//! URCM / Sapri language core: sorting, registries, path handling, the
//! `.sson` format, the parser state machine and the interpreter's
//! assignment language, with their contracts proved by Verus.

use vstd::prelude::*;

pub mod fp;
pub mod fp2;
pub mod bucket;
pub mod text;
pub mod registry;
pub mod charmap;
pub mod atom;
pub mod error_codes;
pub mod state_machine;
pub mod parser_types;
pub mod resolver;
pub mod web;
pub mod table_format;
pub mod obj_adapter;
pub mod sson_ast;
pub mod sson_error;
pub mod sson_lexer;
pub mod sson_parser;
pub mod pipeline;
pub mod paths;
pub mod interp;
pub mod files;
pub mod dict_check;
pub mod obj;
pub mod http;
pub mod editor;
pub mod numbers;
pub mod field_props;
pub mod validators;
pub mod doc_parser;
pub mod obj_tree;
pub mod error_handler;
