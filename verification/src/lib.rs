//! A verified core of the wiz compiler toolchain: scoped symbol tables,
//! dependency ordering, identifier generators, the typed intermediate
//! representation's type model, the declaration arena, the mid-level IR
//! builder and printer, the lowering of names, literals, types and calls into
//! that IR, the resolution of calls against the declarations, and
//! command-line configuration values.

pub mod stacked_hash_map;
pub mod topological_sort;
pub mod text;
pub mod typed_type;
pub mod typed_type_eq;
pub mod typed_debug;
pub mod typed_text;
pub mod typed_decl;
pub mod typed_expr;
pub mod typed_annotation;
pub mod typed_stmt;
pub mod typed_file;
pub mod typed_use;
pub mod node_id;
pub mod type_id;
pub mod errors;
pub mod arena;
pub mod cli;
pub mod driver_config;
pub mod utils;
pub mod ml_type;
pub mod format;
pub mod ml_expr;
pub mod ml_decl;
pub mod builder;
pub mod type_checker;
pub mod random;
pub mod type_rules;
pub mod literal_lexer;
pub mod lowering;
pub mod resolver;
