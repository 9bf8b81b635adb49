//! Build-time generator that turns fenced code blocks of Markdown
//! documentation into compilable test cases.
//!
//! The library is the verified core: scanning a document's event stream into
//! code blocks, classifying info strings, assembling tests from templates and
//! combined groups, rendering test source text, and resolving the compiled
//! artifacts a generated test must link against.  All file, environment and
//! process handling lives outside the library and exchanges plain values with
//! it.

pub mod chars;
pub mod clean;
pub mod emit;
pub mod errors;
pub mod extract;
pub mod generate;
pub mod info;
pub mod outside;
pub mod paths;
pub mod resolver;
pub mod sanitize;
pub mod templates;

pub use clean::{clean_omitted_line, create_test_input};
pub use emit::{apply_template, raw_literal, should_write};
pub use errors::GenError;
pub use extract::{extract_tests_from_string, Test, TestPart};
pub use generate::{create_test_runner, emit_tests, extract_tests, extract_tests_from_source, run,
    Config, DocSource, DocTest, DocTestSuite};
pub use info::{parse_code_block_info, CodeBlockInfo};
pub use resolver::{get_edition, get_rlib_dependencies, guess_ext, locked_deps_from_meta,
    locked_pairs, max_edition, resolve_rlib_deps, rustc_args, CargoMeta, CompileType, Fingerprint,
    LockedDeps, MetaNode};
pub use sanitize::sanitize_test_name;
pub use templates::load_templates;
