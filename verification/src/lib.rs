//! A library for building command-line applications with a command-style
//! interface (a program name followed by a sub-command and positional
//! arguments, as in a version-control or package-manager tool).
//!
//! An application is described declaratively: a name and a list of
//! commands, each with a short description, an ordered list of positional
//! parameters, and a handler. The library distributes invocation tokens
//! into the parameter slots according to required/optional/repeating
//! rules, dispatches to the matched handler, and maps the outcome to a
//! process exit code and diagnostic text on an error sink.

mod application;
mod arguments;
mod command;
mod parameter;
mod sink;
mod text;

pub use application::Application;
pub use application::ApplicationView;
pub use application::Resolution;
pub use application::StaticApplication;
pub use application::app_usage_text;
pub use application::app_well_formed;
pub use application::commands_view;
pub use application::desc_lines;
pub use application::find_command;
pub use application::lemma_matched_command_deterministic;
pub use application::lemma_run_deterministic;
pub use application::resolve;
pub use application::run_post;
pub use application::unrecognized_line;
pub use arguments::Arguments;
pub use arguments::allocate;
pub use arguments::last_match;
pub use arguments::lemma_allocate_some_len;
pub use arguments::lemma_optional_then_required_one_token;
pub use arguments::lemma_required_gets_token;
pub use arguments::lemma_req_count_le_len;
pub use arguments::lemma_required_then_optional_two_tokens;
pub use arguments::lemma_required_then_repeating;
pub use arguments::lemma_single_required_one_token;
pub use arguments::lemma_surplus_tokens;
pub use arguments::lemma_too_few_tokens;
pub use arguments::param_names;
pub use arguments::params_view;
pub use arguments::req_count;
pub use command::Command;
pub use command::CommandResult;
pub use command::CommandView;
pub use command::Handler;
pub use command::command_render;
pub use command::command_well_formed;
pub use command::outcome_code;
pub use command::outcome_error_text;
pub use command::params_render;
pub use command::short_desc_line;
pub use command::usage_line;
pub use command::variable_width_count;
pub use parameter::Parameter;
pub use parameter::ParameterView;
pub use parameter::param_render;
pub use sink::Sink;
pub use sink::SinkView;
pub use text::padded;
pub use text::spaces;
pub use text::str_eq;
