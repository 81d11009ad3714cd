//! Input-side core of an interactive command shell: quoting-aware
//! tokenizing, output redirection parsing, command resolution decisions and
//! the tab-completion engine.

pub mod text;
pub mod tokenizer;
pub mod redirection;
pub mod completion;
pub mod tab_handler;
pub mod editor_helper;
pub mod command;
pub mod invocation;

pub use crate::command::{
    Builtin, CdError, CommandKind, CommandLine, CommandResolution, LineError, PathProbe,
    builtin_names, builtin_of, cd_failure_message, cd_target, describe_resolution,
    path_candidates, resolve_command, split_command_line,
};
pub use crate::completion::listing_line;
pub use crate::editor_helper::{LineCompletion, MyEditorHelper};
pub use crate::invocation::{
    ArgumentCheck, ArgumentProbe, EchoPlan, ErrorReport, ExecPlan, check_arguments, command_cat, command_echo,
    command_execute, command_ls, needs_path_check, resolution_failure,
};
pub use crate::redirection::{
    FileTarget, OutputPlan, RedirectOperator, Redirection, Sink, is_redirection_args, plan_output,
    redirection_args_builder,
};
pub use crate::tab_handler::{MyTabHandler, TabAction};
pub use crate::tokenizer::special_char_args_builder;
