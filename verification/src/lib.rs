//! Building blocks for interactive, line-oriented command shells.
//!
//! A line of input is split into arguments ([`tokenizer`]). The first
//! argument names a built-in or a registered command ([`registry`],
//! [`dispatch`]), and the command runs on a state that all commands of a
//! session share ([`shell`], [`app`]).
//!
//! The library decides and computes; it reads no input and prints nothing.
//! What a call has to show to the user comes back as a value, and the host
//! program prints it.

pub mod app;
pub mod command;
pub mod command_line;
pub mod dispatch;
pub mod handler;
pub mod input_handler;
pub mod registry;
pub mod shell;
pub mod text;
pub mod tokenizer;

pub use app::{App, StoreAction};
pub use command::{Command, CommandType};
pub use command_line::{
    CommandLineHandler, DefaultAsyncCLIHandler, DefaultCommandLineHandler, Platform,
};
pub use dispatch::{
    conclude, DispatchError, Dispatcher, Outcome, Personality, Report, Resolution, Step,
};
pub use handler::{AsyncHandler, DefaultAsyncHandler, DefaultHandler, Handler};
pub use input_handler::{InputResult, IO};
pub use registry::Registry;
pub use shell::{Shell, Turn};
pub use tokenizer::{tokenize, unescape, UnescapeError};
