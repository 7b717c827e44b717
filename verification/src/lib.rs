//! DSH Studio: the decisions a native desktop shell makes about the local
//! Harness service it installs, launches, supervises and extends.
pub mod address;
pub mod candidate;
pub mod catalog;
pub mod channel;
pub mod command;
pub mod commands;
pub mod confirmation;
pub mod error;
pub mod files;
pub mod harness;
pub mod history;
pub mod install;
pub mod json;
pub mod logging;
pub mod manager;
pub mod node;
pub mod package;
pub mod paths;
pub mod picker;
pub mod plugins;
pub mod readiness;
pub mod registry;
pub mod relay;
pub mod shell;
pub mod supervisor;
pub mod text;
pub mod transaction;
pub mod version;
pub mod window;
