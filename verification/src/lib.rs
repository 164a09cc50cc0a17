//! Core logic of the opaq config/secret store command line client.

pub mod text;
pub mod number;
pub mod ttl;
pub mod paths;
pub mod config;
pub mod shell;
pub mod response;
pub mod envfile;
pub mod listing;
pub mod style;
pub mod json;
pub mod principal;
pub mod command;
pub mod help;
pub mod cli;

pub use crate::cli::help_text;
pub use crate::config::{api_url, config_path, CliConfig};
pub use crate::listing::env_label;
pub use crate::paths::{parse_path3, parse_secret_path, secret_url_path, split_secret_path};
pub use crate::principal::{lookup_principal_id_by_name, lookup_principal_name_by_id};
pub use crate::shell::shell_quote;
pub use crate::ttl::{format_unix_secs, parse_ttl};
pub mod profiles;
