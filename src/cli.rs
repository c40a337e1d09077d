use vstd::prelude::*;

verus! {

/// The command line: an optional token, the choice of target and a subcommand.
pub struct Cli {
    pub jwt: Option<String>,
    pub local: Option<bool>,
    pub mainnet: Option<bool>,
    pub command: Option<Commands>,
}

/// The subcommands: upload a program bundle, or scaffold a new project.
pub enum Commands {
    Deploy { target: Option<String>, old_api: Option<bool>, force: Option<bool> },
    NewProject { name: String },
}

} // verus!
