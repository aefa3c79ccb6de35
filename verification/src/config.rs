//! Configuration records loaded once at startup: probe targets and the
//! ad-hoc commands offered by the launcher.

use vstd::prelude::*;

verus! {

/// A network target probed by the monitor, identified by its position in
/// the configured list.
#[derive(Clone)]
pub struct Target {
    pub name: String,
    pub address: String,
}

#[verifier::ext_equal]
pub ghost struct TargetModel {
    pub name: Seq<char>,
    pub address: Seq<char>,
}

impl View for Target {
    type V = TargetModel;

    open spec fn view(&self) -> TargetModel {
        TargetModel { name: self.name@, address: self.address@ }
    }
}

impl DeepView for Target {
    type V = TargetModel;

    open spec fn deep_view(&self) -> TargetModel {
        self.view()
    }
}

/// A configured external command: an executable path and its argument list,
/// which may contain the interactive-input placeholder token.
#[derive(Clone)]
pub struct AdminCommand {
    pub name: String,
    pub cmd: String,
    pub args: Vec<String>,
}

#[verifier::ext_equal]
pub ghost struct AdminCommandModel {
    pub name: Seq<char>,
    pub cmd: Seq<char>,
    pub args: Seq<Seq<char>>,
}

impl View for AdminCommand {
    type V = AdminCommandModel;

    open spec fn view(&self) -> AdminCommandModel {
        AdminCommandModel { name: self.name@, cmd: self.cmd@, args: self.args.deep_view() }
    }
}

impl DeepView for AdminCommand {
    type V = AdminCommandModel;

    open spec fn deep_view(&self) -> AdminCommandModel {
        self.view()
    }
}

/// The whole startup configuration. A missing or malformed configuration
/// file is replaced by the empty configuration by the caller.
pub struct AppConfig {
    pub targets: Vec<Target>,
    pub commands: Vec<AdminCommand>,
}

impl AppConfig {
    /// The fallback configuration: no targets and no commands.
    pub fn empty() -> (r: AppConfig)
        ensures
            r.targets@.len() == 0,
            r.commands@.len() == 0,
    {
        AppConfig { targets: Vec::new(), commands: Vec::new() }
    }
}

} // verus!
