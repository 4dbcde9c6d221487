//! The command a process was started with, and what it opens.

use vstd::prelude::*;
use crate::config::{Config, ConfigError, WidgetConfig, has_path, joined, startup_set};
use crate::monitor_state::MonitorState;
use crate::widget_factory::{OpenBatch, OpenFailure, OpenWidget, WidgetFactory, batch_done};

verus! {

/// What `query` reports on.
#[derive(Clone, Copy, Debug, PartialEq, Eq, Structural)]
pub enum QueryArgs {
    Monitors,
}

/// The closed set of commands.
#[derive(Clone, Debug, PartialEq, Eq)]
pub enum CliCommand {
    /// Print state and exit.
    Query(QueryArgs),
    /// Open exactly the widget defined at `config_path`.
    OpenWidgetDefault { config_path: String, config_dir: Option<String> },
    /// Open every widget flagged to open at startup.
    Startup { config_dir: Option<String> },
    /// Nothing to do; a second process started this way only wakes the first.
    Empty,
}

impl CliCommand {
    /// The config directory the command names in place of the default.
    pub fn config_dir_override(&self) -> (r: Option<String>)
        ensures
            match self {
                CliCommand::OpenWidgetDefault { config_dir, .. } => r == *config_dir,
                CliCommand::Startup { config_dir } => r == *config_dir,
                _ => r is None,
            },
    {
        match self {
            CliCommand::OpenWidgetDefault { config_dir, .. } => match config_dir {
                Some(d) => Some(d.clone()),
                None => None,
            },
            CliCommand::Startup { config_dir } => match config_dir {
                Some(d) => Some(d.clone()),
                None => None,
            },
            _ => None,
        }
    }

    /// Whether the command opens widgets.
    pub fn opens_widgets(&self) -> (r: bool)
        ensures
            r == (self is OpenWidgetDefault || self is Startup),
    {
        match self {
            CliCommand::OpenWidgetDefault { .. } => true,
            CliCommand::Startup { .. } => true,
            _ => false,
        }
    }
}

/// Opens the widgets a command asks for: the one definition at the named
/// path (resolved against the config directory), or the startup set. This is
/// the one path both a fresh start and a command forwarded from a second
/// process take. A widget that fails to open is reported and the others
/// still open; only a named definition that is not loaded fails the whole
/// command.
pub fn open_widgets_by_cli_command(
    command: &CliCommand,
    config: &Config,
    factory: &mut WidgetFactory,
    monitors: &MonitorState,
) -> (r: Result<OpenBatch, ConfigError>)
    requires
        old(factory).wf(),
    ensures
        final(factory).wf(),
        match command {
            CliCommand::OpenWidgetDefault { config_path, .. } => {
                let p = joined(config.dir(), config_path@);
                &&& r is Err <==> !has_path(config.widgets(), p)
                &&& r matches Err(e) ==> e matches ConfigError::NotFound(q) && q@ == p
                &&& r is Err ==> final(factory).entries() == old(factory).entries()
                &&& r matches Ok(b) ==> exists|c: WidgetConfig|
                    config.widgets().contains(c) && c.path@ == p && batch_done(
                        seq![c],
                        monitors@,
                        old(factory).entries(),
                        old(factory).next(),
                        final(factory).entries(),
                        b,
                    )
            },
            CliCommand::Startup { .. } => r matches Ok(b) && batch_done(
                startup_set(config.widgets()),
                monitors@,
                old(factory).entries(),
                old(factory).next(),
                final(factory).entries(),
                b,
            ),
            _ => r matches Ok(b) && b.opened@.len() == 0 && b.failures@.len() == 0
                && final(factory).entries() == old(factory).entries(),
        },
{
    match command {
        CliCommand::OpenWidgetDefault { config_path, .. } => {
            let path = config.join_config_dir(config_path.as_str());
            match config.widget_config_by_path(&path) {
                Some(c) => {
                    let ghost before = factory.entries();
                    let ghost first = factory.next();
                    let ghost chosen = c;
                    let cs: Vec<WidgetConfig> = vec![c];
                    assert(cs@ =~= seq![chosen]);
                    let b = factory.open_all(&cs, monitors);
                    assert(config.widgets().contains(chosen) && chosen.path@ == path@ && batch_done(
                        seq![chosen],
                        monitors@,
                        before,
                        first,
                        factory.entries(),
                        b,
                    ));
                    Ok(b)
                },
                None => Err(ConfigError::NotFound(path)),
            }
        },
        CliCommand::Startup { .. } => {
            let cs = config.startup_widget_configs();
            Ok(factory.open_all(&cs, monitors))
        },
        _ => {
            let opened: Vec<OpenWidget> = Vec::new();
            let failures: Vec<OpenFailure> = Vec::new();
            Ok(OpenBatch { opened, failures })
        },
    }
}

} // verus!
