//! The commands and options of the command line, as plain values.

use vstd::prelude::*;
use vstd::string::StringExecFns;
use crate::entity::Entity;
use crate::graph::query::{lists_related, related_positions};
use crate::graph::{Direction, EntityGraph};
use crate::id::{compose_entity_id, compose_spec};

verus! {

/// The errors of the command line.
#[derive(Debug, Clone, Copy, PartialEq, Eq, Structural)]
pub enum CliError {
    BuildError,
    FileError,
    QueryError,
    InputError,
}

/// The direction of a relationship, as the command line names it.
#[derive(Debug, Clone, Copy, PartialEq, Eq, Structural)]
pub enum CliDirection {
    /// References to the entity.
    To,
    /// References from the entity.
    From,
}

impl From<CliDirection> for Direction {
    fn from(dir: CliDirection) -> (r: Direction) {
        match dir {
            CliDirection::To => Direction::Incoming,
            CliDirection::From => Direction::Outgoing,
        }
    }
}

impl vstd::std_specs::convert::FromSpecImpl<CliDirection> for Direction {
    open spec fn obeys_from_spec() -> bool {
        true
    }

    open spec fn from_spec(dir: CliDirection) -> Direction {
        match dir {
            CliDirection::To => Direction::Incoming,
            CliDirection::From => Direction::Outgoing,
        }
    }
}

/// The format of the output.
#[derive(Debug, Clone, Copy, PartialEq, Eq, Structural)]
pub enum OutputFormat {
    Pretty,
    Json,
}

impl Default for OutputFormat {
    fn default() -> (r: Self)
        ensures
            r == OutputFormat::Pretty,
    {
        OutputFormat::Pretty
    }
}

impl OutputFormat {
    /// The name of the format.
    pub open spec fn name(self) -> Seq<char> {
        match self {
            OutputFormat::Pretty => "pretty"@,
            OutputFormat::Json => "json"@,
        }
    }

    /// The name of the format.
    pub fn to_string(&self) -> (r: String)
        ensures
            r@ == self.name(),
    {
        match self {
            OutputFormat::Pretty => String::from_str("pretty"),
            OutputFormat::Json => String::from_str("json"),
        }
    }
}

/// The subcommands.
#[derive(Debug, Clone, PartialEq, Eq)]
pub enum FirmCliCommand {
    /// Build workspace and entity graph.
    Build,
    /// Get an entity by type and local id.
    Get { entity_type: String, entity_id: String },
    /// List the entities of a type, or the schemas for the type `schema`.
    List { entity_type: String },
    /// Get the entities related to an entity, in one direction or in both.
    Related { entity_type: String, entity_id: String, direction: Option<CliDirection> },
    /// Add an entity to a file of the workspace.
    Add { to_file: Option<String> },
}

/// The command line: the global options and the subcommand.
#[derive(Debug, Clone, PartialEq, Eq)]
pub struct FirmCli {
    /// The workspace directory; the working directory where none is given.
    pub workspace: Option<String>,
    /// Whether to use the graph that was saved last.
    pub cached: bool,
    /// Whether to print more.
    pub verbose: bool,
    /// The format of the output.
    pub format: OutputFormat,
    /// The subcommand.
    pub command: FirmCliCommand,
}

impl FirmCli {
    /// Whether the graph is built before the command runs: always, unless
    /// the saved graph is to be used or the command is the build itself.
    pub fn builds_first(&self) -> (r: bool)
        ensures
            r == (!self.cached && !(self.command is Build)),
    {
        !self.cached && !matches!(self.command, FirmCliCommand::Build)
    }

    /// Whether the command lists the schemas.
    pub fn lists_schemas(&self) -> (r: bool)
        ensures
            r == match self.command {
                FirmCliCommand::List { entity_type } => entity_type@ == "schema"@,
                _ => false,
            },
    {
        match &self.command {
            FirmCliCommand::List { entity_type } => crate::text::str_equal(
                entity_type.as_str(),
                "schema",
            ),
            _ => false,
        }
    }
}

/// Looks up the entity of a type and a local id for a command: the entity
/// with their composite id, or the error of a query that found nothing.
pub fn entity_or_error<'a>(graph: &'a EntityGraph, entity_type: &str, entity_id: &str) -> (r:
    Result<&'a Entity, CliError>)
    ensures
        match r {
            Ok(entity) => graph.contains_id(compose_spec(entity_type@, entity_id@)) && *entity
                == graph.entity(compose_spec(entity_type@, entity_id@)),
            Err(error) => !graph.contains_id(compose_spec(entity_type@, entity_id@)) && error
                == CliError::QueryError,
        },
{
    let id = compose_entity_id(entity_type, entity_id);
    match graph.get_entity(&id) {
        Some(entity) => Ok(entity),
        None => Err(CliError::QueryError),
    }
}

/// Looks up the entities related to the entity of a type and a local id for
/// a command, in the direction that the command names or in both: the
/// related entities, each once, in ascending order of their ids, or the
/// error of a query for an entity that is not there.
pub fn related_or_error<'a>(
    graph: &'a EntityGraph,
    entity_type: &str,
    entity_id: &str,
    direction: Option<CliDirection>,
) -> (r: Result<Vec<&'a Entity>, CliError>)
    ensures
        match r {
            Ok(entities) => graph.contains_id(compose_spec(entity_type@, entity_id@))
                && lists_related(
                entities@,
                graph.nodes(),
                related_positions(
                    graph.edges(),
                    graph.position(compose_spec(entity_type@, entity_id@)),
                    direction_of(direction),
                ),
            ),
            Err(error) => !graph.contains_id(compose_spec(entity_type@, entity_id@)) && error
                == CliError::QueryError,
        },
{
    let id = compose_entity_id(entity_type, entity_id);
    let wanted = match direction {
        Some(CliDirection::To) => Some(Direction::Incoming),
        Some(CliDirection::From) => Some(Direction::Outgoing),
        None => None,
    };
    match graph.get_related(&id, wanted) {
        Some(entities) => Ok(entities),
        None => Err(CliError::QueryError),
    }
}

/// The direction of edges that a direction of the command line stands for:
/// references to an entity arrive at it, references from it leave it.
pub open spec fn direction_of(direction: Option<CliDirection>) -> Option<Direction> {
    match direction {
        Some(CliDirection::To) => Some(Direction::Incoming),
        Some(CliDirection::From) => Some(Direction::Outgoing),
        None => None,
    }
}

/// How much a log message matters, the most pressing first.
#[derive(Debug, Clone, Copy, PartialEq, Eq, Structural)]
pub enum LogLevel {
    Error,
    Warn,
    Info,
    Debug,
    Trace,
}

impl LogLevel {
    /// The rank of the level: 1 for errors, up to 5 for traces.
    pub open spec fn rank(self) -> int {
        match self {
            LogLevel::Error => 1,
            LogLevel::Warn => 2,
            LogLevel::Info => 3,
            LogLevel::Debug => 4,
            LogLevel::Trace => 5,
        }
    }
}

/// Whether a target of log messages belongs to this project: its name holds
/// the project's name.
pub open spec fn is_own_target(target: Seq<char>) -> bool {
    crate::scan::contains_text(target, "firm"@)
}

/// Whether a log message is shown: warnings and errors always; in verbose
/// mode also what the project's own code says, down to debug messages.
pub fn log_enabled(verbose: bool, target: &str, level: LogLevel) -> (r: bool)
    ensures
        r == (if verbose && is_own_target(target@) {
            level.rank() <= LogLevel::Debug.rank()
        } else {
            level.rank() <= LogLevel::Warn.rank()
        }),
{
    let name = crate::text::to_chars("firm");
    proof {
        reveal_strlit("firm");
    }
    let own = crate::scan::contains(&crate::text::to_chars(target), &name);
    if verbose && own {
        !matches!(level, LogLevel::Trace)
    } else {
        matches!(level, LogLevel::Error | LogLevel::Warn)
    }
}

} // verus!
