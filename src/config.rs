use vstd::prelude::*;

verus! {

/// One window of a session layout: its display name, its working directory
/// and the commands typed into its initial pane, in order. The window is
/// addressed by its position in the layout; the name is only displayed. The
/// working directory is read from the layout file but not applied: windows
/// start where the multiplexer starts them.
#[derive(Debug, Clone)]
pub struct Window {
    pub name: String,
    pub root: String,
    pub commands: Vec<String>,
}

/// A session layout: the session's name, its working directory (read but not
/// applied, as for windows) and its windows, in the order in which they are
/// created.
#[derive(Debug, Clone)]
pub struct Config {
    pub name: String,
    pub root: String,
    pub windows: Vec<Window>,
}

/// The two positional values of an invocation: a command name and the path
/// of the layout file.
#[derive(Debug, Clone)]
pub struct CliArgs {
    pub command: String,
    pub project_name: String,
}

impl Config {
    /// A layout can be realised only under a non-empty session name.
    pub open spec fn valid(&self) -> bool {
        self.name@.len() > 0
    }

    /// Whether the layout can be realised.
    pub fn is_valid(&self) -> (r: bool)
        ensures
            r == self.valid(),
    {
        self.name.as_str().unicode_len() > 0
    }
}

/// The message returned when the invocation does not hold exactly a command
/// and a path.
pub open spec fn missing_arguments_message() -> Seq<char> {
    "Expected a command and a path to a project file."@
}

impl CliArgs {
    /// Reads the command from `args[1]` and the project file from `args[2]`;
    /// `args[0]` is the program's own name. Fails unless exactly these three
    /// values are given.
    pub fn new(args: &[String]) -> (r: Result<CliArgs, &'static str>)
        ensures
            r is Ok <==> args@.len() == 3,
            r matches Ok(c) ==> c.command@ == args@[1]@ && c.project_name@ == args@[2]@,
            r matches Err(e) ==> e@ == missing_arguments_message(),
    {
        if args.len() != 3 {
            return Err("Expected a command and a path to a project file.");
        }
        Ok(CliArgs { command: args[1].clone(), project_name: args[2].clone() })
    }
}

} // verus!
