use vstd::prelude::*;
use crate::strutil::string_is;

verus! {

/// How statistics are printed.
pub enum StatsFormat {
    Text,
    Json,
}

/// A specific command to run.
pub enum Command {
    /// Show cache statistics and exit.
    ShowStats(StatsFormat),
    /// Zero cache statistics and exit.
    ZeroStats,
    /// Run as the background server.
    InternalStartServer,
    /// Start the background server as a subprocess.
    StartServer,
    /// Stop the background server.
    StopServer,
    /// Run a compiler command.
    Compile { exe: String, cmdline: Vec<String>, cwd: String, env_vars: Vec<(String, String)> },
}

/// A command line that selects no single command.
pub enum CmdlineError {
    TooManyCommands,
    NoCompileCommand,
    NoCommandSpecified,
}

impl CmdlineError {
    pub fn message(&self) -> (r: &'static str)
        ensures
            r@ == self.spec_message(),
    {
        match self {
            CmdlineError::TooManyCommands => "Too many commands specified",
            CmdlineError::NoCompileCommand => "No compile command",
            CmdlineError::NoCommandSpecified => "No command specified",
        }
    }

    pub open spec fn spec_message(&self) -> Seq<char> {
        match self {
            CmdlineError::TooManyCommands => "Too many commands specified"@,
            CmdlineError::NoCompileCommand => "No compile command"@,
            CmdlineError::NoCommandSpecified => "No command specified"@,
        }
    }
}

/// The statistics format a `--stats-format` value names.
pub fn parse_stats_format(s: &String) -> (r: Option<StatsFormat>)
    ensures
        s@ == "text"@ ==> (r matches Some(f) && f is Text),
        s@ == "json"@ ==> (r matches Some(f) && f is Json),
        s@ != "text"@ && s@ != "json"@ ==> r is None,
{
    proof {
        vstd::prelude::reveal_strlit("text");
        vstd::prelude::reveal_strlit("json");
        assert("text"@[0] == 't' && "json"@[0] == 'j');
        assert("text"@ != "json"@);
    }
    if string_is(s, "text") {
        Some(StatsFormat::Text)
    } else if string_is(s, "json") {
        Some(StatsFormat::Json)
    } else {
        None
    }
}

pub open spec fn spec_mode_count(
    internal_start_server: bool,
    show_stats: bool,
    start_server: bool,
    stop_server: bool,
    has_cmd: bool,
) -> int {
    (if internal_start_server {
        1int
    } else {
        0int
    }) + (if show_stats {
        1int
    } else {
        0int
    }) + (if start_server {
        1int
    } else {
        0int
    }) + (if stop_server {
        1int
    } else {
        0int
    }) + (if has_cmd {
        1int
    } else {
        0int
    })
}

/// Pick the one command the parsed flags select, in a fixed precedence
/// order. More than one major mode is an
/// error; so is a compile mode without an executable, or no mode at all
/// when `--zero-stats` was not given either.
pub fn select_command(
    internal_start_server: bool,
    show_stats: bool,
    stats_format: StatsFormat,
    start_server: bool,
    stop_server: bool,
    zero_stats: bool,
    cmd: Option<Vec<String>>,
    cwd: String,
    env_vars: Vec<(String, String)>,
) -> (r: Result<Command, CmdlineError>)
    ensures
        spec_mode_count(internal_start_server, show_stats, start_server, stop_server, cmd is Some)
            > 1 ==> r == Err::<Command, CmdlineError>(CmdlineError::TooManyCommands),
        spec_mode_count(internal_start_server, show_stats, start_server, stop_server, cmd is Some)
            <= 1 ==> match r {
            Ok(c) => {
                &&& internal_start_server ==> c is InternalStartServer
                &&& show_stats ==> (c matches Command::ShowStats(f) && f == stats_format)
                &&& start_server ==> c is StartServer
                &&& stop_server ==> c is StopServer
                &&& (!internal_start_server && !show_stats && !start_server && !stop_server
                    && zero_stats && cmd is None) ==> c is ZeroStats
                &&& match cmd {
                    Option::Some(v) => v@.len() > 0 ==> (c matches Command::Compile {
                        exe,
                        cmdline,
                        cwd: c_cwd,
                        env_vars: c_env,
                    } && exe@ == v@[0]@ && cmdline.deep_view() == v.deep_view().drop_first()
                        && c_cwd@ == cwd@ && c_env@ == env_vars@),
                    Option::None => true,
                }
            },
            Err(e) => {
                ||| (cmd matches Some(v) && v@.len() == 0 && !internal_start_server && !show_stats
                    && !start_server && !stop_server && e is NoCompileCommand)
                ||| (cmd is None && !internal_start_server && !show_stats && !start_server
                    && !stop_server && !zero_stats && e is NoCommandSpecified)
            },
        },
{
    let count: u32 = (if internal_start_server {
        1u32
    } else {
        0u32
    }) + (if show_stats {
        1u32
    } else {
        0u32
    }) + (if start_server {
        1u32
    } else {
        0u32
    }) + (if stop_server {
        1u32
    } else {
        0u32
    }) + (if cmd.is_some() {
        1u32
    } else {
        0u32
    });
    if count > 1 {
        return Err(CmdlineError::TooManyCommands);
    }
    if internal_start_server {
        Ok(Command::InternalStartServer)
    } else if show_stats {
        Ok(Command::ShowStats(stats_format))
    } else if start_server {
        Ok(Command::StartServer)
    } else if stop_server {
        Ok(Command::StopServer)
    } else if zero_stats && cmd.is_none() {
        Ok(Command::ZeroStats)
    } else {
        match cmd {
            Option::Some(mut v) => {
                if v.len() == 0 {
                    return Err(CmdlineError::NoCompileCommand);
                }
                let ghost pre = v.deep_view();
                let exe = v.remove(0);
                proof {
                    assert(v.deep_view() =~= pre.drop_first());
                }
                Ok(Command::Compile { exe, cmdline: v, cwd, env_vars })
            },
            Option::None => Err(CmdlineError::NoCommandSpecified),
        }
    }
}

} // verus!
