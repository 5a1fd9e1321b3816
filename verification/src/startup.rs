//! What the daemon decides before it serves: the log style, where its
//! configuration comes from, and whether a backend subcommand runs instead.
use vstd::prelude::*;
use vstd::string::*;

use crate::text::same;

verus! {

/// Log line style.
#[derive(Debug, Clone, Copy, PartialEq, Eq, Structural)]
pub enum LogStyle {
    /// Compact under journald, full everywhere else.
    Auto,
    /// Timestamp, level, target and fields.
    Human,
    /// No timestamp and no target.
    Systemd,
    /// Structured JSON lines.
    Json,
}

/// What a log line carries besides its level and fields.
#[derive(Debug, Clone, Copy, PartialEq, Eq, Structural)]
pub struct LineFormat {
    /// The line is a JSON object.
    pub json: bool,
    /// The line has a timestamp.
    pub timestamp: bool,
    /// The line names the tracing target.
    pub target: bool,
}

impl LogStyle {
    /// The style that applies, given whether the process logs to journald.
    pub open spec fn effective_style(self, journal: bool) -> LogStyle {
        if self is Auto {
            if journal {
                LogStyle::Systemd
            } else {
                LogStyle::Human
            }
        } else {
            self
        }
    }

    /// Resolve the automatic style.
    pub fn effective(self, journal: bool) -> (r: LogStyle)
        ensures
            r == self.effective_style(journal),
            !(r is Auto),
    {
        match self {
            LogStyle::Human => LogStyle::Human,
            LogStyle::Systemd => LogStyle::Systemd,
            LogStyle::Json => LogStyle::Json,
            LogStyle::Auto => if journal {
                LogStyle::Systemd
            } else {
                LogStyle::Human
            },
        }
    }

    /// The parts of a log line in this style.
    pub fn line_format(self, journal: bool) -> (r: LineFormat)
        ensures
            r.json == (self.effective_style(journal) is Json),
            r.timestamp == !(self.effective_style(journal) is Systemd),
            r.target == !(self.effective_style(journal) is Systemd),
    {
        match self.effective(journal) {
            LogStyle::Systemd => LineFormat { json: false, timestamp: false, target: false },
            LogStyle::Json => LineFormat { json: true, timestamp: true, target: true },
            _ => LineFormat { json: false, timestamp: true, target: true },
        }
    }
}

/// The outcome of opening the configuration file.
#[derive(Debug)]
pub enum ConfigOpen {
    /// It is there.
    Opened,
    /// There is no such file.
    NotFound,
    /// It could not be opened, and why.
    Failed(String),
}

/// Where the configuration comes from.
#[derive(Debug, Clone, Copy, PartialEq, Eq, Structural)]
pub enum ConfigSource {
    /// The file.
    File,
    /// Built-in defaults.
    Defaults,
}

/// Load defaults only for an absent file; propagate every other open failure.
pub fn config_source(open: ConfigOpen) -> (r: Result<ConfigSource, String>)
    ensures
        match open {
            ConfigOpen::Opened => r == Ok::<ConfigSource, String>(ConfigSource::File),
            ConfigOpen::NotFound => r == Ok::<ConfigSource, String>(ConfigSource::Defaults),
            ConfigOpen::Failed(why) => r == Err::<ConfigSource, String>(why),
        },
{
    match open {
        ConfigOpen::Opened => Ok(ConfigSource::File),
        ConfigOpen::NotFound => Ok(ConfigSource::Defaults),
        ConfigOpen::Failed(why) => Err(why),
    }
}

/// Failure of the daemon's entry point.
#[derive(Debug)]
pub enum IoThreadControllerError {
    /// The command line was not understood.
    Clap(String),
    /// The configuration is not usable.
    Config(String),
    /// A backend failed.
    BackendClient(String),
    /// The daemon failed.
    Daemon(String),
    /// No backend has a subcommand of this name.
    NoSuchBackend(String),
}

impl IoThreadControllerError {
    /// The message shown for this error.
    pub open spec fn message(&self) -> Seq<char> {
        match self {
            IoThreadControllerError::Clap(why) => why@,
            IoThreadControllerError::Config(why) => why@,
            IoThreadControllerError::BackendClient(why) => why@,
            IoThreadControllerError::Daemon(why) => why@,
            IoThreadControllerError::NoSuchBackend(name) => "no backend `"@ + name@ + "`"@,
        }
    }

    /// Render the error.
    pub fn to_string(&self) -> (r: String)
        ensures
            r@ == self.message(),
    {
        match self {
            IoThreadControllerError::Clap(why) => why.clone(),
            IoThreadControllerError::Config(why) => why.clone(),
            IoThreadControllerError::BackendClient(why) => why.clone(),
            IoThreadControllerError::Daemon(why) => why.clone(),
            IoThreadControllerError::NoSuchBackend(name) => "no backend `".to_owned().concat(
                name.as_str(),
            ).concat("`"),
        }
    }
}

/// What the daemon does once its command line is read.
#[derive(Debug, Clone, Copy, PartialEq, Eq, Structural)]
pub enum Start {
    /// Print the built-in defaults and exit.
    DumpConfig,
    /// Run the subcommand of the backend at this position.
    RunBackend(usize),
    /// Serve.
    Serve,
}

/// The backend at a position has a subcommand of this name.
pub open spec fn offers(commands: Seq<Option<String>>, i: int, name: Seq<char>) -> bool {
    0 <= i < commands.len() && (commands[i] matches Some(command) && command@ == name)
}

/// No backend has a subcommand of this name.
pub open spec fn unknown(commands: Seq<Option<String>>, name: Seq<char>) -> bool {
    forall|i: int| !#[trigger] offers(commands, i, name)
}

/// Decide what to do. Printing the defaults goes first; a subcommand goes to
/// the first backend that offers it.
pub fn plan_start(
    dump_config: bool,
    subcommand: Option<String>,
    commands: &Vec<Option<String>>,
) -> (r: Result<Start, IoThreadControllerError>)
    ensures
        dump_config ==> (r matches Ok(start) && start is DumpConfig),
        !dump_config && subcommand is None ==> (r matches Ok(start) && start is Serve),
        !dump_config ==> (subcommand matches Some(name) ==> match r {
            Ok(start) => start matches Start::RunBackend(i) && offers(
                commands@,
                i as int,
                name@,
            ) && forall|j: int| 0 <= j < i ==> !#[trigger] offers(commands@, j, name@),
            Err(error) => error matches IoThreadControllerError::NoSuchBackend(missing) && missing
                == name && forall|j: int| !#[trigger] offers(commands@, j, name@),
        }),
        r is Err ==> (subcommand matches Some(name) ==> unknown(commands@, name@)),
{
    if dump_config {
        return Ok(Start::DumpConfig);
    }
    match subcommand {
        None => Ok(Start::Serve),
        Some(name) => {
            let mut i: usize = 0;
            while i < commands.len()
                invariant
                    i <= commands@.len(),
                    !dump_config,
                    subcommand == Some(name),
                    forall|j: int| 0 <= j < i ==> !#[trigger] offers(commands@, j, name@),
                decreases commands@.len() - i,
            {
                if let Some(command) = &commands[i] {
                    if same(command.as_str(), name.as_str()) {
                        assert(offers(commands@, i as int, name@));
                        return Ok(Start::RunBackend(i));
                    }
                }
                i += 1;
            }
            Err(IoThreadControllerError::NoSuchBackend(name))
        },
    }
}

/// Compact lines carry neither timestamp nor target, structured ones are the only
/// JSON, and the automatic style is compact exactly under journald.
pub proof fn styles_say_what_a_line_carries(style: LogStyle, journal: bool, format: LineFormat)
    requires
        call_ensures(LogStyle::line_format, (style, journal), format),
    ensures
        ({
            let compact = style == LogStyle::Systemd || (style == LogStyle::Auto && journal);
            &&& format.timestamp == !compact
            &&& format.target == !compact
            &&& format.json == (style == LogStyle::Json)
        }),
{
}

/// Printing the defaults goes before everything else; without a subcommand the
/// daemon serves; a subcommand goes to the first backend that has it, and is
/// refused where none does.
pub proof fn subcommands_go_to_the_first_backend_that_has_them(
    dump_config: bool,
    subcommand: Option<String>,
    commands: Vec<Option<String>>,
    start: Result<Start, IoThreadControllerError>,
    at: int,
)
    requires
        call_ensures(plan_start, (dump_config, subcommand, &commands), start),
    ensures
        dump_config <==> (start matches Ok(what) && what is DumpConfig),
        !dump_config && subcommand is None <==> (start matches Ok(what) && what is Serve),
        start matches Ok(Start::RunBackend(i)) ==> {
            &&& i < commands@.len()
            &&& subcommand matches Some(name) && commands@[i as int] matches Some(command)
                && command@ == name@ && forall|j: int|
                0 <= j < i ==> !(#[trigger] commands@[j] matches Some(earlier) && earlier@ == name@)
        },
        start is Err ==> (subcommand matches Some(name) && !(0 <= at < commands@.len() && (
        commands@[at] matches Some(command) && command@ == name@))),
{
    if !dump_config {
        if let Some(name) = subcommand {
            match start {
                Ok(Start::RunBackend(i)) => {
                    assert forall|j: int| 0 <= j < i implies !(
                    #[trigger] commands@[j] matches Some(earlier) && earlier@ == name@) by {
                        assert(!offers(commands@, j, name@));
                    }
                },
                Ok(_) => {},
                Err(_) => {
                    assert(!offers(commands@, at, name@));
                },
            }
        }
    }
}

/// The defaults apply exactly where there is no configuration file; one that cannot
/// be opened is an error.
pub proof fn missing_configuration_means_the_defaults(
    open: ConfigOpen,
    source: Result<ConfigSource, String>,
)
    requires
        call_ensures(config_source, (open,), source),
    ensures
        source == Ok::<ConfigSource, String>(ConfigSource::File) <==> open is Opened,
        source == Ok::<ConfigSource, String>(ConfigSource::Defaults) <==> open is NotFound,
        source is Err <==> open is Failed,
{
}

} // verus!
