//! Command-line parser and stable command contract.
//!
//! Arguments arrive as text; an argument that is not valid Unicode arrives
//! as `None`.

use vstd::prelude::*;

use crate::text::{owned, push_str, str_eq};

verus! {

broadcast use vstd::string::group_string_axioms;

/// Parsed top-level CLI state.
#[derive(Debug, Clone, PartialEq, Eq)]
pub struct Cli {
    /// The requested command.
    pub command: Command,
}

/// Supported top-level commands.
#[derive(Debug, Clone, PartialEq, Eq)]
pub enum Command {
    /// Prints the top-level help text.
    Help,
    /// Prints one subcommand's help text.
    HelpFor(&'static str),
    /// Prints the crate version.
    Version,
    /// The production loop.
    Daemon(ConfigCommand),
    /// One-shot render.
    Render(RenderCommand),
    /// One-shot raw probe.
    Probe(ConfigCommand),
    /// One-shot timing report.
    Profiling(ConfigCommand),
    /// Lists the available items.
    ListItems,
    /// Steps the tooltip page.
    Page(PageCommand),
    /// Runs the current page's click action.
    Click,
}

/// A command that accepts an optional config path.
#[derive(Debug, Clone, PartialEq, Eq, Default)]
pub struct ConfigCommand {
    /// Optional path to a specific TOML configuration file.
    pub config: Option<String>,
}

/// Parsed arguments for the `render` command.
#[derive(Debug, Clone, PartialEq, Eq)]
pub struct RenderCommand {
    /// Optional path to a specific TOML configuration file.
    pub config: Option<String>,
    /// Which rendered surface to emit.
    pub component: RenderComponent,
    /// Which output representation to emit.
    pub format: RenderFormat,
    /// Which panel layout to use.
    pub layout: PanelLayout,
    /// Optional tooltip page override.
    pub page: Option<RenderPage>,
}

impl Default for RenderCommand {
    /// Both surfaces, as text, with the detected layout and the full page.
    fn default() -> (r: Self)
        ensures
            render_view(r) == default_render(),
    {
        RenderCommand {
            config: None,
            component: RenderComponent::Both,
            format: RenderFormat::Text,
            layout: PanelLayout::Auto,
            page: None,
        }
    }
}

/// Render surface selection for the `render` command.
#[derive(Debug, Clone, Copy, PartialEq, Eq, Structural)]
pub enum RenderComponent {
    /// Only the panel output.
    Panel,
    /// Only the tooltip output.
    Tooltip,
    /// Both panel and tooltip outputs.
    Both,
}

/// Output representation for the `render` command.
#[derive(Debug, Clone, Copy, PartialEq, Eq, Structural)]
pub enum RenderFormat {
    /// Plain text written to stdout.
    Text,
    /// HTML written to diagnostic files.
    Html,
}

/// Panel layout override for the `render` command.
#[derive(Debug, Clone, Copy, PartialEq, Eq, Structural)]
pub enum PanelLayout {
    /// Use runtime auto-detection.
    Auto,
    /// Force horizontal panel semantics.
    Horizontal,
    /// Force vertical panel semantics.
    Vertical,
}

/// Tooltip page selection for the `render` command.
#[derive(Debug, Clone, Copy, PartialEq, Eq, Structural)]
pub enum RenderPage {
    /// The full stats tooltip view.
    Full,
    /// The processes deep-dive page.
    Processes,
    /// The per-core CPU deep-dive page.
    CpuCores,
    /// The socket/listener deep-dive page.
    Connections,
    /// The fastfetch deep-dive page.
    Fastfetch,
    /// The graphs deep-dive page.
    Graphs,
}

/// Parsed arguments for the `page` command.
#[derive(Debug, Clone, Copy, PartialEq, Eq, Structural)]
pub struct PageCommand {
    /// Which direction to step the page counter.
    pub direction: PageDirection,
}

/// Page stepping direction for the `page` command.
#[derive(Debug, Clone, Copy, PartialEq, Eq, Structural)]
pub enum PageDirection {
    /// Move forward one page with wrap-around.
    Next,
    /// Move backward one page with wrap-around.
    Prev,
}

/// CLI parsing errors.
#[derive(Debug, Clone, PartialEq, Eq)]
pub enum CliError {
    /// The command line contained a non-Unicode token where text was expected.
    NonUnicodeArgument,
    /// The top-level command name is unsupported.
    UnknownCommand {
        /// The unrecognized command text.
        command: String,
    },
    /// A flag was not accepted for the current command.
    UnknownArgument {
        /// The owning command.
        command: &'static str,
        /// The unrecognized flag or positional argument.
        argument: String,
    },
    /// A required flag value was missing.
    MissingValue {
        /// The owning command.
        command: &'static str,
        /// The flag missing its following value.
        flag: &'static str,
    },
    /// A flag value was present but not one of the accepted choices.
    InvalidValue {
        /// The owning command.
        command: &'static str,
        /// The flag whose value was invalid.
        flag: &'static str,
        /// The rejected value.
        value: String,
    },
}

// ── The command-line grammar ───────────────────────────────────────────────

/// The settings of a `render` command, as values.
pub struct RenderModel {
    /// Config path.
    pub config: Option<Seq<char>>,
    /// Surface.
    pub component: RenderComponent,
    /// Output representation.
    pub format: RenderFormat,
    /// Layout.
    pub layout: PanelLayout,
    /// Page override.
    pub page: Option<RenderPage>,
}

/// What a command line means: a command, or the error it is refused with.
pub enum CliOutcome {
    /// Top-level help.
    Help,
    /// One subcommand's help.
    HelpFor(Seq<char>),
    /// The version.
    Version,
    /// The daemon, with its config path.
    Daemon(Option<Seq<char>>),
    /// A render.
    Render(RenderModel),
    /// A probe, with its config path.
    Probe(Option<Seq<char>>),
    /// A profiling run, with its config path.
    Profiling(Option<Seq<char>>),
    /// The item list.
    ListItems,
    /// A page step.
    Page(PageDirection),
    /// A click.
    Click,
    /// Refused: non-Unicode text.
    NonUnicodeArgument,
    /// Refused: unknown command.
    UnknownCommand(Seq<char>),
    /// Refused: unknown argument (command, argument).
    UnknownArgument(Seq<char>, Seq<char>),
    /// Refused: missing value (command, flag).
    MissingValue(Seq<char>, Seq<char>),
    /// Refused: invalid value (command, flag, value).
    InvalidValue(Seq<char>, Seq<char>, Seq<char>),
}

/// The text of an optional string.
pub open spec fn opt_view(o: Option<String>) -> Option<Seq<char>> {
    match o {
        Some(s) => Some(s@),
        None => None,
    }
}

/// The texts of the arguments.
pub open spec fn arg_views(args: Seq<Option<String>>) -> Seq<Option<Seq<char>>> {
    Seq::new(args.len(), |i: int| opt_view(args[i]))
}

/// The settings of a render command.
pub open spec fn render_view(r: RenderCommand) -> RenderModel {
    RenderModel {
        config: opt_view(r.config),
        component: r.component,
        format: r.format,
        layout: r.layout,
        page: r.page,
    }
}

/// The default render settings.
pub open spec fn default_render() -> RenderModel {
    RenderModel {
        config: None,
        component: RenderComponent::Both,
        format: RenderFormat::Text,
        layout: PanelLayout::Auto,
        page: None,
    }
}

/// What a parse result means.
pub open spec fn outcome_of(r: Result<Cli, CliError>) -> CliOutcome {
    match r {
        Ok(cli) => match cli.command {
            Command::Help => CliOutcome::Help,
            Command::HelpFor(c) => CliOutcome::HelpFor(c@),
            Command::Version => CliOutcome::Version,
            Command::Daemon(c) => CliOutcome::Daemon(opt_view(c.config)),
            Command::Render(c) => CliOutcome::Render(render_view(c)),
            Command::Probe(c) => CliOutcome::Probe(opt_view(c.config)),
            Command::Profiling(c) => CliOutcome::Profiling(opt_view(c.config)),
            Command::ListItems => CliOutcome::ListItems,
            Command::Page(p) => CliOutcome::Page(p.direction),
            Command::Click => CliOutcome::Click,
        },
        Err(e) => error_outcome(e),
    }
}

/// What a parse error means.
pub open spec fn error_outcome(e: CliError) -> CliOutcome {
    match e {
        CliError::NonUnicodeArgument => CliOutcome::NonUnicodeArgument,
        CliError::UnknownCommand { command } => CliOutcome::UnknownCommand(command@),
        CliError::UnknownArgument { command, argument } => CliOutcome::UnknownArgument(command@, argument@),
        CliError::MissingValue { command, flag } => CliOutcome::MissingValue(command@, flag@),
        CliError::InvalidValue { command, flag, value } => CliOutcome::InvalidValue(command@, flag@, value@),
    }
}

/// `-h` or `--help`.
pub open spec fn is_help_arg(a: Option<Seq<char>>) -> bool {
    a == Some("-h"@) || a == Some("--help"@)
}

/// `-V` or `--version`.
pub open spec fn is_version_arg(a: Option<Seq<char>>) -> bool {
    a == Some("-V"@) || a == Some("--version"@)
}

/// The command names.
pub open spec fn command_names() -> Seq<Seq<char>> {
    seq!["daemon"@, "render"@, "probe"@, "profiling"@, "list-items"@, "page"@, "click"@]
}

/// A known command's name; empty for any other text.
pub open spec fn static_name(n: Seq<char>) -> Seq<char> {
    if command_names().contains(n) {
        n
    } else {
        Seq::empty()
    }
}

/// The `--config PATH` options of a config command, the last path winning.
pub open spec fn config_outcome(cmd: Seq<char>, tail: Seq<Option<Seq<char>>>, acc: Option<Seq<char>>) -> Result<
    Option<Seq<char>>,
    CliOutcome,
>
    decreases tail.len(),
{
    if tail.len() == 0 {
        Ok(acc)
    } else {
        match tail[0] {
            None => Err(CliOutcome::NonUnicodeArgument),
            Some(f) => if f == "--config"@ {
                if tail.len() < 2 {
                    Err(CliOutcome::MissingValue(cmd, "--config"@))
                } else {
                    match tail[1] {
                        None => Err(CliOutcome::NonUnicodeArgument),
                        Some(v) => config_outcome(cmd, tail.skip(2), Some(v)),
                    }
                }
            } else {
                Err(CliOutcome::UnknownArgument(cmd, f))
            },
        }
    }
}

/// `--component` choices.
pub open spec fn component_choice(v: Seq<char>) -> Option<RenderComponent> {
    if v == "panel"@ {
        Some(RenderComponent::Panel)
    } else if v == "tooltip"@ {
        Some(RenderComponent::Tooltip)
    } else if v == "both"@ {
        Some(RenderComponent::Both)
    } else {
        None
    }
}

/// `--format` choices.
pub open spec fn format_choice(v: Seq<char>) -> Option<RenderFormat> {
    if v == "text"@ {
        Some(RenderFormat::Text)
    } else if v == "html"@ {
        Some(RenderFormat::Html)
    } else {
        None
    }
}

/// `--layout` choices.
pub open spec fn layout_choice(v: Seq<char>) -> Option<PanelLayout> {
    if v == "auto"@ {
        Some(PanelLayout::Auto)
    } else if v == "horizontal"@ {
        Some(PanelLayout::Horizontal)
    } else if v == "vertical"@ {
        Some(PanelLayout::Vertical)
    } else {
        None
    }
}

/// `--page` choices.
pub open spec fn page_choice(v: Seq<char>) -> Option<RenderPage> {
    if v == "full"@ {
        Some(RenderPage::Full)
    } else if v == "processes"@ {
        Some(RenderPage::Processes)
    } else if v == "cpu_cores"@ {
        Some(RenderPage::CpuCores)
    } else if v == "connections"@ {
        Some(RenderPage::Connections)
    } else if v == "fastfetch"@ {
        Some(RenderPage::Fastfetch)
    } else if v == "graphs"@ {
        Some(RenderPage::Graphs)
    } else {
        None
    }
}

/// The flags of a render command, left to right, the last value of a
/// repeated flag winning; the first bad argument refuses the line.
pub open spec fn render_outcome(tail: Seq<Option<Seq<char>>>, acc: RenderModel) -> Result<RenderModel, CliOutcome>
    decreases tail.len(),
{
    if tail.len() == 0 {
        Ok(acc)
    } else {
        match tail[0] {
            None => Err(CliOutcome::NonUnicodeArgument),
            Some(f) => if f != "--config"@ && f != "--component"@ && f != "--format"@ && f != "--layout"@
                && f != "--page"@ {
                Err(CliOutcome::UnknownArgument("render"@, f))
            } else if tail.len() < 2 {
                Err(CliOutcome::MissingValue("render"@, f))
            } else {
                match tail[1] {
                    None => Err(CliOutcome::NonUnicodeArgument),
                    Some(v) => {
                        let rest = tail.skip(2);
                        if f == "--config"@ {
                            render_outcome(rest, RenderModel { config: Some(v), ..acc })
                        } else if f == "--component"@ {
                            match component_choice(v) {
                                Some(c) => render_outcome(rest, RenderModel { component: c, ..acc }),
                                None => Err(CliOutcome::InvalidValue("render"@, f, v)),
                            }
                        } else if f == "--format"@ {
                            match format_choice(v) {
                                Some(c) => render_outcome(rest, RenderModel { format: c, ..acc }),
                                None => Err(CliOutcome::InvalidValue("render"@, f, v)),
                            }
                        } else if f == "--layout"@ {
                            match layout_choice(v) {
                                Some(c) => render_outcome(rest, RenderModel { layout: c, ..acc }),
                                None => Err(CliOutcome::InvalidValue("render"@, f, v)),
                            }
                        } else {
                            match page_choice(v) {
                                Some(c) => render_outcome(rest, RenderModel { page: Some(c), ..acc }),
                                None => Err(CliOutcome::InvalidValue("render"@, f, v)),
                            }
                        }
                    },
                }
            },
        }
    }
}

/// A command that takes no arguments: refused with its first one.
pub open spec fn bare_outcome(cmd: Seq<char>, tail: Seq<Option<Seq<char>>>, ok: CliOutcome) -> CliOutcome {
    if tail.len() == 0 {
        ok
    } else {
        match tail[0] {
            None => CliOutcome::NonUnicodeArgument,
            Some(a) => CliOutcome::UnknownArgument(cmd, a),
        }
    }
}

/// What a command line means. The program name comes first. No command
/// means help; `-h`/`--help` or `-V`/`--version` as the command mean help or
/// the version; a help flag anywhere after a command other than `page`
/// means that command's help. `page` steps forward only for an exact
/// `next`, backward otherwise, and ignores what follows.
pub open spec fn cli_outcome(args: Seq<Option<Seq<char>>>) -> CliOutcome {
    if args.len() < 2 || is_help_arg(args[1]) {
        CliOutcome::Help
    } else if is_version_arg(args[1]) {
        CliOutcome::Version
    } else {
        match args[1] {
            None => CliOutcome::NonUnicodeArgument,
            Some(name) => {
                let tail = args.skip(2);
                if name != "page"@ && exists|i: int| 0 <= i < tail.len() && #[trigger] is_help_arg(tail[i]) {
                    CliOutcome::HelpFor(static_name(name))
                } else if name == "daemon"@ || name == "probe"@ || name == "profiling"@ {
                    match config_outcome(name, tail, None) {
                        Ok(c) => if name == "daemon"@ {
                            CliOutcome::Daemon(c)
                        } else if name == "probe"@ {
                            CliOutcome::Probe(c)
                        } else {
                            CliOutcome::Profiling(c)
                        },
                        Err(e) => e,
                    }
                } else if name == "render"@ {
                    match render_outcome(tail, default_render()) {
                        Ok(m) => CliOutcome::Render(m),
                        Err(e) => e,
                    }
                } else if name == "list-items"@ {
                    bare_outcome(name, tail, CliOutcome::ListItems)
                } else if name == "click"@ {
                    bare_outcome(name, tail, CliOutcome::Click)
                } else if name == "page"@ {
                    if tail.len() == 0 {
                        CliOutcome::Page(PageDirection::Prev)
                    } else {
                        match tail[0] {
                            None => CliOutcome::NonUnicodeArgument,
                            Some(v) => CliOutcome::Page(
                                if v == "next"@ {
                                    PageDirection::Next
                                } else {
                                    PageDirection::Prev
                                },
                            ),
                        }
                    }
                } else {
                    CliOutcome::UnknownCommand(name)
                }
            },
        }
    }
}

/// The stable top-level name of a command.
pub open spec fn command_name(c: Command) -> Seq<char> {
    match c {
        Command::Help | Command::HelpFor(_) => "help"@,
        Command::Version => "version"@,
        Command::Daemon(_) => "daemon"@,
        Command::Render(_) => "render"@,
        Command::Probe(_) => "probe"@,
        Command::Profiling(_) => "profiling"@,
        Command::ListItems => "list-items"@,
        Command::Page(_) => "page"@,
        Command::Click => "click"@,
    }
}

/// Whether an outcome refuses the command line.
pub open spec fn is_refusal(o: CliOutcome) -> bool {
    o is NonUnicodeArgument || o is UnknownCommand || o is UnknownArgument || o is MissingValue
        || o is InvalidValue
}

proof fn lemma_config_refusals(cmd: Seq<char>, tail: Seq<Option<Seq<char>>>, acc: Option<Seq<char>>)
    ensures
        config_outcome(cmd, tail, acc) matches Err(e) ==> is_refusal(e),
    decreases tail.len(),
{
    if tail.len() >= 2 {
        if tail[1] is Some {
            lemma_config_refusals(cmd, tail.skip(2), Some(tail[1]->0));
        }
    }
}

proof fn lemma_render_refusals(tail: Seq<Option<Seq<char>>>, acc: RenderModel)
    ensures
        render_outcome(tail, acc) matches Err(e) ==> is_refusal(e),
    decreases tail.len(),
{
    if tail.len() >= 2 && tail[0] is Some && tail[1] is Some {
        let f = tail[0]->0;
        let v = tail[1]->0;
        let rest = tail.skip(2);
        lemma_render_refusals(rest, RenderModel { config: Some(v), ..acc });
        if let Some(c) = component_choice(v) {
            lemma_render_refusals(rest, RenderModel { component: c, ..acc });
        }
        if let Some(c) = format_choice(v) {
            lemma_render_refusals(rest, RenderModel { format: c, ..acc });
        }
        if let Some(c) = layout_choice(v) {
            lemma_render_refusals(rest, RenderModel { layout: c, ..acc });
        }
        if let Some(c) = page_choice(v) {
            lemma_render_refusals(rest, RenderModel { page: Some(c), ..acc });
        }
    }
}

/// A command line that parses to a command other than help or the version
/// names that command: its name is the line's first argument.
pub proof fn lemma_parsed_command_name(args: Seq<Option<Seq<char>>>, cli: Cli)
    requires
        outcome_of(Ok(cli)) == cli_outcome(args),
        !(cli.command is Help),
        !(cli.command is HelpFor),
        !(cli.command is Version),
    ensures
        args.len() >= 2,
        args[1] == Some(command_name(cli.command)),
{
    if args.len() >= 2 && args[1] is Some {
        let name = args[1]->0;
        let tail = args.skip(2);
        lemma_config_refusals(name, tail, None);
        lemma_render_refusals(tail, default_render());
    }
}

/// `page` steps forward exactly for `next` and backward for anything else
/// or nothing, whatever the program name and whatever follows.
pub proof fn lemma_page_direction(prog: Option<Seq<char>>, v: Option<Seq<char>>, rest: Seq<Option<Seq<char>>>)
    ensures
        cli_outcome(seq![prog, Some("page"@), Some("next"@)] + rest) == CliOutcome::Page(PageDirection::Next),
        (v matches Some(x) && x != "next"@) ==> cli_outcome(seq![prog, Some("page"@), v] + rest)
            == CliOutcome::Page(PageDirection::Prev),
        cli_outcome(seq![prog, Some("page"@)]) == CliOutcome::Page(PageDirection::Prev),
{
    reveal_strlit("page");
    reveal_strlit("next");
    reveal_strlit("-h");
    reveal_strlit("--help");
    reveal_strlit("-V");
    reveal_strlit("--version");
    reveal_strlit("daemon");
    reveal_strlit("probe");
    reveal_strlit("profiling");
    reveal_strlit("render");
    reveal_strlit("list-items");
    reveal_strlit("click");
    assert("page"@.len() == 4 && "-h"@.len() == 2 && "--help"@.len() == 6 && "-V"@.len() == 2 && "--version"@.len() == 9);
    assert("page"@ != "-h"@ && "page"@ != "--help"@ && "page"@ != "-V"@ && "page"@ != "--version"@);
    let a = seq![prog, Some("page"@), Some("next"@)] + rest;
    assert(a.len() >= 3);
    assert(a[1] == Some("page"@));
    assert(!is_help_arg(a[1]) && !is_version_arg(a[1]));
    assert(a.skip(2).len() > 0);
    assert(a.skip(2)[0] == Some("next"@));
    let b = seq![prog, Some("page"@), v] + rest;
    assert(b[1] == Some("page"@));
    assert(b.skip(2)[0] == v);
    let c = seq![prog, Some("page"@)];
    assert(c.len() == 2);
    assert(c[1] == Some("page"@));
    assert(!is_help_arg(c[1]) && !is_version_arg(c[1]));
    assert(c.skip(2).len() == 0);
}

// ── Parsing ────────────────────────────────────────────────────────────────

fn is_help(a: &Option<String>) -> (r: bool)
    ensures
        r == is_help_arg(opt_view(*a)),
{
    match a {
        Some(s) => str_eq(s.as_str(), "-h") || str_eq(s.as_str(), "--help"),
        None => false,
    }
}

fn is_version(a: &Option<String>) -> (r: bool)
    ensures
        r == is_version_arg(opt_view(*a)),
{
    match a {
        Some(s) => str_eq(s.as_str(), "-V") || str_eq(s.as_str(), "--version"),
        None => false,
    }
}

/// The static name of a known command; empty for any other text.
fn command_name_static(command: &str) -> (r: &'static str)
    ensures
        r@ == static_name(command@),
{
    let names: [&'static str; 7] = ["daemon", "render", "probe", "profiling", "list-items", "page", "click"];
    let mut k: usize = 0;
    while k < 7
        invariant
            k <= 7,
            forall|m: int| 0 <= m < 7 ==> (#[trigger] names@[m])@ == command_names()[m],
            forall|m: int| 0 <= m < k ==> command_names()[m] != command@,
        decreases 7 - k,
    {
        if str_eq(names[k], command) {
            assert(command_names()[k as int] == command@);
            assert(command_names().contains(command@));
            return names[k];
        }
        k = k + 1;
    }
    proof {
        reveal_strlit("");
        if command_names().contains(command@) {
            let m = choose|m: int| 0 <= m < command_names().len() && command_names()[m] == command@;
            assert(command_names()[m] != command@);
        }
    }
    assert(""@ =~= Seq::<char>::empty()) by {
        reveal_strlit("");
    }
    ""
}

/// The `--config PATH` options from `args[start..]`.
fn parse_config_command(command: &'static str, args: &Vec<Option<String>>, start: usize) -> (r: Result<
    ConfigCommand,
    CliError,
>)
    requires
        start <= args@.len(),
    ensures
        match config_outcome(command@, arg_views(args@).skip(start as int), None) {
            Ok(c) => r matches Ok(cc) && opt_view(cc.config) == c,
            Err(e) => r matches Err(err) && error_outcome(err) == e,
        },
{
    let ghost all = arg_views(args@);
    let mut config: Option<String> = None;
    let mut i: usize = start;
    while i < args.len()
        invariant
            start <= i <= args@.len(),
            all == arg_views(args@),
            config_outcome(command@, all.skip(start as int), None) == config_outcome(
                command@,
                all.skip(i as int),
                opt_view(config),
            ),
        decreases args@.len() - i,
    {
        let ghost tail = all.skip(i as int);
        assert(tail[0] == opt_view(args@[i as int]));
        let flag = match &args[i] {
            Some(f) => f,
            None => return Err(CliError::NonUnicodeArgument),
        };
        if !str_eq(flag.as_str(), "--config") {
            return Err(CliError::UnknownArgument { command, argument: flag.clone() });
        }
        if i + 1 >= args.len() {
            return Err(CliError::MissingValue { command, flag: "--config" });
        }
        assert(tail[1] == opt_view(args@[i + 1]));
        let value = match &args[i + 1] {
            Some(v) => v,
            None => return Err(CliError::NonUnicodeArgument),
        };
        config = Some(value.clone());
        assert(tail.skip(2) =~= all.skip(i + 2));
        i = i + 2;
    }
    assert(all.skip(i as int).len() == 0);
    Ok(ConfigCommand { config })
}

fn component_of(v: &str) -> (r: Option<RenderComponent>)
    ensures
        r == component_choice(v@),
{
    if str_eq(v, "panel") {
        Some(RenderComponent::Panel)
    } else if str_eq(v, "tooltip") {
        Some(RenderComponent::Tooltip)
    } else if str_eq(v, "both") {
        Some(RenderComponent::Both)
    } else {
        None
    }
}

fn format_of(v: &str) -> (r: Option<RenderFormat>)
    ensures
        r == format_choice(v@),
{
    if str_eq(v, "text") {
        Some(RenderFormat::Text)
    } else if str_eq(v, "html") {
        Some(RenderFormat::Html)
    } else {
        None
    }
}

fn layout_of(v: &str) -> (r: Option<PanelLayout>)
    ensures
        r == layout_choice(v@),
{
    if str_eq(v, "auto") {
        Some(PanelLayout::Auto)
    } else if str_eq(v, "horizontal") {
        Some(PanelLayout::Horizontal)
    } else if str_eq(v, "vertical") {
        Some(PanelLayout::Vertical)
    } else {
        None
    }
}

fn page_of(v: &str) -> (r: Option<RenderPage>)
    ensures
        r == page_choice(v@),
{
    if str_eq(v, "full") {
        Some(RenderPage::Full)
    } else if str_eq(v, "processes") {
        Some(RenderPage::Processes)
    } else if str_eq(v, "cpu_cores") {
        Some(RenderPage::CpuCores)
    } else if str_eq(v, "connections") {
        Some(RenderPage::Connections)
    } else if str_eq(v, "fastfetch") {
        Some(RenderPage::Fastfetch)
    } else if str_eq(v, "graphs") {
        Some(RenderPage::Graphs)
    } else {
        None
    }
}

/// The render flag named by `f`, as its static name.
fn render_flag(f: &str) -> (r: Option<&'static str>)
    ensures
        match r {
            Some(s) => s@ == f@ && (f@ == "--config"@ || f@ == "--component"@ || f@ == "--format"@
                || f@ == "--layout"@ || f@ == "--page"@),
            None => f@ != "--config"@ && f@ != "--component"@ && f@ != "--format"@ && f@ != "--layout"@
                && f@ != "--page"@,
        },
{
    if str_eq(f, "--config") {
        Some("--config")
    } else if str_eq(f, "--component") {
        Some("--component")
    } else if str_eq(f, "--format") {
        Some("--format")
    } else if str_eq(f, "--layout") {
        Some("--layout")
    } else if str_eq(f, "--page") {
        Some("--page")
    } else {
        None
    }
}

/// Applies one render flag and its value.
fn apply_render_flag(parsed: &mut RenderCommand, flag: &'static str, value: &String) -> (r: Result<(), CliError>)
    requires
        flag@ == "--config"@ || flag@ == "--component"@ || flag@ == "--format"@ || flag@ == "--layout"@
            || flag@ == "--page"@,
    ensures
        ({
            let acc = render_view(*old(parsed));
            let v = value@;
            let f = flag@;
            if f == "--config"@ {
                r is Ok && render_view(*final(parsed)) == RenderModel { config: Some(v), ..acc }
            } else if f == "--component"@ {
                match component_choice(v) {
                    Some(c) => r is Ok && render_view(*final(parsed)) == RenderModel { component: c, ..acc },
                    None => r matches Err(e) && error_outcome(e) == CliOutcome::InvalidValue("render"@, f, v),
                }
            } else if f == "--format"@ {
                match format_choice(v) {
                    Some(c) => r is Ok && render_view(*final(parsed)) == RenderModel { format: c, ..acc },
                    None => r matches Err(e) && error_outcome(e) == CliOutcome::InvalidValue("render"@, f, v),
                }
            } else if f == "--layout"@ {
                match layout_choice(v) {
                    Some(c) => r is Ok && render_view(*final(parsed)) == RenderModel { layout: c, ..acc },
                    None => r matches Err(e) && error_outcome(e) == CliOutcome::InvalidValue("render"@, f, v),
                }
            } else {
                match page_choice(v) {
                    Some(c) => r is Ok && render_view(*final(parsed)) == RenderModel { page: Some(c), ..acc },
                    None => r matches Err(e) && error_outcome(e) == CliOutcome::InvalidValue("render"@, f, v),
                }
            }
        }),
{
    if str_eq(flag, "--config") {
        parsed.config = Some(value.clone());
        Ok(())
    } else if str_eq(flag, "--component") {
        match component_of(value.as_str()) {
            Some(c) => {
                parsed.component = c;
                Ok(())
            },
            None => Err(CliError::InvalidValue { command: "render", flag, value: value.clone() }),
        }
    } else if str_eq(flag, "--format") {
        match format_of(value.as_str()) {
            Some(c) => {
                parsed.format = c;
                Ok(())
            },
            None => Err(CliError::InvalidValue { command: "render", flag, value: value.clone() }),
        }
    } else if str_eq(flag, "--layout") {
        match layout_of(value.as_str()) {
            Some(c) => {
                parsed.layout = c;
                Ok(())
            },
            None => Err(CliError::InvalidValue { command: "render", flag, value: value.clone() }),
        }
    } else {
        match page_of(value.as_str()) {
            Some(c) => {
                parsed.page = Some(c);
                Ok(())
            },
            None => Err(CliError::InvalidValue { command: "render", flag, value: value.clone() }),
        }
    }
}

/// The flags of a render command from `args[start..]`.
fn parse_render_command(args: &Vec<Option<String>>, start: usize) -> (r: Result<RenderCommand, CliError>)
    requires
        start <= args@.len(),
    ensures
        match render_outcome(arg_views(args@).skip(start as int), default_render()) {
            Ok(m) => r matches Ok(rc) && render_view(rc) == m,
            Err(e) => r matches Err(err) && error_outcome(err) == e,
        },
{
    let ghost all = arg_views(args@);
    let mut parsed = RenderCommand::default();
    let mut i: usize = start;
    while i < args.len()
        invariant
            start <= i <= args@.len(),
            all == arg_views(args@),
            render_outcome(all.skip(start as int), default_render()) == render_outcome(
                all.skip(i as int),
                render_view(parsed),
            ),
        decreases args@.len() - i,
    {
        let ghost tail = all.skip(i as int);
        assert(tail[0] == opt_view(args@[i as int]));
        let text = match &args[i] {
            Some(f) => f,
            None => return Err(CliError::NonUnicodeArgument),
        };
        let flag = match render_flag(text.as_str()) {
            Some(f) => f,
            None => return Err(CliError::UnknownArgument { command: "render", argument: text.clone() }),
        };
        if i + 1 >= args.len() {
            return Err(CliError::MissingValue { command: "render", flag });
        }
        assert(tail[1] == opt_view(args@[i + 1]));
        let value = match &args[i + 1] {
            Some(v) => v,
            None => return Err(CliError::NonUnicodeArgument),
        };
        let applied = apply_render_flag(&mut parsed, flag, value);
        if let Err(e) = applied {
            return Err(e);
        }
        assert(tail.skip(2) =~= all.skip(i + 2));
        i = i + 2;
    }
    assert(all.skip(i as int).len() == 0);
    Ok(parsed)
}

/// A command that takes no arguments, from `args[start..]`.
fn parse_bare_command(command: &'static str, args: &Vec<Option<String>>, start: usize, ok: Command) -> (r: Result<
    Command,
    CliError,
>)
    requires
        start <= args@.len(),
    ensures
        outcome_of(
            match r {
                Ok(c) => Ok(Cli { command: c }),
                Err(e) => Err(e),
            },
        ) == bare_outcome(command@, arg_views(args@).skip(start as int), outcome_of(Ok(Cli { command: ok }))),
{
    if start < args.len() {
        assert(arg_views(args@).skip(start as int)[0] == opt_view(args@[start as int]));
        match &args[start] {
            Some(a) => Err(CliError::UnknownArgument { command, argument: a.clone() }),
            None => Err(CliError::NonUnicodeArgument),
        }
    } else {
        Ok(ok)
    }
}

impl Cli {
    /// Parses a command line (see [`cli_outcome`]); repeated options keep
    /// their last value.
    pub fn parse(args: Vec<Option<String>>) -> (r: Result<Cli, CliError>)
        ensures
            outcome_of(r) == cli_outcome(arg_views(args@)),
    {
        let ghost all = arg_views(args@);
        if args.len() < 2 {
            return Ok(Cli { command: Command::Help });
        }
        assert(all[1] == opt_view(args@[1]));
        if is_help(&args[1]) {
            return Ok(Cli { command: Command::Help });
        }
        if is_version(&args[1]) {
            return Ok(Cli { command: Command::Version });
        }
        let name = match &args[1] {
            Some(n) => n.as_str(),
            None => return Err(CliError::NonUnicodeArgument),
        };
        let ghost tail = all.skip(2);
        let is_page = str_eq(name, "page");
        if !is_page {
            let mut k: usize = 2;
            while k < args.len()
                invariant
                    2 <= k <= args@.len(),
                    all == arg_views(args@),
                    tail == all.skip(2),
                    all[1] == Some(name@),
                    !is_help_arg(all[1]),
                    !is_version_arg(all[1]),
                    name@ != "page"@,
                    forall|m: int| 0 <= m < k - 2 ==> !is_help_arg(#[trigger] tail[m]),
                decreases args@.len() - k,
            {
                assert(tail[k - 2] == opt_view(args@[k as int]));
                if is_help(&args[k]) {
                    assert(is_help_arg(tail[k - 2]));
                    return Ok(Cli { command: Command::HelpFor(command_name_static(name)) });
                }
                k = k + 1;
            }
        }
        let command = if str_eq(name, "daemon") {
            match parse_config_command("daemon", &args, 2) {
                Ok(c) => Command::Daemon(c),
                Err(e) => return Err(e),
            }
        } else if str_eq(name, "probe") {
            match parse_config_command("probe", &args, 2) {
                Ok(c) => Command::Probe(c),
                Err(e) => return Err(e),
            }
        } else if str_eq(name, "profiling") {
            match parse_config_command("profiling", &args, 2) {
                Ok(c) => Command::Profiling(c),
                Err(e) => return Err(e),
            }
        } else if str_eq(name, "render") {
            match parse_render_command(&args, 2) {
                Ok(c) => Command::Render(c),
                Err(e) => return Err(e),
            }
        } else if str_eq(name, "list-items") {
            match parse_bare_command("list-items", &args, 2, Command::ListItems) {
                Ok(c) => c,
                Err(e) => return Err(e),
            }
        } else if str_eq(name, "click") {
            match parse_bare_command("click", &args, 2, Command::Click) {
                Ok(c) => c,
                Err(e) => return Err(e),
            }
        } else if is_page {
            let direction = if args.len() > 2 {
                assert(tail[0] == opt_view(args@[2]));
                match &args[2] {
                    Some(v) => if str_eq(v.as_str(), "next") {
                        PageDirection::Next
                    } else {
                        PageDirection::Prev
                    },
                    None => return Err(CliError::NonUnicodeArgument),
                }
            } else {
                PageDirection::Prev
            };
            Command::Page(PageCommand { direction })
        } else {
            return Err(CliError::UnknownCommand { command: owned(name) });
        };
        Ok(Cli { command })
    }
}

impl Command {
    /// Returns the stable top-level command name.
    pub fn name(&self) -> (r: &'static str)
        ensures
            r@ == command_name(*self),
    {
        match self {
            Command::Help => "help",
            Command::HelpFor(_) => "help",
            Command::Version => "version",
            Command::Daemon(_) => "daemon",
            Command::Render(_) => "render",
            Command::Probe(_) => "probe",
            Command::Profiling(_) => "profiling",
            Command::ListItems => "list-items",
            Command::Page(_) => "page",
            Command::Click => "click",
        }
    }
}


// ── Help and error texts ───────────────────────────────────────────────────

/// The top-level help text.
pub const HELP_TEXT: &'static str = "usage: pirostats [-h] <command> ...\n\npositional arguments:\n  <command>\n    daemon      Production loop: renders continuously and writes the files the\n                widget reads\n    render      One-shot render of panel/tooltip, then exits\n    probe       One-shot: probe the hardware and print the raw readings (no\n                render)\n    profiling   One-shot timing report (cold/warm cache, per-section/item)\n    list-items  Lists the available items and where they can go, then exits\n    page        Switch the tooltip page (bind to the widget's mouse-wheel\n                commands)\n    click       Run the current page's click action (bind to the widget's\n                click command)\n\noptions:\n  -h, --help    show this help message and exit";

/// Help of `daemon`.
pub const DAEMON_HELP: &'static str = "usage: pirostats daemon [-h] [--config PATH]\n\noptions:\n  -h, --help     show this help message and exit\n  --config PATH  Path to the TOML (default: ~/.config/pirostats/config.toml,\n                 else the shipped config)";

/// Help of `probe`.
pub const PROBE_HELP: &'static str = "usage: pirostats probe [-h] [--config PATH]\n\noptions:\n  -h, --help     show this help message and exit\n  --config PATH  Path to the TOML (default: ~/.config/pirostats/config.toml,\n                 else the shipped config)";

/// Help of `profiling`.
pub const PROFILING_HELP: &'static str = "usage: pirostats profiling [-h] [--config PATH]\n\noptions:\n  -h, --help     show this help message and exit\n  --config PATH  Path to the TOML (default: ~/.config/pirostats/config.toml,\n                 else the shipped config)";

/// Help of `list-items`.
pub const LIST_ITEMS_HELP: &'static str = "usage: pirostats list-items [-h]\n\noptions:\n  -h, --help  show this help message and exit";

/// Help of `click`.
pub const CLICK_HELP: &'static str = "usage: pirostats click [-h]\n\noptions:\n  -h, --help  show this help message and exit";

/// Help of `page`.
pub const PAGE_HELP: &'static str = "usage: pirostats page [-h] {next,prev}\n\npositional arguments:\n  {next,prev}  Move to the next/previous page (wraps around)\n\noptions:\n  -h, --help   show this help message and exit";

/// Help of `render`.
pub const RENDER_HELP: &'static str = "usage: pirostats render [-h] [--config PATH]\n                        [--component {panel,tooltip,both}]\n                        [--format {text,html}]\n                        [--layout {auto,horizontal,vertical}]\n                        [--page {full,processes,connections,fastfetch,cpu_cores,graphs}]\n\noptions:\n  -h, --help            show this help message and exit\n  --config PATH         Path to the TOML (default:\n                        ~/.config/pirostats/config.toml, else the shipped\n                        config)\n  --component {panel,tooltip,both}\n                        What to render (default: both)\n  --format {text,html}  text = stripped to stdout; html =\n                        /tmp/pirostats_render_* files (default: text)\n  --layout {auto,horizontal,vertical}\n                        Forces the panel orientation (horizontal = column,\n                        vertical = inline bar); auto = detection like the\n                        daemon (default)\n  --page {full,processes,connections,fastfetch,cpu_cores,graphs}\n                        Render a tooltip deep-dive page (any page, even one\n                        not in pages.order) instead of the full view; implies\n                        --component tooltip. Image pages (graphs) show only\n                        their legends in text format";

/// Usage line of `render`.
pub const RENDER_USAGE: &'static str = "usage: pirostats render [-h] [--config PATH]\n                        [--component {panel,tooltip,both}]\n                        [--format {text,html}]\n                        [--layout {auto,horizontal,vertical}]\n                        [--page {full,processes,connections,fastfetch,cpu_cores,graphs}]";

/// Usage line of the program.
pub const TOP_USAGE: &'static str = "usage: pirostats [-h] <command> ...";

/// Returns the top-level help text.
pub fn help_text() -> (r: &'static str)
    ensures
        r@ == HELP_TEXT@,
{
    HELP_TEXT
}

/// The help text of a command; empty for an unknown one.
pub open spec fn subcommand_help_of(command: Seq<char>) -> Seq<char> {
    if command == "daemon"@ {
        DAEMON_HELP@
    } else if command == "probe"@ {
        PROBE_HELP@
    } else if command == "profiling"@ {
        PROFILING_HELP@
    } else if command == "list-items"@ {
        LIST_ITEMS_HELP@
    } else if command == "click"@ {
        CLICK_HELP@
    } else if command == "page"@ {
        PAGE_HELP@
    } else if command == "render"@ {
        RENDER_HELP@
    } else {
        Seq::empty()
    }
}

/// Returns one command's help text (empty for an unknown command).
pub fn subcommand_help(command: &str) -> (r: &'static str)
    ensures
        r@ == subcommand_help_of(command@),
{
    if str_eq(command, "daemon") {
        DAEMON_HELP
    } else if str_eq(command, "probe") {
        PROBE_HELP
    } else if str_eq(command, "profiling") {
        PROFILING_HELP
    } else if str_eq(command, "list-items") {
        LIST_ITEMS_HELP
    } else if str_eq(command, "click") {
        CLICK_HELP
    } else if str_eq(command, "page") {
        PAGE_HELP
    } else if str_eq(command, "render") {
        RENDER_HELP
    } else {
        proof {
            reveal_strlit("");
        }
        ""
    }
}

/// The usage line shown with a command's errors.
pub open spec fn usage_of(command: Seq<char>) -> Seq<char> {
    if command == "render"@ {
        RENDER_USAGE@
    } else if command == "daemon"@ {
        "usage: pirostats daemon [-h] [--config PATH]"@
    } else if command == "probe"@ {
        "usage: pirostats probe [-h] [--config PATH]"@
    } else if command == "profiling"@ {
        "usage: pirostats profiling [-h] [--config PATH]"@
    } else if command == "list-items"@ {
        "usage: pirostats list-items [-h]"@
    } else if command == "page"@ {
        "usage: pirostats page [-h] {next,prev}"@
    } else if command == "click"@ {
        "usage: pirostats click [-h]"@
    } else {
        TOP_USAGE@
    }
}

fn usage_text(command: &str) -> (r: &'static str)
    ensures
        r@ == usage_of(command@),
{
    if str_eq(command, "render") {
        RENDER_USAGE
    } else if str_eq(command, "daemon") {
        "usage: pirostats daemon [-h] [--config PATH]"
    } else if str_eq(command, "probe") {
        "usage: pirostats probe [-h] [--config PATH]"
    } else if str_eq(command, "profiling") {
        "usage: pirostats profiling [-h] [--config PATH]"
    } else if str_eq(command, "list-items") {
        "usage: pirostats list-items [-h]"
    } else if str_eq(command, "page") {
        "usage: pirostats page [-h] {next,prev}"
    } else if str_eq(command, "click") {
        "usage: pirostats click [-h]"
    } else {
        TOP_USAGE
    }
}

/// The accepted choices of a flag, as an error lists them.
pub open spec fn choices_of(command: Seq<char>, flag: Seq<char>) -> Seq<char> {
    if command == "render"@ && flag == "--component"@ {
        "'panel', 'tooltip', 'both'"@
    } else if command == "render"@ && flag == "--format"@ {
        "'text', 'html'"@
    } else if command == "render"@ && flag == "--layout"@ {
        "'auto', 'horizontal', 'vertical'"@
    } else if command == "render"@ && flag == "--page"@ {
        "'full', 'processes', 'connections', 'fastfetch', 'cpu_cores', 'graphs'"@
    } else if command == "page"@ && flag == "step"@ {
        "'next', 'prev'"@
    } else {
        Seq::empty()
    }
}

fn choices_text(command: &str, flag: &str) -> (r: &'static str)
    ensures
        r@ == choices_of(command@, flag@),
{
    let render = str_eq(command, "render");
    if render && str_eq(flag, "--component") {
        "'panel', 'tooltip', 'both'"
    } else if render && str_eq(flag, "--format") {
        "'text', 'html'"
    } else if render && str_eq(flag, "--layout") {
        "'auto', 'horizontal', 'vertical'"
    } else if render && str_eq(flag, "--page") {
        "'full', 'processes', 'connections', 'fastfetch', 'cpu_cores', 'graphs'"
    } else if str_eq(command, "page") && str_eq(flag, "step") {
        "'next', 'prev'"
    } else {
        proof {
            reveal_strlit("");
        }
        ""
    }
}

/// The message of a refused command line.
pub open spec fn error_message(e: CliOutcome) -> Seq<char> {
    match e {
        CliOutcome::UnknownCommand(c) => TOP_USAGE@ + "\npirostats: error: argument <command>: invalid choice: '"@ + c
            + "' (choose from 'daemon', 'render', 'probe', 'profiling', 'list-items', 'page', 'click')"@,
        CliOutcome::UnknownArgument(c, a) => usage_of(c) + "\npirostats "@ + c + ": error: unrecognized arguments: "@
            + a,
        CliOutcome::MissingValue(c, f) => usage_of(c) + "\npirostats "@ + c + ": error: argument "@ + f
            + ": expected one argument"@,
        CliOutcome::InvalidValue(c, f, v) => usage_of(c) + "\npirostats "@ + c + ": error: argument "@ + f
            + ": invalid choice: '"@ + v + "' (choose from "@ + choices_of(c, f) + ")"@,
        _ => "non-unicode arguments are not supported by the CLI parser"@,
    }
}

impl CliError {
    /// The message shown for this error.
    pub fn message(&self) -> (r: String)
        ensures
            r@ == error_message(error_outcome(*self)),
    {
        let mut out = String::new();
        match self {
            CliError::NonUnicodeArgument => {
                push_str(&mut out, "non-unicode arguments are not supported by the CLI parser");
            },
            CliError::UnknownCommand { command } => {
                push_str(&mut out, TOP_USAGE);
                push_str(&mut out, "\npirostats: error: argument <command>: invalid choice: '");
                push_str(&mut out, command.as_str());
                push_str(
                    &mut out,
                    "' (choose from 'daemon', 'render', 'probe', 'profiling', 'list-items', 'page', 'click')",
                );
            },
            CliError::UnknownArgument { command, argument } => {
                push_str(&mut out, usage_text(command));
                push_str(&mut out, "\npirostats ");
                push_str(&mut out, command);
                push_str(&mut out, ": error: unrecognized arguments: ");
                push_str(&mut out, argument.as_str());
            },
            CliError::MissingValue { command, flag } => {
                push_str(&mut out, usage_text(command));
                push_str(&mut out, "\npirostats ");
                push_str(&mut out, command);
                push_str(&mut out, ": error: argument ");
                push_str(&mut out, flag);
                push_str(&mut out, ": expected one argument");
            },
            CliError::InvalidValue { command, flag, value } => {
                push_str(&mut out, usage_text(command));
                push_str(&mut out, "\npirostats ");
                push_str(&mut out, command);
                push_str(&mut out, ": error: argument ");
                push_str(&mut out, flag);
                push_str(&mut out, ": invalid choice: '");
                push_str(&mut out, value.as_str());
                push_str(&mut out, "' (choose from ");
                push_str(&mut out, choices_text(command, flag));
                push_str(&mut out, ")");
            },
        }
        proof {
            reveal_strlit("");
        }
        assert(out@ =~= error_message(error_outcome(*self)));
        out
    }
}

} // verus!
