use pirostats::cli::{
    Cli, CliError, Command, PageCommand, PageDirection, PanelLayout, RenderCommand, RenderComponent, RenderFormat,
    RenderPage,
};
use pirostats::error::Error;

fn parse(arguments: &[&str]) -> Result<Cli, CliError> {
    Cli::parse(arguments.iter().map(|a| Some(a.to_string())).collect())
}

#[test]
fn defaults_to_help_without_subcommand() {
    assert!(matches!(parse(&["pirostats"]), Ok(Cli { command: Command::Help })));
}

#[test]
fn parses_render_defaults() {
    assert_eq!(parse(&["pirostats", "render"]), Ok(Cli { command: Command::Render(RenderCommand::default()) }));
}

#[test]
fn parses_render_overrides() {
    let cli = parse(&[
        "pirostats",
        "render",
        "--component",
        "tooltip",
        "--format",
        "html",
        "--layout",
        "vertical",
        "--page",
        "graphs",
    ]);

    assert_eq!(
        cli,
        Ok(Cli {
            command: Command::Render(RenderCommand {
                config: None,
                component: RenderComponent::Tooltip,
                format: RenderFormat::Html,
                layout: PanelLayout::Vertical,
                page: Some(RenderPage::Graphs),
            }),
        })
    );
}

#[test]
fn parses_page_direction() {
    assert_eq!(
        parse(&["pirostats", "page", "prev"]),
        Ok(Cli { command: Command::Page(PageCommand { direction: PageDirection::Prev }) })
    );
}

#[test]
fn page_fast_path_treats_missing_and_unknown_as_previous() {
    for arguments in [&["pirostats", "page"][..], &["pirostats", "page", "unknown", "ignored"][..]] {
        assert!(matches!(
            parse(arguments),
            Ok(Cli { command: Command::Page(PageCommand { direction: PageDirection::Prev }) })
        ));
    }
}

#[test]
fn subcommand_help_resolves_to_its_own_help() {
    assert!(matches!(parse(&["pirostats", "render", "--help"]), Ok(Cli { command: Command::HelpFor("render") })));
}

#[test]
fn rejects_unknown_render_choice() {
    assert_eq!(
        parse(&["pirostats", "render", "--format", "json"]),
        Err(CliError::InvalidValue { command: "render", flag: "--format", value: String::from("json") })
    );
}

#[test]
fn rejects_out_of_scope_list_items_flags() {
    assert_eq!(
        parse(&["pirostats", "list-items", "--config", "config.toml"]),
        Err(CliError::UnknownArgument { command: "list-items", argument: String::from("--config") })
    );
}

#[test]
fn repeated_render_flags_keep_last_value_like_argparse() {
    assert_eq!(
        parse(&["pirostats", "render", "--component", "both", "--component", "panel"]),
        Ok(Cli {
            command: Command::Render(RenderCommand { component: RenderComponent::Panel, ..RenderCommand::default() }),
        })
    );
}

#[test]
fn missing_flag_value_and_unknown_command_are_reported() {
    assert_eq!(
        parse(&["pirostats", "render", "--format"]),
        Err(CliError::MissingValue { command: "render", flag: "--format" })
    );
    assert_eq!(parse(&["pirostats", "frobnicate"]), Err(CliError::UnknownCommand { command: String::from("frobnicate") }));
}

#[test]
fn non_unicode_argument_is_refused() {
    let args = vec![Some(String::from("pirostats")), Some(String::from("daemon")), Some(String::from("--config")), None];
    assert_eq!(Cli::parse(args), Err(CliError::NonUnicodeArgument));
}

#[test]
fn config_flag_is_kept() {
    match parse(&["pirostats", "daemon", "--config", "/x.toml"]) {
        Ok(Cli { command: Command::Daemon(c) }) => assert_eq!(c.config.as_deref(), Some("/x.toml")),
        other => panic!("unexpected {other:?}"),
    }
}

#[test]
fn error_messages_wrap_cli_errors() {
    let e = Error::from(CliError::UnknownCommand { command: String::from("x") });
    assert_eq!(e.message(), CliError::UnknownCommand { command: String::from("x") }.message());
    let u = Error::Unsupported { command: "probe" };
    assert_eq!(u.message(), "command `probe` is recognized but not implemented");
}
