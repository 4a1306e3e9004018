//! Tests for the command dispatcher.

use command_cli::Application;
use command_cli::Arguments;
use command_cli::Command;
use command_cli::CommandResult;
use command_cli::Handler;
use command_cli::Parameter;
use command_cli::Sink;

struct SuccessHandler;

impl Handler for SuccessHandler {
    fn handle(&self, _sink: &mut Sink, _args: &Arguments) -> CommandResult {
        CommandResult::Success
    }
}

struct ArgErrorHandler;

impl Handler for ArgErrorHandler {
    fn handle(&self, _sink: &mut Sink, _args: &Arguments) -> CommandResult {
        CommandResult::ArgumentError
    }
}

struct ExecErrorHandler;

impl Handler for ExecErrorHandler {
    fn handle(&self, _sink: &mut Sink, _args: &Arguments) -> CommandResult {
        CommandResult::ExecutionError(None)
    }
}

struct ExecErrorWithInnerHandler;

impl Handler for ExecErrorWithInnerHandler {
    fn handle(&self, _sink: &mut Sink, _args: &Arguments) -> CommandResult {
        CommandResult::ExecutionError(Some(":(".to_string()))
    }
}

fn test_application_run(
    expected_exit_code: i32,
    expected_cmd_name: Option<&str>,
    args: Vec<String>,
) -> Sink {
    let params1 = [Parameter { name: "param1", required: true, repeating: false }];
    let params2 = [Parameter { name: "param1", required: true, repeating: false }];
    let params3 = [Parameter { name: "param1", required: true, repeating: false }];
    let params4 = [Parameter { name: "param1", required: true, repeating: false }];
    let cmds = [
        Command { name: "cmd1", short_desc: "desc1", params: &params1, handler: &SuccessHandler },
        Command { name: "cmd2", short_desc: "desc2", params: &params2, handler: &ArgErrorHandler },
        Command {
            name: "cmd3",
            short_desc: "desc3",
            params: &params3,
            handler: &ExecErrorHandler,
        },
        Command {
            name: "cmd4",
            short_desc: "desc4",
            params: &params4,
            handler: &ExecErrorWithInnerHandler,
        },
    ];
    let app = Application { name: "app", commands: &cmds };
    let mut sp = Sink::new();

    let (exit_code, cmd_idx) = app.run(&mut sp, args);

    assert_eq!(expected_exit_code, exit_code);
    match expected_cmd_name {
        Some(n) => assert_eq!(n, app.commands[cmd_idx.unwrap()].name),
        None => assert!(cmd_idx.is_none()),
    }

    sp
}

#[test]
fn application__print_usage__success() {
    let mut sp = Sink::new();
    let params1: [Parameter; 2] = [
        Parameter { name: "PARAM1", required: true, repeating: true },
        Parameter { name: "PARAM2", required: false, repeating: false },
    ];
    let params2: [Parameter; 0] = [];
    let cmds: [Command; 2] = [
        Command { name: "cmd1", short_desc: "desc1", params: &params1, handler: &SuccessHandler },
        Command { name: "cmd2", short_desc: "desc2", params: &params2, handler: &SuccessHandler },
    ];
    let app = Application { name: "app", commands: &cmds };
    let expected = "Usage: app COMMAND [ARGS]\n\ncommands:\ncmd1                    desc1\ncmd2                    desc2\n";

    app.print_usage(&mut sp);

    assert_eq!(0, sp.read_output().len());
    assert_eq!(expected, sp.read_error());
}

#[test]
fn application__run__empty_args__prints_usage() {
    let args = vec!["app".to_string()];

    let sp = test_application_run(1, None, args);

    assert_eq!(0, sp.read_output().len());
    assert_eq!(
        "Usage: app COMMAND [ARGS]\n\ncommands:\ncmd1                    desc1\ncmd2                    desc2\ncmd3                    desc3\ncmd4                    desc4\n",
        sp.read_error()
    );
}

#[test]
fn application__run__invalid_command__prints_unrecognized_command() {
    let args = vec!["app".to_string(), "badcmd".to_string()];

    let sp = test_application_run(1, None, args);

    assert_eq!("Error: Unrecognized command 'badcmd'\n", sp.read_error());
}

#[test]
fn application__run__invalid_args__prints_usage() {
    let args = vec!["app".to_string(), "cmd1".to_string()];

    let sp = test_application_run(1, Some("cmd1"), args);

    assert_eq!(0, sp.read_output().len());
    assert_eq!("Usage: app cmd1 param1\n", sp.read_error());
}

#[test]
fn application__run__handler_success__success() {
    let args = vec!["app".to_string(), "cmd1".to_string(), "arg1".to_string()];

    let sp = test_application_run(0, Some("cmd1"), args);

    assert_eq!(0, sp.read_output().len());
    assert_eq!(0, sp.read_error().len());
}

#[test]
fn application__run__handler_arg_error__prints_usage() {
    let args = vec!["app".to_string(), "cmd2".to_string(), "arg1".to_string()];

    let sp = test_application_run(1, Some("cmd2"), args);

    assert_eq!(0, sp.read_output().len());
    assert_eq!("Usage: app cmd2 param1\n", sp.read_error());
}

#[test]
fn application__run__handler_exec_error__success() {
    let args = vec!["app".to_string(), "cmd3".to_string(), "arg1".to_string()];

    let sp = test_application_run(2, Some("cmd3"), args);

    assert_eq!(0, sp.read_output().len());
    assert_eq!(0, sp.read_error().len());
}

#[test]
fn application__run__handler_exec_error_with_inner__prints_inner() {
    let args = vec!["app".to_string(), "cmd4".to_string(), "arg1".to_string()];

    let sp = test_application_run(2, Some("cmd4"), args);

    assert_eq!(0, sp.read_output().len());
    assert_eq!("Inner error: :(\n", sp.read_error());
}

#[test]
fn application__run__repeated_identical_inputs__identical_results() {
    let first = test_application_run(1, None, vec!["app".to_string(), "badcmd".to_string()]);
    let second = test_application_run(1, None, vec!["app".to_string(), "badcmd".to_string()]);

    assert_eq!(first.read_output(), second.read_output());
    assert_eq!(first.read_error(), second.read_error());

    let third = test_application_run(0, Some("cmd1"), vec![
        "app".to_string(),
        "cmd1".to_string(),
        "arg1".to_string(),
    ]);
    let fourth = test_application_run(0, Some("cmd1"), vec![
        "app".to_string(),
        "cmd1".to_string(),
        "arg1".to_string(),
    ]);

    assert_eq!(third.read_output(), fourth.read_output());
    assert_eq!(third.read_error(), fourth.read_error());
}

struct OutputHandler;

impl Handler for OutputHandler {
    fn handle(&self, sink: &mut Sink, args: &Arguments) -> CommandResult {
        let who = &args.get("WHO").unwrap()[0];
        sink.write_output("hello ");
        sink.write_output(who);
        sink.write_output("\n");
        CommandResult::Success
    }
}

#[test]
fn application__run__handler_writes_output_sink() {
    let params = [Parameter { name: "WHO", required: true, repeating: false }];
    let cmds =
        [Command { name: "greet", short_desc: "greets", params: &params, handler: &OutputHandler }];
    let app = Application { name: "app", commands: &cmds };
    let mut sp = Sink::new();
    let args = vec!["app".to_string(), "greet".to_string(), "world".to_string()];

    let (exit_code, cmd_idx) = app.run(&mut sp, args);

    assert_eq!(0, exit_code);
    assert_eq!(Some(0), cmd_idx);
    assert_eq!("hello world\n", sp.read_output());
    assert_eq!(0, sp.read_error().len());
}

#[test]
fn application__is_well_formed__at_most_one_variable_width() {
    let good = [
        Parameter { name: "PARAM1", required: true, repeating: false },
        Parameter { name: "PARAM2", required: true, repeating: true },
    ];
    let bad = [
        Parameter { name: "PARAM1", required: false, repeating: false },
        Parameter { name: "PARAM2", required: true, repeating: true },
    ];
    let good_cmds =
        [Command { name: "cmd1", short_desc: "desc1", params: &good, handler: &SuccessHandler }];
    let bad_cmds = [
        Command { name: "cmd1", short_desc: "desc1", params: &good, handler: &SuccessHandler },
        Command { name: "cmd2", short_desc: "desc2", params: &bad, handler: &SuccessHandler },
    ];
    let good_app = Application { name: "app", commands: &good_cmds };
    let bad_app = Application { name: "app", commands: &bad_cmds };

    assert!(good_app.is_well_formed());
    assert!(!bad_app.is_well_formed());
}
