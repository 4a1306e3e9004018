//! The application description and the dispatcher: resolving a requested
//! sub-command, allocating its arguments, invoking its handler, and
//! mapping every outcome to an exit code and diagnostic text.

use vstd::prelude::*;
use crate::arguments::Arguments;
use crate::arguments::allocate;
use crate::command::Command;
use crate::command::CommandResult;
use crate::command::CommandView;
use crate::command::command_well_formed;
use crate::command::outcome_code;
use crate::command::outcome_error_text;
use crate::command::short_desc_line;
use crate::command::usage_line;
use crate::parameter::ParameterView;
use crate::sink::Sink;
use crate::sink::SinkView;

verus! {

/// Describes an application and the commands it supports.
pub struct Application<'c, 'p> {
    /// The name of the application.
    pub name: &'static str,
    /// A collection of commands the application supports.
    pub commands: &'c [Command<'p>],
}

/// Type synonym for applications with static-lifetime commands and
/// parameters, which is how `Application` will typically be used.
pub type StaticApplication = Application<'static, 'static>;

/// The mathematical content of an `Application`: its name and the views
/// of its commands.
pub struct ApplicationView {
    /// The name of the application.
    pub name: Seq<char>,
    /// The views of the application's commands.
    pub commands: Seq<CommandView>,
}

/// The views of a sequence of commands.
pub open spec fn commands_view<'p>(cmds: Seq<Command<'p>>) -> Seq<CommandView> {
    cmds.map_values(|c: Command<'p>| c@)
}

impl<'c, 'p> View for Application<'c, 'p> {
    type V = ApplicationView;

    open spec fn view(&self) -> ApplicationView {
        ApplicationView { name: self.name@, commands: commands_view(self.commands@) }
    }
}

/// The lines of the application usage list, one per command, in
/// registration order.
pub open spec fn desc_lines(cmds: Seq<CommandView>) -> Seq<char>
    decreases cmds.len(),
{
    if cmds.len() == 0 {
        Seq::empty()
    } else {
        short_desc_line(cmds[0]) + desc_lines(cmds.drop_first())
    }
}

/// The full application usage text: the usage header followed by one line
/// per command.
pub open spec fn app_usage_text(app: ApplicationView) -> Seq<char> {
    "Usage: "@ + app.name + " COMMAND [ARGS]\n\ncommands:\n"@ + desc_lines(app.commands)
}

/// The diagnostic line written for an unrecognized command name.
pub open spec fn unrecognized_line(name: Seq<char>) -> Seq<char> {
    "Error: Unrecognized command '"@ + name + "'\n"@
}

/// The least index of a command named `name`, or `None` if no command has
/// that name.
pub open spec fn find_command(cmds: Seq<CommandView>, name: Seq<char>) -> Option<int>
    decreases cmds.len(),
{
    if cmds.len() == 0 {
        None
    } else if cmds[0].name == name {
        Some(0int)
    } else {
        match find_command(cmds.drop_first(), name) {
            Some(j) => Some(j + 1),
            None => None,
        }
    }
}

/// How an invocation resolves, before any handler runs.
pub enum Resolution {
    /// No sub-command token was supplied after the program name.
    NoCommandGiven,
    /// The requested command name matches no command.
    UnknownCommand,
    /// A command matched but the tokens do not satisfy its parameters.
    BadArguments {
        /// The index of the matched command.
        cmd: int,
    },
    /// A command matched and its arguments were allocated, so its handler
    /// runs.
    HandlerRan {
        /// The index of the matched command.
        cmd: int,
        /// The token lists allocated to the command's parameters.
        allocation: Seq<Seq<Seq<char>>>,
    },
}

/// Resolves an invocation against an application description: the
/// invocation tokens carry the program's own name as the first entry
/// and the requested command name as the second.
pub open spec fn resolve(app: ApplicationView, args: Seq<Seq<char>>) -> Resolution {
    if args.len() <= 1 {
        Resolution::NoCommandGiven
    } else {
        match find_command(app.commands, args[1]) {
            None => Resolution::UnknownCommand,
            Some(i) => match allocate(app.commands[i].params, args.skip(2)) {
                None => Resolution::BadArguments { cmd: i },
                Some(vals) => Resolution::HandlerRan { cmd: i, allocation: vals },
            },
        }
    }
}

/// The relation `run` establishes between an invocation's inputs and its
/// results: the exit code, the matched command index, and the sink
/// contents. When a handler runs, the handler's own writes and outcome
/// are not determined by the inputs; the relation then states that some
/// outcome decided the exit code and the appended diagnostic text.
pub open spec fn run_post(
    app: ApplicationView,
    args: Seq<Seq<char>>,
    s0: SinkView,
    code: int,
    matched: Option<usize>,
    s1: SinkView,
) -> bool {
    match resolve(app, args) {
        Resolution::NoCommandGiven => {
            &&& code == 1
            &&& matched is None
            &&& s1.error == s0.error + app_usage_text(app)
            &&& s1.output == s0.output
        },
        Resolution::UnknownCommand => {
            &&& code == 1
            &&& matched is None
            &&& s1.error == s0.error + unrecognized_line(args[1])
            &&& s1.output == s0.output
        },
        Resolution::BadArguments { cmd } => {
            &&& code == 1
            &&& matched == Some(cmd as usize)
            &&& s1.error == s0.error + usage_line(app.name, app.commands[cmd])
            &&& s1.output == s0.output
        },
        Resolution::HandlerRan { cmd, allocation } => {
            &&& matched == Some(cmd as usize)
            &&& exists|mid: SinkView, o: CommandResult|
                {
                    &&& code == outcome_code(o)
                    &&& s1 == SinkView {
                        output: mid.output,
                        error: mid.error + outcome_error_text(o, app.name, app.commands[cmd]),
                    }
                }
        },
    }
}

/// Writes the short-description lines of the commands from position `i`
/// on to the error sink.
fn print_short_descs(commands: &[Command], i: usize, sink: &mut Sink)
    requires
        i <= commands@.len(),
    ensures
        final(sink)@.error == old(sink)@.error + desc_lines(commands_view(commands@).skip(i as int)),
        final(sink)@.output == old(sink)@.output,
    decreases commands@.len() - i,
{
    let ghost cv = commands_view(commands@);
    if i < commands.len() {
        proof {
            assert(cv.skip(i as int)[0] == cv[i as int]);
            assert(cv.skip(i as int).drop_first() =~= cv.skip(i as int + 1));
        }
        commands[i].print_short_desc(sink);
        print_short_descs(commands, i + 1, sink);
        proof {
            assert(sink@.error =~= old(sink)@.error + desc_lines(cv.skip(i as int)));
        }
    } else {
        proof {
            assert(cv.skip(i as int) =~= Seq::<CommandView>::empty());
            assert(sink@.error =~= old(sink)@.error + desc_lines(cv.skip(i as int)));
        }
    }
}

/// If `cmds[i]` is named `name` and no earlier command is, then `i` is
/// the first match.
proof fn lemma_find_command_at(cmds: Seq<CommandView>, name: Seq<char>, i: int)
    requires
        0 <= i < cmds.len(),
        cmds[i].name == name,
        forall|k: int| 0 <= k < i ==> cmds[k].name != name,
    ensures
        find_command(cmds, name) == Some(i),
    decreases cmds.len(),
{
    if i > 0 {
        lemma_find_command_at(cmds.drop_first(), name, i - 1);
    }
}

/// If no command is named `name`, the search finds none.
proof fn lemma_find_command_none(cmds: Seq<CommandView>, name: Seq<char>)
    requires
        forall|k: int| 0 <= k < cmds.len() ==> cmds[k].name != name,
    ensures
        find_command(cmds, name) is None,
    decreases cmds.len(),
{
    if cmds.len() > 0 {
        lemma_find_command_none(cmds.drop_first(), name);
    }
}

/// Whether every command of the application satisfies the configuration
/// invariant on its parameter list.
pub open spec fn app_well_formed(app: ApplicationView) -> bool {
    forall|k: int| 0 <= k < app.commands.len() ==> command_well_formed(#[trigger] app.commands[k])
}

impl<'c, 'p> Application<'c, 'p> {
    /// Checks the configuration invariant of every command: at most one
    /// variable-width (optional or repeating) parameter per command. An
    /// embedding application should check this once, at startup, and fail
    /// loudly on a violation rather than misbehave later.
    pub fn is_well_formed(&self) -> (r: bool)
        ensures
            r == app_well_formed(self@),
    {
        let mut i: usize = 0;
        while i < self.commands.len()
            invariant
                0 <= i <= self.commands@.len(),
                self@.commands.len() == self.commands@.len(),
                forall|k: int| 0 <= k < i ==> command_well_formed(#[trigger] self@.commands[k]),
            decreases self.commands@.len() - i,
        {
            proof {
                assert(self@.commands[i as int] == self.commands@[i as int]@);
            }
            if !self.commands[i].is_well_formed() {
                return false;
            }
            i += 1;
        }
        true
    }

    /// Writes the full application usage text to the error sink: the
    /// usage header and, per command, its name padded to a minimum width
    /// of 22 characters, two spaces, and its short description.
    pub fn print_usage(&self, sink: &mut Sink)
        ensures
            final(sink)@.error == old(sink)@.error + app_usage_text(self@),
            final(sink)@.output == old(sink)@.output,
    {
        sink.write_error("Usage: ");
        sink.write_error(self.name);
        sink.write_error(" COMMAND [ARGS]\n\ncommands:\n");
        print_short_descs(self.commands, 0, sink);
        proof {
            assert(commands_view(self.commands@).skip(0) =~= commands_view(self.commands@));
            assert(sink@.error =~= old(sink)@.error + app_usage_text(self@));
        }
    }

    /// Given the command-line arguments, parses them and runs a command
    /// if applicable.
    ///
    /// Returns the exit code with which to exit, and the index of the
    /// invoked command in `self.commands` if one was matched.
    pub fn run(&self, sink: &mut Sink, args: Vec<String>) -> (r: (i32, Option<usize>))
        ensures
            run_post(self@, args.deep_view(), old(sink)@, r.0 as int, r.1, final(sink)@),
    {
        let ghost argsv = args.deep_view();
        if args.len() <= 1 {
            self.print_usage(sink);
            return (1, None);
        }
        let cmd_str = args[1].clone();
        proof {
            assert(cmd_str@ == argsv[1]);
        }
        let mut i: usize = 0;
        while i < self.commands.len()
            invariant
                argsv == args.deep_view(),
                argsv.len() >= 2,
                cmd_str@ == argsv[1],
                0 <= i <= self.commands@.len(),
                self@.commands.len() == self.commands@.len(),
                forall|k: int| 0 <= k < i ==> self@.commands[k].name != argsv[1],
                sink@ == old(sink)@,
            decreases self.commands@.len() - i,
        {
            let cmd = &self.commands[i];
            proof {
                assert(self@.commands[i as int] == cmd@);
            }
            if crate::text::str_eq(cmd_str.as_str(), cmd.name) {
                proof {
                    lemma_find_command_at(self@.commands, argsv[1], i as int);
                }
                let arguments = match Arguments::new(cmd.params, args) {
                    Some(a) => a,
                    None => {
                        cmd.print_usage(sink, self.name);
                        return (1, Some(i));
                    },
                };
                let result = cmd.handler.handle(sink, &arguments);
                let ghost mid = sink@;
                let ghost o = result;
                let code = cmd.report_outcome(sink, self.name, result);
                proof {
                    let appended = outcome_error_text(o, self@.name, self@.commands[i as int]);
                    assert(code == outcome_code(o) && sink@ == (SinkView {
                        output: mid.output,
                        error: mid.error + appended,
                    }));
                }
                return (code, Some(i));
            }
            i += 1;
        }
        proof {
            lemma_find_command_none(self@.commands, argsv[1]);
        }
        sink.write_error("Error: Unrecognized command '");
        sink.write_error(cmd_str.as_str());
        sink.write_error("'\n");
        proof {
            assert(sink@.error =~= old(sink)@.error + unrecognized_line(argsv[1]));
        }
        (1, None)
    }
}

/// Law: the dispatch decision has no hidden state. Whatever a handler
/// does, repeated runs from identical inputs always match the same
/// command, or none.
pub proof fn lemma_matched_command_deterministic(
    app: ApplicationView,
    args: Seq<Seq<char>>,
    s0: SinkView,
    code1: int,
    m1: Option<usize>,
    s1: SinkView,
    code2: int,
    m2: Option<usize>,
    s2: SinkView,
)
    requires
        run_post(app, args, s0, code1, m1, s1),
        run_post(app, args, s0, code2, m2, s2),
    ensures
        m1 == m2,
{
}

/// Law: on the library's side, dispatching has no hidden state. For an
/// invocation that does not reach a handler, the results allowed by the
/// dispatch relation are unique, so repeated runs from identical inputs
/// give identical exit codes, matched commands and sink contents.
/// An invocation that reaches a handler is excluded: handlers are opaque
/// and may themselves behave nondeterministically.
pub proof fn lemma_run_deterministic(
    app: ApplicationView,
    args: Seq<Seq<char>>,
    s0: SinkView,
    code1: int,
    m1: Option<usize>,
    s1: SinkView,
    code2: int,
    m2: Option<usize>,
    s2: SinkView,
)
    requires
        !(resolve(app, args) is HandlerRan),
        run_post(app, args, s0, code1, m1, s1),
        run_post(app, args, s0, code2, m2, s2),
    ensures
        code1 == code2,
        m1 == m2,
        s1 == s2,
{
    assert(s1 =~= s2);
}

} // verus!
