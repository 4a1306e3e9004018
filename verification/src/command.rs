//! Command descriptions: a name, a short description, the positional
//! parameters, and a handler, together with the rendering of a command's
//! usage text and the mapping from a handler's outcome to an exit code
//! and diagnostic text.

use vstd::prelude::*;
use vstd::string::StringExecFns;
use crate::arguments::Arguments;
use crate::arguments::params_view;
use crate::parameter::Parameter;
use crate::parameter::ParameterView;
use crate::parameter::param_render;
use crate::sink::Sink;
use crate::text::append_padded;
use crate::text::padded;

verus! {

/// Describes the outcome of a command invocation.
pub enum CommandResult {
    /// The command completed successfully.
    Success,
    /// The command was invoked incorrectly.
    ArgumentError,
    /// An error occurred while executing the command, optionally with a
    /// description of the underlying cause.
    ExecutionError(Option<String>),
}

/// A command handler: executes a command's logic, given the arguments
/// allocated to the command's parameters and the sinks to write to.
pub trait Handler {
    /// Executes the command.
    fn handle(&self, sink: &mut Sink, args: &Arguments) -> CommandResult;
}

/// Describes a command along with how to execute it and display help info
/// for it.
pub struct Command<'p> {
    /// The name of the command.
    pub name: &'static str,
    /// A one-line description of what the command does.
    pub short_desc: &'static str,
    /// A description of the parameters the command takes.
    pub params: &'p [Parameter],
    /// The handler which, given the command arguments and the sinks,
    /// executes the command.
    pub handler: &'p dyn Handler,
}

/// The mathematical content of a `Command`: its name, short description
/// and parameter views. The handler is opaque and has no mathematical
/// content.
pub struct CommandView {
    /// The name of the command.
    pub name: Seq<char>,
    /// The one-line description of the command.
    pub short_desc: Seq<char>,
    /// The views of the command's parameters.
    pub params: Seq<ParameterView>,
}

impl<'p> View for Command<'p> {
    type V = CommandView;

    open spec fn view(&self) -> CommandView {
        CommandView {
            name: self.name@,
            short_desc: self.short_desc@,
            params: params_view(self.params@),
        }
    }
}

/// The rendering of a parameter list in a command's usage line: each
/// parameter's rendering, preceded by one space.
pub open spec fn params_render(params: Seq<ParameterView>) -> Seq<char>
    decreases params.len(),
{
    if params.len() == 0 {
        Seq::empty()
    } else {
        " "@ + param_render(params[0]) + params_render(params.drop_first())
    }
}

/// The usage rendering of a command: its name followed by its parameters.
pub open spec fn command_render(c: CommandView) -> Seq<char> {
    c.name + params_render(c.params)
}

/// The one-line usage text for a command of an application.
pub open spec fn usage_line(app_name: Seq<char>, c: CommandView) -> Seq<char> {
    "Usage: "@ + app_name + " "@ + command_render(c) + "\n"@
}

/// One line of the application usage list: the command name padded to a
/// minimum width of 22 characters, two spaces, and the short description.
pub open spec fn short_desc_line(c: CommandView) -> Seq<char> {
    padded(c.name, 22) + "  "@ + c.short_desc + "\n"@
}

/// The exit code a handler outcome maps to: `0` for success, `1` for an
/// argument error, `2` for an execution error.
pub open spec fn outcome_code(r: CommandResult) -> int {
    match r {
        CommandResult::Success => 0,
        CommandResult::ArgumentError => 1,
        CommandResult::ExecutionError(_) => 2,
    }
}

/// The diagnostic text a handler outcome appends to the error sink: the
/// command's usage line on an argument error, one `Inner error:` line on
/// an execution error that carries a cause, and nothing otherwise.
pub open spec fn outcome_error_text(r: CommandResult, app_name: Seq<char>, c: CommandView) -> Seq<
    char,
> {
    match r {
        CommandResult::Success => Seq::empty(),
        CommandResult::ArgumentError => usage_line(app_name, c),
        CommandResult::ExecutionError(cause) => match cause {
            Some(msg) => "Inner error: "@ + msg@ + "\n"@,
            None => Seq::empty(),
        },
    }
}

/// How many of the parameters are variable-width: optional or repeating.
pub open spec fn variable_width_count(params: Seq<ParameterView>) -> nat
    decreases params.len(),
{
    if params.len() == 0 {
        0
    } else {
        (if params[0].is_variable_width() {
            1nat
        } else {
            0nat
        }) + variable_width_count(params.drop_first())
    }
}

/// Whether a command's parameter list is well formed: at most one
/// parameter is variable-width, so there is never ambiguity about which
/// parameter absorbs surplus tokens. A command violating this is a
/// configuration error, to be detected at registration time.
pub open spec fn command_well_formed(c: CommandView) -> bool {
    variable_width_count(c.params) <= 1
}

/// Renders the parameters of `params` from position `i` on, each preceded
/// by one space.
fn params_suffix_string(params: &[Parameter], i: usize) -> (r: String)
    requires
        i <= params@.len(),
    ensures
        r@ == params_render(params_view(params@).skip(i as int)),
    decreases params@.len() - i,
{
    let ghost pv = params_view(params@);
    if i == params.len() {
        proof {
            assert(pv.skip(i as int) =~= Seq::<ParameterView>::empty());
        }
        String::new()
    } else {
        proof {
            assert(pv.skip(i as int)[0] == pv[i as int]);
            assert(pv.skip(i as int).drop_first() =~= pv.skip(i as int + 1));
        }
        let mut s = " ".to_owned();
        let rendered = params[i].display_string();
        s.append(rendered.as_str());
        let rest = params_suffix_string(params, i + 1);
        s.append(rest.as_str());
        proof {
            assert(s@ =~= params_render(pv.skip(i as int)));
        }
        s
    }
}

impl<'p> Command<'p> {
    /// Checks the configuration invariant of the command's parameter
    /// list: at most one parameter may be variable-width (optional or
    /// repeating). An embedding application should check this eagerly,
    /// when it registers its commands, and fail loudly on a violation.
    pub fn is_well_formed(&self) -> (r: bool)
        ensures
            r == command_well_formed(self@),
    {
        let ghost pv = params_view(self.params@);
        let mut c: usize = 0;
        let mut i: usize = self.params.len();
        proof {
            assert(pv.skip(i as int) =~= Seq::<ParameterView>::empty());
        }
        while i > 0
            invariant
                pv == params_view(self.params@),
                pv.len() == self.params@.len(),
                0 <= i <= pv.len(),
                c == variable_width_count(pv.skip(i as int)),
                c + i <= pv.len(),
            decreases i,
        {
            i = i - 1;
            proof {
                assert(pv.skip(i as int)[0] == pv[i as int]);
                assert(pv.skip(i as int).drop_first() =~= pv.skip(i as int + 1));
            }
            if !self.params[i].required || self.params[i].repeating {
                c = c + 1;
            }
        }
        proof {
            assert(pv.skip(0) =~= pv);
        }
        c <= 1
    }

    /// Renders the command as it appears in its usage line: the command
    /// name followed by each parameter's rendering.
    pub fn display_string(&self) -> (r: String)
        ensures
            r@ == command_render(self@),
    {
        let mut s = self.name.to_owned();
        let rest = params_suffix_string(self.params, 0);
        s.append(rest.as_str());
        proof {
            assert(params_view(self.params@).skip(0) =~= params_view(self.params@));
            assert(s@ =~= command_render(self@));
        }
        s
    }

    /// Writes the command's one-line usage text to the error sink.
    pub fn print_usage(&self, sink: &mut Sink, app_name: &str)
        ensures
            final(sink)@.error == old(sink)@.error + usage_line(app_name@, self@),
            final(sink)@.output == old(sink)@.output,
    {
        sink.write_error("Usage: ");
        sink.write_error(app_name);
        sink.write_error(" ");
        let rendered = self.display_string();
        sink.write_error(rendered.as_str());
        sink.write_error("\n");
        proof {
            assert(sink@.error =~= old(sink)@.error + usage_line(app_name@, self@));
        }
    }

    /// Writes the command's line of the application usage list to the
    /// error sink: the name padded to a minimum width of 22 characters,
    /// two spaces, and the short description.
    pub fn print_short_desc(&self, sink: &mut Sink)
        ensures
            final(sink)@.error == old(sink)@.error + short_desc_line(self@),
            final(sink)@.output == old(sink)@.output,
    {
        let mut line = String::new();
        append_padded(&mut line, self.name, 22);
        line.append("  ");
        line.append(self.short_desc);
        line.append("\n");
        sink.write_error(line.as_str());
        proof {
            assert(sink@.error =~= old(sink)@.error + short_desc_line(self@));
        }
    }

    /// Maps a handler outcome to its exit code, writing the diagnostic
    /// text the outcome calls for to the error sink.
    pub fn report_outcome(&self, sink: &mut Sink, app_name: &str, result: CommandResult) -> (code:
        i32)
        ensures
            code == outcome_code(result),
            final(sink)@.error == old(sink)@.error + outcome_error_text(
                result,
                app_name@,
                self@,
            ),
            final(sink)@.output == old(sink)@.output,
    {
        match result {
            CommandResult::Success => {
                proof {
                    assert(sink@.error =~= old(sink)@.error + Seq::<char>::empty());
                }
                0
            },
            CommandResult::ArgumentError => {
                self.print_usage(sink, app_name);
                1
            },
            CommandResult::ExecutionError(cause) => {
                match cause {
                    Some(msg) => {
                        sink.write_error("Inner error: ");
                        sink.write_error(msg.as_str());
                        sink.write_error("\n");
                        proof {
                            assert(sink@.error =~= old(sink)@.error + ("Inner error: "@ + msg@
                                + "\n"@));
                        }
                    },
                    None => {
                        proof {
                            assert(sink@.error =~= old(sink)@.error + Seq::<char>::empty());
                        }
                    },
                }
                2
            },
        }
    }
}

} // verus!
