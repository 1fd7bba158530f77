use vstd::prelude::*;
use vstd::string::*;

use crate::profiles::{lemma_label_is_one_word, lemma_parse_label, parsed_name, profile_label, ProfileError, ProfileName};
use crate::router::{choose_profile, routed_profile, routed_reason, RouteDecision};
use crate::session::{after_reply, ChatRole, Session};
use crate::text::{lemma_skip_white_to, lemma_skip_word_to, is_white_space, chars_of, range_equals, skip_white, skip_white_at, skip_word, skip_word_at, trim, trim_bounds};

verus! {

/// What a handled command asks the terminal to show.
#[derive(Debug, Clone)]
pub enum CommandReply {
    Help,
    Quit,
    Reset,
    ProfileSet(ProfileName),
    ProfileShow,
    DebugChanged(bool),
    DebugInvalid(String),
    TraceChanged(bool),
    TraceInvalid(String),
    Unknown,
}

/// A command reply as a plain value.
pub enum CommandView {
    Help,
    Quit,
    Reset,
    ProfileSet(ProfileName),
    ProfileShow,
    DebugChanged(bool),
    DebugInvalid(Seq<char>),
    TraceChanged(bool),
    TraceInvalid(Seq<char>),
    Unknown,
}

impl View for CommandReply {
    type V = CommandView;

    open spec fn view(&self) -> CommandView {
        match self {
            CommandReply::Help => CommandView::Help,
            CommandReply::Quit => CommandView::Quit,
            CommandReply::Reset => CommandView::Reset,
            CommandReply::ProfileSet(p) => CommandView::ProfileSet(*p),
            CommandReply::ProfileShow => CommandView::ProfileShow,
            CommandReply::DebugChanged(b) => CommandView::DebugChanged(*b),
            CommandReply::DebugInvalid(s) => CommandView::DebugInvalid(s@),
            CommandReply::TraceChanged(b) => CommandView::TraceChanged(*b),
            CommandReply::TraceInvalid(s) => CommandView::TraceInvalid(s@),
            CommandReply::Unknown => CommandView::Unknown,
        }
    }
}

/// The bounds of the first white-space separated word at or after `i`.
pub open spec fn word_at(s: Seq<char>, i: int) -> Option<(int, int)> {
    let a = skip_white(s, i);
    if a >= s.len() {
        None
    } else {
        Some((a, skip_word(s, a)))
    }
}

/// The first word of `s` (`split_whitespace().next()`, empty when there is none).
pub open spec fn first_word(s: Seq<char>) -> Seq<char> {
    match word_at(s, 0) {
        Some((a, b)) => s.subrange(a, b),
        None => Seq::empty(),
    }
}

/// The second word of `s`, if there is one.
pub open spec fn second_word(s: Seq<char>) -> Option<Seq<char>> {
    match word_at(s, 0) {
        Some((a, b)) => match word_at(s, b) {
            Some((c, d)) => Some(s.subrange(c, d)),
            None => None,
        },
        None => None,
    }
}

/// An on/off switch: no word flips it, `on` and `off` set it, anything else is refused.
pub open spec fn switch_value(word: Option<Seq<char>>, current: bool) -> Result<bool, Seq<char>> {
    match word {
        None => Ok(!current),
        Some(w) => if w == "on"@ {
            Ok(true)
        } else if w == "off"@ {
            Ok(false)
        } else {
            Err(w)
        },
    }
}

/// What a line does as a command: `Ok(None)` when it is no command, the reply otherwise,
/// or the unknown profile name that `/profile` was given.
pub open spec fn command_outcome(input: Seq<char>, debug: bool, show_trace: bool) -> Result<
    Option<CommandView>,
    Seq<char>,
> {
    if !(input.len() > 0 && input[0] == '/') {
        Ok(None)
    } else {
        let command = first_word(input);
        let arg = second_word(input);
        if command == "/help"@ {
            Ok(Some(CommandView::Help))
        } else if command == "/quit"@ {
            Ok(Some(CommandView::Quit))
        } else if command == "/reset"@ {
            Ok(Some(CommandView::Reset))
        } else if command == "/profile"@ {
            match arg {
                None => Ok(Some(CommandView::ProfileShow)),
                Some(w) => match parsed_name(w) {
                    Some(p) => Ok(Some(CommandView::ProfileSet(p))),
                    None => Err(w),
                },
            }
        } else if command == "/debug"@ {
            match switch_value(arg, debug) {
                Ok(b) => Ok(Some(CommandView::DebugChanged(b))),
                Err(w) => Ok(Some(CommandView::DebugInvalid(w))),
            }
        } else if command == "/trace"@ || command == "/think"@ {
            match switch_value(arg, show_trace) {
                Ok(b) => Ok(Some(CommandView::TraceChanged(b))),
                Err(w) => Ok(Some(CommandView::TraceInvalid(w))),
            }
        } else {
            Ok(Some(CommandView::Unknown))
        }
    }
}

/// A command result as a plain value.
pub open spec fn outcome_view(r: Result<Option<CommandReply>, ProfileError>) -> Result<
    Option<CommandView>,
    Seq<char>,
> {
    match r {
        Ok(Some(reply)) => Ok(Some(reply@)),
        Ok(None) => Ok(None),
        Err(ProfileError::Unknown(v)) => Err(v@),
    }
}

/// The debug flag after a command.
pub open spec fn debug_after(outcome: Result<Option<CommandView>, Seq<char>>, debug: bool) -> bool {
    match outcome {
        Ok(Some(CommandView::DebugChanged(b))) => b,
        _ => debug,
    }
}

/// The trace flag after a command.
pub open spec fn trace_after(outcome: Result<Option<CommandView>, Seq<char>>, show_trace: bool) -> bool {
    match outcome {
        Ok(Some(CommandView::TraceChanged(b))) => b,
        _ => show_trace,
    }
}

/// The profile override after a command.
pub open spec fn override_after(
    outcome: Result<Option<CommandView>, Seq<char>>,
    profile_override: Option<ProfileName>,
) -> Option<ProfileName> {
    match outcome {
        Ok(Some(CommandView::ProfileSet(p))) => Some(p),
        _ => profile_override,
    }
}

/// The conversation after a command.
pub open spec fn session_after(
    outcome: Result<Option<CommandView>, Seq<char>>,
    history: Seq<(ChatRole, Seq<char>)>,
) -> Seq<(ChatRole, Seq<char>)> {
    match outcome {
        Ok(Some(CommandView::Reset)) => Seq::empty(),
        _ => history,
    }
}

fn word_bounds(v: &Vec<char>, start: usize) -> (r: Option<(usize, usize)>)
    requires
        start <= v@.len(),
    ensures
        match r {
            Some((a, b)) => word_at(v@, start as int) == Some((a as int, b as int)) && start <= a
                <= b <= v@.len(),
            None => word_at(v@, start as int) is None,
        },
{
    let a = skip_white_at(v, start);
    if a == v.len() {
        return None;
    }
    let b = skip_word_at(v, a);
    Some((a, b))
}

fn is_word(v: &Vec<char>, a: usize, b: usize, word: &str) -> (r: bool)
    requires
        a <= b <= v@.len(),
    ensures
        r == (v@.subrange(a as int, b as int) == word@),
{
    range_equals(v, a, b, &chars_of(word))
}

/// Reads an on/off switch word at `(c, d)` in `input`, or flips `current` when there is
/// none.
fn read_switch(input: &str, v: &Vec<char>, arg: Option<(usize, usize)>, current: bool) -> (r: Result<bool, String>)
    requires
        v@ == input@,
        arg matches Some((c, d)) ==> c <= d <= v@.len(),
    ensures
        match r {
            Ok(b) => switch_value(
                match arg {
                    Some((c, d)) => Some(v@.subrange(c as int, d as int)),
                    None => None,
                },
                current,
            ) == Ok::<bool, Seq<char>>(b),
            Err(w) => switch_value(
                match arg {
                    Some((c, d)) => Some(v@.subrange(c as int, d as int)),
                    None => None,
                },
                current,
            ) == Err::<bool, Seq<char>>(w@),
        },
{
    match arg {
        None => Ok(!current),
        Some((c, d)) => {
            if is_word(v, c, d, "on") {
                Ok(true)
            } else if is_word(v, c, d, "off") {
                Ok(false)
            } else {
                Err(input.substring_char(c, d).to_owned())
            }
        },
    }
}

/// Handles a slash command: `Ok(None)` when `input` is no command; otherwise the reply to
/// show, with the session, the debug and trace flags and the profile override changed as
/// the command says. An unknown name after `/profile` is an error and changes nothing.
pub fn handle_command(
    input: &str,
    session: &mut Session,
    debug: &mut bool,
    show_trace: &mut bool,
    profile_override: &mut Option<ProfileName>,
) -> (r: Result<Option<CommandReply>, ProfileError>)
    ensures
        outcome_view(r) == command_outcome(input@, *old(debug), *old(show_trace)),
        *final(debug) == debug_after(outcome_view(r), *old(debug)),
        *final(show_trace) == trace_after(outcome_view(r), *old(show_trace)),
        *final(profile_override) == override_after(outcome_view(r), *old(profile_override)),
        final(session)@ == session_after(outcome_view(r), old(session)@),
{
    let v = chars_of(input);
    if !(v.len() > 0 && v[0] == '/') {
        return Ok(None);
    }
    let (a, b) = match word_bounds(&v, 0) {
        Some(w) => w,
        None => {
            return Ok(Some(CommandReply::Unknown));
        },
    };
    let arg = word_bounds(&v, b);
    let ghost command = v@.subrange(a as int, b as int);
    let ghost arg_view: Option<Seq<char>> = match arg {
        Some((c, d)) => Some(v@.subrange(c as int, d as int)),
        None => None,
    };
    assert(first_word(input@) == command);
    assert(second_word(input@) == arg_view);
    if is_word(&v, a, b, "/help") {
        Ok(Some(CommandReply::Help))
    } else if is_word(&v, a, b, "/quit") {
        Ok(Some(CommandReply::Quit))
    } else if is_word(&v, a, b, "/reset") {
        session.reset();
        Ok(Some(CommandReply::Reset))
    } else if is_word(&v, a, b, "/profile") {
        match arg {
            None => Ok(Some(CommandReply::ProfileShow)),
            Some((c, d)) => {
                let word = input.substring_char(c, d);
                match ProfileName::parse(word) {
                    Ok(p) => {
                        *profile_override = Some(p);
                        Ok(Some(CommandReply::ProfileSet(p)))
                    },
                    Err(e) => Err(e),
                }
            },
        }
    } else if is_word(&v, a, b, "/debug") {
        match read_switch(input, &v, arg, *debug) {
            Ok(value) => {
                *debug = value;
                Ok(Some(CommandReply::DebugChanged(value)))
            },
            Err(w) => Ok(Some(CommandReply::DebugInvalid(w))),
        }
    } else if is_word(&v, a, b, "/trace") || is_word(&v, a, b, "/think") {
        match read_switch(input, &v, arg, *show_trace) {
            Ok(value) => {
                *show_trace = value;
                Ok(Some(CommandReply::TraceChanged(value)))
            },
            Err(w) => Ok(Some(CommandReply::TraceInvalid(w))),
        }
    } else {
        Ok(Some(CommandReply::Unknown))
    }
}


/// What the terminal does with one line of input.
#[derive(Debug)]
pub enum ReplStep {
    /// A blank line.
    Skip,
    /// `/quit`: leave the loop.
    Exit,
    /// A command was handled; show its reply.
    Reply(CommandReply),
    /// A prompt for the model, and the profile it was routed to.
    Prompt { text: String, route: RouteDecision },
}

/// A step as a plain value; `Refused` carries the unknown profile name of a `/profile`.
pub enum StepView {
    Skip,
    Exit,
    Reply(CommandView),
    Prompt(Seq<char>, ProfileName, Seq<char>),
    Refused(Seq<char>),
}

pub open spec fn step_view(r: Result<ReplStep, ProfileError>) -> StepView {
    match r {
        Ok(ReplStep::Skip) => StepView::Skip,
        Ok(ReplStep::Exit) => StepView::Exit,
        Ok(ReplStep::Reply(reply)) => StepView::Reply(reply@),
        Ok(ReplStep::Prompt { text, route }) => StepView::Prompt(text@, route.profile, route.reason@),
        Err(ProfileError::Unknown(v)) => StepView::Refused(v@),
    }
}

/// What a line of input does: blank lines are skipped; commands (after trimming) are
/// handled, and `/quit` alone leaves; anything else is a prompt routed with the override.
pub open spec fn line_step(
    line: Seq<char>,
    debug: bool,
    show_trace: bool,
    profile_override: Option<ProfileName>,
    default_profile: ProfileName,
) -> StepView {
    let t = trim(line);
    if t.len() == 0 {
        StepView::Skip
    } else {
        match command_outcome(t, debug, show_trace) {
            Err(w) => StepView::Refused(w),
            Ok(Some(c)) => if t == "/quit"@ {
                StepView::Exit
            } else {
                StepView::Reply(c)
            },
            Ok(None) => StepView::Prompt(
                t,
                routed_profile(t, profile_override, default_profile),
                routed_reason(t, profile_override, default_profile),
            ),
        }
    }
}

/// The outcome of the command part of a line (nothing for a blank line).
pub open spec fn line_command(line: Seq<char>, debug: bool, show_trace: bool) -> Result<
    Option<CommandView>,
    Seq<char>,
> {
    if trim(line).len() == 0 {
        Ok(None)
    } else {
        command_outcome(trim(line), debug, show_trace)
    }
}

/// Takes one line the user typed and decides what the terminal does with it.
pub fn process_line(
    line: &str,
    session: &mut Session,
    debug: &mut bool,
    show_trace: &mut bool,
    profile_override: &mut Option<ProfileName>,
    default_profile: ProfileName,
) -> (r: Result<ReplStep, ProfileError>)
    ensures
        step_view(r) == line_step(
            line@,
            *old(debug),
            *old(show_trace),
            *old(profile_override),
            default_profile,
        ),
        *final(debug) == debug_after(line_command(line@, *old(debug), *old(show_trace)), *old(debug)),
        *final(show_trace) == trace_after(
            line_command(line@, *old(debug), *old(show_trace)),
            *old(show_trace),
        ),
        *final(profile_override) == override_after(
            line_command(line@, *old(debug), *old(show_trace)),
            *old(profile_override),
        ),
        final(session)@ == session_after(
            line_command(line@, *old(debug), *old(show_trace)),
            old(session)@,
        ),
{
    let v = chars_of(line);
    let (a, b) = trim_bounds(&v);
    if a == b {
        return Ok(ReplStep::Skip);
    }
    let trimmed = line.substring_char(a, b);
    match handle_command(trimmed, session, debug, show_trace, profile_override) {
        Err(e) => Err(e),
        Ok(Some(reply)) => {
            if is_word(&v, a, b, "/quit") {
                Ok(ReplStep::Exit)
            } else {
                Ok(ReplStep::Reply(reply))
            }
        },
        Ok(None) => {
            let route = choose_profile(trimmed, *profile_override, default_profile);
            Ok(ReplStep::Prompt { text: trimmed.to_owned(), route })
        },
    }
}

/// What to print for one event of a streamed reply.
#[derive(Debug, Clone, Copy)]
pub struct RenderPlan {
    /// Print the `trace>` header first.
    pub trace_header: bool,
    /// End the trace line before the assistant header.
    pub line_break: bool,
    /// Print the `assistant>` header first.
    pub assistant_header: bool,
    /// Print the event's text.
    pub echo: bool,
}

/// What has been shown of a streamed reply so far.
#[derive(Debug, Clone, Copy)]
pub struct TraceRender {
    pub saw_reasoning: bool,
    pub printed_trace_header: bool,
    pub printed_assistant_header: bool,
}

impl TraceRender {
    /// Nothing shown yet.
    pub fn new() -> (r: TraceRender)
        ensures
            !r.saw_reasoning,
            !r.printed_trace_header,
            !r.printed_assistant_header,
    {
        TraceRender { saw_reasoning: false, printed_trace_header: false, printed_assistant_header: false }
    }

    /// Decides what to print for one event. Reasoning is shown only when the trace is on,
    /// under a header printed once; content is always shown, under a header printed once,
    /// after a line break when a trace was shown before it.
    pub fn on_event(&mut self, reasoning: bool, show_trace: bool) -> (plan: RenderPlan)
        ensures
            reasoning ==> {
                &&& final(self).saw_reasoning
                &&& final(self).printed_trace_header == (old(self).printed_trace_header || show_trace)
                &&& final(self).printed_assistant_header == old(self).printed_assistant_header
                &&& plan == (RenderPlan {
                    trace_header: show_trace && !old(self).printed_trace_header,
                    line_break: false,
                    assistant_header: false,
                    echo: show_trace,
                })
            },
            !reasoning ==> {
                &&& final(self).saw_reasoning == old(self).saw_reasoning
                &&& final(self).printed_trace_header == old(self).printed_trace_header
                &&& final(self).printed_assistant_header
                &&& plan == (RenderPlan {
                    trace_header: false,
                    line_break: show_trace && old(self).printed_trace_header
                        && !old(self).printed_assistant_header,
                    assistant_header: !old(self).printed_assistant_header,
                    echo: true,
                })
            },
    {
        if reasoning {
            self.saw_reasoning = true;
            if show_trace {
                let header = !self.printed_trace_header;
                self.printed_trace_header = true;
                RenderPlan { trace_header: header, line_break: false, assistant_header: false, echo: true }
            } else {
                RenderPlan { trace_header: false, line_break: false, assistant_header: false, echo: false }
            }
        } else {
            let line_break = show_trace && self.printed_trace_header && !self.printed_assistant_header;
            let header = !self.printed_assistant_header;
            self.printed_assistant_header = true;
            RenderPlan { trace_header: false, line_break, assistant_header: header, echo: true }
        }
    }
}


/// Ends a turn once its request is over: a reply that arrived (`Some` of its content) is
/// recorded as the assistant's turn, a failed request records nothing. The result says
/// whether to tell the user that a reasoning trace arrived but was hidden, which happens
/// only for a reply that arrived while the trace was off.
pub fn finish_reply(
    session: &mut Session,
    reply: Option<String>,
    render: &TraceRender,
    show_trace: bool,
) -> (notice: bool)
    ensures
        final(session)@ == after_reply(
            old(session)@,
            match reply {
                Some(c) => Some(c@),
                None => None,
            },
        ),
        reply matches Some(c) ==> final(session)@ == old(session)@.push((ChatRole::Assistant, c@)),
        reply is None ==> final(session)@ == old(session)@,
        notice == (reply is Some && render.saw_reasoning && !show_trace),
{
    match reply {
        Some(content) => {
            let notice = render.saw_reasoning && !show_trace;
            session.push_assistant(content);
            notice
        },
        None => false,
    }
}

/// `/profile <name>` sets the override to that profile, and every prompt after it is
/// routed there, whatever it says.
pub proof fn lemma_profile_command_wins(
    p: ProfileName,
    prompt: Seq<char>,
    debug: bool,
    show_trace: bool,
    profile_override: Option<ProfileName>,
    default_profile: ProfileName,
)
    ensures
        command_outcome("/profile "@ + profile_label(p), debug, show_trace) == Ok::<
            Option<CommandView>,
            Seq<char>,
        >(Some(CommandView::ProfileSet(p))),
        override_after(
            command_outcome("/profile "@ + profile_label(p), debug, show_trace),
            profile_override,
        ) == Some(p),
        routed_profile(prompt, Some(p), default_profile) == p,
{
    reveal_strlit("/profile ");
    reveal_strlit("/profile");
    reveal_strlit("/help");
    reveal_strlit("/quit");
    reveal_strlit("/reset");
    let head = "/profile "@;
    let label = profile_label(p);
    let s = head + label;
    lemma_label_is_one_word(p);
    lemma_parse_label(p);
    assert(forall|k: int| 0 <= k < 8 ==> #[trigger] s[k] == head[k]);
    assert(forall|k: int| 0 <= k < 8 ==> !is_white_space(#[trigger] s[k]));
    assert(s[8] == ' ');
    assert(forall|k: int| 9 <= k < s.len() ==> #[trigger] s[k] == label[k - 9]);
    lemma_skip_white_to(s, 0, 0);
    lemma_skip_word_to(s, 0, 8);
    lemma_skip_white_to(s, 8, 9);
    lemma_skip_word_to(s, 9, s.len() as int);
    assert(s.subrange(0, 8) == "/profile"@);
    assert(s.subrange(9, s.len() as int) == label);
    assert(first_word(s) == "/profile"@);
    assert(second_word(s) == Some(label));
}

/// `/debug` with no word flips the debug flag; twice gives it back.
pub proof fn lemma_debug_toggle_twice(debug: bool, show_trace: bool)
    ensures
        command_outcome("/debug"@, debug, show_trace) == Ok::<Option<CommandView>, Seq<char>>(
            Some(CommandView::DebugChanged(!debug)),
        ),
        debug_after(
            command_outcome("/debug"@, debug_after(command_outcome("/debug"@, debug, show_trace), debug), show_trace),
            debug_after(command_outcome("/debug"@, debug, show_trace), debug),
        ) == debug,
{
    reveal_strlit("/debug");
    reveal_strlit("/help");
    reveal_strlit("/quit");
    reveal_strlit("/reset");
    reveal_strlit("/profile");
    let w = "/debug"@;
    lemma_skip_white_to(w, 0, 0);
    lemma_skip_word_to(w, 0, 6);
    lemma_skip_white_to(w, 6, 6);
    assert(w.subrange(0, 6) == w);
    assert(first_word(w) == w);
    assert(second_word(w) is None);
    assert(w[1] != "/reset"@[1]);
}

/// The trace command (`/trace`, or its alias `/think`) reads its word like any switch: `on`
/// turns the trace on, `off` turns it off, no word flips it, and any other word is refused
/// and changes nothing. The debug flag, the override and the conversation stay as they were.
pub proof fn lemma_trace_command(input: Seq<char>, debug: bool, show_trace: bool)
    requires
        input.len() > 0,
        input[0] == '/',
        first_word(input) == "/trace"@ || first_word(input) == "/think"@,
    ensures
        second_word(input) == Some("on"@) ==> command_outcome(input, debug, show_trace) == Ok::<
            Option<CommandView>,
            Seq<char>,
        >(Some(CommandView::TraceChanged(true))),
        second_word(input) == Some("off"@) ==> command_outcome(input, debug, show_trace) == Ok::<
            Option<CommandView>,
            Seq<char>,
        >(Some(CommandView::TraceChanged(false))),
        second_word(input) is None ==> command_outcome(input, debug, show_trace) == Ok::<
            Option<CommandView>,
            Seq<char>,
        >(Some(CommandView::TraceChanged(!show_trace))),
        second_word(input) matches Some(w) ==> (w != "on"@ && w != "off"@ ==> command_outcome(
            input,
            debug,
            show_trace,
        ) == Ok::<Option<CommandView>, Seq<char>>(Some(CommandView::TraceInvalid(w)))),
        second_word(input) == Some("on"@) ==> trace_after(command_outcome(input, debug, show_trace), show_trace),
        second_word(input) == Some("off"@) ==> !trace_after(command_outcome(input, debug, show_trace), show_trace),
        debug_after(command_outcome(input, debug, show_trace), debug) == debug,
{
    reveal_strlit("/trace");
    reveal_strlit("/think");
    reveal_strlit("/help");
    reveal_strlit("/quit");
    reveal_strlit("/reset");
    reveal_strlit("/profile");
    reveal_strlit("/debug");
    reveal_strlit("on");
    reveal_strlit("off");
    let c = first_word(input);
    assert("/help"@.len() == 5 && "/quit"@.len() == 5 && "/profile"@.len() == 8);
    assert(c.len() == 6);
    assert(c != "/help"@);
    assert(c != "/quit"@);
    assert(c[1] != "/reset"@[1]);
    assert(c != "/profile"@);
    assert(c[1] != "/debug"@[1]);
    assert("on"@.len() == 2 && "off"@.len() == 3);
    assert("on"@ != "off"@);
}

/// The debug command reads its word like any switch: `on` turns debug output on, `off`
/// turns it off, no word flips it, and any other word is refused and changes nothing. The
/// trace flag, the override and the conversation stay as they were.
pub proof fn lemma_debug_command(input: Seq<char>, debug: bool, show_trace: bool)
    requires
        input.len() > 0,
        input[0] == '/',
        first_word(input) == "/debug"@,
    ensures
        second_word(input) == Some("on"@) ==> command_outcome(input, debug, show_trace) == Ok::<
            Option<CommandView>,
            Seq<char>,
        >(Some(CommandView::DebugChanged(true))),
        second_word(input) == Some("off"@) ==> command_outcome(input, debug, show_trace) == Ok::<
            Option<CommandView>,
            Seq<char>,
        >(Some(CommandView::DebugChanged(false))),
        second_word(input) is None ==> command_outcome(input, debug, show_trace) == Ok::<
            Option<CommandView>,
            Seq<char>,
        >(Some(CommandView::DebugChanged(!debug))),
        second_word(input) matches Some(w) ==> (w != "on"@ && w != "off"@ ==> command_outcome(
            input,
            debug,
            show_trace,
        ) == Ok::<Option<CommandView>, Seq<char>>(Some(CommandView::DebugInvalid(w)))),
        trace_after(command_outcome(input, debug, show_trace), show_trace) == show_trace,
{
    reveal_strlit("/help");
    reveal_strlit("/quit");
    reveal_strlit("/reset");
    reveal_strlit("/profile");
    reveal_strlit("/debug");
    reveal_strlit("on");
    reveal_strlit("off");
    let c = first_word(input);
    assert("/help"@.len() == 5 && "/quit"@.len() == 5 && "/profile"@.len() == 8);
    assert(c.len() == 6);
    assert(c != "/help"@);
    assert(c != "/quit"@);
    assert(c[1] != "/reset"@[1]);
    assert(c != "/profile"@);
    assert("on"@.len() == 2 && "off"@.len() == 3);
    assert("on"@ != "off"@);
}

/// `/trace off` and `/think off` turn the trace off, whatever the flags were.
pub proof fn lemma_trace_off(debug: bool, show_trace: bool)
    ensures
        command_outcome("/trace off"@, debug, show_trace) == Ok::<Option<CommandView>, Seq<char>>(
            Some(CommandView::TraceChanged(false)),
        ),
        command_outcome("/think off"@, debug, show_trace) == Ok::<Option<CommandView>, Seq<char>>(
            Some(CommandView::TraceChanged(false)),
        ),
        !trace_after(command_outcome("/trace off"@, debug, show_trace), show_trace),
        !trace_after(command_outcome("/think off"@, debug, show_trace), show_trace),
{
    reveal_strlit("/trace off");
    reveal_strlit("/think off");
    reveal_strlit("/trace");
    reveal_strlit("/think");
    reveal_strlit("off");
    let a = "/trace off"@;
    let b = "/think off"@;
    lemma_skip_white_to(a, 0, 0);
    lemma_skip_word_to(a, 0, 6);
    lemma_skip_white_to(a, 6, 7);
    lemma_skip_word_to(a, 7, 10);
    assert(a.subrange(0, 6) == "/trace"@);
    assert(a.subrange(7, 10) == "off"@);
    lemma_trace_command(a, debug, show_trace);
    lemma_skip_white_to(b, 0, 0);
    lemma_skip_word_to(b, 0, 6);
    lemma_skip_white_to(b, 6, 7);
    lemma_skip_word_to(b, 7, 10);
    assert(b.subrange(0, 6) == "/think"@);
    assert(b.subrange(7, 10) == "off"@);
    lemma_trace_command(b, debug, show_trace);
}

/// `/reset` forgets the conversation and leaves the flags and the override as they were.
pub proof fn lemma_reset_command(
    debug: bool,
    show_trace: bool,
    profile_override: Option<ProfileName>,
    history: Seq<(ChatRole, Seq<char>)>,
)
    ensures
        command_outcome("/reset"@, debug, show_trace) == Ok::<Option<CommandView>, Seq<char>>(
            Some(CommandView::Reset),
        ),
        session_after(command_outcome("/reset"@, debug, show_trace), history) == Seq::<
            (ChatRole, Seq<char>),
        >::empty(),
        debug_after(command_outcome("/reset"@, debug, show_trace), debug) == debug,
        trace_after(command_outcome("/reset"@, debug, show_trace), show_trace) == show_trace,
        override_after(command_outcome("/reset"@, debug, show_trace), profile_override)
            == profile_override,
{
    reveal_strlit("/reset");
    reveal_strlit("/help");
    reveal_strlit("/quit");
    let w = "/reset"@;
    lemma_skip_white_to(w, 0, 0);
    lemma_skip_word_to(w, 0, 6);
    lemma_skip_white_to(w, 6, 6);
    assert(w.subrange(0, 6) == w);
    assert(first_word(w) == w);
}

/// `/quit` alone leaves the loop and changes nothing.
pub proof fn lemma_quit_exits(
    debug: bool,
    show_trace: bool,
    profile_override: Option<ProfileName>,
    default_profile: ProfileName,
)
    ensures
        line_step("/quit"@, debug, show_trace, profile_override, default_profile) == StepView::Exit,
        line_command("/quit"@, debug, show_trace) == Ok::<Option<CommandView>, Seq<char>>(
            Some(CommandView::Quit),
        ),
{
    reveal_strlit("/quit");
    reveal_strlit("/help");
    let w = "/quit"@;
    lemma_skip_white_to(w, 0, 0);
    crate::text::lemma_drop_white_back_bounds(w, 5);
    assert(!is_white_space(w[4]));
    assert(crate::text::drop_white_back(w, 5) == 5);
    assert(w.subrange(0, 5) == w);
    assert(trim(w) == w);
    lemma_skip_word_to(w, 0, 5);
    lemma_skip_white_to(w, 5, 5);
    assert(first_word(w) == w);
}

} // verus!
