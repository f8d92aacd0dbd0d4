//! The programs that type text, press keys and write the clipboard on Linux, and the
//! user's own script.
use crate::settings::{PasteMethod, TypingTool};
use crate::text::strings::{
    chars_of, decimal, decimal_text, prefixed, strings, text_of, trim, trimmed,
};
use vstd::prelude::*;

verus! {

/// A program that types text or presses keys.
#[derive(Debug, Clone, Copy, PartialEq, Eq, Structural)]
pub enum Tool {
    Wtype,
    Kwtype,
    Dotool,
    Ydotool,
    Xdotool,
}

/// The programs that are installed.
#[derive(Debug, Clone, Copy, PartialEq, Eq, Structural)]
pub struct Tools {
    pub wtype: bool,
    pub kwtype: bool,
    pub dotool: bool,
    pub ydotool: bool,
    pub xdotool: bool,
}

/// The kind of desktop session.
#[derive(Debug, Clone, Copy, PartialEq, Eq, Structural)]
pub struct Session {
    pub wayland: bool,
    /// A Wayland session of KDE, where `wtype` does not work.
    pub kde_wayland: bool,
}

impl Tools {
    /// The program is installed.
    pub open spec fn has(self, tool: Tool) -> bool {
        match tool {
            Tool::Wtype => self.wtype,
            Tool::Kwtype => self.kwtype,
            Tool::Dotool => self.dotool,
            Tool::Ydotool => self.ydotool,
            Tool::Xdotool => self.xdotool,
        }
    }
}

/// One name if `present`, else none.
pub open spec fn if_present(present: bool, name: Seq<char>) -> Seq<Seq<char>> {
    if present {
        seq![name]
    } else {
        Seq::empty()
    }
}

/// The names of the choices for typing: the automatic one, and the installed programs.
pub open spec fn choices(tools: Tools) -> Seq<Seq<char>> {
    seq!["auto"@] + if_present(tools.wtype, "wtype"@) + if_present(tools.kwtype, "kwtype"@)
        + if_present(tools.dotool, "dotool"@) + if_present(tools.ydotool, "ydotool"@) + if_present(
        tools.xdotool,
        "xdotool"@,
    )
}

/// Adds a name if `present`.
fn push_if(list: &mut Vec<String>, present: bool, name: &str)
    ensures
        strings(final(list)@) == strings(old(list)@) + if_present(present, name@),
{
    if present {
        list.push(name.to_owned());
        assert(strings(list@) =~= strings(old(list)@) + if_present(present, name@));
    } else {
        assert(strings(list@) =~= strings(old(list)@) + if_present(present, name@));
    }
}

/// The names of the choices for typing. The first is always "auto".
pub fn get_available_typing_tools(tools: Tools) -> (r: Vec<String>)
    ensures
        strings(r@) == choices(tools),
{
    let mut names: Vec<String> = Vec::new();
    push_if(&mut names, true, "auto");
    push_if(&mut names, tools.wtype, "wtype");
    push_if(&mut names, tools.kwtype, "kwtype");
    push_if(&mut names, tools.dotool, "dotool");
    push_if(&mut names, tools.ydotool, "ydotool");
    push_if(&mut names, tools.xdotool, "xdotool");
    assert(strings(names@) =~= choices(tools));
    names
}

/// "auto" is always the first choice, and a program is a choice exactly if it is
/// installed.
pub proof fn choices_are_what_is_installed(tools: Tools)
    ensures
        choices(tools).len() >= 1,
        choices(tools)[0] == "auto"@,
        choices(tools).contains("wtype"@) == tools.wtype,
        choices(tools).contains("kwtype"@) == tools.kwtype,
        choices(tools).contains("dotool"@) == tools.dotool,
        choices(tools).contains("ydotool"@) == tools.ydotool,
        choices(tools).contains("xdotool"@) == tools.xdotool,
{
    reveal_strlit("auto");
    reveal_strlit("wtype");
    reveal_strlit("kwtype");
    reveal_strlit("dotool");
    reveal_strlit("ydotool");
    reveal_strlit("xdotool");
    let list = choices(tools);
    let (a, b, c, d, e) = (
        if_present(tools.wtype, "wtype"@),
        if_present(tools.kwtype, "kwtype"@),
        if_present(tools.dotool, "dotool"@),
        if_present(tools.ydotool, "ydotool"@),
        if_present(tools.xdotool, "xdotool"@),
    );
    assert("wtype"@[0] == 'w' && "kwtype"@[0] == 'k' && "dotool"@[0] == 'd' && "ydotool"@[0] == 'y'
        && "xdotool"@[0] == 'x' && "auto"@[0] == 'a');
    let i = 1int;
    let j = i + a.len();
    let k = j + b.len();
    let l = k + c.len();
    let m = l + d.len();
    assert(forall|n: int| i <= n < j ==> #[trigger] list[n] == "wtype"@);
    assert(forall|n: int| j <= n < k ==> #[trigger] list[n] == "kwtype"@);
    assert(forall|n: int| k <= n < l ==> #[trigger] list[n] == "dotool"@);
    assert(forall|n: int| l <= n < m ==> #[trigger] list[n] == "ydotool"@);
    assert(forall|n: int| m <= n < list.len() ==> #[trigger] list[n] == "xdotool"@);
    assert(tools.wtype ==> list[i] == "wtype"@);
    assert(tools.kwtype ==> list[j] == "kwtype"@);
    assert(tools.dotool ==> list[k] == "dotool"@);
    assert(tools.ydotool ==> list[l] == "ydotool"@);
    assert(tools.xdotool ==> list[m] == "xdotool"@);
}

/// The program that presses a key combination: on Wayland `wtype` except on KDE, then
/// `dotool`, then `ydotool`; on X11 `xdotool`, then `ydotool`.
pub open spec fn combo_choice(session: Session, tools: Tools) -> Option<Tool> {
    if session.wayland && !session.kde_wayland && tools.wtype {
        Some(Tool::Wtype)
    } else if session.wayland && tools.dotool {
        Some(Tool::Dotool)
    } else if !session.wayland && tools.xdotool {
        Some(Tool::Xdotool)
    } else if tools.ydotool {
        Some(Tool::Ydotool)
    } else {
        None
    }
}

/// Chooses the program that presses a key combination, if one is installed that can.
pub fn combo_tool(session: Session, tools: Tools) -> (r: Option<Tool>)
    ensures
        r == combo_choice(session, tools),
{
    if session.wayland {
        if !session.kde_wayland && tools.wtype {
            return Some(Tool::Wtype);
        }
        if tools.dotool {
            return Some(Tool::Dotool);
        }
    } else {
        if tools.xdotool {
            return Some(Tool::Xdotool);
        }
    }
    if tools.ydotool {
        Some(Tool::Ydotool)
    } else {
        None
    }
}

/// The program that types text where the user chose none: on a Wayland session of KDE
/// `kwtype`, and else the one that presses key combinations.
pub open spec fn typing_choice(session: Session, tools: Tools) -> Option<Tool> {
    if session.wayland && session.kde_wayland && tools.kwtype {
        Some(Tool::Kwtype)
    } else {
        combo_choice(session, tools)
    }
}

/// The program that the user chose.
pub open spec fn chosen(preferred: TypingTool) -> Option<Tool> {
    match preferred {
        TypingTool::Auto => None,
        TypingTool::Wtype => Some(Tool::Wtype),
        TypingTool::Kwtype => Some(Tool::Kwtype),
        TypingTool::Dotool => Some(Tool::Dotool),
        TypingTool::Ydotool => Some(Tool::Ydotool),
        TypingTool::Xdotool => Some(Tool::Xdotool),
    }
}

/// What a choice is called in messages.
pub open spec fn tool_title(tool: Tool) -> Seq<char> {
    match tool {
        Tool::Wtype => "Wtype"@,
        Tool::Kwtype => "Kwtype"@,
        Tool::Dotool => "Dotool"@,
        Tool::Ydotool => "Ydotool"@,
        Tool::Xdotool => "Xdotool"@,
    }
}

/// The name under which a program is started.
pub open spec fn program_name(tool: Tool) -> Seq<char> {
    match tool {
        Tool::Wtype => "wtype"@,
        Tool::Kwtype => "kwtype"@,
        Tool::Dotool => "dotool"@,
        Tool::Ydotool => "ydotool"@,
        Tool::Xdotool => "xdotool"@,
    }
}

/// What a choice is called in messages.
fn title_of(tool: Tool) -> (r: &'static str)
    ensures
        r@ == tool_title(tool),
{
    match tool {
        Tool::Wtype => "Wtype",
        Tool::Kwtype => "Kwtype",
        Tool::Dotool => "Dotool",
        Tool::Ydotool => "Ydotool",
        Tool::Xdotool => "Xdotool",
    }
}

/// The name under which a program is started.
pub fn name_of(tool: Tool) -> (r: &'static str)
    ensures
        r@ == program_name(tool),
{
    match tool {
        Tool::Wtype => "wtype",
        Tool::Kwtype => "kwtype",
        Tool::Dotool => "dotool",
        Tool::Ydotool => "ydotool",
        Tool::Xdotool => "xdotool",
    }
}

/// Whether a program is installed.
fn is_installed(tools: Tools, tool: Tool) -> (r: bool)
    ensures
        r == tools.has(tool),
{
    match tool {
        Tool::Wtype => tools.wtype,
        Tool::Kwtype => tools.kwtype,
        Tool::Dotool => tools.dotool,
        Tool::Ydotool => tools.ydotool,
        Tool::Xdotool => tools.xdotool,
    }
}

/// The program that types text, if any, or what is said where the one that the user
/// chose is not there.
pub open spec fn typing_decision(
    session: Session,
    tools: Tools,
    preferred: TypingTool,
) -> Result<Option<Tool>, Seq<char>> {
    match chosen(preferred) {
        None => Ok(typing_choice(session, tools)),
        Some(tool) => if tools.has(tool) {
            Ok(Some(tool))
        } else {
            Err("Typing tool "@ + tool_title(tool) + " is not available on this system"@)
        },
    }
}

/// Chooses the program that types text: only the one that the user chose, where one
/// was chosen, and else one that is installed and can.
pub fn typing_tool(session: Session, tools: Tools, preferred: TypingTool) -> (r: Result<
    Option<Tool>,
    String,
>)
    ensures
        match chosen(preferred) {
            None => r matches Ok(tool) && tool == typing_choice(session, tools),
            Some(tool) => if tools.has(tool) {
                r matches Ok(Some(t)) && t == tool
            } else {
                r matches Err(message) && message@ == "Typing tool "@ + tool_title(tool)
                    + " is not available on this system"@
            },
        },
        match typing_decision(session, tools, preferred) {
            Ok(tool) => r matches Ok(t) && t == tool,
            Err(text) => r matches Err(message) && message@ == text,
        },
{
    let tool: Tool = match preferred {
        TypingTool::Auto => {
            if session.wayland && session.kde_wayland && tools.kwtype {
                return Ok(Some(Tool::Kwtype));
            }
            return Ok(combo_tool(session, tools));
        },
        TypingTool::Wtype => Tool::Wtype,
        TypingTool::Kwtype => Tool::Kwtype,
        TypingTool::Dotool => Tool::Dotool,
        TypingTool::Ydotool => Tool::Ydotool,
        TypingTool::Xdotool => Tool::Xdotool,
    };
    if is_installed(tools, tool) {
        return Ok(Some(tool));
    }
    let mut message: String = prefixed("Typing tool ", title_of(tool));
    message.push_str(" is not available on this system");
    Err(message)
}

/// A program is chosen only if it is installed, and `wtype` never on KDE unless the
/// user asks for it.
pub proof fn choice_is_installed(session: Session, tools: Tools)
    ensures
        typing_choice(session, tools) matches Some(tool) ==> tools.has(tool),
        combo_choice(session, tools) matches Some(tool) ==> tools.has(tool) && !(tool is Kwtype),
        session.kde_wayland ==> typing_choice(session, tools) != Some(Tool::Wtype)
            && combo_choice(session, tools) != Some(Tool::Wtype),
{
}

/// A program to start.
pub struct ToolCommand {
    pub program: String,
    pub args: Vec<String>,
    /// What the program reads.
    pub input: Option<String>,
    /// What the program prints is not read.
    pub quiet: bool,
}

/// The command starts `program` with `args`, hands it `input`, and does not read what
/// it prints if it is to be `quiet`.
pub open spec fn command_is(
    command: ToolCommand,
    program: Seq<char>,
    args: Seq<Seq<char>>,
    input: Option<Seq<char>>,
    quiet: bool,
) -> bool {
    &&& command.quiet == quiet
    &&& command.program@ == program
    &&& strings(command.args@) == args
    &&& match (command.input, input) {
        (Some(a), Some(b)) => a@ == b,
        (None, None) => true,
        _ => false,
    }
}

/// The arguments with which a program types `text`. Those that could take the text for
/// an option are told that it is none.
pub open spec fn typing_args(tool: Tool, text: Seq<char>) -> Seq<Seq<char>> {
    match tool {
        Tool::Wtype => seq!["--"@, text],
        Tool::Kwtype => seq!["--"@, text],
        Tool::Dotool => seq![],
        Tool::Ydotool => seq!["type"@, "--"@, text],
        Tool::Xdotool => seq!["type"@, "--clearmodifiers"@, "--"@, text],
    }
}

/// What a program reads to type `text`.
pub open spec fn typing_input(tool: Tool, text: Seq<char>) -> Option<Seq<char>> {
    if tool is Dotool {
        Some("type "@ + text + "\n"@)
    } else {
        None
    }
}

/// Adds an argument.
fn push_arg(args: &mut Vec<String>, arg: &str)
    ensures
        strings(final(args)@) == strings(old(args)@).push(arg@),
{
    args.push(arg.to_owned());
    assert(strings(args@) =~= strings(old(args)@).push(arg@));
}

/// The command that types `text` with a program.
pub fn type_command(tool: Tool, text: &str) -> (r: ToolCommand)
    ensures
        command_is(
            r,
            program_name(tool),
            typing_args(tool, text@),
            typing_input(tool, text@),
            false,
        ),
        types(r, tool, text@),
{
    let mut args: Vec<String> = Vec::new();
    let mut input: Option<String> = None;
    assert(strings(args@) =~= Seq::empty());
    match tool {
        Tool::Wtype | Tool::Kwtype => {
            push_arg(&mut args, "--");
            push_arg(&mut args, text);
        },
        Tool::Dotool => {
            let mut line: String = prefixed("type ", text);
            line.push_str("\n");
            input = Some(line);
        },
        Tool::Ydotool => {
            push_arg(&mut args, "type");
            push_arg(&mut args, "--");
            push_arg(&mut args, text);
        },
        Tool::Xdotool => {
            push_arg(&mut args, "type");
            push_arg(&mut args, "--clearmodifiers");
            push_arg(&mut args, "--");
            push_arg(&mut args, text);
        },
    }
    assert(strings(args@) =~= typing_args(tool, text@));
    ToolCommand { program: name_of(tool).to_owned(), args, input, quiet: false }
}

/// The program that is started to press a key combination with a tool.
pub open spec fn combo_program(tool: Tool) -> Seq<char> {
    if tool is Dotool {
        "sh"@
    } else {
        program_name(tool)
    }
}

/// The arguments that press the key combination of a method. `ydotool` takes key codes
/// (29 control, 42 shift, 47 V, 110 insert), each going down (1) or up (0).
pub open spec fn combo_args(tool: Tool, method: PasteMethod) -> Seq<Seq<char>> {
    match (tool, method) {
        (Tool::Wtype, PasteMethod::CtrlV) => seq!["-M"@, "ctrl"@, "-k"@, "v"@],
        (Tool::Wtype, PasteMethod::ShiftInsert) => seq!["-M"@, "shift"@, "-k"@, "Insert"@],
        (Tool::Wtype, _) => seq!["-M"@, "ctrl"@, "-M"@, "shift"@, "-k"@, "v"@],
        (Tool::Dotool, PasteMethod::CtrlV) => seq!["-c"@, "echo key ctrl+v | dotool"@],
        (Tool::Dotool, PasteMethod::ShiftInsert) => seq![
            "-c"@,
            "echo key shift+insert | dotool"@,
        ],
        (Tool::Dotool, _) => seq!["-c"@, "echo key ctrl+shift+v | dotool"@],
        (Tool::Ydotool, PasteMethod::CtrlV) => seq![
            "key"@,
            "29:1"@,
            "47:1"@,
            "47:0"@,
            "29:0"@,
        ],
        (Tool::Ydotool, PasteMethod::ShiftInsert) => seq![
            "key"@,
            "42:1"@,
            "110:1"@,
            "110:0"@,
            "42:0"@,
        ],
        (Tool::Ydotool, _) => seq![
            "key"@,
            "29:1"@,
            "42:1"@,
            "47:1"@,
            "47:0"@,
            "42:0"@,
            "29:0"@,
        ],
        (_, PasteMethod::CtrlV) => seq!["key"@, "--clearmodifiers"@, "ctrl+v"@],
        (_, PasteMethod::ShiftInsert) => seq!["key"@, "--clearmodifiers"@, "shift+Insert"@],
        (_, _) => seq!["key"@, "--clearmodifiers"@, "ctrl+shift+v"@],
    }
}

/// The command that presses the key combination of a method with a program. There is
/// none for a method without a combination.
pub fn combo_command(tool: Tool, method: PasteMethod) -> (r: Result<ToolCommand, String>)
    requires
        !(tool is Kwtype),
    ensures
        if method.uses_combo() {
            r matches Ok(command) && command_is(
                command,
                combo_program(tool),
                combo_args(tool, method),
                None,
                tool is Dotool,
            )
        } else {
            r matches Err(message) && message@ == "Unsupported paste method"@
        },
        presses(r, tool, method),
{
    if !method.is_combo() {
        return Err("Unsupported paste method".to_owned());
    }
    let mut args: Vec<String> = Vec::new();
    assert(strings(args@) =~= Seq::empty());
    let program: &str = match tool {
        Tool::Wtype => {
            push_wtype_combo(&mut args, method);
            "wtype"
        },
        Tool::Dotool => {
            push_arg(&mut args, "-c");
            match method {
                PasteMethod::CtrlV => push_arg(&mut args, "echo key ctrl+v | dotool"),
                PasteMethod::ShiftInsert => push_arg(&mut args, "echo key shift+insert | dotool"),
                _ => push_arg(&mut args, "echo key ctrl+shift+v | dotool"),
            }
            "sh"
        },
        Tool::Ydotool => {
            push_ydotool_combo(&mut args, method);
            "ydotool"
        },
        _ => {
            push_arg(&mut args, "key");
            push_arg(&mut args, "--clearmodifiers");
            match method {
                PasteMethod::CtrlV => push_arg(&mut args, "ctrl+v"),
                PasteMethod::ShiftInsert => push_arg(&mut args, "shift+Insert"),
                _ => push_arg(&mut args, "ctrl+shift+v"),
            }
            "xdotool"
        },
    };
    assert(strings(args@) =~= combo_args(tool, method));
    let quiet: bool = tool == Tool::Dotool;
    Ok(ToolCommand { program: program.to_owned(), args, input: None, quiet })
}

/// Adds the arguments of `wtype` for a key combination.
fn push_wtype_combo(args: &mut Vec<String>, method: PasteMethod)
    requires
        strings(old(args)@) == Seq::<Seq<char>>::empty(),
        method.uses_combo(),
    ensures
        strings(final(args)@) == combo_args(Tool::Wtype, method),
{
    push_arg(args, "-M");
    match method {
        PasteMethod::CtrlV => push_arg(args, "ctrl"),
        PasteMethod::ShiftInsert => push_arg(args, "shift"),
        _ => {
            push_arg(args, "ctrl");
            push_arg(args, "-M");
            push_arg(args, "shift");
        },
    }
    push_arg(args, "-k");
    match method {
        PasteMethod::ShiftInsert => push_arg(args, "Insert"),
        _ => push_arg(args, "v"),
    }
    assert(strings(args@) =~= combo_args(Tool::Wtype, method));
}

/// Adds the arguments of `ydotool` for a key combination.
fn push_ydotool_combo(args: &mut Vec<String>, method: PasteMethod)
    requires
        strings(old(args)@) == Seq::<Seq<char>>::empty(),
        method.uses_combo(),
    ensures
        strings(final(args)@) == combo_args(Tool::Ydotool, method),
{
    push_arg(args, "key");
    match method {
        PasteMethod::CtrlV => {
            push_arg(args, "29:1");
            push_arg(args, "47:1");
            push_arg(args, "47:0");
            push_arg(args, "29:0");
        },
        PasteMethod::ShiftInsert => {
            push_arg(args, "42:1");
            push_arg(args, "110:1");
            push_arg(args, "110:0");
            push_arg(args, "42:0");
        },
        _ => {
            push_arg(args, "29:1");
            push_arg(args, "42:1");
            push_arg(args, "47:1");
            push_arg(args, "47:0");
            push_arg(args, "42:0");
            push_arg(args, "29:0");
        },
    }
    assert(strings(args@) =~= combo_args(Tool::Ydotool, method));
}

/// The command that writes `text` to the clipboard with `wl-copy`. That leaves a
/// process behind which holds on to what would be read.
pub fn wl_copy_command(text: &str) -> (r: ToolCommand)
    ensures
        command_is(r, "wl-copy"@, seq!["--"@, text@], None, true),
        copies(r, text@),
{
    let mut args: Vec<String> = Vec::new();
    assert(strings(args@) =~= Seq::empty());
    push_arg(&mut args, "--");
    push_arg(&mut args, text);
    assert(strings(args@) =~= seq!["--"@, text@]);
    ToolCommand { program: "wl-copy".to_owned(), args, input: None, quiet: true }
}

/// The command that puts `text` on the clipboard of Wayland.
pub open spec fn copies(command: ToolCommand, text: Seq<char>) -> bool {
    command_is(command, "wl-copy"@, seq!["--"@, text], None, true)
}

/// The command that hands `text` to the script at `path`.
pub open spec fn runs_script(command: ToolCommand, text: Seq<char>, path: Seq<char>) -> bool {
    command_is(command, path, seq![text], None, false)
}

/// The command by which `tool` types `text`.
pub open spec fn types(command: ToolCommand, tool: Tool, text: Seq<char>) -> bool {
    command_is(command, program_name(tool), typing_args(tool, text), typing_input(tool, text), false)
}

/// What comes of asking for the command by which `tool` presses the keys of `method`.
pub open spec fn presses(
    r: Result<ToolCommand, String>,
    tool: Tool,
    method: PasteMethod,
) -> bool {
    match r {
        Ok(command) => method.uses_combo() && command_is(
            command,
            combo_program(tool),
            combo_args(tool, method),
            None,
            tool is Dotool,
        ),
        Err(message) => !method.uses_combo() && message@ == "Unsupported paste method"@,
    }
}

/// The command that hands `text` to the user's script.
pub fn script_command(text: &str, script_path: &str) -> (r: ToolCommand)
    ensures
        command_is(r, script_path@, seq![text@], None, false),
        runs_script(r, text@, script_path@),
{
    let mut args: Vec<String> = Vec::new();
    assert(strings(args@) =~= Seq::empty());
    push_arg(&mut args, text);
    assert(strings(args@) =~= seq![text@]);
    ToolCommand { program: script_path.to_owned(), args, input: None, quiet: false }
}

/// What came of starting a program.
pub enum Launch {
    /// It did not start.
    NotStarted(String),
    /// It could not be handed its input.
    NotFed(String),
    /// Its end could not be awaited.
    NotAwaited(String),
    /// It ended.
    Exited { success: bool, code: Option<i32>, stdout: String, stderr: String },
}

/// What is said where typing with a program failed, if it did.
pub open spec fn typing_failure(tool: Tool, launch: Launch) -> Option<Seq<char>> {
    match launch {
        Launch::NotStarted(error) => Some(
            (if tool is Dotool {
                "Failed to spawn "@
            } else {
                "Failed to execute "@
            }) + program_name(tool) + ": "@ + error@,
        ),
        Launch::NotFed(error) => Some(
            "Failed to write to "@ + program_name(tool) + " stdin: "@ + error@,
        ),
        Launch::NotAwaited(error) => Some(
            "Failed to wait for "@ + program_name(tool) + ": "@ + error@,
        ),
        Launch::Exited { success, stderr, .. } => if success {
            None
        } else {
            Some(program_name(tool) + " failed: "@ + stderr@)
        },
    }
}

/// The result agrees with an optional failure message.
pub open spec fn fails_with(r: Result<(), String>, failure: Option<Seq<char>>) -> bool {
    match failure {
        None => r is Ok,
        Some(text) => r matches Err(message) && message@ == text,
    }
}

/// What came of typing with a program.
pub fn typing_result(tool: Tool, launch: Launch) -> (r: Result<(), String>)
    ensures
        fails_with(r, typing_failure(tool, launch)),
{
    match launch {
        Launch::NotStarted(error) => {
            let mut message: String = if tool == Tool::Dotool {
                prefixed("Failed to spawn ", name_of(tool))
            } else {
                prefixed("Failed to execute ", name_of(tool))
            };
            message.push_str(": ");
            message.push_str(error.as_str());
            Err(message)
        },
        Launch::NotFed(error) => {
            let mut message: String = prefixed("Failed to write to ", name_of(tool));
            message.push_str(" stdin: ");
            message.push_str(error.as_str());
            Err(message)
        },
        Launch::NotAwaited(error) => {
            let mut message: String = prefixed("Failed to wait for ", name_of(tool));
            message.push_str(": ");
            message.push_str(error.as_str());
            Err(message)
        },
        Launch::Exited { success, stderr, .. } => {
            if success {
                return Ok(());
            }
            let mut message: String = prefixed(name_of(tool), " failed: ");
            message.push_str(stderr.as_str());
            Err(message)
        },
    }
}

/// What is said where pressing a key combination failed, if it did. Of `dotool` only
/// its success is looked at.
pub open spec fn combo_failure(tool: Tool, launch: Launch) -> Option<Seq<char>> {
    match launch {
        Launch::NotStarted(error) => Some(
            "Failed to execute "@ + program_name(tool) + ": "@ + error@,
        ),
        Launch::Exited { success, stderr, .. } => if success {
            None
        } else if tool is Dotool {
            Some("dotool failed"@)
        } else {
            Some(program_name(tool) + " failed: "@ + stderr@)
        },
        _ => typing_failure(tool, launch),
    }
}

/// What came of pressing a key combination with a program.
pub fn combo_result(tool: Tool, launch: Launch) -> (r: Result<(), String>)
    ensures
        fails_with(r, combo_failure(tool, launch)),
{
    match launch {
        Launch::NotStarted(error) => {
            let mut message: String = prefixed("Failed to execute ", name_of(tool));
            message.push_str(": ");
            message.push_str(error.as_str());
            Err(message)
        },
        Launch::Exited { success, code, stdout, stderr } => {
            if !success && tool == Tool::Dotool {
                return Err("dotool failed".to_owned());
            }
            typing_result(tool, Launch::Exited { success, code, stdout, stderr })
        },
        Launch::NotFed(error) => typing_result(tool, Launch::NotFed(error)),
        Launch::NotAwaited(error) => typing_result(tool, Launch::NotAwaited(error)),
    }
}

/// What is said where writing the clipboard with `wl-copy` failed, if it did.
pub open spec fn wl_copy_failure(launch: Launch) -> Option<Seq<char>> {
    match launch {
        Launch::Exited { success, .. } => if success {
            None
        } else {
            Some("wl-copy failed"@)
        },
        Launch::NotStarted(error) => Some("Failed to execute wl-copy: "@ + error@),
        Launch::NotFed(error) => Some("Failed to execute wl-copy: "@ + error@),
        Launch::NotAwaited(error) => Some("Failed to execute wl-copy: "@ + error@),
    }
}

/// What came of writing the clipboard with `wl-copy`.
pub fn wl_copy_result(launch: Launch) -> (r: Result<(), String>)
    ensures
        fails_with(r, wl_copy_failure(launch)),
{
    match launch {
        Launch::Exited { success, .. } => {
            if success {
                Ok(())
            } else {
                Err("wl-copy failed".to_owned())
            }
        },
        Launch::NotStarted(error) => Err(prefixed("Failed to execute wl-copy: ", error.as_str())),
        Launch::NotFed(error) => Err(prefixed("Failed to execute wl-copy: ", error.as_str())),
        Launch::NotAwaited(error) => Err(prefixed("Failed to execute wl-copy: ", error.as_str())),
    }
}

/// An exit code as messages give it.
pub open spec fn code_text(code: Option<i32>) -> Seq<char> {
    match code {
        Some(n) => "Some("@ + decimal(n as int) + ")"@,
        None => "None"@,
    }
}

/// An exit code as messages give it.
fn text_of_code(code: Option<i32>) -> (r: String)
    ensures
        r@ == code_text(code),
{
    match code {
        Some(n) => {
            let number: String = decimal_text(n);
            let mut text: String = prefixed("Some(", number.as_str());
            text.push_str(")");
            text
        },
        None => "None".to_owned(),
    }
}

/// The text without the white space at its ends.
fn trimmed_text(text: &str) -> (r: String)
    ensures
        r@ == trimmed(text@),
{
    let chars: Vec<char> = chars_of(text);
    let inner: Vec<char> = trim(&chars);
    text_of(&inner)
}

/// What is said where the user's script failed, if it did.
pub open spec fn script_failure(script_path: Seq<char>, launch: Launch) -> Option<Seq<char>> {
    match launch {
        Launch::Exited { success, code, stdout, stderr } => if success {
            None
        } else {
            Some(
                "External script '"@ + script_path + "' failed with exit code "@ + code_text(code)
                    + ". stderr: "@ + trimmed(stderr@) + ", stdout: "@ + trimmed(stdout@),
            )
        },
        Launch::NotStarted(error) => Some(
            "Failed to execute external script '"@ + script_path + "': "@ + error@,
        ),
        Launch::NotFed(error) => Some(
            "Failed to execute external script '"@ + script_path + "': "@ + error@,
        ),
        Launch::NotAwaited(error) => Some(
            "Failed to execute external script '"@ + script_path + "': "@ + error@,
        ),
    }
}

/// What is said where the user's script did not run.
fn script_not_run(script_path: &str, error: &str) -> (r: String)
    ensures
        r@ == "Failed to execute external script '"@ + script_path@ + "': "@ + error@,
{
    let mut message: String = prefixed("Failed to execute external script '", script_path);
    message.push_str("': ");
    message.push_str(error);
    message
}

/// What came of running the user's script.
pub fn script_result(script_path: &str, launch: Launch) -> (r: Result<(), String>)
    ensures
        fails_with(r, script_failure(script_path@, launch)),
{
    match launch {
        Launch::Exited { success, code, stdout, stderr } => {
            if success {
                return Ok(());
            }
            let code: String = text_of_code(code);
            let errors: String = trimmed_text(stderr.as_str());
            let output: String = trimmed_text(stdout.as_str());
            let mut message: String = prefixed("External script '", script_path);
            message.push_str("' failed with exit code ");
            message.push_str(code.as_str());
            message.push_str(". stderr: ");
            message.push_str(errors.as_str());
            message.push_str(", stdout: ");
            message.push_str(output.as_str());
            Err(message)
        },
        Launch::NotStarted(error) => Err(script_not_run(script_path, error.as_str())),
        Launch::NotFed(error) => Err(script_not_run(script_path, error.as_str())),
        Launch::NotAwaited(error) => Err(script_not_run(script_path, error.as_str())),
    }
}

} // verus!
