//! What holds of the programs that type and press keys.
use super::tools::{
    choices, chosen, combo_args, combo_choice, combo_failure, combo_program, copies, presses,
    program_name, runs_script, script_failure, tool_title, types, typing_args,
    typing_choice, typing_decision, typing_failure, typing_input, wl_copy_failure, Launch, Session,
    Tool, ToolCommand, Tools,
};
use crate::settings::{PasteMethod, TypingTool};
use crate::text::strings::{decimal, strings, trimmed};
use vstd::prelude::*;

verus! {

/// The programs that can press keys in a session.
pub open spec fn able(session: Session, tool: Tool) -> bool {
    match tool {
        Tool::Wtype => session.wayland && !session.kde_wayland,
        Tool::Dotool => session.wayland,
        Tool::Xdotool => !session.wayland,
        Tool::Ydotool => true,
        Tool::Kwtype => false,
    }
}

/// How early a program is taken.
pub open spec fn rank(tool: Tool) -> int {
    match tool {
        Tool::Kwtype => 0,
        Tool::Wtype => 1,
        Tool::Xdotool => 1,
        Tool::Dotool => 2,
        Tool::Ydotool => 3,
    }
}

/// Of the installed programs that can press keys in the session the one that comes
/// first is taken, and none is missed.
pub proof fn best_able_program_presses(session: Session, tools: Tools, tool: Tool)
    ensures
        combo_choice(session, tools) matches Some(taken) ==> able(session, taken) && tools.has(
            taken,
        ),
        able(session, tool) && tools.has(tool) ==> (combo_choice(session, tools) matches Some(
            taken,
        ) && rank(taken) <= rank(tool)),
{
}

/// Text is typed by the program that presses keys, but for KDE on Wayland, where its
/// own program comes first.
pub proof fn kde_types_with_its_own(session: Session, tools: Tools)
    ensures
        session.wayland && session.kde_wayland && tools.kwtype ==> typing_choice(session, tools)
            == Some(Tool::Kwtype),
        !(session.wayland && session.kde_wayland && tools.kwtype) ==> typing_choice(session, tools)
            == combo_choice(session, tools),
{
}

/// A choice stands for the program of its name, and "auto" for none.
pub proof fn choice_names_its_program(preferred: TypingTool)
    ensures
        chosen(preferred) is None <==> preferred == TypingTool::Auto,
        chosen(TypingTool::Wtype) == Some(Tool::Wtype),
        chosen(TypingTool::Kwtype) == Some(Tool::Kwtype),
        chosen(TypingTool::Dotool) == Some(Tool::Dotool),
        chosen(TypingTool::Ydotool) == Some(Tool::Ydotool),
        chosen(TypingTool::Xdotool) == Some(Tool::Xdotool),
{
}

/// A program that the user chose is the only one that is taken, and its absence is told;
/// where none was chosen nothing is missed.
pub proof fn chosen_program_is_taken(
    session: Session,
    tools: Tools,
    preferred: TypingTool,
    tool: Tool,
)
    requires
        chosen(preferred) == Some(tool),
    ensures
        tools.has(tool) ==> typing_decision(session, tools, preferred) == Ok::<
            Option<Tool>,
            Seq<char>,
        >(Some(tool)),
        !tools.has(tool) ==> typing_decision(session, tools, preferred) == Err::<
            Option<Tool>,
            Seq<char>,
        >("Typing tool "@ + tool_title(tool) + " is not available on this system"@),
        typing_decision(session, tools, TypingTool::Auto) == Ok::<Option<Tool>, Seq<char>>(
            typing_choice(session, tools),
        ),
{
}

/// A program that is installed is among the choices under the name that starts it.
pub proof fn choices_start_programs(tools: Tools, tool: Tool)
    ensures
        choices(tools).contains(program_name(tool)) == tools.has(tool),
        program_name(tool).len() == tool_title(tool).len(),
        program_name(tool).skip(1) == tool_title(tool).skip(1),
{
    super::tools::choices_are_what_is_installed(tools);
    reveal_strlit("wtype");
    reveal_strlit("kwtype");
    reveal_strlit("dotool");
    reveal_strlit("ydotool");
    reveal_strlit("xdotool");
    reveal_strlit("Wtype");
    reveal_strlit("Kwtype");
    reveal_strlit("Dotool");
    reveal_strlit("Ydotool");
    reveal_strlit("Xdotool");
    assert(program_name(tool).skip(1) =~= tool_title(tool).skip(1));
}

/// Every program gets the text whole and unchanged, as its last argument after the
/// mark that ends options, or in a line of its own to read.
pub proof fn text_is_typed_whole(tool: Tool, text: Seq<char>)
    ensures
        tool == Tool::Dotool ==> typing_args(tool, text).len() == 0 && typing_input(tool, text)
            == Some("type "@ + text + "\n"@),
        tool != Tool::Dotool ==> {
            let args = typing_args(tool, text);
            &&& typing_input(tool, text) is None
            &&& args.len() >= 2
            &&& args[args.len() - 1] == text
            &&& args[args.len() - 2] == "--"@
            &&& args.len() > 2 <==> (tool == Tool::Ydotool || tool == Tool::Xdotool)
            &&& args.len() > 2 ==> args[0] == "type"@
            &&& args.len() > 3 <==> tool == Tool::Xdotool
            &&& args.len() > 3 ==> args[1] == "--clearmodifiers"@ && args.len() == 4
        },
{
}

/// The key combination of a method is pressed with the program itself, but for the one
/// that reads its keys from a shell.
pub proof fn combo_starts_the_program(tool: Tool)
    ensures
        tool == Tool::Dotool ==> combo_program(tool) == "sh"@,
        tool != Tool::Dotool ==> combo_program(tool) == program_name(tool),
{
}

/// `wtype` holds the control key unless the insert key is pressed, and the shift key
/// unless only control and V are.
pub proof fn wtype_holds_the_modifiers(method: PasteMethod)
    requires
        method.uses_combo(),
    ensures
        ({
            let args = combo_args(Tool::Wtype, method);
            let n = args.len() as int;
            &&& args[0] == "-M"@ && args[n - 2] == "-k"@
            &&& args[n - 1] == (if method == PasteMethod::ShiftInsert {
                "Insert"@
            } else {
                "v"@
            })
            &&& args[1] == (if method == PasteMethod::ShiftInsert {
                "shift"@
            } else {
                "ctrl"@
            })
            &&& n == (if method == PasteMethod::CtrlShiftV {
                6
            } else {
                4int
            })
            &&& n == 6 ==> args[2] == "-M"@ && args[3] == "shift"@
        }),
{
}

/// `ydotool` releases every key that it presses, the last one first.
pub proof fn ydotool_releases_its_keys(method: PasteMethod, i: int)
    requires
        method.uses_combo(),
        1 <= i < combo_args(Tool::Ydotool, method).len(),
    ensures
        ({
            let args = combo_args(Tool::Ydotool, method);
            let n = args.len() as int;
            let stroke = args[i];
            let mirror = args[n - i];
            let down = 2 * i < n;
            &&& args[0] == "key"@
            &&& stroke.len() == mirror.len() && stroke.len() >= 2
            &&& stroke.drop_last() == mirror.drop_last()
            &&& stroke.last() == (if down {
                '1'
            } else {
                '0'
            })
            &&& mirror.last() == (if down {
                '0'
            } else {
                '1'
            })
        }),
{
    reveal_strlit("key");
    reveal_strlit("29:1");
    reveal_strlit("29:0");
    reveal_strlit("42:1");
    reveal_strlit("42:0");
    reveal_strlit("47:1");
    reveal_strlit("47:0");
    reveal_strlit("110:1");
    reveal_strlit("110:0");
    assert("29:1"@.drop_last() =~= "29:0"@.drop_last());
    assert("42:1"@.drop_last() =~= "42:0"@.drop_last());
    assert("47:1"@.drop_last() =~= "47:0"@.drop_last());
    assert("110:1"@.drop_last() =~= "110:0"@.drop_last());
}

/// `ydotool` presses the keys of the method: control, shift and V, or insert, in the
/// order of the modifiers before the key.
pub proof fn ydotool_presses_the_keys(method: PasteMethod)
    requires
        method.uses_combo(),
    ensures
        ({
            let args = combo_args(Tool::Ydotool, method);
            &&& method == PasteMethod::CtrlV ==> args.len() == 5 && args[1] == "29:1"@ && args[2]
                == "47:1"@
            &&& method == PasteMethod::ShiftInsert ==> args.len() == 5 && args[1] == "42:1"@
                && args[2] == "110:1"@
            &&& method == PasteMethod::CtrlShiftV ==> args.len() == 7 && args[1] == "29:1"@
                && args[2] == "42:1"@ && args[3] == "47:1"@
        }),
{
}

/// `xdotool` and `dotool` name the combination of the method.
pub proof fn named_combos_are_those_of_the_method(method: PasteMethod)
    requires
        method.uses_combo(),
    ensures
        combo_args(Tool::Xdotool, method) == seq![
            "key"@,
            "--clearmodifiers"@,
            match method {
                PasteMethod::CtrlV => "ctrl+v"@,
                PasteMethod::ShiftInsert => "shift+Insert"@,
                _ => "ctrl+shift+v"@,
            },
        ],
        combo_args(Tool::Dotool, method) == seq![
            "-c"@,
            match method {
                PasteMethod::CtrlV => "echo key ctrl+v | dotool"@,
                PasteMethod::ShiftInsert => "echo key shift+insert | dotool"@,
                _ => "echo key ctrl+shift+v | dotool"@,
            },
        ],
{
}

/// The reason for which a program did not do its work.
pub open spec fn reason(launch: Launch) -> Seq<char> {
    match launch {
        Launch::NotStarted(error) => error@,
        Launch::NotFed(error) => error@,
        Launch::NotAwaited(error) => error@,
        Launch::Exited { stderr, .. } => stderr@,
    }
}

/// A program did its work exactly where it ended well.
pub open spec fn worked(launch: Launch) -> bool {
    launch matches Launch::Exited { success, .. } && success
}

/// `text` ends in `tail`.
pub open spec fn ends_in(text: Seq<char>, tail: Seq<char>) -> bool {
    text.len() >= tail.len() && text.skip(text.len() - tail.len()) == tail
}

/// What is said names the program or the script, and what was the matter with it.
pub proof fn failures_name_the_program(tool: Tool, launch: Launch, path: Seq<char>)
    ensures
        launch matches Launch::NotStarted(error) ==> {
            &&& typing_failure(tool, launch) == Some(
                (if tool == Tool::Dotool {
                    "Failed to spawn "@
                } else {
                    "Failed to execute "@
                }) + program_name(tool) + ": "@ + error@,
            )
            &&& combo_failure(tool, launch) == Some(
                "Failed to execute "@ + program_name(tool) + ": "@ + error@,
            )
            &&& wl_copy_failure(launch) == Some("Failed to execute wl-copy: "@ + error@)
            &&& script_failure(path, launch) == Some(
                "Failed to execute external script '"@ + path + "': "@ + error@,
            )
        },
        launch matches Launch::NotFed(error) ==> {
            &&& typing_failure(tool, launch) == Some(
                "Failed to write to "@ + program_name(tool) + " stdin: "@ + error@,
            )
            &&& combo_failure(tool, launch) == typing_failure(tool, launch)
            &&& wl_copy_failure(launch) == Some("Failed to execute wl-copy: "@ + error@)
            &&& script_failure(path, launch) == Some(
                "Failed to execute external script '"@ + path + "': "@ + error@,
            )
        },
        launch matches Launch::NotAwaited(error) ==> {
            &&& typing_failure(tool, launch) == Some(
                "Failed to wait for "@ + program_name(tool) + ": "@ + error@,
            )
            &&& combo_failure(tool, launch) == typing_failure(tool, launch)
            &&& wl_copy_failure(launch) == Some("Failed to execute wl-copy: "@ + error@)
            &&& script_failure(path, launch) == Some(
                "Failed to execute external script '"@ + path + "': "@ + error@,
            )
        },
        launch matches Launch::Exited { success, code, stdout, stderr } ==> !success ==> {
            &&& typing_failure(tool, launch) == Some(program_name(tool) + " failed: "@ + stderr@)
            &&& combo_failure(tool, launch) == Some(
                if tool == Tool::Dotool {
                    "dotool failed"@
                } else {
                    program_name(tool) + " failed: "@ + stderr@
                },
            )
            &&& wl_copy_failure(launch) == Some("wl-copy failed"@)
            &&& script_failure(path, launch) == Some(
                "External script '"@ + path + "' failed with exit code "@ + (match code {
                    Some(n) => "Some("@ + decimal(n as int) + ")"@,
                    None => "None"@,
                }) + ". stderr: "@ + trimmed(stderr@) + ", stdout: "@ + trimmed(stdout@),
            )
        },
{
}

/// A number in decimal goes digit by digit, with a sign before a negative one.
pub proof fn decimal_goes_digit_by_digit(n: nat)
    ensures
        n >= 10 ==> decimal(n as int) == decimal((n / 10) as int) + decimal((n % 10) as int),
        n > 0 ==> decimal(-(n as int)) == seq!['-'] + decimal(n as int),
        decimal(0) == seq!['0'] && decimal(1) == seq!['1'] && decimal(2) == seq!['2'],
        decimal(3) == seq!['3'] && decimal(4) == seq!['4'] && decimal(5) == seq!['5'],
        decimal(6) == seq!['6'] && decimal(7) == seq!['7'] && decimal(8) == seq!['8'],
        decimal(9) == seq!['9'],
{
    if n >= 10 {
        assert(decimal(n as int) =~= decimal((n / 10) as int) + decimal((n % 10) as int));
    }
}

/// Whatever goes wrong with a program is a failure that gives the reason, and nothing
/// else is one. Of `dotool` pressing keys, and of `wl-copy`, what they print is not
/// known.
pub proof fn failures_give_the_reason(tool: Tool, launch: Launch, path: Seq<char>)
    ensures
        typing_failure(tool, launch) is None <==> worked(launch),
        combo_failure(tool, launch) is None <==> worked(launch),
        wl_copy_failure(launch) is None <==> worked(launch),
        script_failure(path, launch) is None <==> worked(launch),
        typing_failure(tool, launch) matches Some(text) ==> ends_in(text, reason(launch)),
        !(launch is Exited && tool == Tool::Dotool) ==> (combo_failure(tool, launch) matches Some(
            text,
        ) ==> ends_in(text, reason(launch))),
        !(launch is Exited) ==> (wl_copy_failure(launch) matches Some(text) ==> ends_in(
            text,
            reason(launch),
        )),
        !(launch is Exited) ==> (script_failure(path, launch) matches Some(text) ==> ends_in(
            text,
            reason(launch),
        )),
{
    let r = reason(launch);
    if typing_failure(tool, launch) is Some {
        let t = typing_failure(tool, launch)->0;
        assert(t.skip(t.len() - r.len()) =~= r);
    }
    if combo_failure(tool, launch) is Some && !(launch is Exited && tool == Tool::Dotool) {
        let t = combo_failure(tool, launch)->0;
        assert(t.skip(t.len() - r.len()) =~= r);
    }
    if wl_copy_failure(launch) is Some && !(launch is Exited) {
        let t = wl_copy_failure(launch)->0;
        assert(t.skip(t.len() - r.len()) =~= r);
    }
    if script_failure(path, launch) is Some && !(launch is Exited) {
        let t = script_failure(path, launch)->0;
        assert(t.skip(t.len() - r.len()) =~= r);
    }
}

/// The text goes to the clipboard program as it is, as the last of its arguments and
/// behind the sign that no options follow; to the script it goes as the only one. What
/// the script prints is kept, what the clipboard program prints is not.
pub proof fn handed_text_is_whole(
    copy: ToolCommand,
    script: ToolCommand,
    text: Seq<char>,
    path: Seq<char>,
)
    requires
        copies(copy, text),
        runs_script(script, text, path),
    ensures
        copy.program@ == "wl-copy"@ && copy.quiet && copy.input is None,
        copy.args.len() == 2 && copy.args[0]@ == "--"@ && copy.args[1]@ == text,
        script.program@ == path && !script.quiet && script.input is None,
        script.args.len() == 1 && script.args[0]@ == text,
{
    let given = strings(copy.args@);
    assert(given.len() == 2 && given[0] == "--"@ && given[1] == text);
    let handed = strings(script.args@);
    assert(handed.len() == 1 && handed[0] == text);
}

/// A program that types starts under its own name, and what it prints is kept. Only
/// dotool is handed the text as its input, after which the line ends; the others find
/// it behind the sign that no options follow.
pub proof fn typing_command_carries_the_text(command: ToolCommand, tool: Tool, text: Seq<char>)
    requires
        types(command, tool, text),
    ensures
        !command.quiet,
        command.input is Some <==> tool is Dotool,
        command.input matches Some(line) ==> line@ == "type "@ + text + "\n"@
            && command.args.len() == 0,
        command.input is None ==> command.args.len() >= 2 && command.args[command.args.len()
            - 1]@ == text && command.args[command.args.len() - 2]@ == "--"@,
        command.program@ == (match tool {
            Tool::Wtype => "wtype"@,
            Tool::Kwtype => "kwtype"@,
            Tool::Dotool => "dotool"@,
            Tool::Ydotool => "ydotool"@,
            Tool::Xdotool => "xdotool"@,
        }),
{
    let args = strings(command.args@);
    let n: int = args.len() as int;
    assert(args == typing_args(tool, text));
    if !(tool is Dotool) {
        assert(args[n - 1] == text && args[n - 2] == "--"@);
        assert(command.args[n - 1]@ == text);
        assert(command.args[n - 2]@ == "--"@);
    }
}

/// Keys are pressed for the three methods that paste by keys, and refused for the
/// others. A program that presses keys is handed no input.
pub proof fn keys_are_pressed_for_three_methods(
    r: Result<ToolCommand, String>,
    tool: Tool,
    method: PasteMethod,
)
    requires
        presses(r, tool, method),
    ensures
        r is Ok <==> method is CtrlV || method is CtrlShiftV || method is ShiftInsert,
        r matches Err(message) ==> message@ == "Unsupported paste method"@,
        r matches Ok(command) ==> command.input is None && command.quiet == (tool is Dotool)
            && command.program@ == (if tool is Dotool {
            "sh"@
        } else {
            combo_program(tool)
        }),
{
}

} // verus!
