//! The programs that type and press keys.
use handy::clipboard::tools::{
    combo_command, combo_result, combo_tool, get_available_typing_tools, name_of, script_command,
    script_result, type_command, typing_result, typing_tool, wl_copy_command, wl_copy_result,
    Launch, Session, Tool, ToolCommand, Tools,
};
use handy::settings::{PasteMethod, TypingTool};

const NO_TOOLS: Tools = Tools {
    wtype: false,
    kwtype: false,
    dotool: false,
    ydotool: false,
    xdotool: false,
};

const ALL_TOOLS: Tools = Tools {
    wtype: true,
    kwtype: true,
    dotool: true,
    ydotool: true,
    xdotool: true,
};

const X11: Session = Session {
    wayland: false,
    kde_wayland: false,
};

const WAYLAND: Session = Session {
    wayland: true,
    kde_wayland: false,
};

const KDE: Session = Session {
    wayland: true,
    kde_wayland: true,
};

fn line(command: &ToolCommand) -> Vec<&str> {
    let mut line = vec![command.program.as_str()];
    line.extend(command.args.iter().map(|arg| arg.as_str()));
    line
}

fn exited(success: bool) -> Launch {
    Launch::Exited {
        success,
        code: Some(3),
        stdout: " out\n".to_string(),
        stderr: " err\n".to_string(),
    }
}

#[test]
fn auto_is_always_available() {
    assert_eq!(get_available_typing_tools(NO_TOOLS), ["auto"]);
    assert_eq!(
        get_available_typing_tools(ALL_TOOLS),
        ["auto", "wtype", "kwtype", "dotool", "ydotool", "xdotool"]
    );
    let some = Tools {
        dotool: true,
        xdotool: true,
        ..NO_TOOLS
    };
    assert_eq!(get_available_typing_tools(some), ["auto", "dotool", "xdotool"]);
}

#[test]
fn combos_are_pressed_by_what_works_there() {
    assert_eq!(combo_tool(WAYLAND, ALL_TOOLS), Some(Tool::Wtype));
    assert_eq!(combo_tool(KDE, ALL_TOOLS), Some(Tool::Dotool));
    assert_eq!(combo_tool(X11, ALL_TOOLS), Some(Tool::Xdotool));
    let only_ydotool = Tools {
        ydotool: true,
        ..NO_TOOLS
    };
    for session in [X11, WAYLAND, KDE] {
        assert_eq!(combo_tool(session, only_ydotool), Some(Tool::Ydotool));
        assert_eq!(combo_tool(session, NO_TOOLS), None);
    }
    let wayland_only = Tools {
        wtype: true,
        dotool: true,
        ..NO_TOOLS
    };
    assert_eq!(combo_tool(X11, wayland_only), None);
    let x11_only = Tools {
        xdotool: true,
        ..NO_TOOLS
    };
    assert_eq!(combo_tool(WAYLAND, x11_only), None);
}

#[test]
fn typing_prefers_kwtype_on_kde() {
    let auto = |session, tools| typing_tool(session, tools, TypingTool::Auto);
    assert_eq!(auto(KDE, ALL_TOOLS), Ok(Some(Tool::Kwtype)));
    assert_eq!(auto(WAYLAND, ALL_TOOLS), Ok(Some(Tool::Wtype)));
    assert_eq!(auto(X11, ALL_TOOLS), Ok(Some(Tool::Xdotool)));
    let only_kwtype = Tools {
        kwtype: true,
        ..NO_TOOLS
    };
    assert_eq!(auto(WAYLAND, only_kwtype), Ok(None));
    assert_eq!(auto(X11, NO_TOOLS), Ok(None));
}

#[test]
fn chosen_tool_is_the_only_one_tried() {
    for (choice, tool, title) in [
        (TypingTool::Wtype, Tool::Wtype, "Wtype"),
        (TypingTool::Kwtype, Tool::Kwtype, "Kwtype"),
        (TypingTool::Dotool, Tool::Dotool, "Dotool"),
        (TypingTool::Ydotool, Tool::Ydotool, "Ydotool"),
        (TypingTool::Xdotool, Tool::Xdotool, "Xdotool"),
    ] {
        for session in [X11, WAYLAND, KDE] {
            assert_eq!(typing_tool(session, ALL_TOOLS, choice), Ok(Some(tool)));
            assert_eq!(
                typing_tool(session, NO_TOOLS, choice),
                Err(format!("Typing tool {title} is not available on this system"))
            );
        }
    }
}

#[test]
fn typing_commands_guard_the_text() {
    assert_eq!(line(&type_command(Tool::Wtype, "-x")), ["wtype", "--", "-x"]);
    assert_eq!(line(&type_command(Tool::Kwtype, "-x")), ["kwtype", "--", "-x"]);
    assert_eq!(line(&type_command(Tool::Ydotool, "-x")), ["ydotool", "type", "--", "-x"]);
    assert_eq!(
        line(&type_command(Tool::Xdotool, "-x")),
        ["xdotool", "type", "--clearmodifiers", "--", "-x"]
    );
    let dotool = type_command(Tool::Dotool, "hello");
    assert_eq!(line(&dotool), ["dotool"]);
    assert_eq!(dotool.input, Some("type hello\n".to_string()));
    assert_eq!(type_command(Tool::Wtype, "x").input, None);
}

#[test]
fn combo_commands_press_and_release() {
    let command = |tool, method| {
        combo_command(tool, method).map(|command| {
            line(&command)
                .iter()
                .map(|part| part.to_string())
                .collect::<Vec<String>>()
        })
    };
    let ok = |parts: &[&str]| Ok(parts.iter().map(|part| part.to_string()).collect());
    let (ctrl_v, shift_insert, ctrl_shift_v) =
        (PasteMethod::CtrlV, PasteMethod::ShiftInsert, PasteMethod::CtrlShiftV);
    assert_eq!(command(Tool::Wtype, ctrl_v), ok(&["wtype", "-M", "ctrl", "-k", "v"]));
    assert_eq!(command(Tool::Wtype, shift_insert), ok(&["wtype", "-M", "shift", "-k", "Insert"]));
    assert_eq!(
        command(Tool::Wtype, ctrl_shift_v),
        ok(&["wtype", "-M", "ctrl", "-M", "shift", "-k", "v"])
    );
    assert_eq!(command(Tool::Dotool, ctrl_v), ok(&["sh", "-c", "echo key ctrl+v | dotool"]));
    assert_eq!(
        command(Tool::Dotool, shift_insert),
        ok(&["sh", "-c", "echo key shift+insert | dotool"])
    );
    assert_eq!(
        command(Tool::Dotool, ctrl_shift_v),
        ok(&["sh", "-c", "echo key ctrl+shift+v | dotool"])
    );
    assert_eq!(
        command(Tool::Ydotool, ctrl_v),
        ok(&["ydotool", "key", "29:1", "47:1", "47:0", "29:0"])
    );
    assert_eq!(
        command(Tool::Ydotool, shift_insert),
        ok(&["ydotool", "key", "42:1", "110:1", "110:0", "42:0"])
    );
    assert_eq!(
        command(Tool::Ydotool, ctrl_shift_v),
        ok(&["ydotool", "key", "29:1", "42:1", "47:1", "47:0", "42:0", "29:0"])
    );
    assert_eq!(
        command(Tool::Xdotool, ctrl_v),
        ok(&["xdotool", "key", "--clearmodifiers", "ctrl+v"])
    );
    assert_eq!(
        command(Tool::Xdotool, shift_insert),
        ok(&["xdotool", "key", "--clearmodifiers", "shift+Insert"])
    );
    assert_eq!(
        command(Tool::Xdotool, ctrl_shift_v),
        ok(&["xdotool", "key", "--clearmodifiers", "ctrl+shift+v"])
    );
    for method in [PasteMethod::Direct, PasteMethod::Nothing, PasteMethod::ExternalScript] {
        assert_eq!(command(Tool::Xdotool, method), Err("Unsupported paste method".to_string()));
    }
}

#[test]
fn tool_failures_say_why() {
    assert_eq!(typing_result(Tool::Wtype, exited(true)), Ok(()));
    assert_eq!(
        typing_result(Tool::Wtype, exited(false)),
        Err("wtype failed:  err\n".to_string())
    );
    assert_eq!(
        typing_result(Tool::Xdotool, Launch::NotStarted("gone".to_string())),
        Err("Failed to execute xdotool: gone".to_string())
    );
    assert_eq!(
        typing_result(Tool::Dotool, Launch::NotStarted("gone".to_string())),
        Err("Failed to spawn dotool: gone".to_string())
    );
    assert_eq!(
        typing_result(Tool::Dotool, Launch::NotFed("full".to_string())),
        Err("Failed to write to dotool stdin: full".to_string())
    );
    assert_eq!(
        typing_result(Tool::Dotool, Launch::NotAwaited("lost".to_string())),
        Err("Failed to wait for dotool: lost".to_string())
    );
    assert_eq!(combo_result(Tool::Dotool, exited(true)), Ok(()));
    assert_eq!(combo_result(Tool::Dotool, exited(false)), Err("dotool failed".to_string()));
    assert_eq!(
        combo_result(Tool::Dotool, Launch::NotStarted("gone".to_string())),
        Err("Failed to execute dotool: gone".to_string())
    );
    assert_eq!(
        combo_result(Tool::Ydotool, exited(false)),
        Err("ydotool failed:  err\n".to_string())
    );
}

#[test]
fn clipboard_tool_and_script() {
    assert_eq!(line(&wl_copy_command("text")), ["wl-copy", "--", "text"]);
    assert!(wl_copy_command("text").quiet);
    assert_eq!(wl_copy_result(exited(true)), Ok(()));
    assert_eq!(wl_copy_result(exited(false)), Err("wl-copy failed".to_string()));
    assert_eq!(
        wl_copy_result(Launch::NotStarted("gone".to_string())),
        Err("Failed to execute wl-copy: gone".to_string())
    );
    assert_eq!(line(&script_command("text", "/bin/say")), ["/bin/say", "text"]);
    assert_eq!(script_result("/bin/say", exited(true)), Ok(()));
    assert_eq!(
        script_result("/bin/say", exited(false)),
        Err("External script '/bin/say' failed with exit code Some(3). stderr: err, stdout: out".to_string())
    );
    let killed = Launch::Exited {
        success: false,
        code: None,
        stdout: String::new(),
        stderr: String::new(),
    };
    assert_eq!(
        script_result("s", killed),
        Err("External script 's' failed with exit code None. stderr: , stdout: ".to_string())
    );
    assert_eq!(
        script_result("s", Launch::NotStarted("gone".to_string())),
        Err("Failed to execute external script 's': gone".to_string())
    );
}

#[test]
fn programs_go_by_their_names() {
    let names = [Tool::Wtype, Tool::Kwtype, Tool::Dotool, Tool::Ydotool, Tool::Xdotool].map(name_of);
    assert_eq!(names, ["wtype", "kwtype", "dotool", "ydotool", "xdotool"]);
}
