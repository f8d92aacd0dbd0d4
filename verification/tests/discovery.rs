//! Finding the focused field on each system.
use handy::binary64::Binary64;
use handy::focused_input::{
    continue_search, located, macos_focused_input, macos_takes_text, probe, rect_of, start_search,
    windows_bounds, windows_focused_input, windows_takes_text, ControlKind, FocusedInput,
    LinuxQuery, LinuxReply, Platform, ScreenRect,
};

fn number(x: f64) -> Binary64 {
    Binary64 { bits: x.to_bits() }
}

fn name(text: &str) -> Option<String> {
    Some(text.to_string())
}

#[test]
fn probe_says_what_is_missing() {
    assert_eq!(probe(Platform::MacOs, false), Ok(()));
    assert_eq!(probe(Platform::Windows, false), Ok(()));
    assert_eq!(probe(Platform::Linux, true), Ok(()));
    assert_eq!(
        probe(Platform::Linux, false),
        Err("AT-SPI accessibility is unavailable; enable the desktop accessibility bus".to_string())
    );
    assert_eq!(
        probe(Platform::Other, true),
        Err("Focused editable discovery is unsupported on this platform".to_string())
    );
}

#[test]
fn usable_bounds_are_larger_than_one() {
    assert!(rect_of(-5, 0, 2, 2).is_usable());
    assert!(!rect_of(0, 0, 1, 2).is_usable());
    assert!(!rect_of(0, 0, 2, 0).is_usable());
    assert!(!rect_of(0, 0, -3, 5).is_usable());
    let mut rect = rect_of(0, 0, 10, 10);
    rect.width = number(1.0000000000000002);
    assert!(rect.is_usable());
    rect.height = number(f64::INFINITY);
    assert!(!rect.is_usable());
    assert_eq!(located(9, rect), None);
    rect.height = number(2.0);
    assert_eq!(located(9, rect), Some(FocusedInput { identity: 9, bounds: rect }));
}

#[test]
fn macos_fields_take_text_and_hide_nothing() {
    for role in ["AXTextField", "AXTextArea", "AXComboBox", "AXSearchField"] {
        assert!(macos_takes_text(&name(role), &None, true));
        assert!(macos_takes_text(&name(role), &name("AXStandard"), true));
        assert!(!macos_takes_text(&name(role), &name("AXSecureTextField"), true));
        assert!(!macos_takes_text(&name(role), &None, false));
    }
    assert!(!macos_takes_text(&name("AXButton"), &None, true));
    assert!(!macos_takes_text(&None, &None, true));

    let position = Some((number(1.5), number(2.5)));
    let size = Some((number(30.0), number(20.0)));
    let found = macos_focused_input(&name("AXTextArea"), &None, true, position, size, 4);
    assert_eq!(
        found,
        Some(FocusedInput {
            identity: 4,
            bounds: ScreenRect {
                x: number(1.5),
                y: number(2.5),
                width: number(30.0),
                height: number(20.0),
            },
        })
    );
    assert_eq!(macos_focused_input(&name("AXTextArea"), &None, true, None, size, 4), None);
    assert_eq!(macos_focused_input(&name("AXTextArea"), &None, true, position, None, 4), None);
    assert_eq!(
        macos_focused_input(&name("AXTextArea"), &None, true, position, Some((number(1.0), number(9.0))), 4),
        None
    );
}

#[test]
fn windows_controls_that_take_text() {
    assert!(windows_takes_text(true, false, ControlKind::Edit, Some(false), false));
    assert!(windows_takes_text(true, false, ControlKind::Edit, Some(true), true));
    assert!(windows_takes_text(true, false, ControlKind::Edit, None, true));
    assert!(!windows_takes_text(true, false, ControlKind::Edit, Some(true), false));
    assert!(!windows_takes_text(true, false, ControlKind::Edit, None, false));
    assert!(windows_takes_text(true, false, ControlKind::Document, None, true));
    assert!(!windows_takes_text(true, false, ControlKind::Document, Some(false), false));
    assert!(!windows_takes_text(true, false, ControlKind::Other, Some(false), true));
    assert!(!windows_takes_text(false, false, ControlKind::Edit, Some(false), true));
    assert!(!windows_takes_text(true, true, ControlKind::Edit, Some(false), true));
    assert_eq!(windows_bounds(10, 20, 40, 60), rect_of(10, 20, 30, 40));
}

#[test]
fn windows_field_needs_every_answer() {
    let edges = Some((10, 20, 40, 60));
    let ask = |focusable, password, kind, edges, identity| {
        windows_focused_input(focusable, password, kind, Some(false), false, edges, identity)
    };
    let edit = Some(ControlKind::Edit);
    assert_eq!(
        ask(Some(true), Some(false), edit, edges, Some(8)),
        Some(FocusedInput { identity: 8, bounds: rect_of(10, 20, 30, 40) })
    );
    assert_eq!(ask(None, Some(false), edit, edges, Some(8)), None);
    assert_eq!(ask(Some(true), None, edit, edges, Some(8)), None);
    assert_eq!(ask(Some(true), Some(true), edit, edges, Some(8)), None);
    assert_eq!(ask(Some(true), Some(false), None, edges, Some(8)), None);
    assert_eq!(ask(Some(true), Some(false), edit, None, Some(8)), None);
    assert_eq!(ask(Some(true), Some(false), edit, edges, None), None);
    assert_eq!(ask(Some(true), Some(false), edit, Some((0, 0, 1, 9)), Some(8)), None);
    // The edges of a control that takes no text do not matter.
    let vast = Some((i32::MIN, 0, i32::MAX, 9));
    assert_eq!(ask(Some(true), Some(true), edit, vast, Some(8)), None);
    // A place at the corner of the screen has no sign.
    let corner = ask(Some(true), Some(false), edit, Some((0, 0, 5, 9)), Some(8));
    assert_eq!(corner.map(|field| (field.bounds.x.bits, field.bounds.y.bits)), Some((0, 0)));
}

#[test]
fn linux_search_goes_on_until_a_field_is_found() {
    let applications = 4;
    let step = |query, reply| continue_search(applications, query, reply);
    let query = start_search(applications);
    assert_eq!(query, LinuxQuery::Object { application: 0 });
    // The first application has no focused field.
    let query = step(query, LinuxReply::Object { found: false });
    assert_eq!(query, LinuxQuery::Object { application: 1 });
    // The second has a password field.
    let query = step(query, LinuxReply::Object { found: true });
    assert_eq!(query, LinuxQuery::Role { application: 1 });
    let query = step(query, LinuxReply::Role { password: Some(true) });
    assert_eq!(query, LinuxQuery::Object { application: 2 });
    // The third has a field of no size.
    let query = step(query, LinuxReply::Object { found: true });
    let query = step(query, LinuxReply::Role { password: Some(false) });
    assert_eq!(query, LinuxQuery::Extents { application: 2 });
    let query = step(query, LinuxReply::Extents { rect: Some((0, 0, 0, 10)) });
    assert_eq!(query, LinuxQuery::Object { application: 3 });
    // The fourth has the field.
    let query = step(query, LinuxReply::Object { found: true });
    let query = step(query, LinuxReply::Role { password: Some(false) });
    let query = step(query, LinuxReply::Extents { rect: Some((1, 2, 30, 10)) });
    let bounds = rect_of(1, 2, 30, 10);
    assert_eq!(query, LinuxQuery::Identity { application: 3, bounds });
    let query = step(query, LinuxReply::Identity { identity: 77 });
    assert_eq!(query, LinuxQuery::Done(Some(FocusedInput { identity: 77, bounds })));
}

#[test]
fn linux_search_ends_without_a_field() {
    assert_eq!(start_search(0), LinuxQuery::Done(None));
    let query = start_search(1);
    assert_eq!(continue_search(1, query, LinuxReply::Object { found: false }), LinuxQuery::Done(None));
    let role = LinuxQuery::Role { application: 0 };
    assert_eq!(continue_search(1, role, LinuxReply::Role { password: None }), LinuxQuery::Done(None));
    let extents = LinuxQuery::Extents { application: 0 };
    assert_eq!(continue_search(1, extents, LinuxReply::Extents { rect: None }), LinuxQuery::Done(None));
}
