//! What holds of finding the focused field.
use crate::binary64::{one_is_one, Binary64};
use crate::focused_input::{
    follows, hindrance, macos_editable, macos_found, search_from, windows_editable, windows_found,
    ControlKind, FocusedInput, LinuxQuery, LinuxReply, Platform, ScreenRect,
};
use vstd::arithmetic::power2::pow2;
use vstd::prelude::*;

verus! {

/// A rectangle can be pointed at exactly where all of its numbers are finite and it is
/// more than one unit wide and high.
pub proof fn usable_is_finite_and_large(rect: ScreenRect)
    ensures
        rect.usable() <==> rect.x.finite() && rect.y.finite() && rect.width.finite()
            && rect.height.finite() && rect.width.value() > pow2(1074) && rect.height.value()
            > pow2(1074),
{
    one_is_one();
}

/// Controls are found on macOS and Windows always, on Linux with the accessibility bus,
/// and nowhere else.
pub proof fn controls_are_found_where_they_can_be(bus: bool)
    ensures
        hindrance(Platform::MacOs, bus) is None,
        hindrance(Platform::Windows, bus) is None,
        hindrance(Platform::Linux, true) is None,
        hindrance(Platform::Linux, false) is Some,
        hindrance(Platform::Other, bus) is Some,
{
}

/// Equality of places is that of their numbers: a place equals itself unless one of its
/// numbers is none, and it goes both ways.
pub proof fn equality_of_places(a: ScreenRect, b: ScreenRect)
    ensures
        a.same(b) == b.same(a),
        a.same(a) <==> !a.x.nan() && !a.y.nan() && !a.width.nan() && !a.height.nan(),
        a.same(b) ==> a.x.value() == b.x.value() && a.y.value() == b.y.value() && a.width.value()
            == b.width.value() && a.height.value() == b.height.value(),
{
}

/// No password field and no control without the focus takes text on Windows, nor does
/// a control that is neither an editor nor a document.
pub proof fn windows_fields_are_no_secrets(
    focusable: bool,
    password: bool,
    kind: ControlKind,
    read_only: Option<bool>,
    text_edit: bool,
)
    ensures
        windows_editable(focusable, password, kind, read_only, text_edit) ==> focusable
            && !password && kind != ControlKind::Other,
        focusable && !password && kind != ControlKind::Other && text_edit ==> windows_editable(
            focusable,
            password,
            kind,
            read_only,
            text_edit,
        ),
        focusable && !password && !text_edit ==> windows_editable(
            focusable,
            password,
            kind,
            read_only,
            text_edit,
        ) == (kind == ControlKind::Edit && read_only == Some(false)),
{
}

/// On macOS a control takes text exactly where its value can be set, it is no secure
/// field, and it has one of the roles for text.
pub proof fn macos_fields_are_no_secrets(
    role: Option<Seq<char>>,
    subrole: Option<Seq<char>>,
    settable: bool,
)
    ensures
        !macos_editable(role, Some("AXSecureTextField"@), settable),
        !macos_editable(role, subrole, false),
        !macos_editable(None, subrole, settable),
        subrole != Some("AXSecureTextField"@) ==> {
            &&& macos_editable(Some("AXTextField"@), subrole, true)
            &&& macos_editable(Some("AXTextArea"@), subrole, true)
            &&& macos_editable(Some("AXComboBox"@), subrole, true)
            &&& macos_editable(Some("AXSearchField"@), subrole, true)
        },
        macos_editable(role, subrole, settable) ==> (role == Some("AXTextField"@) || role == Some(
            "AXTextArea"@,
        ) || role == Some("AXComboBox"@) || role == Some("AXSearchField"@)),
{
}

/// What is found on macOS is the control itself, at its place and in its size; and a
/// control is found wherever it takes text and can be pointed at.
pub proof fn macos_field_is_found_in_its_place(
    role: Option<Seq<char>>,
    subrole: Option<Seq<char>>,
    settable: bool,
    position: Option<(Binary64, Binary64)>,
    size: Option<(Binary64, Binary64)>,
    identity: u64,
)
    ensures
        macos_found(role, subrole, settable, position, size, identity) matches Some(field) ==> {
            &&& field.identity == identity
            &&& position == Some((field.bounds.x, field.bounds.y))
            &&& size == Some((field.bounds.width, field.bounds.height))
            &&& macos_editable(role, subrole, settable)
            &&& field.bounds.usable()
        },
        macos_found(role, subrole, settable, None, size, identity) is None,
        macos_found(role, subrole, settable, position, None, identity) is None,
        forall|rect: ScreenRect|
            rect.usable() && macos_editable(role, subrole, settable)
                ==> #[trigger] macos_found(
                role,
                subrole,
                settable,
                Some((rect.x, rect.y)),
                Some((rect.width, rect.height)),
                identity,
            ) == Some(FocusedInput { identity, bounds: rect }),
{
}

/// What is found on Windows is the control itself, its left and upper edge in their
/// place, its right and lower edge as far from them as it is wide and high. It is found
/// exactly where it takes text, is known, and is more than one unit wide and high.
pub proof fn windows_field_is_found_in_its_place(
    editable: bool,
    edges: (i32, i32, i32, i32),
    identity: u64,
    field: Option<FocusedInput>,
)
    requires
        windows_found(editable, Some(edges), Some(identity), field),
    ensures
        field is Some <==> editable && edges.2 - edges.0 >= 2 && edges.3 - edges.1 >= 2,
        field matches Some(found) ==> {
            &&& found.identity == identity
            &&& stands_for(found.bounds.x, edges.0)
            &&& stands_for(found.bounds.y, edges.1)
            &&& found.bounds.x.value() + found.bounds.width.value() == edges.2 * pow2(1074)
            &&& found.bounds.y.value() + found.bounds.height.value() == edges.3 * pow2(1074)
        },
{
    let p: int = pow2(1074) as int;
    let (left, top, right, bottom) = edges;
    assert(left * p + (right - left) * p == right * p) by (nonlinear_arith);
    assert(top * p + (bottom - top) * p == bottom * p) by (nonlinear_arith);
}

/// A control on Windows that does not say where it stands or what it is, is not found.
pub proof fn unknown_windows_field_is_not_found(
    editable: bool,
    edges: Option<(i32, i32, i32, i32)>,
    identity: Option<u64>,
    field: Option<FocusedInput>,
)
    requires
        windows_found(editable, edges, identity, field),
    ensures
        edges is None || identity is None ==> field is None,
{
}

/// The search among `applications` is at the one at `application`, or over where there
/// is none.
pub open spec fn asks_about(query: LinuxQuery, applications: usize, application: int) -> bool {
    if application < applications {
        query matches LinuxQuery::Object { application: a } && a == application
    } else {
        query == LinuxQuery::Done(None)
    }
}

/// The number is the whole number `x`.
pub open spec fn stands_for(number: Binary64, x: i32) -> bool {
    number.finite() && number.value() == x * pow2(1074) && number.negative() == (x < 0)
}

/// The search starts with the first application.
pub proof fn search_starts_with_the_first(applications: usize)
    ensures
        asks_about(search_from(applications, 0), applications, 0),
{
}

/// An application is asked for its focused object, then whether that is a password
/// field, then where it stands, then what tells it apart; the first answer that rules
/// it out sends the search on to the next application, and the last one ends it with
/// the field that was described.
pub proof fn search_asks_in_turn(
    applications: usize,
    application: usize,
    found: bool,
    password: Option<bool>,
    rect: Option<(i32, i32, i32, i32)>,
    identity: u64,
    bounds: ScreenRect,
    next: LinuxQuery,
)
    ensures
        follows(
            applications,
            LinuxQuery::Object { application },
            LinuxReply::Object { found },
            next,
        ) ==> (if found {
            next == LinuxQuery::Role { application }
        } else {
            asks_about(next, applications, application + 1)
        }),
        follows(
            applications,
            LinuxQuery::Role { application },
            LinuxReply::Role { password },
            next,
        ) ==> (if password == Some(false) {
            next == LinuxQuery::Extents { application }
        } else {
            asks_about(next, applications, application + 1)
        }),
        follows(
            applications,
            LinuxQuery::Extents { application },
            LinuxReply::Extents { rect },
            next,
        ) ==> (match rect {
            Some((x, y, width, height)) if width > 1 && height > 1 => {
                &&& next matches LinuxQuery::Identity { application: a, bounds: b }
                &&& a == application
                &&& stands_for(b.x, x) && stands_for(b.y, y)
                &&& stands_for(b.width, width) && stands_for(b.height, height)
            },
            _ => asks_about(next, applications, application + 1),
        }),
        follows(
            applications,
            LinuxQuery::Identity { application, bounds },
            LinuxReply::Identity { identity },
            next,
        ) ==> next == LinuxQuery::Done(Some(FocusedInput { identity, bounds })),
{
}

} // verus!
