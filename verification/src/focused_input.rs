//! Which focused control counts as a text field, and where it stands.
//!
//! Only an opaque identity and the bounds of a control are ever looked at, never
//! its contents.
use crate::binary64::{of_i32, Binary64, ONE};
use crate::text::strings::same_text;
use vstd::arithmetic::power2::pow2;
use vstd::prelude::*;
use vstd::std_specs::cmp::PartialEqSpecImpl;

verus! {

/// A rectangle on the screen. Two are equal if their numbers are.
#[derive(Debug, Clone, Copy)]
pub struct ScreenRect {
    pub x: Binary64,
    pub y: Binary64,
    pub width: Binary64,
    pub height: Binary64,
}

impl PartialEq for ScreenRect {
    fn eq(&self, other: &Self) -> (r: bool) {
        self.x == other.x && self.y == other.y && self.width == other.width && self.height
            == other.height
    }
}

impl PartialEqSpecImpl for ScreenRect {
    open spec fn obeys_eq_spec() -> bool {
        true
    }

    open spec fn eq_spec(&self, other: &Self) -> bool {
        self.same(*other)
    }
}

impl ScreenRect {
    /// The rectangles have the same numbers, as doubles compare.
    pub open spec fn same(self, other: ScreenRect) -> bool {
        &&& self.x.same(other.x)
        &&& self.y.same(other.y)
        &&& self.width.same(other.width)
        &&& self.height.same(other.height)
    }

    /// The rectangle lies at a finite place and is more than one unit wide and high.
    pub open spec fn usable(self) -> bool {
        &&& self.x.finite()
        &&& self.y.finite()
        &&& self.width.finite()
        &&& self.height.finite()
        &&& (Binary64 { bits: ONE }).below(self.width)
        &&& (Binary64 { bits: ONE }).below(self.height)
    }

    /// Whether the rectangle can be pointed at.
    pub fn is_usable(self) -> (r: bool)
        ensures
            r == self.usable(),
    {
        let one: Binary64 = Binary64 { bits: ONE };
        self.x.is_finite() && self.y.is_finite() && self.width.is_finite()
            && self.height.is_finite() && one.lt(self.width) && one.lt(self.height)
    }
}

/// A focused text field. Two are equal if their identities and bounds are.
#[derive(Debug, Clone, Copy)]
pub struct FocusedInput {
    /// Tells one control from another.
    pub identity: u64,
    pub bounds: ScreenRect,
}

impl PartialEq for FocusedInput {
    fn eq(&self, other: &Self) -> (r: bool) {
        self.identity == other.identity && self.bounds == other.bounds
    }
}

impl PartialEqSpecImpl for FocusedInput {
    open spec fn obeys_eq_spec() -> bool {
        true
    }

    open spec fn eq_spec(&self, other: &Self) -> bool {
        self.identity == other.identity && self.bounds.same(other.bounds)
    }
}

/// The systems that controls can be found on.
#[derive(Debug, Clone, Copy, PartialEq, Eq, Structural)]
pub enum Platform {
    MacOs,
    Windows,
    Linux,
    Other,
}

/// What is said where the accessibility bus is missing.
pub const NO_ACCESSIBILITY_BUS: &'static str =
    "AT-SPI accessibility is unavailable; enable the desktop accessibility bus";

/// What is said where controls cannot be found at all.
pub const UNSUPPORTED_PLATFORM: &'static str =
    "Focused editable discovery is unsupported on this platform";

/// Why focused controls cannot be found, if they cannot.
pub open spec fn hindrance(platform: Platform, accessibility_bus: bool) -> Option<Seq<char>> {
    match platform {
        Platform::MacOs => None,
        Platform::Windows => None,
        Platform::Linux => if accessibility_bus {
            None
        } else {
            Some(NO_ACCESSIBILITY_BUS@)
        },
        Platform::Other => Some(UNSUPPORTED_PLATFORM@),
    }
}

/// Whether focused controls can be found: always on macOS and Windows, with the
/// accessibility bus on Linux, and nowhere else.
pub fn probe(platform: Platform, accessibility_bus: bool) -> (r: Result<(), String>)
    ensures
        r is Ok <==> (platform is MacOs || platform is Windows || (platform is Linux
            && accessibility_bus)),
        r matches Err(message) ==> message@ == (if platform is Linux {
            NO_ACCESSIBILITY_BUS@
        } else {
            UNSUPPORTED_PLATFORM@
        }),
        match hindrance(platform, accessibility_bus) {
            None => r is Ok,
            Some(text) => r matches Err(message) && message@ == text,
        },
{
    match platform {
        Platform::MacOs | Platform::Windows => Ok(()),
        Platform::Linux => {
            if accessibility_bus {
                Ok(())
            } else {
                Err(NO_ACCESSIBILITY_BUS.to_owned())
            }
        },
        Platform::Other => Err(UNSUPPORTED_PLATFORM.to_owned()),
    }
}

/// The field with the given identity and bounds, if it can be pointed at.
pub fn located(identity: u64, bounds: ScreenRect) -> (r: Option<FocusedInput>)
    ensures
        r == (if bounds.usable() {
            Some(FocusedInput { identity, bounds })
        } else {
            None
        }),
{
    if bounds.is_usable() {
        Some(FocusedInput { identity, bounds })
    } else {
        None
    }
}

/// The double that is the whole number `x`. Zero has no sign.
pub open spec fn whole(a: Binary64, x: int) -> bool {
    a.finite() && a.value() == x * pow2(1074) && a.negative() == (x < 0)
}

/// The rectangle `left`, `top`, `width`, `height` in whole units.
pub open spec fn whole_rect(r: ScreenRect, x: int, y: int, width: int, height: int) -> bool {
    whole(r.x, x) && whole(r.y, y) && whole(r.width, width) && whole(r.height, height)
}

/// The rectangle with the given whole place and size.
pub fn rect_of(x: i32, y: i32, width: i32, height: i32) -> (r: ScreenRect)
    ensures
        whole_rect(r, x as int, y as int, width as int, height as int),
        r.usable() <==> width > 1 && height > 1,
{
    let r: ScreenRect = ScreenRect {
        x: of_i32(x),
        y: of_i32(y),
        width: of_i32(width),
        height: of_i32(height),
    };
    proof {
        crate::binary64::one_is_one();
        lemma_above_one(r.width, width as int);
        lemma_above_one(r.height, height as int);
    }
    r
}

/// A whole number is above the double one exactly if it is above one.
proof fn lemma_above_one(a: Binary64, x: int)
    requires
        a.finite(),
        a.value() == x * pow2(1074),
        (Binary64 { bits: ONE }).value() == pow2(1074),
        (Binary64 { bits: ONE }).finite(),
    ensures
        (Binary64 { bits: ONE }).below(a) <==> x > 1,
{
    vstd::arithmetic::power2::lemma_pow2_pos(1074);
    assert(x > 1 <==> x * pow2(1074) > pow2(1074)) by (nonlinear_arith)
        requires
            pow2(1074) > 0,
    ;
}

/// The roles of controls that text is typed into.
pub open spec fn editable_role(role: Seq<char>) -> bool {
    role == "AXTextField"@ || role == "AXTextArea"@ || role == "AXComboBox"@ || role
        == "AXSearchField"@
}

/// What of an optional text is looked at.
pub open spec fn text_view(text: Option<String>) -> Option<Seq<char>> {
    match text {
        Some(t) => Some(t@),
        None => None,
    }
}

/// A control on macOS that takes text.
pub open spec fn macos_editable(
    role: Option<Seq<char>>,
    subrole: Option<Seq<char>>,
    settable: bool,
) -> bool {
    role is Some && editable_role(role->0) && subrole != Some("AXSecureTextField"@) && settable
}

/// Whether a control on macOS takes text: it has a role for that, is no secure field,
/// and its value can be set.
pub fn macos_takes_text(role: &Option<String>, subrole: &Option<String>, settable: bool) -> (r:
    bool)
    ensures
        r == ((role matches Some(name) && editable_role(name@)) && text_view(*subrole) != Some(
            "AXSecureTextField"@,
        ) && settable),
        r == macos_editable(text_view(*role), text_view(*subrole), settable),
{
    let editable: bool = match role {
        Some(name) => {
            let name: &str = name.as_str();
            same_text(name, "AXTextField") || same_text(name, "AXTextArea") || same_text(
                name,
                "AXComboBox",
            ) || same_text(name, "AXSearchField")
        },
        None => false,
    };
    let secure: bool = match subrole {
        Some(name) => same_text(name.as_str(), "AXSecureTextField"),
        None => false,
    };
    editable && !secure && settable
}

/// The field on macOS, if it is one that takes text and it can be pointed at.
pub open spec fn macos_found(
    role: Option<Seq<char>>,
    subrole: Option<Seq<char>>,
    settable: bool,
    position: Option<(Binary64, Binary64)>,
    size: Option<(Binary64, Binary64)>,
    identity: u64,
) -> Option<FocusedInput> {
    match (position, size) {
        (Some((x, y)), Some((width, height))) => {
            let bounds = ScreenRect { x, y, width, height };
            if macos_editable(role, subrole, settable) && bounds.usable() {
                Some(FocusedInput { identity, bounds })
            } else {
                None
            }
        },
        _ => None,
    }
}

/// The focused text field on macOS, from what the focused control says of itself.
pub fn macos_focused_input(
    role: &Option<String>,
    subrole: &Option<String>,
    settable: bool,
    position: Option<(Binary64, Binary64)>,
    size: Option<(Binary64, Binary64)>,
    identity: u64,
) -> (r: Option<FocusedInput>)
    ensures
        r == (match (position, size) {
            (Some((x, y)), Some((width, height))) if (role matches Some(name) && editable_role(
                name@,
            )) && text_view(*subrole) != Some("AXSecureTextField"@) && settable && (ScreenRect {
                x,
                y,
                width,
                height,
            }).usable() => Some(
                FocusedInput { identity, bounds: ScreenRect { x, y, width, height } },
            ),
            _ => None,
        }),
        match (position, size) {
            (Some((x, y)), Some((width, height))) => r is Some <==> macos_editable(
                text_view(*role),
                text_view(*subrole),
                settable,
            ) && (ScreenRect { x, y, width, height }).usable(),
            _ => r is None,
        },
        r == macos_found(text_view(*role), text_view(*subrole), settable, position, size, identity),
{
    if !macos_takes_text(role, subrole, settable) {
        return None;
    }
    match (position, size) {
        (Some((x, y)), Some((width, height))) => located(
            identity,
            ScreenRect { x, y, width, height },
        ),
        _ => None,
    }
}

/// The kinds of controls on Windows that are told apart.
#[derive(Debug, Clone, Copy, PartialEq, Eq, Structural)]
pub enum ControlKind {
    Edit,
    Document,
    Other,
}

/// A control on Windows that takes text: it takes the keyboard focus, is no password
/// field, and is a line editor that is writable or supports text editing, or a
/// document that supports text editing.
pub open spec fn windows_editable(
    focusable: bool,
    password: bool,
    kind: ControlKind,
    read_only: Option<bool>,
    text_edit: bool,
) -> bool {
    &&& focusable
    &&& !password
    &&& match kind {
        ControlKind::Edit => read_only == Some(false) || text_edit,
        ControlKind::Document => text_edit,
        ControlKind::Other => false,
    }
}

/// Whether a control on Windows takes text.
pub fn windows_takes_text(
    focusable: bool,
    password: bool,
    kind: ControlKind,
    read_only: Option<bool>,
    text_edit: bool,
) -> (r: bool)
    ensures
        r == windows_editable(focusable, password, kind, read_only, text_edit),
{
    if !focusable || password {
        return false;
    }
    let writable: bool = match read_only {
        Some(read_only) => !read_only,
        None => false,
    };
    match kind {
        ControlKind::Edit => writable || text_edit,
        ControlKind::Document => text_edit,
        ControlKind::Other => false,
    }
}

/// The place of a control on Windows from its edges.
pub fn windows_bounds(left: i32, top: i32, right: i32, bottom: i32) -> (r: ScreenRect)
    requires
        i32::MIN <= right - left <= i32::MAX,
        i32::MIN <= bottom - top <= i32::MAX,
    ensures
        whole_rect(r, left as int, top as int, right - left, bottom - top),
        r.usable() <==> right - left > 1 && bottom - top > 1,
{
    rect_of(left, top, right - left, bottom - top)
}

/// `field` is what is found on Windows of a control that stands between `edges`, where
/// it is `editable` or not.
pub open spec fn windows_found(
    editable: bool,
    edges: Option<(i32, i32, i32, i32)>,
    identity: Option<u64>,
    field: Option<FocusedInput>,
) -> bool {
    match (edges, identity) {
        (Some((left, top, right, bottom)), Some(id)) if editable && right - left > 1 && bottom - top
            > 1 => {
            &&& field matches Some(found)
            &&& found.identity == id
            &&& whole_rect(found.bounds, left as int, top as int, right - left, bottom - top)
        },
        _ => field is None,
    }
}

/// The focused text field on Windows, from what the focused control says of itself.
/// Nothing is found where one of the questions goes unanswered.
pub fn windows_focused_input(
    focusable: Option<bool>,
    password: Option<bool>,
    kind: Option<ControlKind>,
    read_only: Option<bool>,
    text_edit: bool,
    edges: Option<(i32, i32, i32, i32)>,
    identity: Option<u64>,
) -> (r: Option<FocusedInput>)
    requires
        focusable is Some && password is Some && kind is Some && windows_editable(
            focusable->0,
            password->0,
            kind->0,
            read_only,
            text_edit,
        ) ==> (edges matches Some((left, top, right, bottom)) ==> {
            &&& i32::MIN <= right - left <= i32::MAX
            &&& i32::MIN <= bottom - top <= i32::MAX
        }),
    ensures
        r is Some <==> {
            &&& focusable is Some && password is Some && kind is Some && identity is Some
            &&& windows_editable(focusable->0, password->0, kind->0, read_only, text_edit)
            &&& edges matches Some((left, top, right, bottom)) && right - left > 1 && bottom - top
                > 1
        },
        r matches Some(field) ==> Some(field.identity) == identity && (edges matches Some(
            (left, top, right, bottom),
        ) && whole_rect(field.bounds, left as int, top as int, right - left, bottom - top)),
        windows_found(
            focusable is Some && password is Some && kind is Some && windows_editable(
                focusable->0,
                password->0,
                kind->0,
                read_only,
                text_edit,
            ),
            edges,
            identity,
            r,
        ),
{
    match (focusable, password, kind) {
        (Some(focusable), Some(password), Some(kind)) => {
            if !windows_takes_text(focusable, password, kind, read_only, text_edit) {
                return None;
            }
        },
        _ => {
            return None;
        },
    }
    match (edges, identity) {
        (Some((left, top, right, bottom)), Some(identity)) => located(
            identity,
            windows_bounds(left, top, right, bottom),
        ),
        _ => None,
    }
}

/// What is to be asked next in the search for a focused text field on Linux, where
/// applications are asked one after the other.
#[derive(Debug, Clone, Copy, PartialEq)]
pub enum LinuxQuery {
    /// Whether the application has a focused, editable object.
    Object { application: usize },
    /// Whether that object is a password field.
    Role { application: usize },
    /// Where the object stands on the screen.
    Extents { application: usize },
    /// What tells the object from others.
    Identity { application: usize, bounds: ScreenRect },
    /// Nothing: the search is over.
    Done(Option<FocusedInput>),
}

/// An answer in the search. Where a question failed, it holds nothing.
#[derive(Debug, Clone, Copy, PartialEq, Eq)]
pub enum LinuxReply {
    Object { found: bool },
    Role { password: Option<bool> },
    Extents { rect: Option<(i32, i32, i32, i32)> },
    Identity { identity: u64 },
}

/// The search among `applications` goes on with the one at `application`, if any.
pub open spec fn search_from(applications: usize, application: int) -> LinuxQuery {
    if 0 <= application < applications {
        LinuxQuery::Object { application: application as usize }
    } else {
        LinuxQuery::Done(None)
    }
}

/// The answer is one to the question.
pub open spec fn replies_to(reply: LinuxReply, query: LinuxQuery) -> bool {
    match query {
        LinuxQuery::Object { .. } => reply is Object,
        LinuxQuery::Role { .. } => reply is Role,
        LinuxQuery::Extents { .. } => reply is Extents,
        LinuxQuery::Identity { .. } => reply is Identity,
        LinuxQuery::Done(_) => false,
    }
}

/// `next` follows on `query` and `reply` in a search among `applications`.
pub open spec fn follows(
    applications: usize,
    query: LinuxQuery,
    reply: LinuxReply,
    next: LinuxQuery,
) -> bool {
    match (query, reply) {
        (LinuxQuery::Object { application }, LinuxReply::Object { found }) => next == (if found {
            LinuxQuery::Role { application }
        } else {
            search_from(applications, application + 1)
        }),
        (LinuxQuery::Role { application }, LinuxReply::Role { password }) => next == (if password
            == Some(false) {
            LinuxQuery::Extents { application }
        } else {
            search_from(applications, application + 1)
        }),
        (LinuxQuery::Extents { application }, LinuxReply::Extents { rect }) => match rect {
            Some((x, y, width, height)) if width > 1 && height > 1 => {
                next matches LinuxQuery::Identity { application: same, bounds } && same
                    == application && whole_rect(
                    bounds,
                    x as int,
                    y as int,
                    width as int,
                    height as int,
                ) && bounds.usable()
            },
            _ => next == search_from(applications, application + 1),
        },
        (LinuxQuery::Identity { bounds, .. }, LinuxReply::Identity { identity }) => next
            == LinuxQuery::Done(Some(FocusedInput { identity, bounds })),
        _ => false,
    }
}

/// The first question of a search among `applications`.
pub fn start_search(applications: usize) -> (r: LinuxQuery)
    ensures
        r == search_from(applications, 0),
{
    if applications == 0 {
        LinuxQuery::Done(None)
    } else {
        LinuxQuery::Object { application: 0 }
    }
}

/// The question about the application after the given one.
fn next_application(applications: usize, application: usize) -> (r: LinuxQuery)
    ensures
        r == search_from(applications, application + 1),
{
    if application < applications && application + 1 < applications {
        LinuxQuery::Object { application: application + 1 }
    } else {
        LinuxQuery::Done(None)
    }
}

/// The question that follows on an answer. Whatever fails, and every password field,
/// sends the search on to the next application.
pub fn continue_search(applications: usize, query: LinuxQuery, reply: LinuxReply) -> (r:
    LinuxQuery)
    requires
        replies_to(reply, query),
    ensures
        follows(applications, query, reply, r),
{
    match (query, reply) {
        (LinuxQuery::Object { application }, LinuxReply::Object { found }) => {
            if found {
                LinuxQuery::Role { application }
            } else {
                next_application(applications, application)
            }
        },
        (LinuxQuery::Role { application }, LinuxReply::Role { password }) => match password {
            Some(password) if !password => LinuxQuery::Extents { application },
            _ => next_application(applications, application),
        },
        (LinuxQuery::Extents { application }, LinuxReply::Extents { rect }) => match rect {
            Some((x, y, width, height)) => {
                let bounds: ScreenRect = rect_of(x, y, width, height);
                if bounds.is_usable() {
                    LinuxQuery::Identity { application, bounds }
                } else {
                    next_application(applications, application)
                }
            },
            None => next_application(applications, application),
        },
        (LinuxQuery::Identity { bounds, .. }, LinuxReply::Identity { identity }) => {
            LinuxQuery::Done(Some(FocusedInput { identity, bounds }))
        },
        _ => query,
    }
}

/// What an application has to say of itself in the search.
pub open spec fn has_field(
    found: bool,
    password: Option<bool>,
    rect: Option<(i32, i32, i32, i32)>,
) -> bool {
    found && password == Some(false) && (rect matches Some((_, _, width, height)) && width > 1
        && height > 1)
}

/// The questions about one application and their answers end in its field where it
/// has one that takes text, is no password field and can be pointed at, and in the
/// next application otherwise.
pub proof fn application_is_searched(
    applications: usize,
    application: usize,
    found: bool,
    password: Option<bool>,
    rect: Option<(i32, i32, i32, i32)>,
    identity: u64,
    role: LinuxQuery,
    extents: LinuxQuery,
    named: LinuxQuery,
    end: LinuxQuery,
)
    requires
        follows(
            applications,
            LinuxQuery::Object { application },
            LinuxReply::Object { found },
            role,
        ),
        if role is Role {
            follows(applications, role, LinuxReply::Role { password }, extents)
        } else {
            extents == role
        },
        if extents is Extents {
            follows(applications, extents, LinuxReply::Extents { rect }, named)
        } else {
            named == extents
        },
        if named is Identity {
            follows(applications, named, LinuxReply::Identity { identity }, end)
        } else {
            end == named
        },
    ensures
        has_field(found, password, rect) ==> (end matches LinuxQuery::Done(Some(field))
            && field.identity == identity && field.bounds.usable()),
        !has_field(found, password, rect) ==> end == search_from(applications, application + 1),
{
}

/// Whatever is found can be pointed at.
pub proof fn found_field_is_usable(
    applications: usize,
    query: LinuxQuery,
    reply: LinuxReply,
    next: LinuxQuery,
)
    requires
        follows(applications, query, reply, next),
        query matches LinuxQuery::Identity { bounds, .. } ==> bounds.usable(),
    ensures
        next matches LinuxQuery::Identity { bounds, .. } ==> bounds.usable(),
        next matches LinuxQuery::Done(Some(field)) ==> field.bounds.usable(),
{
}

} // verus!
