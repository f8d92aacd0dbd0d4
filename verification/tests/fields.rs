//! Where focused fields stand.
use handy::binary64::Binary64;
use handy::focused_input::{rect_of, FocusedInput, ScreenRect};
use handy::typing_monitor::{KeyStep, MachineAction};

/// The double `x`.
fn number(x: f64) -> Binary64 {
    Binary64 { bits: x.to_bits() }
}

#[test]
fn rejects_empty_or_non_finite_bounds() {
    assert!(!ScreenRect {
        x: number(0.0),
        y: number(0.0),
        width: number(1.0),
        height: number(20.0),
    }
    .is_usable());
    assert!(!ScreenRect {
        x: number(f64::NAN),
        y: number(0.0),
        width: number(100.0),
        height: number(20.0),
    }
    .is_usable());
}

#[test]
fn accepts_normal_screen_bounds() {
    assert!(ScreenRect {
        x: number(-1200.0),
        y: number(64.0),
        width: number(420.0),
        height: number(32.0),
    }
    .is_usable());
}

#[test]
fn places_are_equal_by_value() {
    let plain = rect_of(0, 64, 420, 32);
    let signed = ScreenRect { x: number(-0.0), ..plain };
    let nowhere = ScreenRect { x: number(f64::NAN), ..plain };
    let elsewhere = ScreenRect { height: number(33.0), ..plain };
    assert_eq!(plain.x.bits, 0);
    assert!(plain == signed);
    assert!(nowhere != nowhere);
    assert!(plain != elsewhere);
    let field = |identity, bounds| FocusedInput { identity, bounds };
    assert!(field(1, plain) == field(1, signed));
    assert!(field(1, plain) != field(2, plain));
    assert!(field(1, nowhere) != field(1, nowhere));
}

#[test]
fn actions_are_equal_by_value() {
    let plain = rect_of(0, 64, 420, 32);
    let signed = ScreenRect { x: number(-0.0), ..plain };
    let nowhere = ScreenRect { x: number(f64::NAN), ..plain };
    assert!(MachineAction::Show(plain) == MachineAction::Show(signed));
    assert!(MachineAction::Show(plain) != MachineAction::Move(plain));
    assert!(MachineAction::Move(nowhere) != MachineAction::Move(nowhere));
    assert!(MachineAction::Hide == MachineAction::Hide);
    assert!(MachineAction::Hide != MachineAction::Nothing);
    assert!(KeyStep::Act(MachineAction::Show(plain)) == KeyStep::Act(MachineAction::Show(signed)));
}
