//! What holds of pasting through the clipboard.
use super::delivery::{
    chord_of, consumer_timeout, desktop_on_linux, fits, first_phase, planned, proceeded, publication, readable_after,
    rendered, watching, DeliveryEvent, DeliveryPhase, DeliveryPlan, Desktop, InjectOutcome,
    PasteChord, Verdict, WaitStep, WindowsPasteOutcome,
};
use super::provider::{LinuxPasteWaitOutcome, LinuxProviderEvent};
use crate::settings::PasteMethod;
use crate::text::strings::contains_text;
use vstd::prelude::*;

verus! {

/// The methods that press a key combination.
pub open spec fn presses(method: PasteMethod) -> bool {
    method == PasteMethod::CtrlV || method == PasteMethod::CtrlShiftV || method
        == PasteMethod::ShiftInsert
}

/// More is to be done, and there is nothing to say yet.
pub open spec fn on_to(step: (DeliveryPhase, Seq<char>), phase: DeliveryPhase) -> bool {
    step.0 == phase && step.1 == Seq::<char>::empty()
}

/// The paste is over with a reason.
pub open spec fn over(step: (DeliveryPhase, Seq<char>), verdict: Verdict, reason: Seq<char>) -> bool {
    step.0 == DeliveryPhase::Finished(verdict) && step.1 == reason
}

/// The text is typed in place of pasting exactly on macOS, for the methods that press
/// a key combination.
pub proof fn plan_goes_by_desktop_and_method(desktop: Desktop, method: PasteMethod)
    ensures
        planned(desktop, method).desktop == desktop,
        planned(desktop, method).method == method,
        planned(desktop, method).direct <==> desktop == Desktop::MacOs && presses(method),
{
}

/// A Wayland session is told from one on X11.
pub proof fn wayland_is_told_from_x11()
    ensures
        desktop_on_linux(true) == Desktop::Wayland,
        desktop_on_linux(false) == Desktop::X11,
{
}

/// It makes no difference who pressed the keys.
pub proof fn presser_does_not_matter(plan: DeliveryPlan, readable: bool)
    ensures
        proceeded(plan, DeliveryPhase::Press, readable, DeliveryEvent::Done(Ok(()))) == proceeded(
            plan,
            DeliveryPhase::PressWithTool,
            readable,
            DeliveryEvent::PressedWithTool(Ok(true)),
        ),
{
}

/// Where no program pressed the keys, they are pressed here, and a method without a
/// combination fails.
pub proof fn keys_are_pressed_without_a_tool(plan: DeliveryPlan, readable: bool)
    ensures
        ({
            let step = proceeded(
                plan,
                DeliveryPhase::PressWithTool,
                readable,
                DeliveryEvent::PressedWithTool(Ok(false)),
            );
            if presses(plan.method) {
                on_to(step, DeliveryPhase::Press)
            } else {
                over(step, Verdict::Failed, "Invalid paste method for clipboard paste"@)
            }
        }),
{
}

/// What follows on the pressed keys: on X11 the target is waited for, on Wayland
/// nothing can be known, on Windows there is a wait, and on macOS the field is watched
/// where it could be read.
pub proof fn pressed_keys_are_followed(plan: DeliveryPlan, readable: bool)
    ensures
        ({
            let step = proceeded(
                plan,
                DeliveryPhase::Press,
                readable,
                DeliveryEvent::Done(Ok(())),
            );
            match plan.desktop {
                Desktop::X11 => on_to(step, DeliveryPhase::AwaitConsumer),
                Desktop::Wayland => over(step, Verdict::Dispatched, Seq::empty()),
                Desktop::Windows => on_to(step, DeliveryPhase::SleepAfter),
                Desktop::MacOs => if readable {
                    on_to(step, DeliveryPhase::Watch)
                } else {
                    over(
                        step,
                        Verdict::Unconfirmed,
                        "Paste delivery could not be confirmed; the transcript remains on the clipboard for manual retry"@,
                    )
                },
            }
        }),
{
}

/// An event that shows that the target took the text.
pub open spec fn consumed(phase: DeliveryPhase, event: DeliveryEvent) -> bool {
    match event {
        DeliveryEvent::Injected(Ok(WindowsPasteOutcome::Complete { read_confirmed })) => phase
            is Inject && read_confirmed,
        DeliveryEvent::Waited(outcome) => phase is AwaitConsumer && outcome is Confirmed,
        DeliveryEvent::Watched { observed } => phase is Watch && observed,
        _ => false,
    }
}

/// Once the target took the text, the clipboard is put back and the text is held to
/// have arrived; and the clipboard is put back in no other case.
pub proof fn taken_text_is_confirmed(
    plan: DeliveryPlan,
    phase: DeliveryPhase,
    readable: bool,
    event: DeliveryEvent,
)
    requires
        fits(phase, event),
    ensures
        consumed(phase, event) <==> proceeded(plan, phase, readable, event).0 is Restore,
        consumed(phase, event) ==> on_to(
            proceeded(plan, phase, readable, event),
            DeliveryPhase::Restore,
        ),
        over(
            proceeded(plan, DeliveryPhase::Restore, readable, DeliveryEvent::Past),
            Verdict::Confirmed,
            Seq::empty(),
        ),
{
}

/// The first thing to do: on macOS the text of a key combination is typed, on Wayland
/// it is written for good, and elsewhere what is on the clipboard is saved.
pub proof fn clipboard_is_saved_first(plan: DeliveryPlan)
    ensures
        plan.direct ==> first_phase(plan) is TypeText,
        !plan.direct && plan.desktop == Desktop::Wayland ==> first_phase(plan) is WritePersistent,
        !plan.direct && plan.desktop != Desktop::Wayland ==> first_phase(plan) is Save,
{
}

/// On X11 a paste goes its way: what was on the clipboard is saved, the text is
/// offered, the provider is armed, the keys are pressed by whomever, the target is
/// awaited, and when it took the text the clipboard is put back and the text has
/// arrived.
pub proof fn x11_paste_goes_its_way(plan: DeliveryPlan, readable: bool, by_tool: bool)
    requires
        plan.desktop == Desktop::X11,
        !plan.direct,
        presses(plan.method),
    ensures
        ({
            let pressed = if by_tool {
                proceeded(
                    plan,
                    DeliveryPhase::PressWithTool,
                    readable,
                    DeliveryEvent::PressedWithTool(Ok(true)),
                )
            } else {
                proceeded(
                    plan,
                    proceeded(
                        plan,
                        DeliveryPhase::PressWithTool,
                        readable,
                        DeliveryEvent::PressedWithTool(Ok(false)),
                    ).0,
                    readable,
                    DeliveryEvent::Done(Ok(())),
                )
            };
            &&& first_phase(plan) is Save
            &&& on_to(
                proceeded(plan, DeliveryPhase::Save, readable, DeliveryEvent::Past),
                DeliveryPhase::Offer,
            )
            &&& on_to(
                proceeded(plan, DeliveryPhase::Offer, readable, DeliveryEvent::Done(Ok(()))),
                DeliveryPhase::SleepBefore,
            )
            &&& on_to(
                proceeded(plan, DeliveryPhase::SleepBefore, readable, DeliveryEvent::Past),
                DeliveryPhase::TakeEarly,
            )
            &&& on_to(
                proceeded(plan, DeliveryPhase::TakeEarly, readable, DeliveryEvent::Early(None)),
                DeliveryPhase::Arm,
            )
            &&& on_to(
                proceeded(plan, DeliveryPhase::Arm, readable, DeliveryEvent::Armed(Ok(()))),
                DeliveryPhase::PressWithTool,
            )
            &&& on_to(pressed, DeliveryPhase::AwaitConsumer)
            &&& on_to(
                proceeded(
                    plan,
                    pressed.0,
                    readable,
                    DeliveryEvent::Waited(LinuxPasteWaitOutcome::Confirmed),
                ),
                DeliveryPhase::Restore,
            )
        }),
{
}

/// On Wayland the text is written, the keys are pressed, and that is all.
pub proof fn wayland_paste_goes_its_way(plan: DeliveryPlan, readable: bool)
    requires
        plan.desktop == Desktop::Wayland,
        !plan.direct,
    ensures
        first_phase(plan) is WritePersistent,
        on_to(
            proceeded(plan, DeliveryPhase::WritePersistent, readable, DeliveryEvent::Done(Ok(()))),
            DeliveryPhase::PressWithTool,
        ),
        over(
            proceeded(
                plan,
                DeliveryPhase::PressWithTool,
                readable,
                DeliveryEvent::PressedWithTool(Ok(true)),
            ),
            Verdict::Dispatched,
            Seq::empty(),
        ),
{
}

/// On Windows delayed rendering is tried first. Where it fails, the text is written
/// and the keys are pressed, and what came of that stays open.
pub proof fn windows_paste_falls_back(plan: DeliveryPlan, readable: bool, error: String)
    requires
        plan.desktop == Desktop::Windows,
        !plan.direct,
        presses(plan.method),
    ensures
        first_phase(plan) is Save,
        on_to(
            proceeded(plan, DeliveryPhase::Save, readable, DeliveryEvent::Past),
            DeliveryPhase::Inject,
        ),
        on_to(
            proceeded(plan, DeliveryPhase::Inject, readable, DeliveryEvent::Injected(Err(error))),
            DeliveryPhase::Write,
        ),
        on_to(
            proceeded(plan, DeliveryPhase::Write, readable, DeliveryEvent::Done(Ok(()))),
            DeliveryPhase::AwaitPublication,
        ),
        on_to(
            proceeded(
                plan,
                DeliveryPhase::AwaitPublication,
                readable,
                DeliveryEvent::Published { published: true },
            ),
            DeliveryPhase::SleepBefore,
        ),
        on_to(
            proceeded(plan, DeliveryPhase::SleepBefore, readable, DeliveryEvent::Past),
            DeliveryPhase::Press,
        ),
        on_to(
            proceeded(plan, DeliveryPhase::Press, readable, DeliveryEvent::Done(Ok(()))),
            DeliveryPhase::SleepAfter,
        ),
        over(
            proceeded(plan, DeliveryPhase::SleepAfter, readable, DeliveryEvent::Past),
            Verdict::Unconfirmed,
            "The synchronized Windows paste path failed and fallback delivery could not be confirmed; the transcript remains on the clipboard"@,
        ),
{
}

/// What delayed rendering came to decides: a paste that was read is put back, one that
/// was not seen to be read stays on the clipboard, one that could not be sent is left
/// to the user, and what else happens falls back.
pub proof fn delayed_rendering_decides(
    plan: DeliveryPlan,
    readable: bool,
    result: Result<InjectOutcome, String>,
    r: Result<WindowsPasteOutcome, String>,
)
    requires
        rendered(result, r),
    ensures
        ({
            let step = proceeded(
                plan,
                DeliveryPhase::Inject,
                readable,
                DeliveryEvent::Injected(r),
            );
            match result {
                Ok(InjectOutcome::Pasted { read_confirmed: true }) => on_to(
                    step,
                    DeliveryPhase::Restore,
                ),
                Ok(InjectOutcome::Pasted { read_confirmed: false }) => over(
                    step,
                    Verdict::Unconfirmed,
                    "Paste delivery could not be confirmed; the transcript remains on the clipboard for manual retry"@,
                ),
                Ok(InjectOutcome::ClipboardOnly) => over(
                    step,
                    Verdict::Failed,
                    "The target could not accept synthesized input; the transcript was left on the clipboard for manual paste"@,
                ),
                Ok(InjectOutcome::Typed) => on_to(step, DeliveryPhase::Write),
                Err(_) => on_to(step, DeliveryPhase::Write),
            }
        }),
{
}

/// On macOS text without a key combination would be written, pressed and watched for.
pub proof fn macos_paste_goes_its_way(plan: DeliveryPlan, readable: bool, before: bool)
    requires
        plan.desktop == Desktop::MacOs,
        !plan.direct,
    ensures
        first_phase(plan) is Save,
        on_to(
            proceeded(plan, DeliveryPhase::Save, readable, DeliveryEvent::Past),
            DeliveryPhase::ReadFocused,
        ),
        on_to(
            proceeded(
                plan,
                DeliveryPhase::ReadFocused,
                readable,
                DeliveryEvent::FocusedRead { readable: before },
            ),
            DeliveryPhase::Write,
        ),
        readable_after(readable, DeliveryEvent::FocusedRead { readable: before }) == before,
        over(
            proceeded(
                plan,
                DeliveryPhase::Watch,
                readable,
                DeliveryEvent::Watched { observed: false },
            ),
            Verdict::Unconfirmed,
            "Paste delivery could not be confirmed; the transcript remains on the clipboard for manual retry"@,
        ),
{
}

/// Only a look at the focused field says whether it can be read.
pub proof fn only_looking_tells_readability(readable: bool, event: DeliveryEvent)
    requires
        !(event is FocusedRead),
    ensures
        readable_after(readable, event) == readable,
{
}

/// Typed text has arrived.
pub proof fn typed_text_has_arrived(plan: DeliveryPlan, readable: bool)
    ensures
        over(
            proceeded(plan, DeliveryPhase::TypeText, readable, DeliveryEvent::Done(Ok(()))),
            Verdict::Confirmed,
            Seq::empty(),
        ),
{
}

/// What is put before the reason of a failure.
pub open spec fn lead_in(phase: DeliveryPhase) -> Seq<char> {
    match phase {
        DeliveryPhase::WritePersistent => "Failed to publish Wayland clipboard: "@,
        DeliveryPhase::Write => "Failed to write to clipboard: "@,
        _ => ""@,
    }
}

/// A step that fails ends the paste with its reason. Only where the text could not be
/// offered it is written for the user to paste.
pub proof fn failed_step_ends_the_paste(
    plan: DeliveryPlan,
    phase: DeliveryPhase,
    readable: bool,
    error: String,
)
    requires
        fits(phase, DeliveryEvent::Done(Err(error))) || phase is PressWithTool,
    ensures
        phase is Offer ==> on_to(
            proceeded(plan, phase, readable, DeliveryEvent::Done(Err(error))),
            DeliveryPhase::WriteRecovery,
        ),
        phase is PressWithTool ==> over(
            proceeded(plan, phase, readable, DeliveryEvent::PressedWithTool(Err(error))),
            Verdict::Failed,
            error@,
        ),
        !(phase is Offer) && !(phase is PressWithTool) ==> over(
            proceeded(plan, phase, readable, DeliveryEvent::Done(Err(error))),
            Verdict::Failed,
            lead_in(phase) + error@,
        ),
        over(
            proceeded(plan, DeliveryPhase::WriteRecovery, readable, DeliveryEvent::Done(Ok(()))),
            Verdict::Unconfirmed,
            "Synchronized clipboard delivery was unavailable; the transcript remains on the clipboard for manual retry"@,
        ),
{
    reveal_strlit("");
    assert(""@ + error@ =~= error@);
}

/// A clipboard that never held the text is no place to paste from.
pub proof fn unpublished_text_is_not_pasted(plan: DeliveryPlan, readable: bool)
    ensures
        over(
            proceeded(
                plan,
                DeliveryPhase::AwaitPublication,
                readable,
                DeliveryEvent::Published { published: false },
            ),
            Verdict::Failed,
            "Clipboard did not publish the transcription before paste"@,
        ),
{
}

/// A provider that has something to tell before the keys are pressed, or cannot be
/// armed, keeps them from being pressed, and says why.
pub proof fn troubled_provider_stops_the_paste(
    plan: DeliveryPlan,
    readable: bool,
    told: LinuxProviderEvent,
    outcome: LinuxPasteWaitOutcome,
)
    ensures
        over(
            proceeded(plan, DeliveryPhase::TakeEarly, readable, DeliveryEvent::Early(Some(told))),
            Verdict::Unconfirmed,
            "Clipboard ownership was lost before paste ("@ + (match told {
                LinuxProviderEvent::PasteArmed => "PasteArmed"@,
                LinuxProviderEvent::DeliveryConfirmed => "DeliveryConfirmed"@,
                LinuxProviderEvent::OwnershipLost => "OwnershipLost"@,
                LinuxProviderEvent::ProviderFailed => "ProviderFailed"@,
            }) + "); the current clipboard was left untouched"@,
        ),
        over(
            proceeded(plan, DeliveryPhase::Arm, readable, DeliveryEvent::Armed(Err(outcome))),
            Verdict::Unconfirmed,
            "Clipboard provider could not arm paste ("@ + (match outcome {
                LinuxPasteWaitOutcome::Confirmed => "Confirmed"@,
                LinuxPasteWaitOutcome::OwnershipLost => "OwnershipLost"@,
                LinuxPasteWaitOutcome::ProviderFailed => "ProviderFailed"@,
                LinuxPasteWaitOutcome::TimedOut => "TimedOut"@,
            }) + "); the current clipboard was left untouched"@,
        ),
{
}

/// A target that was not seen to take the text leaves the paste in doubt, for the
/// reason that is known.
pub proof fn unseen_target_leaves_doubt(plan: DeliveryPlan, readable: bool)
    ensures
        over(
            proceeded(
                plan,
                DeliveryPhase::AwaitConsumer,
                readable,
                DeliveryEvent::Waited(LinuxPasteWaitOutcome::OwnershipLost),
            ),
            Verdict::Unconfirmed,
            "Clipboard ownership changed before paste could be confirmed; the newer clipboard was left untouched"@,
        ),
        over(
            proceeded(
                plan,
                DeliveryPhase::AwaitConsumer,
                readable,
                DeliveryEvent::Waited(LinuxPasteWaitOutcome::ProviderFailed),
            ),
            Verdict::Unconfirmed,
            "Clipboard delivery could not be confirmed; the current clipboard was left untouched"@,
        ),
        over(
            proceeded(
                plan,
                DeliveryPhase::AwaitConsumer,
                readable,
                DeliveryEvent::Waited(LinuxPasteWaitOutcome::TimedOut),
            ),
            Verdict::Unconfirmed,
            "Paste delivery could not be confirmed; the transcript remains on the clipboard for manual retry"@,
        ),
{
}

/// The keys are pressed only when the text can be pasted: it was written for good, the
/// provider was armed, or the wait before pasting is over; and no second time.
pub proof fn keys_wait_for_the_text(
    plan: DeliveryPlan,
    phase: DeliveryPhase,
    readable: bool,
    event: DeliveryEvent,
)
    requires
        fits(phase, event),
    ensures
        proceeded(plan, phase, readable, event).0 is PressWithTool ==> (match event {
            DeliveryEvent::Done(result) => phase is WritePersistent && result is Ok,
            DeliveryEvent::Armed(result) => phase is Arm && result is Ok,
            _ => false,
        }),
        proceeded(plan, phase, readable, event).0 is Press ==> (match event {
            DeliveryEvent::PressedWithTool(result) => phase is PressWithTool && result
                == Ok::<bool, String>(false),
            DeliveryEvent::Past => phase is SleepBefore && plan.desktop != Desktop::X11,
            _ => false,
        }),
        proceeded(plan, phase, readable, event).0 is SleepBefore ==> (match event {
            DeliveryEvent::Done(result) => phase is Offer && result is Ok,
            DeliveryEvent::Published { published } => phase is AwaitPublication && published,
            _ => false,
        }),
{
}

/// The target gets two seconds at least, and as long as the user says where that is
/// more.
pub proof fn target_gets_its_time(paste_delay_after_ms: u64)
    ensures
        consumer_timeout(paste_delay_after_ms) >= 2_000,
        consumer_timeout(paste_delay_after_ms) >= paste_delay_after_ms,
        consumer_timeout(paste_delay_after_ms) == 2_000 || consumer_timeout(paste_delay_after_ms)
            == paste_delay_after_ms,
{
}

/// The text is found on the clipboard whenever it is there, even late; without it the
/// wait goes on until it is too long.
pub proof fn published_text_is_found(current: Option<Seq<char>>, text: Seq<char>, overdue: bool)
    ensures
        publication(Some(text), text, overdue) is Arrived,
        current != Some(text) ==> publication(current, text, overdue) == (if overdue {
            WaitStep::GaveUp
        } else {
            WaitStep::Again
        }),
{
}

/// The transcript is found in the field in time only, and only where the field changed
/// to hold it.
pub proof fn watched_text_is_found(
    before: Seq<char>,
    after: Option<Seq<char>>,
    transcript: Seq<char>,
)
    ensures
        watching(before, after, transcript, true) is GaveUp,
        watching(before, None, transcript, false) is Again,
        watching(before, Some(before), transcript, false) is Again,
        (after matches Some(now) && now != before && contains_text(now, transcript)) <==> watching(
            before,
            after,
            transcript,
            false,
        ) is Arrived,
{
}

/// Each method has the key combination of its name, and only the pressing ones have
/// one.
pub proof fn chord_goes_by_the_method(method: PasteMethod)
    ensures
        chord_of(method) is Some <==> presses(method),
        chord_of(PasteMethod::CtrlV) == Some(PasteChord::CtrlV),
        chord_of(PasteMethod::CtrlShiftV) == Some(PasteChord::CtrlShiftV),
        chord_of(PasteMethod::ShiftInsert) == Some(PasteChord::ShiftInsert),
{
}

} // verus!
