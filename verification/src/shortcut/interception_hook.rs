//! Shortcuts on Windows, from the scan codes of the Interception driver.

use super::lifecycle;
use super::lifecycle::{Exchange, Ready};
use super::manager;
use super::manager::{HookManager, ManagerState};
use super::tracker::{RawKeyEvent, RegisteredShortcut};
use super::windows_hook;
use super::windows_hook::ParsedShortcut;
use vstd::prelude::*;

verus! {

/// The number of the last device that is a keyboard.
pub const INTERCEPTION_MAX_KEYBOARD: i32 = 10;

/// The filter that lets every keyboard stroke through.
pub const INTERCEPTION_FILTER_KEY_ALL: u16 = 0xffff;

/// The state bit of a key that goes up.
pub const INTERCEPTION_KEY_UP: u16 = 0x01;

/// The state bit of a scan code with the prefix `E0`.
pub const INTERCEPTION_KEY_E0: u16 = 0x02;

/// The state bit of a scan code with the prefix `E1`.
pub const INTERCEPTION_KEY_E1: u16 = 0x04;

/// A keyboard stroke.
#[derive(Clone, Copy, Debug)]
pub struct InterceptionKeyStroke {
    pub code: u16,
    pub state: u16,
    pub information: u32,
}

impl InterceptionKeyStroke {
    /// The scan code with its prefix.
    pub open spec fn prefixed_code(self) -> u32 {
        if self.state & INTERCEPTION_KEY_E0 != 0 {
            self.code as u32 | 0xe000
        } else if self.state & INTERCEPTION_KEY_E1 != 0 {
            self.code as u32 | 0xe100
        } else {
            self.code as u32
        }
    }

    /// Puts the prefix of the scan code before it.
    pub fn scan_code(self) -> (r: u32)
        ensures
            r == self.prefixed_code(),
    {
        if self.state & INTERCEPTION_KEY_E0 != 0 {
            self.code as u32 | 0xe000
        } else if self.state & INTERCEPTION_KEY_E1 != 0 {
            self.code as u32 | 0xe100
        } else {
            self.code as u32
        }
    }

    /// The key event of a stroke whose scan code the system maps to a virtual key
    /// code; there is none where the system maps it to zero.
    pub open spec fn key_event(self, vk_code: u32) -> Option<RawKeyEvent> {
        if vk_code == 0 {
            None
        } else {
            Some(RawKeyEvent { vk_code, is_down: self.state & INTERCEPTION_KEY_UP == 0 })
        }
    }

    /// Makes the key event of a stroke whose scan code the system maps to a virtual key
    /// code; there is none where the system maps it to zero.
    pub fn to_raw_key_event(self, vk_code: u32) -> (r: Option<RawKeyEvent>)
        ensures
            r == self.key_event(vk_code),
    {
        if vk_code == 0 {
            return None;
        }
        Some(RawKeyEvent { vk_code, is_down: self.state & INTERCEPTION_KEY_UP == 0 })
    }
}

/// A scan code of one byte stands unchanged behind its prefix.
pub proof fn lemma_prefix_before_code(stroke: InterceptionKeyStroke)
    requires
        stroke.code < 0x100,
    ensures
        stroke.prefixed_code() == stroke.code + (if stroke.state & INTERCEPTION_KEY_E0 != 0 {
            0xe000int
        } else if stroke.state & INTERCEPTION_KEY_E1 != 0 {
            0xe100int
        } else {
            0int
        }),
{
    let code = stroke.code as u32;
    assert(code < 0x100 ==> code | 0xe000 == code + 0xe000 && code | 0xe100 == code + 0xe100)
        by (bit_vector);
}

/// Tells the driver, with one for yes and zero for no, which devices are keyboards.
pub fn interception_keyboard_predicate(device: i32) -> (r: i32)
    ensures
        r == (if 1 <= device <= INTERCEPTION_MAX_KEYBOARD {
            1int
        } else {
            0int
        }),
{
    if device >= 1 && device <= INTERCEPTION_MAX_KEYBOARD {
        1
    } else {
        0
    }
}

/// Tells whether a stroke is to be received from the device that was waited for:
/// one came at all, and the driver calls it valid and a keyboard.
pub fn stroke_waits(device: i32, is_invalid: i32, is_keyboard: i32) -> (r: bool)
    ensures
        r == (device != 0 && is_invalid == 0 && is_keyboard != 0),
{
    !(device == 0 || is_invalid != 0 || is_keyboard == 0)
}

/// Tells whether a stroke was received, from the number of strokes that the driver
/// gives.
pub fn stroke_received(received: i32) -> (r: bool)
    ensures
        r == (received > 0),
{
    !(received <= 0)
}

/// Tells whether the one stroke was sent on, from the number of strokes that the
/// driver gives.
pub fn stroke_sent(sent: i32) -> (r: bool)
    ensures
        r == (sent == 1),
{
    sent == 1
}

/// Something that is done about a stroke.
#[derive(Debug)]
pub enum StrokeStep {
    SendBack(InterceptionKeyStroke),
    Report(RegisteredShortcut, bool),
}

/// What a stroke makes of the state, and what is done about it, in order: it is sent
/// back as it came, and then the shortcuts that fire or end are reported.
pub open spec fn after_stroke(
    state: ManagerState,
    stroke: InterceptionKeyStroke,
    vk_code: u32,
) -> (ManagerState, Seq<StrokeStep>) {
    match stroke.key_event(vk_code) {
        Some(event) => {
            let (next, reported) = manager::after_key(state, event);
            (next, seq![StrokeStep::SendBack(stroke)] + report_steps(reported))
        },
        None => (state, seq![StrokeStep::SendBack(stroke)]),
    }
}

/// The steps that report some shortcuts.
pub open spec fn report_steps(reported: Seq<(RegisteredShortcut, bool)>) -> Seq<StrokeStep> {
    reported.map_values(
        |report: (RegisteredShortcut, bool)| StrokeStep::Report(report.0, report.1),
    )
}

/// Takes a stroke into account whose scan code the system maps to a virtual key code, and
/// lists what is done about it, in order.
pub fn stroke_steps(manager: &mut HookManager, stroke: InterceptionKeyStroke, vk_code: u32) -> (r:
    Vec<StrokeStep>)
    requires
        old(manager).wf(),
    ensures
        final(manager).wf(),
        (final(manager)@, r@) == after_stroke(old(manager)@, stroke, vk_code),
{
    let mut r: Vec<StrokeStep> = Vec::new();
    r.push(StrokeStep::SendBack(stroke));
    if let Some(event) = stroke.to_raw_key_event(vk_code) {
        let reported = manager.key_event(event);
        let ghost all = reported@;
        assert(r@ =~= seq![StrokeStep::SendBack(stroke)] + report_steps(all.take(0)));
        for report in it: reported
            invariant
                it.seq() == all,
                r@ == seq![StrokeStep::SendBack(stroke)] + report_steps(
                    all.take(it.index() as int),
                ),
        {
            let (shortcut, is_pressed) = report;
            r.push(StrokeStep::Report(shortcut, is_pressed));
            assert(r@ =~= seq![StrokeStep::SendBack(stroke)] + report_steps(
                all.take(it.index() as int + 1),
            ));
        }
        assert(all.take(all.len() as int) =~= all);
    }
    r
}

/// Whatever is registered, a stroke is first sent back, unchanged and once; only then
/// is anything reported.
pub proof fn lemma_stroke_sent_back(
    state: ManagerState,
    stroke: InterceptionKeyStroke,
    vk_code: u32,
)
    ensures
        ({
            let steps = after_stroke(state, stroke, vk_code).1;
            &&& steps.len() >= 1
            &&& steps[0] == StrokeStep::SendBack(stroke)
            &&& forall|i: int| 1 <= i < steps.len() ==> #[trigger] steps[i] is Report
        }),
{
}

/// What is said where the driver's library cannot be loaded.
pub fn library_missing(error: &str) -> (r: String)
    ensures
        r@ == "Failed to load interception.dll: "@ + error@
            + ". Put the x64 Interception DLL next to handy.exe and install the Interception driver as Administrator."@,
{
    let mut message = "Failed to load interception.dll: ".to_owned();
    message.append(error);
    message.append(
        ". Put the x64 Interception DLL next to handy.exe and install the Interception driver as Administrator.",
    );
    message
}

/// What is said where the driver's library lacks a function.
pub fn function_missing(name: &str, error: &str) -> (r: String)
    ensures
        r@ == name@ + " missing: "@ + error@,
{
    let mut message = name.to_owned();
    message.append(" missing: ");
    message.append(error);
    message
}

/// What is said where the driver does not answer.
pub fn driver_missing() -> (r: String)
    ensures
        r@
            == "Failed to create Interception context. Is the Interception driver installed?"@,
{
    "Failed to create Interception context. Is the Interception driver installed?".to_owned()
}

/// Tells whether a shortcut can be registered, and why not.
pub fn validate_shortcut(raw: &str) -> (r: Result<(), String>)
    ensures
        match r {
            Ok(_) => windows_hook::parsed(raw@) is Ok,
            Err(message) => windows_hook::parsed(raw@) == Err::<ParsedShortcut, Seq<char>>(
                message@,
            ),
        },
{
    windows_hook::validate_shortcut(raw)
}

/// The Interception hook: the thread behind it, while there is one.
pub struct InterceptionHookState<R> {
    runtime: Option<R>,
}

/// What registering a shortcut comes to, from whether the hook has a thread and from
/// what came of asking it.
pub open spec fn register_result(running: bool, exchange: Exchange) -> Result<(), Seq<char>> {
    if !running {
        Err::<(), Seq<char>>("Interception hook is not running"@)
    } else {
        match exchange {
            Exchange::NotSent => Err("Failed to send Interception register command"@),
            Exchange::NoReply => Err("Failed to receive Interception register response"@),
            Exchange::Reply(reply) => lifecycle::outcome(reply),
        }
    }
}

/// What unregistering a shortcut comes to, from whether the hook has a thread and
/// from what came of asking it.
pub open spec fn unregister_result(running: bool, exchange: Exchange) -> Result<(), Seq<char>> {
    if !running {
        Ok::<(), Seq<char>>(())
    } else {
        match exchange {
            Exchange::NotSent => Err("Failed to send Interception unregister command"@),
            Exchange::NoReply => Err("Failed to receive Interception unregister response"@),
            Exchange::Reply(reply) => lifecycle::outcome(reply),
        }
    }
}

/// Tells what registering a shortcut comes to.
pub fn register_reply(running: bool, exchange: Exchange) -> (r: Result<(), String>)
    ensures
        lifecycle::outcome(r) == register_result(running, exchange),
{
    if !running {
        return Err("Interception hook is not running".to_owned());
    }
    match exchange {
        Exchange::NotSent => Err("Failed to send Interception register command".to_owned()),
        Exchange::NoReply => Err("Failed to receive Interception register response".to_owned()),
        Exchange::Reply(reply) => reply,
    }
}

/// Tells what unregistering a shortcut comes to.
pub fn unregister_reply(running: bool, exchange: Exchange) -> (r: Result<(), String>)
    ensures
        lifecycle::outcome(r) == unregister_result(running, exchange),
{
    if !running {
        return Ok(());
    }
    match exchange {
        Exchange::NotSent => Err("Failed to send Interception unregister command".to_owned()),
        Exchange::NoReply => Err("Failed to receive Interception unregister response".to_owned()),
        Exchange::Reply(reply) => reply,
    }
}

impl<R> InterceptionHookState<R> {
    /// The thread behind the hook, while there is one.
    pub closed spec fn runtime(&self) -> Option<R> {
        self.runtime
    }

    /// The hook before its first start.
    pub fn new() -> (r: Self)
        ensures
            r.runtime() is None,
    {
        InterceptionHookState { runtime: None }
    }

    /// What is said where the hook's thread cannot be looked at.
    pub fn lock_failed() -> (r: String)
        ensures
            r@ == "Failed to lock Interception hook runtime"@,
    {
        "Failed to lock Interception hook runtime".to_owned()
    }

    /// Hands out the thread behind the hook, while there is one.
    pub fn running(&self) -> (r: Option<&R>)
        ensures
            match r {
                Some(runtime) => self.runtime() == Some(*runtime),
                None => self.runtime() is None,
            },
    {
        match &self.runtime {
            Some(runtime) => Some(runtime),
            None => None,
        }
    }

    /// Takes over a thread that was started for the hook, if it has come up and the
    /// hook has none yet. Any other thread is handed back, to be waited for.
    pub fn start(&mut self, runtime: R, ready: Ready) -> (r: (Result<(), String>, Option<R>))
        ensures
            ({
                let (result, back) = r;
                if old(self).runtime() is Some {
                    &&& final(self).runtime() == old(self).runtime()
                    &&& result is Ok
                    &&& back == Some(runtime)
                } else {
                    match ready {
                        Ready::Started => {
                            &&& final(self).runtime() == Some(runtime)
                            &&& result is Ok
                            &&& back is None
                        },
                        Ready::Failed(message) => {
                            &&& final(self).runtime() is None
                            &&& result == Err::<(), String>(message)
                            &&& back == Some(runtime)
                        },
                        Ready::TimedOut(error) => {
                            &&& final(self).runtime() is None
                            &&& lifecycle::outcome(result) == Err::<(), Seq<char>>(
                                "Timed out starting Interception hook: "@ + error@,
                            )
                            &&& back == Some(runtime)
                        },
                    }
                }
            }),
    {
        if self.runtime.is_some() {
            return (Ok(()), Some(runtime));
        }
        match ready {
            Ready::Started => {
                self.runtime = Some(runtime);
                (Ok(()), None)
            },
            Ready::Failed(message) => (Err(message), Some(runtime)),
            Ready::TimedOut(error) => {
                let mut message = "Timed out starting Interception hook: ".to_owned();
                message.append(error.as_str());
                (Err(message), Some(runtime))
            },
        }
    }

    /// Lets go of the thread behind the hook, to be stopped and waited for.
    pub fn shutdown(&mut self) -> (r: Option<R>)
        ensures
            r == old(self).runtime(),
            final(self).runtime() is None,
    {
        self.runtime.take()
    }

    /// What registering a shortcut with the hook comes to.
    pub fn register(&self, exchange: Exchange) -> (r: Result<(), String>)
        ensures
            lifecycle::outcome(r) == register_result(self.runtime() is Some, exchange),
    {
        register_reply(self.runtime.is_some(), exchange)
    }

    /// What unregistering a shortcut from the hook comes to: there is nothing to do
    /// for a hook without a thread.
    pub fn unregister(&self, exchange: Exchange) -> (r: Result<(), String>)
        ensures
            lifecycle::outcome(r) == unregister_result(self.runtime() is Some, exchange),
    {
        unregister_reply(self.runtime.is_some(), exchange)
    }
}

/// Registers a shortcut with the app's hook, if it has one.
pub fn register_shortcut<R>(state: Option<&InterceptionHookState<R>>, exchange: Exchange) -> (r: Result<
    (),
    String,
>)
    ensures
        match state {
            Some(hook) => lifecycle::outcome(r) == register_result(hook.runtime() is Some, exchange),
            None => lifecycle::outcome(r) == Err::<(), Seq<char>>("Windows Interception hook state is not initialized"@),
        },
{
    match state {
        Some(hook) => hook.register(exchange),
        None => Err("Windows Interception hook state is not initialized".to_owned()),
    }
}

/// Unregisters a shortcut from the app's hook, if it has one.
pub fn unregister_shortcut<R>(state: Option<&InterceptionHookState<R>>, exchange: Exchange) -> (r: Result<
    (),
    String,
>)
    ensures
        match state {
            Some(hook) => lifecycle::outcome(r) == unregister_result(hook.runtime() is Some, exchange),
            None => lifecycle::outcome(r) == Err::<(), Seq<char>>("Windows Interception hook state is not initialized"@),
        },
{
    match state {
        Some(hook) => hook.unregister(exchange),
        None => Err("Windows Interception hook state is not initialized".to_owned()),
    }
}

} // verus!
