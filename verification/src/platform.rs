//! The displays as a control mechanism reports them, and the capability
//! contract that every mechanism meets.

pub mod macos_m1ddc;
pub mod windows_dxva2;

use vstd::prelude::*;

verus! {

/// The text of an optional string.
pub open spec fn optional_text(s: Option<String>) -> Option<Seq<char>> {
    match s {
        Some(t) => Some(t@),
        None => None,
    }
}

/// One monitor as an enumeration found it. The index counts from one and
/// holds within one enumeration only.
#[derive(Debug, Clone)]
pub struct DisplayInfo {
    pub index: u32,
    pub product_name: Option<String>,
    pub system_uuid: Option<String>,
}

/// A monitor as contracts see it.
pub struct DisplayModel {
    pub index: u32,
    pub product_name: Option<Seq<char>>,
    pub system_uuid: Option<Seq<char>>,
}

impl View for DisplayInfo {
    type V = DisplayModel;

    open spec fn view(&self) -> DisplayModel {
        DisplayModel {
            index: self.index,
            product_name: optional_text(self.product_name),
            system_uuid: optional_text(self.system_uuid),
        }
    }
}

/// The monitors of a list as contracts see them.
pub open spec fn display_models(displays: Seq<DisplayInfo>) -> Seq<DisplayModel> {
    Seq::new(displays.len(), |i: int| displays[i]@)
}

/// The outcome of one enumeration: the monitors, and what the mechanism
/// printed where it prints anything.
#[derive(Debug, Clone)]
pub struct DisplayListReport {
    pub displays: Vec<DisplayInfo>,
    pub raw: Option<String>,
}

/// The outcome of a self-diagnosis, for a person to read.
#[derive(Debug, Clone)]
pub struct DoctorReport {
    pub ok: bool,
    pub message: String,
}

/// A failure of a control mechanism: what was being done, and why it failed.
#[derive(Debug, Clone)]
pub struct BackendError {
    pub context: String,
    pub cause: String,
}

impl BackendError {
    /// A failure of what `context` says was being done, for the reason `cause`.
    pub fn new(context: &str, cause: &str) -> (r: Self)
        ensures
            r.context@ == context@,
            r.cause@ == cause@,
    {
        BackendError { context: String::from_str(context), cause: String::from_str(cause) }
    }

    /// The text shown for this failure: what was being done.
    pub fn text(&self) -> (r: String)
        ensures
            r@ == self.context@,
    {
        self.context.clone()
    }
}

/// What a platform's control mechanism offers. Nothing is retried: the
/// caller decides what a failure means.
///
/// Nothing is promised of what an implementation answers. Each method only
/// says that its answer is one the implementation gives to that call, by a
/// predicate that the implementation is free to define: the core uses the
/// predicates to state which call, with which arguments, an answer that it
/// acts on belongs to. An implementation that defines none of them admits
/// every answer.
pub trait Backend {
    open spec fn list_reply(&self, reply: Result<DisplayListReport, BackendError>) -> bool {
        true
    }

    open spec fn set_reply(
        &self,
        display_selector: Seq<char>,
        value: u16,
        reply: Result<(), BackendError>,
    ) -> bool {
        true
    }

    open spec fn get_reply(&self, display_selector: Seq<char>, reply: Result<u16, BackendError>) -> bool {
        true
    }

    open spec fn doctor_reply(&self, reply: Result<DoctorReport, BackendError>) -> bool {
        true
    }

    /// Enumerates the monitors.
    fn list_displays(&self) -> (reply: Result<DisplayListReport, BackendError>)
        ensures
            self.list_reply(reply),
    ;

    /// Selects the input `value` on the display that `display_selector` names.
    fn set_input(&self, display_selector: &str, value: u16) -> (reply: Result<(), BackendError>)
        ensures
            self.set_reply(display_selector@, value, reply),
    ;

    /// Reads the input that the display has selected, where the mechanism
    /// can read it.
    fn get_input(&self, display_selector: &str) -> (reply: Result<u16, BackendError>)
        ensures
            self.get_reply(display_selector@, reply),
    ;

    /// Diagnoses the mechanism itself.
    fn doctor(&self) -> (reply: Result<DoctorReport, BackendError>)
        ensures
            self.doctor_reply(reply),
    ;
}

/// The control mechanisms there are.
#[derive(Debug, Clone, Copy, PartialEq, Eq, Structural)]
pub enum BackendKind {
    /// The command-line helper `m1ddc`, on macOS.
    M1Ddc,
    /// The monitor configuration API of Windows.
    WindowsDxva2,
}

/// The mechanism for the operating system named `os`, as
/// `std::env::consts::OS` names it.
pub open spec fn backend_for(os: Seq<char>) -> Option<BackendKind> {
    if os == "macos"@ {
        Some(BackendKind::M1Ddc)
    } else if os == "windows"@ {
        Some(BackendKind::WindowsDxva2)
    } else {
        None
    }
}

/// What is said on a system that has no mechanism.
pub open spec fn unsupported_os_text() -> Seq<char> {
    "Unsupported OS (this PoC supports macOS and Windows)."@
}

/// Chooses the control mechanism for the operating system named `os`.
pub fn backend(os: &str) -> (r: Result<BackendKind, BackendError>)
    ensures
        match r {
            Ok(kind) => backend_for(os@) == Some(kind),
            Err(e) => backend_for(os@) is None && e.context@ == unsupported_os_text()
                && e.cause@.len() == 0,
        },
{
    if crate::text::same_text(os, "macos") {
        Ok(BackendKind::M1Ddc)
    } else if crate::text::same_text(os, "windows") {
        Ok(BackendKind::WindowsDxva2)
    } else {
        let cause = String::new();
        Err(
            BackendError {
                context: String::from_str("Unsupported OS (this PoC supports macOS and Windows)."),
                cause,
            },
        )
    }
}

} // verus!
