//! Privacy / no-log mode.
//!
//! In no-log mode addresses are kept out of log output: [`Redact`] stands for a value that is
//! shown only when the mode is off.

use crate::net::{IpAddr, SocketAddr, ip_text, socket_text};
use vstd::prelude::*;

verus! {

/// The no-log mode of a process. It is on until it is set otherwise.
#[derive(Clone, Copy, Debug, PartialEq, Eq, Structural)]
pub struct Privacy {
    no_log: bool,
}

impl Default for Privacy {
    fn default() -> (p: Privacy)
        ensures
            p.enabled(),
    {
        Privacy { no_log: true }
    }
}

impl Privacy {
    /// Whether no-log mode is active.
    pub closed spec fn enabled(self) -> bool {
        self.no_log
    }
}

/// Sets the mode from the configuration.
pub fn init(privacy: &mut Privacy, no_log: bool)
    ensures
        final(privacy).enabled() == no_log,
{
    privacy.no_log = no_log;
}

/// Returns true if no-log mode is active.
pub fn is_enabled(privacy: &Privacy) -> (b: bool)
    ensures
        b == privacy.enabled(),
{
    privacy.no_log
}

/// A value that can be shown, to a reader or for debugging.
pub trait Shown {
    /// The text that a reader sees.
    spec fn display_text(&self) -> Seq<char>;

    /// The text that is shown for debugging.
    spec fn debug_text(&self) -> Seq<char>;

    /// The value as a reader sees it.
    fn to_display(&self) -> (s: String)
        ensures
            s@ == self.display_text(),
    ;

    /// The value as it is shown for debugging.
    fn to_debug(&self) -> (s: String)
        ensures
            s@ == self.debug_text(),
    ;
}

impl Shown for SocketAddr {
    open spec fn display_text(&self) -> Seq<char> {
        socket_text(*self)
    }

    open spec fn debug_text(&self) -> Seq<char> {
        socket_text(*self)
    }

    fn to_display(&self) -> (s: String) {
        self.to_text()
    }

    fn to_debug(&self) -> (s: String) {
        self.to_text()
    }
}

impl Shown for IpAddr {
    open spec fn display_text(&self) -> Seq<char> {
        ip_text(*self)
    }

    open spec fn debug_text(&self) -> Seq<char> {
        ip_text(*self)
    }

    fn to_display(&self) -> (s: String) {
        self.to_text()
    }

    fn to_debug(&self) -> (s: String) {
        self.to_text()
    }
}

/// What `{:?}` makes of a text: the text in double quotes, with quotes, backslashes and
/// characters that cannot be printed escaped.
pub uninterp spec fn quoted(text: Seq<char>) -> Seq<char>;

/// The `Debug` implementation of `str`. Claimed is that its output depends on the characters of
/// the text alone; which of them are escaped, and how, is not stated.
#[verifier::external_body]
fn quote(text: &str) -> (s: String)
    ensures
        s@ == quoted(text@),
{
    format!("{:?}", text)
}

impl Shown for String {
    open spec fn display_text(&self) -> Seq<char> {
        self@
    }

    open spec fn debug_text(&self) -> Seq<char> {
        quoted(self@)
    }

    fn to_display(&self) -> (s: String) {
        String::from_str(self.as_str())
    }

    fn to_debug(&self) -> (s: String) {
        quote(self.as_str())
    }
}

/// A value that is redacted when shown in no-log mode.
pub struct Redact<T: Shown>(pub T);

/// Wraps an address for redacted display.
pub fn addr(a: SocketAddr) -> (r: Redact<SocketAddr>)
    ensures
        r.0 == a,
{
    Redact(a)
}

/// What is shown of a text: the text itself, or a placeholder in no-log mode.
pub open spec fn shown(text: Seq<char>, no_log: bool) -> Seq<char> {
    if no_log {
        "[redacted]"@
    } else {
        text
    }
}

impl<T: Shown> Redact<T> {
    /// The value as a reader sees it, or a placeholder in no-log mode.
    pub fn show(&self, privacy: &Privacy) -> (s: String)
        ensures
            s@ == shown(self.0.display_text(), privacy.enabled()),
    {
        if privacy.no_log {
            String::from_str("[redacted]")
        } else {
            self.0.to_display()
        }
    }

    /// The value as it is shown for debugging, or a placeholder in no-log mode.
    pub fn show_debug(&self, privacy: &Privacy) -> (s: String)
        ensures
            s@ == shown(self.0.debug_text(), privacy.enabled()),
    {
        if privacy.no_log {
            String::from_str("[redacted]")
        } else {
            self.0.to_debug()
        }
    }
}

/// In no-log mode nothing of a value shows, to a reader or for debugging, whatever it is: any two
/// values look the same. Otherwise the value shows as it is.
pub proof fn law_redaction_hides_everything<T: Shown, U: Shown>(
    x: Redact<T>,
    y: Redact<U>,
    privacy: Privacy,
)
    ensures
        privacy.enabled() ==> shown(x.0.display_text(), privacy.enabled()) == "[redacted]"@ && shown(
            x.0.debug_text(),
            privacy.enabled(),
        ) == "[redacted]"@,
        privacy.enabled() ==> shown(x.0.display_text(), privacy.enabled()) == shown(
            y.0.display_text(),
            privacy.enabled(),
        ) && shown(x.0.debug_text(), privacy.enabled()) == shown(
            y.0.debug_text(),
            privacy.enabled(),
        ),
        !privacy.enabled() ==> shown(x.0.display_text(), privacy.enabled()) == x.0.display_text()
            && shown(x.0.debug_text(), privacy.enabled()) == x.0.debug_text(),
{
}

} // verus!
