//! The paste decision.  The clipboard and the synthetic keystroke live
//! outside; what is decided here is whether a paste is automatic or
//! clipboard-only, and what to do with the previous clipboard contents
//! afterwards.

use vstd::prelude::*;
use crate::text::str_eq;

verus! {

/// How to paste: inject the keystroke and restore the clipboard, or
/// only leave the text on the clipboard for the user to paste.
pub enum PastePlan {
    /// Write the text, synthesize the paste shortcut, then restore the
    /// previous clipboard contents.
    AutoPaste { restore: ClipboardRestore },
    /// Write the text and stop: no text field has focus.
    ClipboardOnly,
}

/// What to do with the clipboard after an automatic paste.
pub enum ClipboardRestore {
    /// Put this previous text back.
    Restore(String),
    /// The clipboard was empty or unreadable: clear it.
    Clear,
}

/// Whether the paste is performed as a keystroke: always when smart
/// paste is off, otherwise only when a text field has focus.
pub fn should_auto_paste(smart_paste: bool, text_field_focused: bool) -> (r: bool)
    ensures
        r == (!smart_paste || text_field_focused),
{
    !smart_paste || text_field_focused
}

/// Decides the paste, given the focus probe and the clipboard's
/// previous contents.  An absent or empty previous text is cleared
/// afterwards rather than written back.
pub fn paste_plan(smart_paste: bool, text_field_focused: bool, previous: Option<String>) -> (r:
    PastePlan)
    ensures
        smart_paste && !text_field_focused ==> r is ClipboardOnly,
        (!smart_paste || text_field_focused) ==> (r matches PastePlan::AutoPaste { restore }
            && match previous {
            Some(prev) => (if prev@.len() > 0 {
                restore matches ClipboardRestore::Restore(p) && p@ == prev@
            } else {
                restore is Clear
            }),
            None => restore is Clear,
        }),
{
    if should_auto_paste(smart_paste, text_field_focused) {
        match previous {
            Some(prev) => {
                if prev.as_str().unicode_len() > 0 {
                    PastePlan::AutoPaste { restore: ClipboardRestore::Restore(prev) }
                } else {
                    PastePlan::AutoPaste { restore: ClipboardRestore::Clear }
                }
            },
            None => PastePlan::AutoPaste { restore: ClipboardRestore::Clear },
        }
    } else {
        PastePlan::ClipboardOnly
    }
}

/// Whether an accessibility role names a text-input element: the
/// focused element accepts a paste exactly when its role is one of
/// these.  The platform probe fetches the focused element's role at
/// the edge and hands the string in.
pub fn is_text_input_role(role: &str) -> (r: bool)
    ensures
        r == (role@ == "AXTextField"@ || role@ == "AXTextArea"@ || role@ == "AXComboBox"@ || role@
            == "AXSearchField"@ || role@ == "AXWebArea"@),
{
    str_eq(role, "AXTextField") || str_eq(role, "AXTextArea") || str_eq(role, "AXComboBox")
        || str_eq(role, "AXSearchField") || str_eq(role, "AXWebArea")
}

/// Whether the platform grants the accessibility permission the paste
/// keystroke needs.  On platforms without such a permission model it is
/// always granted; where one exists, the application probes it at the
/// edge and the controller receives the answer as an event input.
pub fn check_accessibility_permission() -> (r: bool)
    ensures
        r,
{
    true
}

} // verus!
