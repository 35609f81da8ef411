//! Desktop notifications: their options, the defaults applied, and the
//! console text shown where the system cannot show one. Showing it is done
//! by the application.

use vstd::prelude::*;
use crate::text::{chars_of, owned, push_str, string_from};

verus! {

/// A notification.
#[derive(Debug)]
pub struct NotificationOptions {
    /// Title.
    pub title: String,
    /// Body.
    pub body: String,
    /// Subtitle.
    pub subtitle: Option<String>,
    /// Icon path.
    pub icon: Option<String>,
    /// Timeout in milliseconds.
    pub timeout: Option<u32>,
    /// Silent.
    pub silent: Option<bool>,
    /// Tag for deduplication.
    pub tag: Option<String>,
    /// Urgent.
    pub urgent: Option<bool>,
}

/// A notification with only a title and a body.
pub fn send_simple_notification(title: &str, body: &str) -> (r: NotificationOptions)
    ensures
        r.title@ == title@,
        r.body@ == body@,
        r.subtitle is None,
        r.icon is None,
        r.timeout is None,
        r.silent is None,
        r.tag is None,
        r.urgent is None,
{
    NotificationOptions {
        title: owned(title),
        body: owned(body),
        subtitle: None,
        icon: None,
        timeout: None,
        silent: None,
        tag: None,
        urgent: None,
    }
}

/// The timeout shown: the one given, else 5000 ms.
pub fn notification_timeout(options: &NotificationOptions) -> (r: u32)
    ensures
        r == match options.timeout {
            Some(t) => t,
            None => 5000,
        },
{
    match options.timeout {
        Some(t) => t,
        None => 5000,
    }
}

/// Whether the notification is shown as urgent.
pub fn is_urgent(options: &NotificationOptions) -> (r: bool)
    ensures
        r == (options.urgent == Some(true)),
{
    match options.urgent {
        Some(u) => u,
        None => false,
    }
}

/// The console text of a notification.
pub open spec fn console_text_spec(o: NotificationOptions) -> Seq<char> {
    "\n["@ + (if o.urgent == Some(true) {
        "!!!"@
    } else {
        "NOTIFICATION"@
    }) + "] "@ + o.title@ + " - "@ + o.body@ + "\n"@
}

/// The console text shown where the system cannot show the notification.
pub fn console_notification_text(options: &NotificationOptions) -> (r: String)
    ensures
        r@ == console_text_spec(*options),
{
    let mut v = chars_of("\n[");
    if is_urgent(options) {
        push_str(&mut v, "!!!");
    } else {
        push_str(&mut v, "NOTIFICATION");
    }
    push_str(&mut v, "] ");
    push_str(&mut v, options.title.as_str());
    push_str(&mut v, " - ");
    push_str(&mut v, options.body.as_str());
    push_str(&mut v, "\n");
    string_from(v.as_slice())
}

/// Keeps a notification in the notification center: the notification
/// center keeps it already where there is one, so nothing is done.
pub fn set_notification_keep_alive(notification_id: &str, keep: bool) {
}

} // verus!
