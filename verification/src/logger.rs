//! The decisions behind forwarding log lines to subscribers: which log
//! targets are forwarded (the web-serving stack's own chatter is not, to
//! keep a log line from generating more log lines), how a line is rendered,
//! and how a log event's message field is collected.

use vstd::prelude::*;

use crate::strings::{is_prefix, str_starts_with};

verus! {

/// Whether a log record from this target is forwarded to subscribers:
/// everything except the web-serving stack's own output.
pub open spec fn forwards_target(target: Seq<char>) -> bool {
    !is_prefix(target, "axum::"@) && !is_prefix(target, "hyper::"@) && !is_prefix(
        target,
        "tokio_tungstenite::"@,
    ) && !is_prefix(target, "tower_http::"@)
}

/// Whether a log record from this target is forwarded.
pub fn should_forward_log(target: &str) -> (r: bool)
    ensures
        r == forwards_target(target@),
{
    !str_starts_with(target, "axum::") && !str_starts_with(target, "hyper::")
        && !str_starts_with(target, "tokio_tungstenite::") && !str_starts_with(
        target,
        "tower_http::",
    )
}

/// The rendered log line: `[LEVEL] [target] message`.
pub open spec fn log_line(level: Seq<char>, target: Seq<char>, message: Seq<char>) -> Seq<char> {
    "["@ + level + "] ["@ + target + "] "@ + message
}

/// Renders one log line.
pub fn format_log_line(level: &str, target: &str, message: &str) -> (r: String)
    ensures
        r@ == log_line(level@, target@, message@),
{
    let mut s = "[".to_owned();
    s.append(level);
    s.append("] [");
    s.append(target);
    s.append("] ");
    s.append(message);
    s
}

/// Collects the message field of one log event: the field named `message`
/// wins; otherwise the first field recorded fills in.
pub struct LogVisitor {
    pub message: String,
}

impl LogVisitor {
    /// A visitor that has seen nothing yet.
    pub fn new() -> (r: LogVisitor)
        ensures
            r.message@ == Seq::<char>::empty(),
    {
        LogVisitor { message: String::new() }
    }

    /// Records a string field: kept when the field is the message or when
    /// no message has been collected yet.
    pub fn record_str(&mut self, field_name: &str, value: &str)
        ensures
            final(self).message@ == if field_name@ == "message"@ || old(self).message@.len() == 0 {
                value@
            } else {
                old(self).message@
            },
    {
        proof {
            reveal_strlit("message");
        }
        if str_is_message(field_name) || self.message.as_str().unicode_len() == 0 {
            self.message = value.to_owned();
        }
    }

    /// Records a field already rendered by its debug form: a rendering
    /// wrapped in double quotes loses them.
    pub fn record_debug(&mut self, field_name: &str, rendered: &str)
        ensures
            final(self).message@ == if field_name@ == "message"@ || old(self).message@.len() == 0 {
                strip_quotes(rendered@)
            } else {
                old(self).message@
            },
    {
        if str_is_message(field_name) || self.message.as_str().unicode_len() == 0 {
            let len = rendered.unicode_len();
            if len >= 2 && rendered.get_char(0) == '"' && rendered.get_char(len - 1) == '"' {
                self.message = rendered.substring_char(1, len - 1).to_owned();
            } else {
                self.message = rendered.to_owned();
            }
        }
    }
}

/// A rendering wrapped in double quotes, without them; anything else
/// unchanged.
pub open spec fn strip_quotes(s: Seq<char>) -> Seq<char> {
    if s.len() >= 2 && s[0] == '"' && s[s.len() - 1] == '"' {
        s.subrange(1, s.len() - 1)
    } else {
        s
    }
}

/// Whether this is the message field.
fn str_is_message(field_name: &str) -> (r: bool)
    ensures
        r == (field_name@ == "message"@),
{
    crate::strings::str_eq_str(field_name, "message")
}

} // verus!
