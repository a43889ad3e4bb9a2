use vstd::prelude::*;
use crate::text::same_text;

verus! {

/// An AFK status that may precede sleep: `afk` or `idle`.
pub open spec fn away_status(status: Seq<char>) -> bool {
    status == "afk"@ || status == "idle"@
}

/// Whether an AFK event with `status` should flush the batch, given whether
/// the configuration asks for flushing on AFK.
pub fn afk_triggers_flush(status: &str, flush_on_afk: bool) -> (r: bool)
    ensures
        r == (away_status(status@) && flush_on_afk),
{
    (same_text(status, "afk") || same_text(status, "idle")) && flush_on_afk
}

/// The application tag of a window event: the name, or `unknown` where it
/// is missing or empty (the destination refuses empty tags).
pub fn app_name_or_unknown(app: Option<&str>) -> (r: String)
    ensures
        match app {
            Some(a) => if a@.len() > 0 { r@ == a@ } else { r@ == "unknown"@ },
            None => r@ == "unknown"@,
        },
{
    match app {
        Some(a) => {
            if a.is_empty() {
                String::from_str("unknown")
            } else {
                String::from_str(a)
            }
        },
        None => String::from_str("unknown"),
    }
}

} // verus!
