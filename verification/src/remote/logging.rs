//! Whether the program on the remote host writes down what it does.
use crate::text::same;
use vstd::prelude::*;

verus! {

/// The file it writes to.
pub const LOG_FILE: &'static str = ".gmf-remote.log";

/// Whether it writes, by the setting in the environment: not without one, and not when
/// it says `None`.
pub fn init_logging(setting: &Option<String>) -> (r: bool)
    ensures
        r == (setting is Some && setting->0@ != "None"@),
{
    match setting {
        None => false,
        Some(text) => !same(text.as_str(), "None"),
    }
}

}
