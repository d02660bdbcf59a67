//! What all windows have in common: the application's name, how a session ends, and switches
//! in the environment.

use vstd::prelude::*;
use vstd::string::{StrSliceExecFns, StringExecFns};

use crate::strings::{decimal, eq_ignoring_case, trim};

verus! {

use crate::strings::{decimal_of, same_char_ignoring_case, same_ignoring_case, trimmed};

/// The name under which the application's windows and its tray item are known.
pub const APP_ID: &'static str = "noirbizar.re.Snypr";

/// The toolkit has ended with a failure.
#[derive(Clone, Copy, Debug, PartialEq, Eq, Structural)]
pub struct GtkExit {
    pub code: i32,
}

impl GtkExit {
    /// The error as text.
    pub fn message(&self) -> (res: String)
        ensures
            res@ == "GTK exited with status "@ + decimal_of(self.code as int),
    {
        let mut out = String::from_str("GTK exited with status ");
        out.append(decimal(self.code as i64).as_str());
        out
    }
}

/// What an exit status of the toolkit comes to.
pub open spec fn exit_result(code: i32) -> Result<(), GtkExit> {
    if code == 0 {
        Ok(())
    } else {
        Err(GtkExit { code })
    }
}

/// Takes the toolkit's exit status. Any status but zero is a failure.
pub fn check_gtk_exit(code: i32) -> (res: Result<(), GtkExit>)
    ensures
        res == exit_result(code),
{
    if code != 0 {
        return Err(GtkExit { code });
    }
    Ok(())
}

/// The value turns a switch on: it is set, and is none of the words for off.
pub open spec fn is_on(value: Option<Seq<char>>) -> bool {
    match value {
        Some(text) => {
            let word = trimmed(text);
            !(word.len() == 0 || same_ignoring_case(word, "0"@) || same_ignoring_case(
                word,
                "false"@,
            ) || same_ignoring_case(word, "no"@))
        },
        None => false,
    }
}

pub open spec fn optional_view(value: Option<&str>) -> Option<Seq<char>> {
    match value {
        Some(text) => Some(text@),
        None => None,
    }
}

/// Tells whether the value of an environment variable turns a switch on. White space around it
/// and the case of its letters do not matter.
pub fn is_enabled(value: Option<&str>) -> (res: bool)
    ensures
        res == is_on(optional_view(value)),
{
    match value {
        Some(text) => {
            let word = trim(text);
            !(word.is_empty() || eq_ignoring_case(word, "0") || eq_ignoring_case(word, "false")
                || eq_ignoring_case(word, "no"))
        },
        None => false,
    }
}

// ---- laws ----------------------------------------------------------------------------------
/// The toolkit succeeds with the status zero alone, and a failure keeps its status.
pub proof fn only_zero_is_success(code: i32)
    ensures
        exit_result(code) is Ok <==> code == 0,
        exit_result(code) matches Err(e) ==> e.code == code,
{
}

/// A switch is off where its variable is not set, is blank, or says so; any other word turns it
/// on.
pub proof fn a_switch_is_on_unless_it_says_off(text: Seq<char>)
    ensures
        !is_on(None),
        trimmed(text).len() == 0 ==> !is_on(Some(text)),
        same_ignoring_case(trimmed(text), "0"@) ==> !is_on(Some(text)),
        same_ignoring_case(trimmed(text), "false"@) ==> !is_on(Some(text)),
        same_ignoring_case(trimmed(text), "no"@) ==> !is_on(Some(text)),
        trimmed(text).len() > 5 ==> is_on(Some(text)),
        trimmed(text) == "1"@ || trimmed(text) == "true"@ || trimmed(text) == "yes"@ ==> is_on(
            Some(text),
        ),
{
    reveal_strlit("0");
    reveal_strlit("false");
    reveal_strlit("no");
    reveal_strlit("1");
    reveal_strlit("true");
    reveal_strlit("yes");
    let word = trimmed(text);
    if word == "1"@ {
        assert(!same_char_ignoring_case(word[0], "0"@[0]));
    }
}

} // verus!
