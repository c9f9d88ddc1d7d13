use vstd::prelude::*;
use vstd::string::StringExecFns;

verus! {

/// Renders the messages the tool shows the user. The library only builds the
/// text; the host decides how to display it (console, message box) and whether
/// to abort afterwards.
pub struct Show;

impl Show {
    /// The message shown for a fatal failure, after which the host aborts the
    /// operation.
    pub fn panic(err: &String) -> (r: String)
        ensures
            r@ == "Blackhole PANIC: "@ + err@,
    {
        let mut r = "Blackhole PANIC: ".to_owned();
        r.append(err.as_str());
        r
    }

    /// The message shown for a non-fatal error.
    pub fn error(err: &String) -> (r: String)
        ensures
            r@ == "Blackhole ERROR: "@ + err@,
    {
        let mut r = "Blackhole ERROR: ".to_owned();
        r.append(err.as_str());
        r
    }

    /// The message shown for plain information.
    pub fn msg(err: &String) -> (r: String)
        ensures
            r@ == "Blackhole INFO: "@ + err@,
    {
        let mut r = "Blackhole INFO: ".to_owned();
        r.append(err.as_str());
        r
    }
}

} // verus!
