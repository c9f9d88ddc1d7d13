use vstd::prelude::*;

verus! {

/// The one operation a process invocation performs. Exactly one of these is
/// selected from the command line; they are never combined or queued.
#[derive(Debug)]
pub enum Operation {
    /// Ensure the Blackhole exists, decorate it, and open it in the file
    /// browser.
    Initialize,
    /// Stage and discard the Blackhole's current contents.
    Purge,
    /// Admit the named file or directory into the Blackhole.
    SendTo(String),
}

/// Selects the operation from the process arguments (the program name already
/// stripped): no arguments initialize, `--purge` alone purges, `--send` with
/// exactly one path sends. Any other shape is a usage error and is not
/// dispatched.
pub fn parse_operation(args: &Vec<String>) -> (r: Option<Operation>)
    ensures
        match r {
            Some(op) => match op {
                Operation::Initialize => args@.len() == 0,
                Operation::Purge => args.deep_view() == seq!["--purge"@],
                Operation::SendTo(p) => args@.len() == 2 && args.deep_view()[0] == "--send"@ && p@
                    == args.deep_view()[1],
            },
            None => {
                &&& args@.len() != 0
                &&& args.deep_view() != seq!["--purge"@]
                &&& !(args@.len() == 2 && args.deep_view()[0] == "--send"@)
            },
        },
{
    proof {
        if args@.len() > 0 {
            assert(args.deep_view()[0] == args@[0]@);
        }
    }
    if args.len() == 0 {
        return Some(Operation::Initialize);
    }
    if args.len() == 1 {
        if (&args[0]).eq(&"--purge".to_owned()) {
            proof {
                assert(args.deep_view() =~= seq!["--purge"@]);
            }
            return Some(Operation::Purge);
        }
        proof {
            assert(args.deep_view() != seq!["--purge"@]) by {
                assert(args.deep_view()[0] != seq!["--purge"@][0]);
            }
        }
        return None;
    }
    if args.len() == 2 && (&args[0]).eq(&"--send".to_owned()) {
        return Some(Operation::SendTo(args[1].clone()));
    }
    proof {
        assert(args.deep_view().len() != 1);
        assert(args.deep_view() != seq!["--purge"@]);
    }
    None
}

} // verus!
