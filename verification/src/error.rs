//! What can go wrong.
use vstd::prelude::*;

verus! {

/// Error type for the orchestration core.
#[derive(Debug)]
pub enum TalesError {
    /// Reading or writing failed.
    Io(String),
    /// A text was no JSON of the expected form.
    Json(String),
    /// An agent's process did not start.
    Spawn(String),
    /// Anything else.
    Other(String),
}

/// How an error is told.
pub open spec fn told_error(e: TalesError) -> Seq<char> {
    match e {
        TalesError::Io(s) => "io error: "@ + s@,
        TalesError::Json(s) => "json error: "@ + s@,
        TalesError::Spawn(s) => "failed to spawn agent process: "@ + s@,
        TalesError::Other(s) => s@,
    }
}

impl TalesError {
    /// The error in words.
    pub fn message(&self) -> (r: String)
        ensures
            r@ == told_error(*self),
    {
        let mut out = String::new();
        match self {
            TalesError::Io(s) => {
                out.append("io error: ");
                out.append(s.as_str());
                proof {
                    assert(out@ =~= "io error: "@ + s@);
                }
            },
            TalesError::Json(s) => {
                out.append("json error: ");
                out.append(s.as_str());
                proof {
                    assert(out@ =~= "json error: "@ + s@);
                }
            },
            TalesError::Spawn(s) => {
                out.append("failed to spawn agent process: ");
                out.append(s.as_str());
                proof {
                    assert(out@ =~= "failed to spawn agent process: "@ + s@);
                }
            },
            TalesError::Other(s) => {
                out.append(s.as_str());
                proof {
                    assert(out@ =~= s@);
                }
            },
        }
        out
    }
}

/// Whether a check found `problem` and nothing else: success where there is
/// none, and otherwise the problem in its words.
pub open spec fn reports(r: Result<(), TalesError>, problem: Option<Seq<char>>) -> bool {
    match problem {
        None => r is Ok,
        Some(p) => r matches Err(TalesError::Other(m)) && m@ == p,
    }
}

} // verus!
