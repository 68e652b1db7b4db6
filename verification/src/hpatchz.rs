//! Process-wide state for the external binary patcher.
//!
//! The patcher ships as an embedded executable that is extracted to a
//! temporary directory once per process and reused for every patch. The
//! handle here models that cache with explicit lazy-initialize-once
//! semantics: recording a path a second time changes nothing, and teardown
//! is an explicit call that hands the recorded path back for removal.

use vstd::prelude::*;

verus! {

/// The process-wide handle on the extracted patcher executable.
pub struct HPatchZ {
    pub exe_path: Option<String>,
}

impl HPatchZ {
    /// A fresh handle: nothing extracted yet.
    pub fn new() -> (r: HPatchZ)
        ensures
            r.exe_path is None,
    {
        HPatchZ { exe_path: None }
    }

    /// The path of the extracted executable, once initialization recorded
    /// it. Before that there is nothing to run.
    pub fn get_exe_path(&self) -> (r: Option<&String>)
        ensures
            match self.exe_path {
                Some(p) => r matches Some(q) && *q == p,
                None => r is None,
            },
    {
        self.exe_path.as_ref()
    }

    /// Whether the executable's path has been recorded.
    pub fn initialized(&self) -> (r: bool)
        ensures
            r == (self.exe_path is Some),
    {
        self.exe_path.is_some()
    }

    /// Record where the executable was extracted to. Initialization is
    /// once-only: a handle that already carries a path keeps it, so a
    /// second initialization is harmless.
    pub fn initialize(&mut self, path: String)
        ensures
            old(self).exe_path is None ==> final(self).exe_path == Some(path),
            old(self).exe_path is Some ==> final(self).exe_path == old(self).exe_path,
    {
        if self.exe_path.is_none() {
            self.exe_path = Some(path);
        }
    }

    /// Explicit teardown at end of run: forget the recorded path and hand
    /// it back so the caller can remove the extraction directory. The
    /// handle is uninitialized afterwards.
    pub fn cleanup(&mut self) -> (r: Option<String>)
        ensures
            final(self).exe_path is None,
            r == old(self).exe_path,
    {
        self.exe_path.take()
    }
}

/// The argument list the external patcher is invoked with: the force flag,
/// the source file (empty when the target is built from the patch payload
/// alone), the patch file, and the target file.
pub fn patch_arguments(source: Option<&String>, diff: &String, target: &String) -> (r: Vec<String>)
    ensures
        r@.map_values(|s: String| s@) == seq![
            "-f"@,
            match source {
                Some(s) => s@,
                None => Seq::<char>::empty(),
            },
            diff@,
            target@,
        ],
{
    let mut args: Vec<String> = Vec::new();
    args.push("-f".to_owned());
    match source {
        Some(s) => args.push(s.clone()),
        None => args.push(String::new()),
    }
    args.push(diff.clone());
    args.push(target.clone());
    proof {
        assert(args@.map_values(|s: String| s@) =~= seq![
            "-f"@,
            match source {
                Some(s) => s@,
                None => Seq::<char>::empty(),
            },
            diff@,
            target@,
        ]);
    }
    args
}

} // verus!
