//! Directories for tests.
use vstd::prelude::*;

use crate::number::{decimal, to_decimal};
use crate::paths::{join_path, path_join};
use crate::text::cat3;

verus! {

/// A directory of a test's own below the host's directory for such things. The
/// host makes it and removes it.
#[derive(Debug)]
pub struct TempDir {
    path: String,
}

impl View for TempDir {
    type V = Seq<char>;

    closed spec fn view(&self) -> Seq<char> {
        self.path@
    }
}

/// The name of a test's directory: its tag, the process and the time.
pub open spec fn temp_name(tag: Seq<char>, pid: u32, nanos: u64) -> Seq<char> {
    "huggr-"@ + tag + "-"@ + decimal(pid as nat) + "-"@ + decimal(nanos as nat)
}

impl TempDir {
    /// A directory that no other process and no other time has.
    pub fn new(temp_root: &str, tag: &str, pid: u32, nanos: u64) -> (r: TempDir)
        ensures
            r@ == path_join(temp_root@, temp_name(tag@, pid, nanos)),
    {
        let mut name = cat3("huggr-", tag, "-");
        name.append(to_decimal(pid as u64).as_str());
        name.append("-");
        name.append(to_decimal(nanos).as_str());
        TempDir { path: join_path(temp_root, name.as_str()) }
    }

    /// The path of the directory.
    pub fn path(&self) -> (r: &str)
        ensures
            r@ == self@,
    {
        self.path.as_str()
    }
}

} // verus!
