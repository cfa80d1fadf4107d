use vstd::prelude::*;

verus! {

/// The temporary directory of one download, which is to be removed once the
/// download has been delivered or has failed.
pub struct TempDirGuard {
    path: String,
}

impl View for TempDirGuard {
    type V = Seq<char>;

    closed spec fn view(&self) -> Seq<char> {
        self.path@
    }
}

impl TempDirGuard {
    /// A guard for the directory at `path`.
    pub fn new(path: String) -> (r: Self)
        ensures
            r@ == path@,
    {
        TempDirGuard { path }
    }

    /// The guarded directory.
    pub fn path(&self) -> (r: &str)
        ensures
            r@ == self@,
    {
        self.path.as_str()
    }
}

} // verus!
