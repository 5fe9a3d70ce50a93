use vstd::prelude::*;

verus! {

/// Get the target file name
pub trait GetTargetFileName {
    /// Get the target file name.
    /// The target file name just used in the message in progress bar.
    ///
    /// If is unknown, return [None] is fine.
    fn get_target_file_name(&self) -> (r: Option<String>)
        default_ensures
            r is None,
    {
        None
    }
}

} // verus!
