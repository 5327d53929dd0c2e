//! The command line of the editor.
use vstd::prelude::*;

verus! {

/// The arguments the editor is started with: the file to open in the
/// first window, if any.
pub struct Cli {
    pub file_name: Option<String>,
}

} // verus!
