//! The filesystem-backed secrets controller's domain logic: where a secret
//! lives on disk. The file writes and removals themselves are
//! operating-system work outside this library.

use vstd::prelude::*;

use crate::ids::GlobalId;

verus! {

/// A secrets controller that keeps each secret in one file, named after its
/// global identifier, under one directory.
pub struct FilesystemSecretsController {
    secrets_storage_path: String,
}

impl FilesystemSecretsController {
    /// The directory secrets are stored under.
    pub closed spec fn path_spec(&self) -> Seq<char> {
        self.secrets_storage_path@
    }

    /// Creates a controller over this storage directory.
    pub fn new(secrets_storage_path: String) -> (r: FilesystemSecretsController)
        ensures
            r.path_spec() == secrets_storage_path@,
    {
        FilesystemSecretsController { secrets_storage_path }
    }

    /// The storage directory.
    pub fn storage_path(&self) -> (r: &String)
        ensures
            r@ == self.path_spec(),
    {
        &self.secrets_storage_path
    }

    /// The file name a secret is kept under: the external text of its
    /// identifier.
    pub fn secret_file_name(&self, id: &GlobalId) -> (r: String)
        ensures
            r@ == id.text(),
    {
        id.to_text()
    }
}

} // verus!
