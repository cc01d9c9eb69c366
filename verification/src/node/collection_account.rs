//! The file which holds a fee collector account and its signing key.

use vstd::prelude::*;

verus! {

/// Only the owner may read and write the file, `0o600`.
pub const ACCOUNT_FILE_MODE: u32 = 384;

/// How the account file is opened.
#[derive(Debug, Clone, Copy, PartialEq, Eq, Structural)]
pub struct AccountFileOptions {
    pub create_new: bool,
    pub create: bool,
    pub truncate: bool,
    pub write: bool,
    pub mode: u32,
}

/// How the account file is opened, with or without `clobber`.
pub open spec fn options_of(clobber: bool) -> AccountFileOptions {
    AccountFileOptions {
        create_new: !clobber,
        create: clobber,
        truncate: clobber,
        write: true,
        mode: ACCOUNT_FILE_MODE,
    }
}

/// Decides how the account file is opened. A file which exists is never overwritten, unless
/// `clobber` asks for it; then nothing of it is left.
pub fn account_file_options(clobber: bool) -> (options: AccountFileOptions)
    ensures
        options == options_of(clobber),
{
    AccountFileOptions {
        create_new: !clobber,
        create: clobber,
        truncate: clobber,
        write: true,
        mode: ACCOUNT_FILE_MODE,
    }
}

/// The account file is written by its owner alone. A file which exists is replaced, and then emptied
/// first, exactly when that is asked for.
pub proof fn law_account_file_is_kept_unless_asked(clobber: bool)
    ensures
        options_of(clobber).write,
        options_of(clobber).mode == 6 * 8 * 8,
        options_of(clobber).create_new <==> !clobber,
        options_of(clobber).create <==> clobber,
        options_of(clobber).truncate <==> clobber,
{
}

} // verus!
