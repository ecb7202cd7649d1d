use vstd::prelude::*;

verus! {

/// Every way an operation of this crate can fail.
#[derive(Debug, Clone, Copy, PartialEq, Eq, Structural)]
pub enum Errors {
    MutexLockFailedError,
    EventReadFailedError,
    /// The directory that holds the profile files could not be listed.
    FSReadError,
    /// No profile could be loaded from the directory.
    NoTOMLFilesFoundError,
    ParseTOMLFilError,
    TOMLFileIsEmpty,
    RequestGetError,
    URLParseError,
    ParseTextError,
    /// A pair with the same URL and the same title is already stored.
    PairAlreadyExistsError,
    /// Another URL is already stored under the title.
    TitleCollisionError,
    /// The pair to delete is not in the profile.
    LookupDeletionFailedError,
    /// A search matched no pair.
    NothingFoundError,
    SelectorGenerateError,
    ParseTitleError,
    LookupFailedError,
    /// The terminal refused a command.
    WriteToStdoutError,
    /// The row below the last one drawn does not fit the cursor's range.
    CursorPosOverflowError,
}

} // verus!
