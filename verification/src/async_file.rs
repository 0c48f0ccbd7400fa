use vstd::prelude::*;

verus! {

/// Why a file operation failed.
#[derive(Debug, Clone, Copy, PartialEq, Eq, Structural)]
pub enum FileError {
    CannotRead,
    CannotWrite,
    CannotSeek,
    InvalidSeekOption,
    Other,
}

/// The kinds of I/O failure that file operations tell apart.
#[derive(Debug, Clone, Copy, PartialEq, Eq, Structural)]
pub enum IoErrorKind {
    NotFound,
    ReadOnlyFilesystem,
    NotSeekable,
    Other,
}

/// What a file handle is: nothing, one of the standard streams, or a file on disk.
#[derive(Debug, Clone, Copy, PartialEq, Eq, Structural)]
pub enum FileKind {
    /// Represents no file. Reading and writing does nothing.
    Null,
    Stdin,
    Stdout,
    Stderr,
    File,
}

/// Where a seek counts its offset from.
#[derive(Debug, Clone, Copy, PartialEq, Eq, Structural)]
pub enum SeekOrigin {
    Start(u64),
    End(i64),
    Current(i64),
}

/// What an operation on a file handle comes to before any I/O is done.
#[derive(Debug, Clone, Copy, PartialEq, Eq, Structural)]
pub enum Dispatch {
    /// The handle is the null file: the operation succeeds without doing anything.
    Nothing,
    /// The operation is handed to the underlying stream or file.
    Forward,
    /// The handle cannot do this operation.
    Refuse(FileError),
}

/// The error a failed I/O operation reports to a program.
pub fn file_error(kind: IoErrorKind) -> (e: FileError)
    ensures
        e == (match kind {
            IoErrorKind::ReadOnlyFilesystem => FileError::CannotWrite,
            IoErrorKind::NotSeekable => FileError::CannotSeek,
            _ => FileError::Other,
        }),
{
    match kind {
        IoErrorKind::ReadOnlyFilesystem => FileError::CannotWrite,
        IoErrorKind::NotSeekable => FileError::CannotSeek,
        _ => FileError::Other,
    }
}

/// Reading: the null file reads nothing, standard input and files are read, the output streams
/// cannot be read.
pub fn read_dispatch(kind: FileKind) -> (d: Dispatch)
    ensures
        d == (match kind {
            FileKind::Null => Dispatch::Nothing,
            FileKind::Stdin | FileKind::File => Dispatch::Forward,
            _ => Dispatch::Refuse(FileError::CannotRead),
        }),
{
    match kind {
        FileKind::Null => Dispatch::Nothing,
        FileKind::Stdin | FileKind::File => Dispatch::Forward,
        _ => Dispatch::Refuse(FileError::CannotRead),
    }
}

/// Writing: the null file takes everything, the output streams are written, standard input and
/// files cannot be written.
pub fn write_dispatch(kind: FileKind) -> (d: Dispatch)
    ensures
        d == (match kind {
            FileKind::Null => Dispatch::Nothing,
            FileKind::Stdout | FileKind::Stderr => Dispatch::Forward,
            _ => Dispatch::Refuse(FileError::CannotWrite),
        }),
{
    match kind {
        FileKind::Null => Dispatch::Nothing,
        FileKind::Stdout | FileKind::Stderr => Dispatch::Forward,
        _ => Dispatch::Refuse(FileError::CannotWrite),
    }
}

/// The origin a program's seek option names: 0 is the start (the offset taken as unsigned), 1
/// the end and 2 the current position; any other option is refused.
pub fn seek_origin(offset: i64, from: u8) -> (r: Result<SeekOrigin, FileError>)
    ensures
        from == 0 ==> r == Ok::<SeekOrigin, FileError>(SeekOrigin::Start(offset as u64)),
        from == 1 ==> r == Ok::<SeekOrigin, FileError>(SeekOrigin::End(offset)),
        from == 2 ==> r == Ok::<SeekOrigin, FileError>(SeekOrigin::Current(offset)),
        from > 2 ==> r == Err::<SeekOrigin, FileError>(FileError::InvalidSeekOption),
{
    match from {
        0 => Ok(SeekOrigin::Start(offset as u64)),
        1 => Ok(SeekOrigin::End(offset)),
        2 => Ok(SeekOrigin::Current(offset)),
        _ => Err(FileError::InvalidSeekOption),
    }
}

/// Seeking: an invalid option is refused first; then the null file stays put, files are
/// seeked, and the standard streams cannot seek.
pub fn seek_dispatch(kind: FileKind, from: u8) -> (d: Dispatch)
    ensures
        d == (if from > 2 {
            Dispatch::Refuse(FileError::InvalidSeekOption)
        } else {
            match kind {
                FileKind::Null => Dispatch::Nothing,
                FileKind::File => Dispatch::Forward,
                _ => Dispatch::Refuse(FileError::CannotSeek),
            }
        }),
{
    if from > 2 {
        return Dispatch::Refuse(FileError::InvalidSeekOption);
    }
    match kind {
        FileKind::Null => Dispatch::Nothing,
        FileKind::File => Dispatch::Forward,
        _ => Dispatch::Refuse(FileError::CannotSeek),
    }
}

} // verus!
