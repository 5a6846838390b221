//! Odds and ends around the analyzer: the syscall-handler types the
//! debugger installs into the machine, with their dispatch decisions
//! verified; cycle counts in human-readable form; and the process-level
//! time and randomness sources behind trusted wrappers.

use vstd::prelude::*;

verus! {

/// The syscall number a script uses to ask for the current time.
pub const SYSCALL_NUMBER_TIMESTAMP: u64 = 9001;

/// The syscall number a script uses to ask for a random number.
pub const SYSCALL_NUMBER_RANDOM: u64 = 9002;

/// The syscall number a script uses to write a whole file at once.
pub const SYSCALL_NUMBER_FILE_WRITE: u64 = 9013;

/// The largest byte count a file-operation syscall may transfer at once.
pub const FILE_TRANSFER_LIMIT: u64 = 3145728;

/// A cycle count wrapped for human-readable display; the embedding
/// program renders counts above a kibibyte with a scaled suffix.
pub struct HumanReadableCycles(pub u64);

/// A resource loader that answers every header or cell lookup with an
/// error naming the missing item; the mock-transaction layer installs it
/// where no real chain data is available.
pub struct DummyResourceLoader {}

/// The error message for a header lookup that cannot be served.
pub fn missing_header_message(hash: &str) -> (r: String)
    ensures
        r@ == "Header "@ + hash@ + " is missing!"@,
{
    let mut s = String::from_str("Header ");
    s.append(hash);
    s.append(" is missing!");
    proof {
        assert(s@ =~= "Header "@ + hash@ + " is missing!"@);
    }
    s
}

/// The error message for a live-cell lookup that cannot be served.
pub fn missing_cell_message(out_point: &str) -> (r: String)
    ensures
        r@ == "Cell: "@ + out_point@ + " is missing!"@,
{
    let mut s = String::from_str("Cell: ");
    s.append(out_point);
    s.append(" is missing!");
    proof {
        assert(s@ =~= "Cell: "@ + out_point@ + " is missing!"@);
    }
    s
}

/// The syscall handler answering timestamp requests.
pub struct Timestamp {}

impl Timestamp {
    pub fn new() -> (r: Timestamp)
        ensures
            r == (Timestamp {  }),
    {
        Timestamp {}
    }

    /// Whether this handler claims the syscall.
    pub fn handles(&self, id: u64) -> (r: bool)
        ensures
            r == (id == SYSCALL_NUMBER_TIMESTAMP),
    {
        id == SYSCALL_NUMBER_TIMESTAMP
    }
}

/// The syscall handler answering randomness requests.
pub struct Random {}

impl Random {
    pub fn new() -> (r: Random)
        ensures
            r == (Random {  }),
    {
        Random {}
    }

    /// Whether this handler claims the syscall.
    pub fn handles(&self, id: u64) -> (r: bool)
        ensures
            r == (id == SYSCALL_NUMBER_RANDOM),
    {
        id == SYSCALL_NUMBER_RANDOM
    }
}

/// The syscall handler writing a whole file handed over by the script.
pub struct FileWriter {}

impl FileWriter {
    pub fn new() -> (r: FileWriter)
        ensures
            r == (FileWriter {  }),
    {
        FileWriter {}
    }

    /// Whether this handler claims the syscall.
    pub fn handles(&self, id: u64) -> (r: bool)
        ensures
            r == (id == SYSCALL_NUMBER_FILE_WRITE),
    {
        id == SYSCALL_NUMBER_FILE_WRITE
    }
}

/// One buffered-file operation a script may request.
pub enum FileOpKind {
    Fopen,
    Freopen,
    Fread,
    Feof,
    Ferror,
    Fgetc,
    Fclose,
    Ftell,
    Fseek,
    Fwrite,
}

/// The syscall handler forwarding buffered-file operations to the host.
pub struct FileOperation {}

impl FileOperation {
    pub fn new() -> (r: FileOperation)
        ensures
            r == (FileOperation {  }),
    {
        FileOperation {}
    }

    /// Which buffered-file operation a syscall number asks for, if any:
    /// the ten numbers right after nine thousand and two, in the order
    /// open, reopen, read, end-of-file, error, get-character, close,
    /// tell, seek, write.
    pub fn kind_of(&self, id: u64) -> (r: Option<FileOpKind>)
        ensures
            r == (
                if id == 9003 {
                    Some(FileOpKind::Fopen)
                } else if id == 9004 {
                    Some(FileOpKind::Freopen)
                } else if id == 9005 {
                    Some(FileOpKind::Fread)
                } else if id == 9006 {
                    Some(FileOpKind::Feof)
                } else if id == 9007 {
                    Some(FileOpKind::Ferror)
                } else if id == 9008 {
                    Some(FileOpKind::Fgetc)
                } else if id == 9009 {
                    Some(FileOpKind::Fclose)
                } else if id == 9010 {
                    Some(FileOpKind::Ftell)
                } else if id == 9011 {
                    Some(FileOpKind::Fseek)
                } else if id == 9012 {
                    Some(FileOpKind::Fwrite)
                } else {
                    None
                }
            ),
    {
        if id == 9003 {
            Some(FileOpKind::Fopen)
        } else if id == 9004 {
            Some(FileOpKind::Freopen)
        } else if id == 9005 {
            Some(FileOpKind::Fread)
        } else if id == 9006 {
            Some(FileOpKind::Feof)
        } else if id == 9007 {
            Some(FileOpKind::Ferror)
        } else if id == 9008 {
            Some(FileOpKind::Fgetc)
        } else if id == 9009 {
            Some(FileOpKind::Fclose)
        } else if id == 9010 {
            Some(FileOpKind::Ftell)
        } else if id == 9011 {
            Some(FileOpKind::Fseek)
        } else if id == 9012 {
            Some(FileOpKind::Fwrite)
        } else {
            None
        }
    }
}

/// The byte count of a read or write of `nitems` items of `size` bytes,
/// if it is expressible and within the transfer limit; a request beyond
/// either is refused rather than attempted.
pub fn transfer_size(size: u64, nitems: u64) -> (r: Option<u64>)
    ensures
        size * nitems <= FILE_TRANSFER_LIMIT ==> r == Some((size * nitems) as u64),
        size * nitems > FILE_TRANSFER_LIMIT ==> r is None,
{
    match size.checked_mul(nitems) {
        Some(total) => if total <= FILE_TRANSFER_LIMIT {
            Some(total)
        } else {
            None
        },
        None => None,
    }
}

/// The short label of one traced virtual machine: its identifier, joined
/// with its generation where the generation is not the first.
pub fn collector_key_str(vm_id: u64, generation_id: u64) -> (r: String)
    ensures
        generation_id != 0 ==> r@ == crate::tags::dec_chars(vm_id as nat) + "/"@
            + crate::tags::dec_chars(generation_id as nat),
        generation_id == 0 ==> r@ == crate::tags::dec_chars(vm_id as nat),
{
    let mut s = crate::tags::u64_to_dec(vm_id);
    if generation_id != 0 {
        s.append("/");
        let g = crate::tags::u64_to_dec(generation_id);
        s.append(g.as_str());
    }
    s
}

/// Relies on the standard library's system clock: nanoseconds since the
/// epoch, for the timestamp syscall.
#[verifier::external_body]
pub fn timestamp() -> u64 {
    std::time::SystemTime::now()
        .duration_since(std::time::SystemTime::UNIX_EPOCH)
        .map(|d| d.as_nanos() as u64)
        .unwrap_or(0)
}

/// Relies on the rand crate's `random`: a fresh random number for the
/// randomness syscall; nothing can be promised of its value.
#[verifier::external_body]
pub fn random() -> u64 {
    rand::random()
}

} // verus!
