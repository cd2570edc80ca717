//! Named shared memory regions: exclusive creation with owning cleanup,
//! opening of existing regions, and bounds-checked byte access.
//!
//! An owning mapping ([`OwnedShmMap`]) created the backing resource and is
//! exclusively responsible for destroying it, exactly once, on release.
//! A non-owning mapping ([`ShmMap`]) only detaches its own view.
//!
//! An owning mapping carries a ghost model of the region's contents: the
//! bytes it has written over the zero-filled initial state. The region is
//! shared, so reads promise only a length; the single-writer protocols in
//! [`crate::log`] and [`crate::dict`] state their guarantees over the
//! owner's model.

use crate::layout::{splice, lemma_splice, MAX_REGION_BYTES};
use nix::fcntl::OFlag;
use nix::sys::stat::Mode;
use vstd::prelude::*;

verus! {

/// A shared memory object, described by the path of its name in the
/// host's shared-memory namespace and its size in bytes.
#[derive(Debug)]
pub struct ShmDefinition {
    /// The path at which the shared memory object is created or opened.
    pub path: String,
    /// The size in bytes of the shared memory object.
    pub size: usize,
}

/// Conditions reported when managing shared memory on a POSIX system,
/// mapped from the raw errno values. The same errno may map to different
/// variants depending on the operation that reported it.
#[derive(Debug, PartialEq, Eq, Structural)]
pub enum ErrorCode {
    /// The process could not access the given path to open a shared memory object.
    ShmPathAccessDenied,
    /// The process tried to create a shared memory object but the path already existed.
    ShmPathAlreadyExists,
    /// The path given to open the shared memory object is invalid.
    ShmPathInvalid,
    /// The maximum number of open file descriptors for this process was exceeded.
    ProcessTooManyOpenFD,
    /// The path for the shared memory object is too long.
    ShmPathTooLong,
    /// The maximum number of open files for the system was exceeded.
    SystemTooManyOpenFiles,
    /// The path where the shared memory object should be opened does not exist.
    ShmPathDoesNotExist,
    /// A signal interrupted the truncation.
    TruncateInterrupted,
    /// The specified size was too small or too large.
    InvalidTruncationSize,
    /// The arguments to the mapping request were invalid.
    InvalidMMapArguments,
    /// Not enough memory to map the region.
    OutOfMemory,
    /// Incorrect or insufficient permission to map the region.
    MissingPermission,
    /// An IO error occurred when closing the shared memory object descriptor.
    CloseIOError,
    /// Closing the shared memory object descriptor was interrupted by a signal.
    CloseInterrupted,
    /// Attempt to unlink a shared memory object that does not exist.
    UnlinkingANonExistentFile,
    /// The kernel transferred fewer bytes than requested on a write.
    IncompleteWrite,
    /// The kernel transferred fewer bytes than requested on a read.
    IncompleteRead,
    /// An unmapped condition was reported with the given errno.
    Unknown(i32),
}

/// errno: permission denied.
pub const EACCES: i32 = 13;
/// errno: file exists.
pub const EEXIST: i32 = 17;
/// errno: invalid argument.
pub const EINVAL: i32 = 22;
/// errno: too many open files in this process.
pub const EMFILE: i32 = 24;
/// errno: file name too long.
pub const ENAMETOOLONG: i32 = 36;
/// errno: too many open files in the system.
pub const ENFILE: i32 = 23;
/// errno: no such file or directory.
pub const ENOENT: i32 = 2;
/// errno: interrupted system call.
pub const EINTR: i32 = 4;
/// errno: input/output error.
pub const EIO: i32 = 5;
/// errno: argument list too long.
pub const E2BIG: i32 = 7;
/// errno: cannot allocate memory.
pub const ENOMEM: i32 = 12;
/// errno: operation not permitted.
pub const EPERM: i32 = 1;

/// The condition reported when creating or opening the named object fails
/// with the given errno.
pub open spec fn spec_map_open_error(errno: i32) -> ErrorCode {
    if errno == EACCES {
        ErrorCode::ShmPathAccessDenied
    } else if errno == EEXIST {
        ErrorCode::ShmPathAlreadyExists
    } else if errno == EINVAL {
        ErrorCode::ShmPathInvalid
    } else if errno == EMFILE {
        ErrorCode::ProcessTooManyOpenFD
    } else if errno == ENAMETOOLONG {
        ErrorCode::ShmPathTooLong
    } else if errno == ENFILE {
        ErrorCode::SystemTooManyOpenFiles
    } else if errno == ENOENT {
        ErrorCode::ShmPathDoesNotExist
    } else {
        ErrorCode::Unknown(errno)
    }
}

/// Maps an errno from creating or opening the named object.
pub fn map_open_error(errno: i32) -> (r: ErrorCode)
    ensures
        r == spec_map_open_error(errno),
{
    if errno == EACCES {
        ErrorCode::ShmPathAccessDenied
    } else if errno == EEXIST {
        ErrorCode::ShmPathAlreadyExists
    } else if errno == EINVAL {
        ErrorCode::ShmPathInvalid
    } else if errno == EMFILE {
        ErrorCode::ProcessTooManyOpenFD
    } else if errno == ENAMETOOLONG {
        ErrorCode::ShmPathTooLong
    } else if errno == ENFILE {
        ErrorCode::SystemTooManyOpenFiles
    } else if errno == ENOENT {
        ErrorCode::ShmPathDoesNotExist
    } else {
        ErrorCode::Unknown(errno)
    }
}

/// The condition reported when sizing the object fails with the given errno.
pub open spec fn spec_map_truncate_error(errno: i32) -> ErrorCode {
    if errno == EINTR {
        ErrorCode::TruncateInterrupted
    } else if errno == EINVAL || errno == E2BIG {
        ErrorCode::InvalidTruncationSize
    } else {
        ErrorCode::Unknown(errno)
    }
}

/// Maps an errno from sizing the shared memory object.
pub fn map_truncate_error(errno: i32) -> (r: ErrorCode)
    ensures
        r == spec_map_truncate_error(errno),
{
    if errno == EINTR {
        ErrorCode::TruncateInterrupted
    } else if errno == EINVAL || errno == E2BIG {
        ErrorCode::InvalidTruncationSize
    } else {
        ErrorCode::Unknown(errno)
    }
}

/// The condition reported when mapping the object fails with the given errno.
pub open spec fn spec_map_mmap_error(errno: i32) -> ErrorCode {
    if errno == EINVAL {
        ErrorCode::InvalidMMapArguments
    } else if errno == ENOMEM {
        ErrorCode::OutOfMemory
    } else if errno == EPERM {
        ErrorCode::MissingPermission
    } else {
        ErrorCode::Unknown(errno)
    }
}

/// Maps an errno from mapping the shared memory object.
pub fn map_mmap_error(errno: i32) -> (r: ErrorCode)
    ensures
        r == spec_map_mmap_error(errno),
{
    if errno == EINVAL {
        ErrorCode::InvalidMMapArguments
    } else if errno == ENOMEM {
        ErrorCode::OutOfMemory
    } else if errno == EPERM {
        ErrorCode::MissingPermission
    } else {
        ErrorCode::Unknown(errno)
    }
}

/// The condition reported when closing the descriptor fails with the given errno.
pub open spec fn spec_map_close_error(errno: i32) -> ErrorCode {
    if errno == EINTR {
        ErrorCode::CloseInterrupted
    } else if errno == EIO {
        ErrorCode::CloseIOError
    } else {
        ErrorCode::Unknown(errno)
    }
}

/// Maps an errno from closing the shared memory object descriptor.
pub fn map_close_error(errno: i32) -> (r: ErrorCode)
    ensures
        r == spec_map_close_error(errno),
{
    if errno == EINTR {
        ErrorCode::CloseInterrupted
    } else if errno == EIO {
        ErrorCode::CloseIOError
    } else {
        ErrorCode::Unknown(errno)
    }
}

/// The condition reported when unlinking the name fails with the given errno.
pub open spec fn spec_map_unlink_error(errno: i32) -> ErrorCode {
    if errno == ENOENT {
        ErrorCode::UnlinkingANonExistentFile
    } else {
        ErrorCode::Unknown(errno)
    }
}

/// Maps an errno from unlinking the shared memory object's name.
pub fn map_unlink_error(errno: i32) -> (r: ErrorCode)
    ensures
        r == spec_map_unlink_error(errno),
{
    if errno == ENOENT {
        ErrorCode::UnlinkingANonExistentFile
    } else {
        ErrorCode::Unknown(errno)
    }
}

#[verifier::external_type_specification]
#[verifier::external_body]
pub struct ExMmapRaw(memmap2::MmapRaw);

/// Relies on nix's shm_open with O_CREAT | O_EXCL | O_RDWR and owner
/// read/write mode: exclusively creates a POSIX shared memory object and
/// returns its descriptor; on failure returns the raw errno.
#[verifier::external_body]
fn shm_open_excl(path: &str) -> (r: Result<i32, i32>)
    ensures
        r matches Ok(fd) ==> fd >= 0,
{
    match nix::sys::mman::shm_open(
        path,
        OFlag::O_CREAT | OFlag::O_EXCL | OFlag::O_RDWR,
        Mode::S_IRUSR | Mode::S_IWUSR,
    ) {
        Ok(fd) => Ok(fd),
        Err(e) => Err(e as i32),
    }
}

/// Relies on nix's shm_open with O_RDWR: opens an existing POSIX shared
/// memory object read/write and returns its descriptor; on failure
/// returns the raw errno.
#[verifier::external_body]
fn shm_open_rw(path: &str) -> (r: Result<i32, i32>)
    ensures
        r matches Ok(fd) ==> fd >= 0,
{
    match nix::sys::mman::shm_open(path, OFlag::O_RDWR, Mode::S_IRUSR | Mode::S_IWUSR) {
        Ok(fd) => Ok(fd),
        Err(e) => Err(e as i32),
    }
}

/// Relies on nix's ftruncate: sizes the object behind `fd` to `len`
/// bytes, zero-filling any extension; on failure returns the raw errno.
#[verifier::external_body]
fn ftruncate_fd(fd: i32, len: i64) -> (r: Result<(), i32>) {
    match nix::unistd::ftruncate(fd, len) {
        Ok(()) => Ok(()),
        Err(e) => Err(e as i32),
    }
}


/// Relies on nix's close: closes the descriptor; on failure returns the
/// raw errno.
#[verifier::external_body]
fn close_fd(fd: i32) -> (r: Result<(), i32>) {
    match nix::unistd::close(fd) {
        Ok(()) => Ok(()),
        Err(e) => Err(e as i32),
    }
}

/// Relies on nix's shm_unlink: removes the name of the shared memory
/// object from the namespace; on failure returns the raw errno.
#[verifier::external_body]
fn shm_unlink_path(path: &str) -> (r: Result<(), i32>) {
    match nix::sys::mman::shm_unlink(path) {
        Ok(()) => Ok(()),
        Err(e) => Err(e as i32),
    }
}

/// Relies on memmap2's MmapOptions::map_raw: maps `len` bytes of the
/// object behind `fd` into this process, shared and read/write; callers
/// reject a zero `len` themselves, since a mapping request must cover at
/// least one byte. On failure returns the raw OS error code.
#[verifier::external_body]
fn mmap_shared(fd: i32, len: usize) -> (r: Result<memmap2::MmapRaw, i32>) {
    match memmap2::MmapOptions::new().len(len).map_raw(fd) {
        Ok(m) => Ok(m),
        Err(e) => Err(e.raw_os_error().unwrap_or(0)),
    }
}

/// Relies on memmap2's MmapRaw::as_ptr: the starting address of the
/// mapped view in this process. The value is the address at which the
/// kernel placed an established mapping, and such a mapping never sits
/// at the null address.
#[verifier::external_body]
fn mmap_head_addr(m: &memmap2::MmapRaw) -> (r: usize)
    ensures
        r != 0,
{
    m.as_ptr() as usize
}

/// Relies on memmap2's MmapRaw::drop, which unmaps this process's view.
#[verifier::external_body]
fn mmap_unmap(m: memmap2::MmapRaw) {
    drop(m);
}

/// Relies on nix's pwrite: writes `data` to the object behind `fd` at
/// byte offset `off` and returns how many bytes the kernel accepted,
/// never more than `data` holds; on failure returns the raw errno.
#[verifier::external_body]
fn pwrite_fd(fd: i32, data: &[u8], off: i64) -> (r: Result<usize, i32>)
    ensures
        r matches Ok(n) ==> n <= data@.len(),
{
    match nix::sys::uio::pwrite(fd, data, off) {
        Ok(n) => Ok(n),
        Err(e) => Err(e as i32),
    }
}

/// Relies on nix's pread: reads up to `len` bytes from the object behind
/// `fd` at byte offset `off` and returns exactly the bytes the kernel
/// delivered; on failure returns the raw errno.
#[verifier::external_body]
fn pread_fd(fd: i32, len: usize, off: i64) -> (r: Result<Vec<u8>, i32>)
    ensures
        r matches Ok(v) ==> v@.len() <= len,
{
    let mut buf = vec![0u8; len];
    match nix::sys::uio::pread(fd, &mut buf, off) {
        Ok(n) => {
            buf.truncate(n);
            Ok(buf)
        },
        Err(e) => Err(e as i32),
    }
}

/// A mapped shared memory object that was created by some other party.
/// Releasing it detaches this process's view and never removes the name.
pub struct ShmMap {
    /// Definition of the shared memory object that is mapped.
    pub definition: ShmDefinition,
    map: memmap2::MmapRaw,
    fd: i32,
    head: usize,
}

/// A mapped shared memory object that this process created. Releasing it
/// detaches the view and then removes the name, exactly once: release
/// consumes the mapping, so a second destruction cannot be expressed.
pub struct OwnedShmMap {
    /// Definition of the shared memory object that is mapped.
    pub definition: ShmDefinition,
    map: memmap2::MmapRaw,
    fd: i32,
    head: usize,
    contents: Ghost<Seq<u8>>,
}

impl View for OwnedShmMap {
    type V = Seq<u8>;

    /// The owner's model of the region: the bytes it has written over the
    /// zero-filled initial state. Under the single-writer discipline of
    /// the protocols built above, this is the region's content.
    closed spec fn view(&self) -> Seq<u8> {
        self.contents@
    }
}

impl ShmDefinition {
    /// Exclusively creates the named shared memory object, sizes it to
    /// `self.size` zeroed bytes, and maps it read/write. On any failure
    /// after the name was created, the descriptor is closed and the name
    /// removed before the error is returned: a partial success is never
    /// observable.
    pub fn create(self) -> (r: Result<OwnedShmMap, ErrorCode>)
        ensures
            r matches Ok(m) ==> {
                &&& m.wf()
                &&& m.spec_definition().path@ == self.path@
                &&& m.spec_definition().size == self.size
                &&& m@ == Seq::new(self.size as nat, |i: int| 0u8)
            },
            self.size == 0 ==> r is Err,
            self.size as u64 > MAX_REGION_BYTES ==> r is Err,
            r matches Err(e) ==> {
                ||| e == ErrorCode::ShmPathAccessDenied
                ||| e == ErrorCode::ShmPathAlreadyExists
                ||| e == ErrorCode::ShmPathInvalid
                ||| e == ErrorCode::ProcessTooManyOpenFD
                ||| e == ErrorCode::ShmPathTooLong
                ||| e == ErrorCode::SystemTooManyOpenFiles
                ||| e == ErrorCode::ShmPathDoesNotExist
                ||| e == ErrorCode::TruncateInterrupted
                ||| e == ErrorCode::InvalidTruncationSize
                ||| e == ErrorCode::InvalidMMapArguments
                ||| e == ErrorCode::OutOfMemory
                ||| e == ErrorCode::MissingPermission
                ||| e matches ErrorCode::Unknown(_)
            },
    {
        let fd = match shm_open_excl(self.path.as_str()) {
            Ok(fd) => fd,
            Err(e) => {
                return Err(map_open_error(e));
            },
        };
        if self.size as u64 > MAX_REGION_BYTES {
            let _ = close_fd(fd);
            let _ = shm_unlink_path(self.path.as_str());
            return Err(ErrorCode::InvalidTruncationSize);
        }
        if let Err(e) = ftruncate_fd(fd, self.size as i64) {
            let _ = close_fd(fd);
            let _ = shm_unlink_path(self.path.as_str());
            return Err(map_truncate_error(e));
        }
        if self.size == 0 {
            // a mapping of zero bytes cannot be honored
            let _ = close_fd(fd);
            let _ = shm_unlink_path(self.path.as_str());
            return Err(ErrorCode::InvalidMMapArguments);
        }
        let map = match mmap_shared(fd, self.size) {
            Ok(map) => map,
            Err(e) => {
                let _ = close_fd(fd);
                let _ = shm_unlink_path(self.path.as_str());
                return Err(map_mmap_error(e));
            },
        };
        let head = mmap_head_addr(&map);
        let size = self.size;
        Ok(OwnedShmMap {
            definition: self,
            map,
            fd,
            head,
            contents: Ghost(Seq::new(size as nat, |i: int| 0u8)),
        })
    }

    /// Maps `self.size` bytes of an existing named shared memory object
    /// read/write and returns a non-owning mapping. The object is taken
    /// as its creator sized it and is never resized here: matching sizes
    /// are the caller contract shared with the creator. On failure after
    /// the descriptor was opened, only the descriptor is closed: the name
    /// belongs to its creator and stays.
    pub fn open(self) -> (r: Result<ShmMap, ErrorCode>)
        ensures
            r matches Ok(m) ==> {
                &&& m.wf()
                &&& m.spec_definition().path@ == self.path@
                &&& m.spec_definition().size == self.size
            },
            self.size == 0 ==> r is Err,
            self.size as u64 > MAX_REGION_BYTES ==> r is Err,
            r matches Err(e) ==> {
                ||| e == ErrorCode::ShmPathAccessDenied
                ||| e == ErrorCode::ShmPathAlreadyExists
                ||| e == ErrorCode::ShmPathInvalid
                ||| e == ErrorCode::ProcessTooManyOpenFD
                ||| e == ErrorCode::ShmPathTooLong
                ||| e == ErrorCode::SystemTooManyOpenFiles
                ||| e == ErrorCode::ShmPathDoesNotExist
                ||| e == ErrorCode::InvalidTruncationSize
                ||| e == ErrorCode::InvalidMMapArguments
                ||| e == ErrorCode::OutOfMemory
                ||| e == ErrorCode::MissingPermission
                ||| e matches ErrorCode::Unknown(_)
            },
    {
        let fd = match shm_open_rw(self.path.as_str()) {
            Ok(fd) => fd,
            Err(e) => {
                return Err(map_open_error(e));
            },
        };
        if self.size as u64 > MAX_REGION_BYTES {
            let _ = close_fd(fd);
            return Err(ErrorCode::InvalidTruncationSize);
        }
        if self.size == 0 {
            // a mapping of zero bytes cannot be honored
            let _ = close_fd(fd);
            return Err(ErrorCode::InvalidMMapArguments);
        }
        let map = match mmap_shared(fd, self.size) {
            Ok(map) => map,
            Err(e) => {
                let _ = close_fd(fd);
                return Err(map_mmap_error(e));
            },
        };
        let head = mmap_head_addr(&map);
        Ok(ShmMap { definition: self, map, fd, head })
    }
}

impl OwnedShmMap {
    /// The definition this mapping was realized from.
    pub closed spec fn spec_definition(&self) -> ShmDefinition {
        self.definition
    }

    /// The mapping is sized consistently with its definition and small
    /// enough that every offset fits in a signed 64-bit file offset.
    pub open spec fn wf(&self) -> bool {
        &&& self@.len() == self.spec_definition().size
        &&& 0 < self.spec_definition().size
        &&& self.spec_definition().size as u64 <= MAX_REGION_BYTES
        &&& self.spec_head() != 0
    }

    /// The starting address of the mapped region in this process.
    pub closed spec fn spec_head(&self) -> usize {
        self.head
    }

    /// Returns the size in bytes of the mapped region.
    pub fn size(&self) -> (r: usize)
        ensures
            r == self.spec_definition().size,
    {
        self.definition.size
    }

    /// Returns the starting address of the mapped region.
    pub fn head(&self) -> (r: usize)
        ensures
            r == self.spec_head(),
    {
        self.head
    }

    /// Writes `data` at byte offset `off`. On success the model holds
    /// exactly the old bytes with the written range replaced; on failure
    /// nothing past the old counter of any protocol above is observable
    /// and the model is unchanged.
    pub fn write_at(&mut self, off: usize, data: &[u8]) -> (r: Result<(), ErrorCode>)
        requires
            old(self).wf(),
            off + data@.len() <= old(self).spec_definition().size,
        ensures
            final(self).wf(),
            final(self).spec_definition() == old(self).spec_definition(),
            final(self).spec_head() == old(self).spec_head(),
            r matches Ok(_) ==> final(self)@ == splice(old(self)@, off as int, data@),
            r is Err ==> final(self)@ == old(self)@,
            r matches Err(e) ==> e == ErrorCode::IncompleteWrite || e matches ErrorCode::Unknown(
                _,
            ),
    {
        let n = match pwrite_fd(self.fd, data, off as i64) {
            Ok(n) => n,
            Err(e) => {
                return Err(ErrorCode::Unknown(e));
            },
        };
        if n != data.len() {
            return Err(ErrorCode::IncompleteWrite);
        }
        proof {
            lemma_splice(self.contents@, off as int, data@);
        }
        self.contents = Ghost(splice(self.contents@, off as int, data@));
        Ok(())
    }

    /// Reads `len` bytes at byte offset `off`. The region is shared and
    /// may be mutated by other processes, so only the length of the
    /// result is promised.
    pub fn read_at(&self, off: usize, len: usize) -> (r: Result<Vec<u8>, ErrorCode>)
        requires
            self.wf(),
            off + len <= self.spec_definition().size,
        ensures
            r matches Ok(v) ==> v@.len() == len,
            r matches Err(e) ==> e == ErrorCode::IncompleteRead || e matches ErrorCode::Unknown(
                _,
            ),
    {
        region_read(self.fd, off, len)
    }

    /// Detaches this process's view and then destroys the named resource.
    /// Consuming `self` makes a second destruction impossible.
    pub fn release(self) -> (r: Result<(), ErrorCode>)
        ensures
            r matches Err(e) ==> {
                ||| e == ErrorCode::CloseInterrupted
                ||| e == ErrorCode::CloseIOError
                ||| e == ErrorCode::UnlinkingANonExistentFile
                ||| e matches ErrorCode::Unknown(_)
            },
    {
        let OwnedShmMap { definition, map, fd, head: _, contents: _ } = self;
        mmap_unmap(map);
        let closed = close_fd(fd);
        let unlinked = shm_unlink_path(definition.path.as_str());
        match closed {
            Err(e) => Err(map_close_error(e)),
            Ok(()) => match unlinked {
                Err(e) => Err(map_unlink_error(e)),
                Ok(()) => Ok(()),
            },
        }
    }
}

impl ShmMap {
    /// The definition this mapping was realized from.
    pub closed spec fn spec_definition(&self) -> ShmDefinition {
        self.definition
    }

    /// The mapping is sized consistently with its definition and small
    /// enough that every offset fits in a signed 64-bit file offset.
    pub open spec fn wf(&self) -> bool {
        &&& 0 < self.spec_definition().size
        &&& self.spec_definition().size as u64 <= MAX_REGION_BYTES
        &&& self.spec_head() != 0
    }

    /// The starting address of the mapped region in this process.
    pub closed spec fn spec_head(&self) -> usize {
        self.head
    }

    /// Returns the size in bytes of the mapped region.
    pub fn size(&self) -> (r: usize)
        ensures
            r == self.spec_definition().size,
    {
        self.definition.size
    }

    /// Returns the starting address of the mapped region.
    pub fn head(&self) -> (r: usize)
        ensures
            r == self.spec_head(),
    {
        self.head
    }

    /// Writes `data` at byte offset `off`. A non-owning mapping keeps no
    /// model of the shared contents, so nothing is promised of the bytes.
    pub fn write_at(&self, off: usize, data: &[u8]) -> (r: Result<(), ErrorCode>)
        requires
            self.wf(),
            off + data@.len() <= self.spec_definition().size,
        ensures
            r matches Err(e) ==> e == ErrorCode::IncompleteWrite || e matches ErrorCode::Unknown(
                _,
            ),
    {
        let n = match pwrite_fd(self.fd, data, off as i64) {
            Ok(n) => n,
            Err(e) => {
                return Err(ErrorCode::Unknown(e));
            },
        };
        if n != data.len() {
            return Err(ErrorCode::IncompleteWrite);
        }
        Ok(())
    }

    /// Reads `len` bytes at byte offset `off`. The region is shared and
    /// may be mutated by other processes, so only the length of the
    /// result is promised.
    pub fn read_at(&self, off: usize, len: usize) -> (r: Result<Vec<u8>, ErrorCode>)
        requires
            self.wf(),
            off + len <= self.spec_definition().size,
        ensures
            r matches Ok(v) ==> v@.len() == len,
            r matches Err(e) ==> e == ErrorCode::IncompleteRead || e matches ErrorCode::Unknown(
                _,
            ),
    {
        region_read(self.fd, off, len)
    }

    /// Detaches this process's view only: the named resource stays for
    /// its creator and the other parties mapping it.
    pub fn release(self) -> (r: Result<(), ErrorCode>)
        ensures
            r matches Err(e) ==> {
                ||| e == ErrorCode::CloseInterrupted
                ||| e == ErrorCode::CloseIOError
                ||| e matches ErrorCode::Unknown(_)
            },
    {
        let ShmMap { definition: _, map, fd, head: _ } = self;
        mmap_unmap(map);
        match close_fd(fd) {
            Err(e) => Err(map_close_error(e)),
            Ok(()) => Ok(()),
        }
    }
}

/// Reads `len` bytes at offset `off` through the descriptor, insisting on
/// a full transfer.
fn region_read(fd: i32, off: usize, len: usize) -> (r: Result<Vec<u8>, ErrorCode>)
    requires
        off + len <= MAX_REGION_BYTES,
    ensures
        r matches Ok(v) ==> v@.len() == len,
        r matches Err(e) ==> e == ErrorCode::IncompleteRead || e matches ErrorCode::Unknown(_),
{
    let v = match pread_fd(fd, len, off as i64) {
        Ok(v) => v,
        Err(e) => {
            return Err(ErrorCode::Unknown(e));
        },
    };
    if v.len() != len {
        return Err(ErrorCode::IncompleteRead);
    }
    Ok(v)
}

} // verus!
