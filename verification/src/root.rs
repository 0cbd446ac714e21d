//! The root of the name space: a read-only directory with a fixed set of
//! entries under which file systems are mounted.

use vstd::prelude::*;

verus! {

/// What kind of object a channel stands for.
#[derive(Clone, Copy, Debug, PartialEq, Eq, Structural)]
pub enum ChanType {
    /// A directory.
    Dir,
    /// A regular file.
    File,
}

/// The identity of a channel within its device.
#[derive(Clone, Copy, Debug, PartialEq, Eq, Structural)]
pub struct ChanId {
    /// The object's number within the device.
    pub path: u64,
    /// The object's version.
    pub version: u32,
    /// The object's kind.
    pub ctype: ChanType,
}

/// Why the root refused a request.
#[derive(Clone, Copy, Debug, PartialEq, Eq)]
pub enum Error {
    /// The request makes no sense for this device; the text says why.
    BadRequest(&'static str),
}

/// The root file system.
#[derive(Default)]
pub struct Root {}

/// The number of entries of the root directory.
pub const ROOT_ENTRIES: usize = 5;

/// The names of the root's entries as bytes, in the order of their paths:
/// `boot`, `root`, `proc`, `env`, `dev`.
pub open spec fn root_dirs() -> Seq<Seq<u8>> {
    seq![
        seq![0x62u8, 0x6fu8, 0x6fu8, 0x74u8],
        seq![0x72u8, 0x6fu8, 0x6fu8, 0x74u8],
        seq![0x70u8, 0x72u8, 0x6fu8, 0x63u8],
        seq![0x65u8, 0x6eu8, 0x76u8],
        seq![0x64u8, 0x65u8, 0x76u8],
    ]
}

/// The channel of the root directory itself: path 0, with `/` as version.
pub open spec fn root_chan() -> ChanId {
    ChanId { path: 0, version: 0x2f, ctype: ChanType::Dir }
}

/// The channel of the entry with index `index`.
pub open spec fn entry_chan(index: int) -> ChanId {
    ChanId { path: (index + 1) as u64, version: 0, ctype: ChanType::Dir }
}

/// Whether `name` is the name of an entry of the root.
pub open spec fn is_entry(name: Seq<u8>) -> bool {
    exists|i: int| 0 <= i < root_dirs().len() && root_dirs()[i] == name
}

/// The index of the entry called `name`.
pub open spec fn entry_index(name: Seq<u8>) -> int {
    choose|i: int| 0 <= i < root_dirs().len() && root_dirs()[i] == name
}

/// What opening `name` in the directory `dir` gives.
///
/// The empty name is the directory itself. Nothing can be created here.
/// Only the root directory has entries, and they are the five of
/// [`root_dirs`].
pub open spec fn opened(dir: ChanId, name: Seq<u8>, create_dir: Option<bool>) -> Result<
    Option<ChanId>,
    Error,
> {
    if name.len() == 0 {
        Ok(Some(dir))
    } else if create_dir is Some {
        Err(Error::BadRequest("create in devroot"))
    } else if dir.path != 0 || !is_entry(name) {
        Ok(None)
    } else {
        Ok(Some(entry_chan(entry_index(name))))
    }
}

/// No two entries of the root share a name.
pub proof fn lemma_entries_distinct(i: int, j: int)
    requires
        0 <= i < root_dirs().len(),
        0 <= j < root_dirs().len(),
        root_dirs()[i] == root_dirs()[j],
    ensures
        i == j,
{
    let d = root_dirs();
}

/// Whether two byte strings are the same.
fn same_bytes(a: &[u8], b: &[u8]) -> (same: bool)
    ensures
        same == (a@ == b@),
{
    if a.len() != b.len() {
        return false;
    }
    let mut i: usize = 0;
    while i < a.len()
        invariant
            a.len() == b.len(),
            i <= a.len(),
            forall|k: int| 0 <= k < i ==> a@[k] == b@[k],
        decreases a.len() - i,
    {
        if a[i] != b[i] {
            return false;
        }
        i += 1;
    }
    assert(a@ =~= b@);
    true
}

/// Whether `name` is the name of the entry with index `index`.
fn names_entry(name: &[u8], index: usize) -> (same: bool)
    requires
        index < ROOT_ENTRIES,
    ensures
        same == (name@ == root_dirs()[index as int]),
{
    let boot: [u8; 4] = [0x62, 0x6f, 0x6f, 0x74];
    let root: [u8; 4] = [0x72, 0x6f, 0x6f, 0x74];
    let proc: [u8; 4] = [0x70, 0x72, 0x6f, 0x63];
    let env: [u8; 3] = [0x65, 0x6e, 0x76];
    let dev: [u8; 3] = [0x64, 0x65, 0x76];
    let entry: &[u8] = if index == 0 {
        boot.as_slice()
    } else if index == 1 {
        root.as_slice()
    } else if index == 2 {
        proc.as_slice()
    } else if index == 3 {
        env.as_slice()
    } else {
        dev.as_slice()
    };
    same_bytes(name, entry)
}

impl Root {
    /// Attaches to the root: the channel of the root directory, whatever
    /// `aname` asks for.
    pub fn attach(&self, aname: &[u8]) -> (res: Result<ChanId, Error>)
        ensures
            res == Ok::<ChanId, Error>(root_chan()),
    {
        Ok(ChanId { path: 0, version: 0x2f, ctype: ChanType::Dir })
    }

    /// Opens `name` in the directory `dir`.
    pub fn open(&self, dir: &ChanId, name: &[u8], create_dir: Option<bool>) -> (res: Result<
        Option<ChanId>,
        Error,
    >)
        ensures
            res == opened(*dir, name@, create_dir),
    {
        if name.len() == 0 {
            return Ok(Some(*dir));
        }
        if create_dir.is_some() {
            return Err(Error::BadRequest("create in devroot"));
        }
        if dir.path != 0 {
            return Ok(None);
        }
        let mut i: usize = 0;
        while i < ROOT_ENTRIES
            invariant
                i <= ROOT_ENTRIES,
                name@.len() != 0,
                create_dir is None,
                dir.path == 0,
                forall|k: int| 0 <= k < i ==> root_dirs()[k] != name@,
            decreases ROOT_ENTRIES - i,
        {
            if names_entry(name, i) {
                proof {
                    lemma_entries_distinct(i as int, entry_index(name@));
                }
                return Ok(Some(ChanId { path: i as u64 + 1, version: 0, ctype: ChanType::Dir }));
            }
            i += 1;
        }
        Ok(None)
    }

    /// Removes a file. The root has none to remove.
    pub fn remove(&self, c: &ChanId) -> (res: Result<bool, Error>)
        ensures
            res == Err::<bool, Error>(Error::BadRequest("remove file of devroot")),
    {
        Err(Error::BadRequest("remove file of devroot"))
    }

    /// Truncates a file. The root has none to truncate.
    pub fn truncate(&self, c: &ChanId, size: usize) -> (res: Result<usize, Error>)
        ensures
            res == Err::<usize, Error>(Error::BadRequest("truncate file of devroot")),
    {
        Err(Error::BadRequest("truncate file of devroot"))
    }
}

} // verus!
