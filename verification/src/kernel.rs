use vstd::prelude::*;

use crate::async_file::IoErrorKind;
use crate::byte_builder::{le_i32, ByteBuilder};
use crate::event::Event;
use crate::event_names::{EventName, EventNames};
use crate::id::{data_for, wrapping_inc, Id, IdStore};
use crate::process::{bytes_eq, copy_bytes, prepared_bytes, PreparedData, Process};
use vstd::string::StringSliceAdditionalSpecFns;

verus! {

pub const FILE_READ: u8 = 0b0;
pub const FILE_WRITE: u8 = 0b1;
pub const FILE_APPEND: u8 = 0b10;
pub const FILE_CREATE: u8 = 0b100;
pub const FILE_TRUNCATE: u8 = 0b1000;

/// Why a process could not be created.
#[derive(Debug, PartialEq, Eq, Structural)]
pub enum CreateProcessError {
    FileNotFound,
    InvalidWasm,
    IncorrectFileType,
    Other,
}

/// The id of the root process: number 1, version 0.
pub open spec fn root_pid_spec() -> Id {
    choose|id: Id| id.num() == 1 && id.ver() == 0
}

/// The id of the root process, which runs `boot.wasm`.
pub fn root_pid() -> (pid: Id)
    ensures
        pid == root_pid_spec(),
        pid.num() == 1,
        pid.ver() == 0,
{
    broadcast use Id::lemma_id_ext;
    let pid = Id::new(1);
    assert(pid.num() == 1 && pid.ver() == 0);
    pid
}

/// The `boot.wasm` files tried in turn: the user's own, then the ROM's, then the BIOS's.
pub fn boot_path(attempt: usize) -> (path: &'static str)
    requires
        attempt < 3,
    ensures
        attempt == 0 ==> path@ == "boot.wasm"@,
        attempt == 1 ==> path@ == "rom/boot.wasm"@,
        attempt == 2 ==> path@ == "bios/boot.wasm"@,
{
    if attempt == 0 {
        "boot.wasm"
    } else if attempt == 1 {
        "rom/boot.wasm"
    } else {
        "bios/boot.wasm"
    }
}

/// The directories a library is looked for in, in turn: the ROM's, then the BIOS's, then the
/// user's own.
pub fn library_dir(attempt: usize) -> (dir: &'static str)
    requires
        attempt < 3,
    ensures
        attempt == 0 ==> dir@ == "rom/lib"@,
        attempt == 1 ==> dir@ == "bios/lib"@,
        attempt == 2 ==> dir@ == "lib"@,
{
    if attempt == 0 {
        "rom/lib"
    } else if attempt == 1 {
        "bios/lib"
    } else {
        "lib"
    }
}

/// Whether booting goes on to the next `boot.wasm` after the one at `attempt` gave `result`:
/// only when that file was not found and another is left to try.
pub fn try_next_boot(attempt: usize, result: &Result<Id, CreateProcessError>) -> (r: bool)
    ensures
        r == (attempt < 2 && *result == Err::<Id, CreateProcessError>(CreateProcessError::FileNotFound)),
{
    match result {
        Err(CreateProcessError::FileNotFound) => attempt < 2,
        _ => false,
    }
}

/// The error creating a process reports when its file cannot be opened.
pub fn create_process_error(kind: IoErrorKind) -> (e: CreateProcessError)
    ensures
        e == (if kind == IoErrorKind::NotFound {
            CreateProcessError::FileNotFound
        } else {
            CreateProcessError::Other
        }),
{
    match kind {
        IoErrorKind::NotFound => CreateProcessError::FileNotFound,
        _ => CreateProcessError::Other,
    }
}

/// How a file is opened for a mode made of the `FILE_*` bits.
#[derive(Debug, PartialEq, Eq, Structural)]
pub struct OpenMode {
    pub read: bool,
    pub write: bool,
    pub append: bool,
    pub create: bool,
    pub truncate: bool,
}

/// The open options for a mode: writing when the write bit is set and reading otherwise, plus
/// appending, creating and truncating for their bits.
pub fn open_mode(mode: u8) -> (m: OpenMode)
    ensures
        m.write == (mode & FILE_WRITE != 0),
        m.read == (mode & FILE_WRITE == 0),
        m.append == (mode & FILE_APPEND != 0),
        m.create == (mode & FILE_CREATE != 0),
        m.truncate == (mode & FILE_TRUNCATE != 0),
{
    let mut m = OpenMode { read: false, write: false, append: false, create: false, truncate: false };
    if mode & FILE_WRITE != 0 {
        m.write = true;
    } else {
        m.read = true;
    }
    if mode & FILE_APPEND != 0 {
        m.append = true;
    }
    if mode & FILE_CREATE != 0 {
        m.create = true;
    }
    if mode & FILE_TRUNCATE != 0 {
        m.truncate = true;
    }
    m
}

/// Whether a program path names a Webassembly file: it ends in `.wasm`.
pub fn is_wasm_path(path: &str) -> (r: bool)
    ensures
        r == (path.spec_bytes().len() >= 5 && path.spec_bytes().subrange(
            path.spec_bytes().len() - 5,
            path.spec_bytes().len() as int,
        ) == seq![46u8, 119u8, 97u8, 115u8, 109u8]),
{
    let bytes = path.as_bytes();
    let n = bytes.len();
    if n < 5 {
        return false;
    }
    let r = bytes[n - 5] == 46u8 && bytes[n - 4] == 119u8 && bytes[n - 3] == 97u8 && bytes[n - 2] == 115u8
        && bytes[n - 1] == 109u8;
    proof {
        let tail = bytes@.subrange(n - 5, n as int);
        assert(tail[0] == bytes@[n - 5]);
        assert(tail[1] == bytes@[n - 4]);
        assert(tail[2] == bytes@[n - 3]);
        assert(tail[3] == bytes@[n - 2]);
        assert(tail[4] == bytes@[n - 1]);
        if r {
            assert(tail =~= seq![46u8, 119u8, 97u8, 115u8, 109u8]);
        }
    }
    r
}

/// Where the last component of a path starts: just after its last `/`, or at 0.
pub open spec fn name_start(path: Seq<u8>) -> int
    decreases path.len(),
{
    if path.len() == 0 {
        0
    } else if path.last() == 47u8 {
        path.len() as int
    } else {
        name_start(path.drop_last())
    }
}

/// The label of a program at a path that ends in `.wasm`: its file name without that
/// extension, or the whole file name when that is just `.wasm` (a name that starts with its
/// only dot has no extension).
pub open spec fn label_spec(path: Seq<u8>) -> Seq<u8> {
    let name = path.subrange(name_start(path), path.len() as int);
    if name.len() > 5 {
        name.subrange(0, name.len() - 5)
    } else {
        name
    }
}

/// The label of the program at `path`, a path ending in `.wasm`: the file stem.
pub fn program_label(path: &str) -> (label: Vec<u8>)
    requires
        path.spec_bytes().len() >= 5,
        path.spec_bytes().subrange(path.spec_bytes().len() - 5, path.spec_bytes().len() as int)
            == seq![46u8, 119u8, 97u8, 115u8, 109u8],
    ensures
        label@ == label_spec(path.spec_bytes()),
{
    let bytes = path.as_bytes();
    let n = bytes.len();
    let mut i = n;
    assert(bytes@.subrange(0, n as int) =~= bytes@);
    while i > 0 && bytes[i - 1] != 47u8
        invariant
            i <= n,
            n == bytes@.len(),
            name_start(bytes@) == name_start(bytes@.subrange(0, i as int)),
            forall|k: int| i <= k < n ==> bytes@[k] != 47u8,
        decreases i,
    {
        assert(bytes@.subrange(0, i as int).drop_last() =~= bytes@.subrange(0, i - 1));
        i = i - 1;
    }
    proof {
        if i > 0 {
            assert(bytes@.subrange(0, i as int).last() == 47u8);
        } else {
            assert(bytes@.subrange(0, 0) =~= Seq::<u8>::empty());
        }
        let tail = bytes@.subrange(n - 5, n as int);
        assert(tail[0] == bytes@[n - 5]);
        assert(tail[1] == bytes@[n - 4]);
        assert(tail[2] == bytes@[n - 3]);
        assert(tail[3] == bytes@[n - 2]);
        assert(tail[4] == bytes@[n - 1]);
        // The file name ends in `.wasm`, so it has at least those five bytes.
        assert(i <= n - 5);
    }
    let end = if n - i > 5 { n - 5 } else { n };
    let mut label: Vec<u8> = Vec::new();
    let mut k = i;
    while k < end
        invariant
            i <= k <= end,
            end <= n,
            n == bytes@.len(),
            label@ == bytes@.subrange(i as int, k as int),
        decreases end - k,
    {
        label.push(bytes[k]);
        k = k + 1;
        assert(label@ =~= bytes@.subrange(i as int, k as int));
    }
    assert(label@ =~= label_spec(bytes@));
    label
}

/// The position of the first name equal to `name` at or after `i`, or -1.
pub open spec fn find_name(names: Seq<(Vec<u8>, Id)>, name: Seq<u8>, i: int) -> int
    decreases names.len() - i,
{
    if i < 0 || i >= names.len() {
        -1
    } else if names[i].0@ == name {
        i
    } else {
        find_name(names, name, i + 1)
    }
}

proof fn lemma_find_name(names: Seq<(Vec<u8>, Id)>, name: Seq<u8>, i: int)
    requires
        0 <= i,
    ensures
        find_name(names, name, i) == -1 || (i <= find_name(names, name, i) < names.len()
            && names[find_name(names, name, i)].0@ == name),
        find_name(names, name, i) == -1 ==> forall|j: int| i <= j < names.len() ==> names[j].0@ != name,
    decreases names.len() - i,
{
    if i < names.len() && names[i].0@ != name {
        lemma_find_name(names, name, i + 1);
    }
}

/// The label of the process that a process's prepared data names, when its data names one
/// and that process exists.
pub open spec fn named_label(m: Map<Id, Process>, p: Process) -> Option<Seq<u8>> {
    match p.data {
        PreparedData::PidLabel(q) => match data_for(m, q) {
            Some(o) => Some(o.label@),
            None => None,
        },
        _ => None,
    }
}

/// A kernel is the central construct of Blaze-64: the table of processes, the names they
/// registered, and the interned names of events.
pub struct Kernel {
    // A sparse map of Pids to processes
    processes: IdStore<Process>,
    // A map of process names to Pids
    process_names: Vec<(Vec<u8>, Id)>,
    // The event whose handler is running, if any
    current_event: Option<Event>,
    interned_event_names: EventNames,
}

impl Kernel {
    pub closed spec fn wf(&self) -> bool {
        &&& self.processes.wf()
        &&& self.interned_event_names.wf()
    }

    /// The table of processes.
    pub closed spec fn table(&self) -> IdStore<Process> {
        self.processes
    }

    /// The registered process names (as UTF-8 bytes) and the process each names.
    pub closed spec fn names(&self) -> Map<Seq<u8>, Id> {
        Map::new(
            |k: Seq<u8>| find_name(self.process_names@, k, 0) >= 0,
            |k: Seq<u8>| self.process_names@[find_name(self.process_names@, k, 0)].1,
        )
    }

    /// The interned event names, by symbol.
    pub closed spec fn event_names(&self) -> Seq<Seq<char>> {
        self.interned_event_names@
    }

    /// The event whose handler is running, if any.
    pub closed spec fn current(&self) -> Option<Event> {
        self.current_event
    }

    /// Law: an event name is interned under one symbol only, so interning the same name again
    /// gives back the same symbol.
    pub proof fn lemma_event_symbols_unique(&self, a: EventName, b: EventName)
        requires
            self.wf(),
            a < self.event_names().len(),
            b < self.event_names().len(),
            self.event_names()[a as int] == self.event_names()[b as int],
        ensures
            a == b,
    {
        self.interned_event_names.lemma_symbols_unique(a, b);
    }

    /// Law: the name a process was registered under looks up that process, and no other name
    /// changes what it looks up.
    pub proof fn lemma_name_lookup_after_set(before: &Kernel, after: &Kernel, name: Seq<u8>, pid: Id, other: Seq<u8>)
        requires
            after.names() == before.names().insert(name, pid),
            other != name,
        ensures
            after.names().contains_key(name),
            after.names()[name] == pid,
            after.names().contains_key(other) == before.names().contains_key(other),
            before.names().contains_key(other) ==> after.names()[other] == before.names()[other],
    {
    }

    pub fn new() -> (k: Self)
        ensures
            k.wf(),
            k.table()@ == Map::<Id, Process>::empty(),
            k.table().live_len() == 0,
            k.table().issued() == 0,
            k.names() == Map::<Seq<u8>, Id>::empty(),
            k.event_names() == Seq::<Seq<char>>::empty(),
            k.current() is None,
    {
        let k = Self {
            processes: IdStore::new(),
            process_names: Vec::new(),
            current_event: None,
            interned_event_names: EventNames::new(),
        };
        assert(k.names() =~= Map::<Seq<u8>, Id>::empty());
        k
    }

    /// Whether `pid` is a live process id, version included.
    pub fn process_is_live(&self, pid: Id) -> (r: bool)
        requires
            self.wf(),
        ensures
            r == self.table()@.contains_key(pid),
    {
        self.processes.id_is_valid(pid)
    }

    /// How many processes are live.
    pub fn process_count(&self) -> (n: usize)
        ensures
            n == self.table().live_len(),
    {
        self.processes.live_count()
    }

    /// How many event names are interned.
    pub fn event_name_count(&self) -> (n: usize)
        ensures
            n == self.event_names().len(),
    {
        self.interned_event_names.len()
    }

    /// Checks if the `boot.wasm` process exited
    pub fn root_exited(&self) -> (r: bool)
        requires
            self.wf(),
        ensures
            r == !self.table()@.contains_key(root_pid_spec()),
    {
        !self.processes.id_is_valid(root_pid())
    }

    pub fn delete_process(&mut self, pid: Id)
        requires
            old(self).wf(),
        ensures
            final(self).current() == old(self).current(),
            final(self).wf(),
            final(self).table()@ == old(self).table()@.remove(pid),
            final(self).names() == old(self).names(),
            final(self).event_names() == old(self).event_names(),
    {
        self.processes.delete_id(pid);
    }

    pub fn get_process(&self, pid: Id) -> (p: Option<&Process>)
        requires
            self.wf(),
        ensures
            p is Some <==> data_for(self.table()@, pid) is Some,
            p is Some ==> *p->0 == data_for(self.table()@, pid)->0,
    {
        self.processes.data(pid)
    }

    pub fn get_process_mut(&mut self, pid: Id) -> (p: Option<&mut Process>)
        requires
            old(self).wf(),
        ensures
            final(self).current() == old(self).current(),
            p is Some <==> data_for(old(self).table()@, pid) is Some,
            p is None ==> final(self).table()@ == old(self).table()@,
            p is Some ==> *p.unwrap() == data_for(old(self).table()@, pid)->0,
            p is Some ==> final(self).table()@ == old(self).table()@.insert(
                pid,
                *final(p.unwrap()),
            ),
            final(self).wf(),
            final(self).names() == old(self).names(),
            final(self).event_names() == old(self).event_names(),
    {
        self.processes.data_mut(pid)
    }

    /// The working directory a new child of `parent` starts in: its parent's, or the root of
    /// the file system for the boot process (whose parent number is 0).
    pub fn inherited_cwd(&self, parent: Id) -> (cwd: Vec<u8>)
        requires
            self.wf(),
            parent.num() != 0 ==> data_for(self.table()@, parent) is Some,
        ensures
            parent.num() == 0 ==> cwd@ == Seq::<u8>::empty(),
            parent.num() != 0 ==> cwd@ == data_for(self.table()@, parent)->0.current_working_directory@,
    {
        if parent.number() == 0 {
            return Vec::new();
        }
        match self.processes.data(parent) {
            Some(p) => copy_bytes(p.current_working_directory.as_slice()),
            None => Vec::new(),
        }
    }

    /// Registers a newly created process: it is stored under a fresh id and learns that id, and,
    /// unless its parent's number is 0 (the boot process has no parent), it becomes the last
    /// child of its parent. The id is the next deleted one, with its version incremented, when
    /// one exists, and otherwise a new number at version 0; so the first process of a kernel
    /// is the root process.
    pub fn add_process(&mut self, process: Process, parent: Id) -> (pid: Id)
        requires
            old(self).wf(),
            old(self).table().live_len() < u16::MAX,
            parent.num() != 0 ==> old(self).table()@.contains_key(parent),
        ensures
            final(self).current() == old(self).current(),
            final(self).wf(),
            !old(self).table()@.contains_key(pid),
            forall|c: Id| #[trigger] old(self).table()@.contains_key(c) ==> c.num() != pid.num(),
            final(self).table().live_len() == old(self).table().live_len() + 1,
            old(self).table().live_len() < old(self).table().issued() ==> {
                &&& final(self).table().issued() == old(self).table().issued()
                &&& pid.num() == old(self).table().next_recycled().num()
                &&& pid.ver() == wrapping_inc(old(self).table().next_recycled().ver())
            },
            old(self).table().live_len() == old(self).table().issued() ==> {
                &&& final(self).table().issued() == old(self).table().issued() + 1
                &&& pid.num() == old(self).table().issued() + 1
                &&& pid.ver() == 0
            },
            old(self).table().issued() == 0 ==> pid == root_pid_spec(),
            parent.num() == 0 ==> final(self).table()@ == old(self).table()@.insert(pid, Process { pid, ..process }),
            parent.num() != 0 ==> final(self).table()@ == old(self).table()@.insert(pid, Process { pid, ..process }).insert(
                parent,
                Process {
                    children: final(self).table()@[parent].children,
                    ..old(self).table()@[parent]
                },
            ),
            parent.num() != 0 ==> final(self).table()@[parent].children@
                == old(self).table()@[parent].children@.push(pid),
            final(self).names() == old(self).names(),
            final(self).event_names() == old(self).event_names(),
    {
        broadcast use Id::lemma_id_ext;
        let ghost old_map = self.processes@;
        proof {
            self.processes.lemma_live_within_issued();
        }
        let pid = self.processes.new_id(process);
        match self.processes.data_mut(pid) {
            Some(p) => p.set_pid(pid),
            None => {},
        }
        let ghost set_map = self.processes@;
        assert(set_map == old_map.insert(pid, Process { pid, ..process }));
        proof {
            if pid.num() == 1 && pid.ver() == 0 {
                let r = root_pid_spec();
                assert(r.num() == 1 && r.ver() == 0);
                assert(r == pid);
            }
        }
        if parent.number() != 0 {
            assert(pid != parent);
            match self.processes.data_mut(parent) {
                Some(pp) => pp.add_child(pid),
                None => {},
            }
        }
        pid
    }

    /// The bytes that the process `pid` has prepared for reading; when it prepared another
    /// process's label, that label, or nothing when that process does not exist.
    pub fn prepared_data(&self, pid: Id) -> (bytes: Option<&[u8]>)
        requires
            self.wf(),
            data_for(self.table()@, pid) is Some ==> data_for(self.table()@, pid)->0.wf(),
        ensures
            bytes is Some <==> data_for(self.table()@, pid) is Some,
            bytes is Some ==> bytes->0@ == prepared_bytes(
                data_for(self.table()@, pid)->0,
                named_label(self.table()@, data_for(self.table()@, pid)->0),
            ),
    {
        let p = match self.processes.data(pid) {
            Some(p) => p,
            None => return None,
        };
        let label: Option<&[u8]> = match p.data {
            PreparedData::PidLabel(q) => match self.processes.data(q) {
                Some(o) => Some(o.label.as_slice()),
                None => None,
            },
            _ => None,
        };
        Some(p.data_to_bytes(label))
    }

    /// Interns an event's name.
    /// Interned event names are used to make handler lookups faster.
    pub fn intern_event_name(&mut self, name: &str) -> (symbol: EventName)
        requires
            old(self).wf(),
            !old(self).event_names().contains(name@) ==> old(self).event_names().len() < u32::MAX,
        ensures
            final(self).current() == old(self).current(),
            final(self).wf(),
            symbol < final(self).event_names().len(),
            final(self).event_names()[symbol as int] == name@,
            old(self).event_names().contains(name@) ==> final(self).event_names() == old(self).event_names(),
            !old(self).event_names().contains(name@) ==> final(self).event_names() == old(self).event_names().push(name@),
            final(self).table() == old(self).table(),
            final(self).names() == old(self).names(),
    {
        self.interned_event_names.intern_event_name(name)
    }

    /// Sends the given event to the program.
    /// Event data is copied to the event itself, so programs can manipulate the address without
    /// affecting the event's data.
    /// Returns 0 when the receiver exists, -1 otherwise.
    pub fn send_event(&mut self, event_name: &str, event_data: &[u8], sender: Id, receiver: Id) -> (r: i32)
        requires
            old(self).wf(),
            !old(self).event_names().contains(event_name@) ==> old(self).event_names().len() < u32::MAX,
        ensures
            final(self).current() == old(self).current(),
            final(self).wf(),
            final(self).names() == old(self).names(),
            final(self).event_names().contains(event_name@),
            old(self).event_names().contains(event_name@) ==> final(self).event_names() == old(self).event_names(),
            !old(self).event_names().contains(event_name@) ==> final(self).event_names() == old(self).event_names().push(event_name@),
            r == (if data_for(old(self).table()@, receiver) is Some { 0i32 } else { -1i32 }),
            r == -1 ==> final(self).table()@ == old(self).table()@,
            r == 0 ==> exists|e: Event| {
                &&& e.info.data@ == event_data@
                &&& final(self).event_names()[e.info.interned_name as int] == event_name@
                &&& e.info.interned_name < final(self).event_names().len()
                &&& e.sent_by_pid == sender
                &&& final(self).table()@ == old(self).table()@.insert(
                    receiver,
                    Process {
                        event_queue: final(self).table()@[receiver].event_queue,
                        ..data_for(old(self).table()@, receiver)->0
                    },
                )
                &&& final(self).table()@[receiver].event_queue@
                    == data_for(old(self).table()@, receiver)->0.event_queue@.push(e)
            },
    {
        let interned_name = self.interned_event_names.intern_event_name(event_name);
        let copied_data = copy_bytes(event_data);

        let event = Event::new(copied_data, sender, interned_name);

        match self.get_process_mut(receiver) {
            Some(receiver_process) => {
                receiver_process.push_event(event);
                0
            },
            None => -1,
        }
    }

    /// Sends an event to the root process.
    /// Meant to be used by input drivers, where the root process can then call [resend_event] to
    /// pass input to its children.
    pub fn send_event_to_root(&mut self, event_name: &str, event_data: &[u8]) -> (r: i32)
        requires
            old(self).wf(),
            !old(self).event_names().contains(event_name@) ==> old(self).event_names().len() < u32::MAX,
        ensures
            final(self).current() == old(self).current(),
            final(self).wf(),
            final(self).names() == old(self).names(),
            final(self).event_names().contains(event_name@),
            old(self).event_names().contains(event_name@) ==> final(self).event_names() == old(self).event_names(),
            !old(self).event_names().contains(event_name@) ==> final(self).event_names() == old(self).event_names().push(event_name@),
            r == (if data_for(old(self).table()@, root_pid_spec()) is Some { 0i32 } else { -1i32 }),
            r == -1 ==> final(self).table()@ == old(self).table()@,
            r == 0 ==> exists|e: Event| {
                &&& e.info.data@ == event_data@
                &&& final(self).event_names()[e.info.interned_name as int] == event_name@
                &&& e.info.interned_name < final(self).event_names().len()
                &&& e.sent_by_pid.num() == 0 && e.sent_by_pid.ver() == 0
                &&& final(self).table()@ == old(self).table()@.insert(
                    root_pid_spec(),
                    Process {
                        event_queue: final(self).table()@[root_pid_spec()].event_queue,
                        ..data_for(old(self).table()@, root_pid_spec())->0
                    },
                )
                &&& final(self).table()@[root_pid_spec()].event_queue@
                    == data_for(old(self).table()@, root_pid_spec())->0.event_queue@.push(e)
            },
    {
        let root = root_pid();
        self.send_event(event_name, event_data, Id::default(), root)
    }

    /// Re-sends an event to the program.
    /// Event data is reference counted, meaning events can be efficiently passed around to other programs.
    /// Returns 0 when the receiver exists, -1 otherwise.
    pub fn resend_event(&mut self, event: &Event, sender: Id, receiver: Id) -> (r: i32)
        requires
            old(self).wf(),
        ensures
            final(self).current() == old(self).current(),
            final(self).wf(),
            final(self).names() == old(self).names(),
            final(self).event_names() == old(self).event_names(),
            r == (if data_for(old(self).table()@, receiver) is Some { 0i32 } else { -1i32 }),
            r == -1 ==> final(self).table()@ == old(self).table()@,
            r == 0 ==> final(self).table()@ == old(self).table()@.insert(
                receiver,
                Process {
                    event_queue: final(self).table()@[receiver].event_queue,
                    ..data_for(old(self).table()@, receiver)->0
                },
            ),
            r == 0 ==> exists|e: Event| {
                &&& e.info == event.info
                &&& e.sent_by_pid == sender
                &&& final(self).table()@[receiver].event_queue@
                    == data_for(old(self).table()@, receiver)->0.event_queue@.push(e)
            },
    {
        match self.get_process_mut(receiver) {
            Some(receiver_process) => {
                let event = Event::from_resent(event, sender);
                receiver_process.push_event(event);
                0
            },
            None => -1,
        }
    }

    /// Finishes a process whose program returned `outcome` (`None` when it trapped, which
    /// counts as exit code 100): its exit code is recorded, it leaves the table, and its parent,
    /// unless its parent id is the universally invalid one, is sent a `child_exited` event
    /// carrying the code as a little-endian `i32`. Returns the exit code.
    pub fn process_exited(&mut self, pid: Id, outcome: Option<i32>) -> (code: i32)
        requires
            old(self).wf(),
            !old(self).event_names().contains("child_exited"@) ==> old(self).event_names().len() < u32::MAX,
            old(self).table()@.contains_key(pid),
        ensures
            final(self).current() == old(self).current(),
            code == (match outcome {
                Some(c) => c,
                None => 100i32,
            }),
            final(self).wf(),
            final(self).names() == old(self).names(),
            ({
                let parent = old(self).table()@[pid].parent_pid;
                let m = old(self).table()@.remove(pid);
                let notify = !(parent.num() == 0 && parent.ver() == 0);
                &&& !notify ==> final(self).table()@ == m && final(self).event_names() == old(self).event_names()
                &&& notify ==> final(self).event_names().contains("child_exited"@)
                &&& notify && data_for(m, parent) is None ==> final(self).table()@ == m
                &&& notify && data_for(m, parent) is Some ==> exists|e: Event| {
                    &&& e.info.data@ == le_i32(code)
                    &&& e.info.interned_name < final(self).event_names().len()
                    &&& final(self).event_names()[e.info.interned_name as int] == "child_exited"@
                    &&& e.sent_by_pid == pid
                    &&& final(self).table()@ == m.insert(
                        parent,
                        Process { event_queue: final(self).table()@[parent].event_queue, ..data_for(m, parent)->0 },
                    )
                    &&& final(self).table()@[parent].event_queue@ == data_for(m, parent)->0.event_queue@.push(e)
                }
            }),
    {
        broadcast use Id::lemma_id_ext;
        let code = match outcome {
            Some(c) => c,
            None => 100,
        };
        let ghost old_map = self.processes@;
        let parent = match self.processes.data_mut(pid) {
            Some(p) => {
                p.exit_code = Some(code as u16);
                p.parent_pid
            },
            None => Id::default(),
        };
        self.processes.delete_id(pid);
        assert(self.processes@ =~= old_map.remove(pid));
        if !(parent.number() == 0 && parent.version() == 0) {
            let bytes = ByteBuilder::new().i32(code).build();
            self.send_event("child_exited", bytes.as_slice(), pid, parent);
        }
        code
    }

    /// Sets the currently handled event.
    pub fn set_current_event(&mut self, event: Event)
        ensures
            final(self).current() == Some(event),
            final(self).wf() == old(self).wf(),
            final(self).table() == old(self).table(),
            final(self).names() == old(self).names(),
            final(self).event_names() == old(self).event_names(),
    {
        self.current_event = Some(event);
    }

    /// Unsets the currently handled event, giving it back.
    pub fn end_current_event(&mut self) -> (event: Option<Event>)
        ensures
            event == old(self).current(),
            final(self).current() is None,
            final(self).wf() == old(self).wf(),
            final(self).table() == old(self).table(),
            final(self).names() == old(self).names(),
            final(self).event_names() == old(self).event_names(),
    {
        self.current_event.take()
    }

    /// Gets the currently handled event; there is none outside of an event handler, or when a
    /// handler is called without an event.
    pub fn get_current_event(&self) -> (event: Option<&Event>)
        ensures
            event is Some <==> self.current() is Some,
            event is Some ==> *event->0 == self.current()->0,
    {
        self.current_event.as_ref()
    }

    /// Gets the name of an interned event name.
    pub fn get_event_name(&self, interned_name: EventName) -> (name: &str)
        requires
            self.wf(),
        ensures
            interned_name < self.event_names().len() ==> name@ == self.event_names()[interned_name as int],
            interned_name >= self.event_names().len() ==> name@ == "NO_EVENT_NAME"@,
    {
        self.interned_event_names.get_event_name(interned_name)
    }

    // Proceses

    /// Sets the lookup name of the process `Pid`.
    /// Returns false, changing nothing, when the name is already taken.
    pub fn set_process_name(&mut self, pid: Id, name: &str) -> (set: bool)
        requires
            old(self).wf(),
        ensures
            final(self).current() == old(self).current(),
            final(self).wf(),
            set == !old(self).names().contains_key(name.spec_bytes()),
            set ==> final(self).names() == old(self).names().insert(name.spec_bytes(), pid),
            !set ==> final(self).names() == old(self).names(),
            final(self).table() == old(self).table(),
            final(self).event_names() == old(self).event_names(),
    {
        let key = name.as_bytes();
        let ghost old_names = self.process_names@;
        proof {
            lemma_find_name(old_names, key@, 0);
        }
        let mut i: usize = 0;
        while i < self.process_names.len()
            invariant
                i <= self.process_names@.len(),
                *self == *old(self),
                self.wf(),
                self.process_names@ == old_names,
                key@ == name.spec_bytes(),
                find_name(old_names, key@, 0) == find_name(old_names, key@, i as int),
            decreases self.process_names@.len() - i,
        {
            if bytes_eq(self.process_names[i].0.as_slice(), key) {
                assert(find_name(old_names, key@, i as int) == i);
                return false;
            }
            i = i + 1;
        }
        self.process_names.push((copy_bytes(key), pid));
        proof {
            let n = old_names.len() as int;
            assert(find_name(self.process_names@, key@, n) == n);
            assert forall|k: Seq<u8>| #[trigger] find_name(self.process_names@, k, 0)
                == (if k == key@ { n } else { find_name(old_names, k, 0) }) by {
                lemma_find_name(old_names, k, 0);
                lemma_find_name(self.process_names@, k, 0);
                lemma_find_name_prefix(old_names, self.process_names@, k, 0);
                if k != key@ {
                    assert(find_name(self.process_names@, k, n + 1) == -1);
                }
            }
            assert forall|k: Seq<u8>| #[trigger] self.names().contains_key(k) implies old(self).names().insert(key@, pid).contains_key(k)
                && self.names()[k] == old(self).names().insert(key@, pid)[k] by {
                lemma_find_name(old_names, k, 0);
                if k != key@ {
                    assert(old(self).names().contains_key(k));
                    assert(self.process_names@[find_name(old_names, k, 0)] == old_names[find_name(old_names, k, 0)]);
                }
            }
            assert forall|k: Seq<u8>| #[trigger] old(self).names().insert(key@, pid).contains_key(k) implies self.names().contains_key(k) by {
                lemma_find_name(old_names, k, 0);
            }
            assert(self.names() =~= old(self).names().insert(key@, pid));
        }
        true
    }

    /// The process registered under `name`, or the universally invalid id.
    pub fn get_pid_by_name(&self, name: &str) -> (pid: Id)
        ensures
            self.names().contains_key(name.spec_bytes()) ==> pid == self.names()[name.spec_bytes()],
            !self.names().contains_key(name.spec_bytes()) ==> pid.num() == 0 && pid.ver() == 0,
    {
        let key = name.as_bytes();
        let mut i: usize = 0;
        while i < self.process_names.len()
            invariant
                i <= self.process_names@.len(),
                key@ == name.spec_bytes(),
                find_name(self.process_names@, key@, 0) == find_name(self.process_names@, key@, i as int),
            decreases self.process_names@.len() - i,
        {
            if bytes_eq(self.process_names[i].0.as_slice(), key) {
                assert(find_name(self.process_names@, key@, i as int) == i);
                return self.process_names[i].1;
            }
            i = i + 1;
        }
        Id::default()
    }
}

/// Appending entries does not change where an earlier name is first found.
proof fn lemma_find_name_prefix(a: Seq<(Vec<u8>, Id)>, b: Seq<(Vec<u8>, Id)>, name: Seq<u8>, i: int)
    requires
        0 <= i,
        a.len() <= b.len(),
        forall|j: int| 0 <= j < a.len() ==> b[j] == a[j],
    ensures
        find_name(a, name, i) >= 0 ==> find_name(b, name, i) == find_name(a, name, i),
        find_name(a, name, i) < 0 && i <= a.len() ==> find_name(b, name, i) == find_name(b, name, a.len() as int),
    decreases a.len() - i,
{
    if i < a.len() {
        lemma_find_name_prefix(a, b, name, i + 1);
    }
}

} // verus!
