use vstd::prelude::*;

use std::collections::HashMap;

use crate::byte_builder::{from_le_i32, read_i32};
use crate::event::Event;
use crate::event_names::EventName;
use crate::graphics::graphics_state::GraphicsState;
use crate::id::{Id, IdStore};

verus! {

/// Data prepared for a process to read back.
pub enum PreparedData {
    Empty,
    Arg(u16),
    Bytes(Vec<u8>),
    Label,
    PidLabel(Id),
    Cwd,
}

impl PreparedData {
    /// Takes the prepared data, leaving `Empty` in its place.
    pub fn take(&mut self) -> (taken: Self)
        ensures
            taken == *old(self),
            *final(self) == PreparedData::Empty,
    {
        let mut taken = PreparedData::Empty;
        std::mem::swap(self, &mut taken);
        taken
    }
}

/// Where each of the `argc` arguments a program hands to `spawn` lies in its memory: the
/// address from `argv` and the length from `arg_lens`, both arrays of little-endian `i32`.
pub fn arg_spans(arg_lens: &[u8], argv: &[u8], argc: u32) -> (spans: Vec<(i32, i32)>)
    requires
        arg_lens@.len() >= argc * 4,
        argv@.len() >= argc * 4,
    ensures
        spans@.len() == argc,
        forall|i: int|
            0 <= i < argc ==> #[trigger] spans@[i] == (
                from_le_i32(argv@.subrange(i * 4, i * 4 + 4)),
                from_le_i32(arg_lens@.subrange(i * 4, i * 4 + 4)),
            ),
{
    let mut spans: Vec<(i32, i32)> = Vec::new();
    let mut i: u32 = 0;
    while i < argc
        invariant
            i <= argc,
            arg_lens@.len() >= argc * 4,
            argv@.len() >= argc * 4,
            spans@.len() == i,
            forall|j: int|
                0 <= j < i ==> #[trigger] spans@[j] == (
                    from_le_i32(argv@.subrange(j * 4, j * 4 + 4)),
                    from_le_i32(arg_lens@.subrange(j * 4, j * 4 + 4)),
                ),
        decreases argc - i,
    {
        let ptr = read_i32(argv, i as usize);
        let len = read_i32(arg_lens, i as usize);
        spans.push((ptr, len));
        i = i + 1;
    }
    spans
}

/// An owned copy of a byte string.
pub fn copy_bytes(s: &[u8]) -> (v: Vec<u8>)
    ensures
        v@ == s@,
{
    let mut v: Vec<u8> = Vec::with_capacity(s.len());
    for i in 0..s.len()
        invariant
            v@ == s@.take(i as int),
    {
        v.push(s[i]);
        assert(v@ =~= s@.take(i + 1));
    }
    assert(s@.take(s@.len() as int) =~= s@);
    v
}

/// Whether two byte strings are equal.
pub fn bytes_eq(a: &[u8], b: &[u8]) -> (r: bool)
    ensures
        r == (a@ == b@),
{
    if a.len() != b.len() {
        return false;
    }
    let mut i: usize = 0;
    while i < a.len()
        invariant
            a@.len() == b@.len(),
            i <= a@.len(),
            forall|j: int| 0 <= j < i ==> a@[j] == b@[j],
        decreases a@.len() - i,
    {
        if a[i] != b[i] {
            return false;
        }
        i = i + 1;
    }
    assert(a@ =~= b@);
    true
}

/// The position of the first variable named `key` at or after `i`, or -1.
pub open spec fn find_from(vars: Seq<(Vec<u8>, Vec<u8>)>, key: Seq<u8>, i: int) -> int
    decreases vars.len() - i,
{
    if i < 0 || i >= vars.len() {
        -1
    } else if vars[i].0@ == key {
        i
    } else {
        find_from(vars, key, i + 1)
    }
}

proof fn lemma_find_from_range(vars: Seq<(Vec<u8>, Vec<u8>)>, key: Seq<u8>, i: int)
    requires
        0 <= i,
    ensures
        find_from(vars, key, i) == -1 || (i <= find_from(vars, key, i) < vars.len()
            && vars[find_from(vars, key, i)].0@ == key),
        find_from(vars, key, i) == -1 ==> forall|j: int| i <= j < vars.len() ==> vars[j].0@ != key,
    decreases vars.len() - i,
{
    if i < vars.len() && vars[i].0@ != key {
        lemma_find_from_range(vars, key, i + 1);
    }
}

proof fn lemma_find_from_first(vars: Seq<(Vec<u8>, Vec<u8>)>, key: Seq<u8>, i: int, j: int)
    requires
        0 <= i <= j < vars.len(),
        vars[j].0@ == key,
        forall|k: int| i <= k < j ==> vars[k].0@ != key,
    ensures
        find_from(vars, key, i) == j,
    decreases j - i,
{
    if i < j {
        lemma_find_from_first(vars, key, i + 1, j);
    }
}

/// The part of `data` that a buffer of `buf_len` bytes can take: its first `buf_len` bytes,
/// or all of it when it is shorter.
pub fn readable_part(data: &[u8], buf_len: usize) -> (part: &[u8])
    ensures
        part@ == data@.take(if data@.len() < buf_len { data@.len() as int } else { buf_len as int }),
{
    let n = if data.len() < buf_len { data.len() } else { buf_len };
    let part = vstd::slice::slice_subrange(data, 0, n);
    assert(part@ =~= data@.take(n as int));
    part
}

/// The table of open files that a process starts with: standard input, output and error,
/// under the ids numbered 1, 2 and 3, all of version 0.
pub fn standard_files<T>(stdin: T, stdout: T, stderr: T) -> (files: IdStore<T>)
    ensures
        files.wf(),
        files.live_len() == 3,
        files.issued() == 3,
        forall|id: Id| #[trigger] files@.contains_key(id) <==> 1 <= id.num() <= 3 && id.ver() == 0,
        forall|id: Id| #[trigger] files@.contains_key(id) && id.num() == 1 ==> files@[id] == stdin,
        forall|id: Id| #[trigger] files@.contains_key(id) && id.num() == 2 ==> files@[id] == stdout,
        forall|id: Id| #[trigger] files@.contains_key(id) && id.num() == 3 ==> files@[id] == stderr,
{
    broadcast use Id::lemma_id_ext;
    let mut files: IdStore<T> = IdStore::new();
    let a = files.new_id(stdin);
    let b = files.new_id(stdout);
    let c = files.new_id(stderr);
    assert(files@ == Map::<Id, T>::empty().insert(a, stdin).insert(b, stdout).insert(c, stderr));
    files
}

/// A process' environment: variables with byte names and byte values.
pub struct Environment {
    vars: Vec<(Vec<u8>, Vec<u8>)>,
}

impl View for Environment {
    type V = Map<Seq<u8>, Seq<u8>>;

    closed spec fn view(&self) -> Map<Seq<u8>, Seq<u8>> {
        Map::new(
            |k: Seq<u8>| find_from(self.vars@, k, 0) >= 0,
            |k: Seq<u8>| self.vars@[find_from(self.vars@, k, 0)].1@,
        )
    }
}

impl Environment {
    /// No name occurs twice.
    pub closed spec fn wf(&self) -> bool {
        forall|i: int, j: int|
            0 <= i < j < self.vars@.len() ==> (#[trigger] self.vars@[i]).0@ != (#[trigger] self.vars@[j]).0@
    }

    pub fn new() -> (env: Self)
        ensures
            env.wf(),
            env@ == Map::<Seq<u8>, Seq<u8>>::empty(),
    {
        let env = Self { vars: Vec::new() };
        assert(env@ =~= Map::<Seq<u8>, Seq<u8>>::empty());
        env
    }

    /// The position of `key`, if it is set.
    fn position(&self, key: &[u8]) -> (r: Option<usize>)
        ensures
            r is Some <==> find_from(self.vars@, key@, 0) >= 0,
            r is Some ==> r->0 == find_from(self.vars@, key@, 0),
            r is Some ==> r->0 < self.vars@.len(),
    {
        let mut i: usize = 0;
        while i < self.vars.len()
            invariant
                i <= self.vars@.len(),
                find_from(self.vars@, key@, 0) == find_from(self.vars@, key@, i as int),
            decreases self.vars@.len() - i,
        {
            if bytes_eq(self.vars[i].0.as_slice(), key) {
                proof {
                    lemma_find_from_range(self.vars@, key@, 0);
                }
                return Some(i);
            }
            i = i + 1;
        }
        None
    }

    /// The value of `key`, if it is set.
    pub fn get(&self, key: &[u8]) -> (value: Option<&[u8]>)
        ensures
            value is Some <==> self@.contains_key(key@),
            value is Some ==> value->0@ == self@[key@],
    {
        match self.position(key) {
            Some(i) => Some(self.vars[i].1.as_slice()),
            None => None,
        }
    }

    /// Sets `key` to `value`.
    pub fn insert(&mut self, key: &[u8], value: &[u8])
        requires
            old(self).wf(),
        ensures
            final(self).wf(),
            final(self)@ == old(self)@.insert(key@, value@),
    {
        let ghost old_vars = self.vars@;
        proof {
            lemma_find_from_range(old_vars, key@, 0);
        }
        match self.position(key) {
            Some(i) => {
                let entry = &mut self.vars[i];
                entry.1 = copy_bytes(value);
                proof {
                    assert forall|k: Seq<u8>| #[trigger] find_from(self.vars@, k, 0) == find_from(old_vars, k, 0) by {
                        lemma_find_from_range(old_vars, k, 0);
                        lemma_find_from_range(self.vars@, k, 0);
                        let a = find_from(old_vars, k, 0);
                        if a >= 0 {
                            lemma_find_from_first(self.vars@, k, 0, a);
                        } else if find_from(self.vars@, k, 0) >= 0 {
                            let b = find_from(self.vars@, k, 0);
                            assert(self.vars@[b].0@ == old_vars[b].0@);
                        }
                    }
                    assert(self.vars@[i as int].0@ == key@);
                    assert(self.vars@[i as int].1@ == value@);
                    assert forall|k: Seq<u8>| #[trigger] self@.contains_key(k) implies
                        self@[k] == old(self)@.insert(key@, value@)[k] by {
                        lemma_find_from_range(self.vars@, k, 0);
                        let b = find_from(self.vars@, k, 0);
                        if k != key@ {
                            assert(b != i);
                            assert(self.vars@[b] == old_vars[b]);
                        }
                    }
                    assert(self@ =~= old(self)@.insert(key@, value@));
                }
            },
            None => {
                self.vars.push((copy_bytes(key), copy_bytes(value)));
                proof {
                    let n = old_vars.len() as int;
                    lemma_find_from_first(self.vars@, key@, 0, n);
                    assert forall|k: Seq<u8>| k != key@ implies #[trigger] find_from(self.vars@, k, 0) == find_from(old_vars, k, 0) by {
                        lemma_find_from_range(old_vars, k, 0);
                        lemma_find_from_range(self.vars@, k, 0);
                        let a = find_from(old_vars, k, 0);
                        if a >= 0 {
                            lemma_find_from_first(self.vars@, k, 0, a);
                        } else if find_from(self.vars@, k, 0) >= 0 {
                            let b = find_from(self.vars@, k, 0);
                            assert(b < n);
                        }
                    }
                    assert forall|k: Seq<u8>| #[trigger] self@.contains_key(k) implies
                        self@[k] == old(self)@.insert(key@, value@)[k] by {
                        lemma_find_from_range(self.vars@, k, 0);
                        let b = find_from(self.vars@, k, 0);
                        if k != key@ {
                            assert(b < n);
                            assert(self.vars@[b] == old_vars[b]);
                        }
                    }
                    assert(self@ =~= old(self)@.insert(key@, value@));
                }
            },
        }
    }

    /// Removes `key`; returns whether it was set.
    pub fn remove(&mut self, key: &[u8]) -> (removed: bool)
        requires
            old(self).wf(),
        ensures
            final(self).wf(),
            removed == old(self)@.contains_key(key@),
            final(self)@ == old(self)@.remove(key@),
    {
        let ghost old_vars = self.vars@;
        proof {
            lemma_find_from_range(old_vars, key@, 0);
        }
        match self.position(key) {
            Some(i) => {
                self.vars.remove(i);
                proof {
                    assert forall|k: Seq<u8>| k != key@ implies
                        (find_from(self.vars@, k, 0) >= 0 <==> find_from(old_vars, k, 0) >= 0)
                        && (find_from(self.vars@, k, 0) >= 0 ==>
                            self.vars@[find_from(self.vars@, k, 0)] == old_vars[find_from(old_vars, k, 0)]) by {
                        lemma_find_from_range(old_vars, k, 0);
                        lemma_find_from_range(self.vars@, k, 0);
                        let a = find_from(old_vars, k, 0);
                        if a >= 0 {
                            assert(a != i);
                            let b = if a < i { a } else { a - 1 };
                            assert(self.vars@[b] == old_vars[a]);
                            lemma_find_from_first(self.vars@, k, 0, b);
                        } else if find_from(self.vars@, k, 0) >= 0 {
                            let b = find_from(self.vars@, k, 0);
                            if b < i {
                                assert(self.vars@[b] == old_vars[b]);
                            } else {
                                assert(self.vars@[b] == old_vars[b + 1]);
                            }
                        }
                    }
                    lemma_find_from_range(self.vars@, key@, 0);
                    if find_from(self.vars@, key@, 0) >= 0 {
                        let b = find_from(self.vars@, key@, 0);
                        if b < i {
                            assert(self.vars@[b] == old_vars[b]);
                        } else {
                            assert(self.vars@[b] == old_vars[b + 1]);
                        }
                    }
                    assert(self@ =~= old(self)@.remove(key@));
                }
                true
            },
            None => {
                assert(self@ =~= old(self)@.remove(key@));
                false
            },
        }
    }
}

/// The plain state of a running process: its identity, arguments, environment, working
/// directory, children, pending events, prepared data and drawing state.
pub struct Process {
    /// This process' id
    pub pid: Id,
    /// The parent process' id
    pub parent_pid: Id,
    /// The list of arguments given to the process
    pub args: Vec<Vec<u8>>,
    /// The process' environment
    pub environment: Environment,
    /// The label is this process' file name without the extension
    pub label: Vec<u8>,
    /// The directory for which files are opened relative to
    pub current_working_directory: Vec<u8>,
    /// The eventual return value of the process.
    pub exit_code: Option<u16>,
    /// The list of children.
    pub children: Vec<Id>,
    pub child_iter_index: Option<u32>,
    /// Events that are yet to be handled.
    pub event_queue: Vec<Event>,
    /// The functions (by their index in the program's function table) that handle events, by
    /// event name.
    pub event_handlers: HashMap<EventName, i32>,
    /// The function that handles any event without a handler of its own.
    pub default_event_handler: Option<i32>,
    pub data: PreparedData,
    pub graphics_state: GraphicsState,
}

/// The bytes that prepared data stands for; `pid_label` is the label of the process that
/// `PidLabel` names, when that process exists.
pub open spec fn prepared_bytes(p: Process, pid_label: Option<Seq<u8>>) -> Seq<u8> {
    match p.data {
        PreparedData::Empty => Seq::empty(),
        PreparedData::Bytes(b) => b@,
        PreparedData::Arg(i) => p.args@[i as int]@,
        PreparedData::Label => p.label@,
        PreparedData::PidLabel(_) => match pid_label {
            Some(l) => l,
            None => Seq::empty(),
        },
        PreparedData::Cwd => p.current_working_directory@,
    }
}

/// Everything but the prepared data is the same.
pub open spec fn same_but_data(a: Process, b: Process) -> bool {
    &&& a.pid == b.pid
    &&& a.parent_pid == b.parent_pid
    &&& a.args == b.args
    &&& a.environment == b.environment
    &&& a.label == b.label
    &&& a.current_working_directory == b.current_working_directory
    &&& a.exit_code == b.exit_code
    &&& a.children == b.children
    &&& a.child_iter_index == b.child_iter_index
    &&& a.event_queue == b.event_queue
    &&& a.event_handlers == b.event_handlers
    &&& a.default_event_handler == b.default_event_handler
    &&& a.graphics_state == b.graphics_state
}

impl Process {
    /// The environment's names are unique, prepared arguments exist, and the font address is
    /// never 0.
    pub open spec fn wf(self) -> bool {
        &&& self.environment.wf()
        &&& (self.data matches PreparedData::Arg(i) ==> i < self.args@.len())
        &&& self.graphics_state.wf()
    }

    pub fn new(parent_pid: Id, args: Vec<Vec<u8>>, environment: Environment, label: Vec<u8>, current_working_directory: Vec<u8>) -> (p: Self)
        requires
            environment.wf(),
        ensures
            p.wf(),
            p.pid.num() == 0 && p.pid.ver() == 0,
            p.parent_pid == parent_pid,
            p.args == args,
            p.environment == environment,
            p.label == label,
            p.current_working_directory == current_working_directory,
            p.exit_code is None,
            p.children@.len() == 0,
            p.child_iter_index is None,
            p.event_queue@.len() == 0,
            p.event_handlers@ == Map::<EventName, i32>::empty(),
            p.default_event_handler is None,
            p.data == PreparedData::Empty,
    {
        Self {
            pid: Id::new(0),
            parent_pid,
            args,
            environment,
            label,
            current_working_directory,
            exit_code: None,
            children: Vec::new(),
            child_iter_index: None,
            event_queue: Vec::new(),
            event_handlers: HashMap::new(),
            default_event_handler: None,
            data: PreparedData::Empty,
            graphics_state: GraphicsState::new(),
        }
    }

    pub fn set_pid(&mut self, pid: Id)
        ensures
            *final(self) == (Process { pid, ..*old(self) }),
    {
        self.pid = pid;
    }

    pub fn add_child(&mut self, pid: Id)
        ensures
            final(self).children@ == old(self).children@.push(pid),
            *final(self) == (Process { children: final(self).children, ..*old(self) }),
    {
        self.children.push(pid);
    }

    /// Starts iterating the children from the first.
    pub fn iter_children(&mut self)
        ensures
            *final(self) == (Process { child_iter_index: Some(0), ..*old(self) }),
    {
        self.child_iter_index = Some(0);
    }

    /// The child at the iteration index; the universally invalid id when the iteration has not
    /// started or has run past the children, which also ends it. The index is not advanced.
    pub fn next_child(&mut self) -> (child: Id)
        ensures
            match old(self).child_iter_index {
                Some(i) => if i < old(self).children@.len() {
                    child == old(self).children@[i as int] && *final(self) == *old(self)
                } else {
                    child.num() == 0 && child.ver() == 0
                        && *final(self) == (Process { child_iter_index: None, ..*old(self) })
                },
                None => child.num() == 0 && child.ver() == 0 && *final(self) == *old(self),
            },
    {
        match self.child_iter_index {
            Some(index) => {
                if (index as usize) < self.children.len() {
                    self.children[index as usize]
                } else {
                    self.child_iter_index = None;
                    Id::default()
                }
            },
            None => Id::default(),
        }
    }

    /// Prepares the argument at `index`; returns its length.
    pub fn prepare_arg(&mut self, index: u16) -> (len: usize)
        requires
            old(self).wf(),
            index < old(self).args@.len(),
        ensures
            final(self).wf(),
            final(self).data == PreparedData::Arg(index),
            same_but_data(*final(self), *old(self)),
            len == old(self).args@[index as int]@.len(),
    {
        self.data = PreparedData::Arg(index);
        self.args[index as usize].len()
    }

    /// Prepares the value of an environment variable; returns its length, or 0 (with nothing
    /// prepared) when the variable is not set.
    pub fn prepare_var(&mut self, key: &[u8]) -> (len: usize)
        requires
            old(self).wf(),
        ensures
            final(self).wf(),
            same_but_data(*final(self), *old(self)),
            old(self).environment@.contains_key(key@) ==> {
                &&& final(self).data matches PreparedData::Bytes(b)
                &&& prepared_bytes(*final(self), None) == old(self).environment@[key@]
                &&& len == old(self).environment@[key@].len()
            },
            !old(self).environment@.contains_key(key@) ==> final(self).data == PreparedData::Empty && len == 0,
    {
        match self.environment.get(key) {
            Some(value) => {
                let value = copy_bytes(value);
                self.prepare_bytes(value.as_slice())
            },
            None => {
                self.data = PreparedData::Empty;
                0
            },
        }
    }

    pub fn set_var(&mut self, key: &[u8], value: &[u8])
        requires
            old(self).wf(),
        ensures
            final(self).wf(),
            final(self).environment@ == old(self).environment@.insert(key@, value@),
            *final(self) == (Process { environment: final(self).environment, ..*old(self) }),
    {
        self.environment.insert(key, value);
    }

    /// Unsets an environment variable; returns whether it was set.
    pub fn delete_var(&mut self, key: &[u8]) -> (removed: bool)
        requires
            old(self).wf(),
        ensures
            final(self).wf(),
            removed == old(self).environment@.contains_key(key@),
            final(self).environment@ == old(self).environment@.remove(key@),
            *final(self) == (Process { environment: final(self).environment, ..*old(self) }),
    {
        self.environment.remove(key)
    }

    // Events

    pub fn push_event(&mut self, event: Event)
        ensures
            final(self).event_queue@ == old(self).event_queue@.push(event),
            *final(self) == (Process { event_queue: final(self).event_queue, ..*old(self) }),
    {
        self.event_queue.push(event);
    }

    /// Takes every pending event, oldest first, leaving the queue empty.
    pub fn take_events(&mut self) -> (events: Vec<Event>)
        ensures
            events@ == old(self).event_queue@,
            final(self).event_queue@.len() == 0,
            *final(self) == (Process { event_queue: final(self).event_queue, ..*old(self) }),
    {
        let mut events = Vec::new();
        std::mem::swap(&mut events, &mut self.event_queue);
        events
    }

    /// Handles the event `name` with the function at `handler` in the program's table,
    /// replacing any earlier handler of that event.
    pub fn add_event_handler(&mut self, name: EventName, handler: i32)
        ensures
            final(self).event_handlers@ == old(self).event_handlers@.insert(name, handler),
            *final(self) == (Process { event_handlers: final(self).event_handlers, ..*old(self) }),
    {
        broadcast use vstd::std_specs::hash::group_hash_axioms;
        self.event_handlers.insert(name, handler);
    }

    /// Stops handling the event `name` with a handler of its own.
    pub fn remove_event_handler(&mut self, name: EventName)
        ensures
            final(self).event_handlers@ == old(self).event_handlers@.remove(name),
            *final(self) == (Process { event_handlers: final(self).event_handlers, ..*old(self) }),
    {
        broadcast use vstd::std_specs::hash::group_hash_axioms;
        self.event_handlers.remove(&name);
    }

    /// Handles every event without a handler of its own with the function at `handler`.
    pub fn set_default_handler(&mut self, handler: i32)
        ensures
            *final(self) == (Process { default_event_handler: Some(handler), ..*old(self) }),
    {
        self.default_event_handler = Some(handler);
    }

    /// The function that handles the event `name`: its own handler, else the default one.
    pub fn handler_for(&self, name: EventName) -> (handler: Option<i32>)
        ensures
            handler == (if self.event_handlers@.contains_key(name) {
                Some(self.event_handlers@[name])
            } else {
                self.default_event_handler
            }),
    {
        broadcast use vstd::std_specs::hash::group_hash_axioms;
        match self.event_handlers.get(&name) {
            Some(h) => Some(*h),
            None => self.default_event_handler,
        }
    }

    // Data

    /// Prepares a copy of `bytes`; returns its length.
    pub fn prepare_bytes(&mut self, bytes: &[u8]) -> (len: usize)
        requires
            old(self).wf(),
        ensures
            final(self).wf(),
            final(self).data matches PreparedData::Bytes(b) && b@ == bytes@,
            same_but_data(*final(self), *old(self)),
            len == bytes@.len(),
    {
        self.data = PreparedData::Bytes(copy_bytes(bytes));
        self.get_data_length(None)
    }

    /// Prepares this process' label; returns its length.
    pub fn prepare_label(&mut self) -> (len: usize)
        requires
            old(self).wf(),
        ensures
            final(self).wf(),
            final(self).data == PreparedData::Label,
            same_but_data(*final(self), *old(self)),
            len == old(self).label@.len(),
    {
        self.data = PreparedData::Label;
        self.get_data_length(None)
    }

    /// Prepares the label of the process `pid`, whose label (when it exists) is `pid_label`;
    /// returns its length, or 0.
    pub fn prepare_process_label(&mut self, pid: Id, pid_label: Option<&[u8]>) -> (len: usize)
        requires
            old(self).wf(),
        ensures
            final(self).wf(),
            final(self).data == PreparedData::PidLabel(pid),
            same_but_data(*final(self), *old(self)),
            len == (match pid_label {
                Some(l) => l@.len(),
                None => 0,
            }),
    {
        self.data = PreparedData::PidLabel(pid);
        self.get_data_length(pid_label)
    }

    /// Prepares this process' working directory; returns its length.
    pub fn prepare_cwd(&mut self) -> (len: usize)
        requires
            old(self).wf(),
        ensures
            final(self).wf(),
            final(self).data == PreparedData::Cwd,
            same_but_data(*final(self), *old(self)),
            len == old(self).current_working_directory@.len(),
    {
        self.data = PreparedData::Cwd;
        self.get_data_length(None)
    }

    pub fn get_data_length(&self, pid_label: Option<&[u8]>) -> (len: usize)
        requires
            self.wf(),
        ensures
            len == prepared_bytes(*self, match pid_label {
                Some(l) => Some(l@),
                None => None,
            }).len(),
    {
        self.data_to_bytes(pid_label).len()
    }

    /// The bytes the prepared data stands for.
    pub fn data_to_bytes<'a>(&'a self, pid_label: Option<&'a [u8]>) -> (bytes: &'a [u8])
        requires
            self.wf(),
        ensures
            bytes@ == prepared_bytes(*self, match pid_label {
                Some(l) => Some(l@),
                None => None,
            }),
    {
        match &self.data {
            PreparedData::Empty => &[],
            PreparedData::Bytes(b) => b.as_slice(),
            PreparedData::Arg(i) => self.args[*i as usize].as_slice(),
            PreparedData::Label => self.label.as_slice(),
            PreparedData::PidLabel(_) => match pid_label {
                Some(l) => l,
                None => &[],
            },
            PreparedData::Cwd => self.current_working_directory.as_slice(),
        }
    }
}

} // verus!