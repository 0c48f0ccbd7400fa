use blaze64::async_file::{
    file_error, read_dispatch, seek_dispatch, seek_origin, write_dispatch, Dispatch, FileError, FileKind,
    IoErrorKind, SeekOrigin,
};
use blaze64::byte_builder::ByteBuilder;
use blaze64::event::Event;
use blaze64::id::Id;
use blaze64::imports::split_imports;
use blaze64::kernel::{
    boot_path, create_process_error, is_wasm_path, library_dir, open_mode, program_label, root_pid, try_next_boot,
    CreateProcessError,
    Kernel, FILE_APPEND, FILE_CREATE, FILE_TRUNCATE, FILE_WRITE,
};
use blaze64::process::{arg_spans, readable_part, standard_files, Environment, PreparedData, Process};

fn process(parent: Id, label: &[u8], cwd: &[u8]) -> Process {
    Process::new(parent, vec![b"one".to_vec(), b"two".to_vec()], Environment::new(), label.to_vec(), cwd.to_vec())
}

#[test]
fn environment_set_get_delete() {
    let mut env = Environment::new();
    assert_eq!(env.get(b"HOME"), None);
    env.insert(b"HOME", b"/home");
    env.insert(b"PATH", b"/bin");
    env.insert(b"HOME", b"/root");
    assert_eq!(env.get(b"HOME"), Some(&b"/root"[..]));
    assert_eq!(env.get(b"PATH"), Some(&b"/bin"[..]));
    assert!(env.remove(b"HOME"));
    assert!(!env.remove(b"HOME"));
    assert_eq!(env.get(b"HOME"), None);
    assert_eq!(env.get(b"PATH"), Some(&b"/bin"[..]));
}

#[test]
fn prepared_data_kinds() {
    let mut p = process(Id::default(), b"shell", b"home/user");
    assert_eq!(p.get_data_length(None), 0);
    assert_eq!(p.prepare_arg(1), 3);
    assert_eq!(p.data_to_bytes(None), b"two");
    assert_eq!(p.prepare_label(), 5);
    assert_eq!(p.data_to_bytes(None), b"shell");
    assert_eq!(p.prepare_cwd(), 9);
    assert_eq!(p.data_to_bytes(None), b"home/user");
    assert_eq!(p.prepare_bytes(&[1, 2, 3, 4]), 4);
    assert_eq!(p.data_to_bytes(None), &[1, 2, 3, 4]);
    assert_eq!(p.prepare_process_label(Id::new(7), Some(b"child")), 5);
    assert_eq!(p.data_to_bytes(Some(b"child")), b"child");
    assert_eq!(p.prepare_process_label(Id::new(8), None), 0);
    let taken = p.data.take();
    assert!(matches!(taken, PreparedData::PidLabel(_)));
    assert!(matches!(p.data, PreparedData::Empty));
}

#[test]
fn prepared_variables() {
    let mut p = process(Id::default(), b"shell", b"");
    p.set_var(b"LANG", b"en");
    assert_eq!(p.prepare_var(b"LANG"), 2);
    assert_eq!(p.data_to_bytes(None), b"en");
    assert_eq!(p.prepare_var(b"NOPE"), 0);
    assert_eq!(p.data_to_bytes(None), b"");
    assert!(p.delete_var(b"LANG"));
    assert!(!p.delete_var(b"LANG"));
}

#[test]
fn children_iteration() {
    let mut p = process(Id::default(), b"shell", b"");
    assert_eq!(p.next_child(), Id::default());
    p.add_child(Id::new(4));
    p.add_child(Id::new(5));
    p.iter_children();
    assert_eq!(p.next_child(), Id::new(4));
    // The index is not advanced by next_child.
    assert_eq!(p.next_child(), Id::new(4));
    p.child_iter_index = Some(2);
    assert_eq!(p.next_child(), Id::default());
    assert_eq!(p.child_iter_index, None);
}

#[test]
fn event_handlers_fall_back_to_default() {
    let mut p = process(Id::default(), b"shell", b"");
    assert_eq!(p.handler_for(3), None);
    p.set_default_handler(9);
    assert_eq!(p.handler_for(3), Some(9));
    p.add_event_handler(3, 12);
    assert_eq!(p.handler_for(3), Some(12));
    assert_eq!(p.handler_for(4), Some(9));
    p.remove_event_handler(3);
    assert_eq!(p.handler_for(3), Some(9));
}

#[test]
fn take_events_empties_queue() {
    let mut p = process(Id::default(), b"shell", b"");
    p.push_event(Event::new(vec![1], Id::new(2), 0));
    p.push_event(Event::new(vec![2], Id::new(3), 1));
    let events = p.take_events();
    assert_eq!(events.len(), 2);
    assert_eq!(events[0].data(), &[1]);
    assert_eq!(events[1].interned_name(), 1);
    assert!(p.event_queue.is_empty());
}

#[test]
fn spawn_argument_spans() {
    let lens = ByteBuilder::new().i32(3).i32(5).build();
    let ptrs = ByteBuilder::new().i32(100).i32(-1).build();
    assert_eq!(arg_spans(&lens, &ptrs, 2), vec![(100, 3), (-1, 5)]);
    assert_eq!(arg_spans(&[], &[], 0), vec![]);
}

#[test]
fn kernel_registers_processes_with_parents() {
    let mut k = Kernel::new();
    let root = k.add_process(process(Id::default(), b"boot", b""), Id::default());
    assert_eq!(root, root_pid());
    assert!(!k.root_exited());
    assert_eq!(k.get_process(root).unwrap().pid, root);
    assert_eq!(k.inherited_cwd(Id::default()), Vec::<u8>::new());

    k.get_process_mut(root).unwrap().current_working_directory = b"bin".to_vec();
    let cwd = k.inherited_cwd(root);
    assert_eq!(cwd, b"bin".to_vec());
    let child = k.add_process(process(root, b"child", &cwd), root);
    assert_eq!((child.number(), child.version()), (2, 0));
    assert_eq!(k.get_process(root).unwrap().children, vec![child]);
    assert_eq!(k.get_process(child).unwrap().current_working_directory, b"bin".to_vec());
}

#[test]
fn kernel_send_and_resend_events() {
    let mut k = Kernel::new();
    let root = k.add_process(process(Id::default(), b"boot", b""), Id::default());
    let child = k.add_process(process(root, b"child", b""), root);

    assert_eq!(k.send_event("ping", &[1, 2], root, child), 0);
    assert_eq!(k.send_event("ping", &[3], root, Id::new(9)), -1);
    let queued = k.get_process(child).unwrap().event_queue.len();
    assert_eq!(queued, 1);
    let event = &k.get_process(child).unwrap().event_queue[0];
    assert_eq!(event.data(), &[1, 2]);
    assert_eq!(event.sent_by_pid, root);
    let sym = event.interned_name();
    assert_eq!(k.get_event_name(sym), "ping");
    assert_eq!(k.intern_event_name("ping"), sym);
    assert_eq!(k.get_event_name(sym + 100), "NO_EVENT_NAME");

    let copy = Event::from_resent(&k.get_process(child).unwrap().event_queue[0], child);
    assert_eq!(k.resend_event(&copy, child, root), 0);
    let back = &k.get_process(root).unwrap().event_queue[0];
    assert_eq!(back.data(), &[1, 2]);
    assert_eq!(back.sent_by_pid, child);
    assert_eq!(k.resend_event(&copy, child, Id::new(9)), -1);

    assert_eq!(k.send_event_to_root("key", &[7]), 0);
    let last = k.get_process(root).unwrap().event_queue.last().unwrap();
    assert_eq!(last.sent_by_pid, Id::default());
}

#[test]
fn kernel_process_exit_notifies_parent() {
    let mut k = Kernel::new();
    let root = k.add_process(process(Id::default(), b"boot", b""), Id::default());
    let child = k.add_process(process(root, b"child", b""), root);
    assert_eq!(k.process_exited(child, Some(3)), 3);
    assert!(k.get_process(child).is_none());
    let note = &k.get_process(root).unwrap().event_queue[0];
    assert_eq!(note.data(), &[3, 0, 0, 0]);
    assert_eq!(note.sent_by_pid, child);
    assert_eq!(k.get_event_name(note.interned_name()), "child_exited");

    assert_eq!(k.process_exited(root, None), 100);
    assert!(k.root_exited());
}

#[test]
fn kernel_prepared_data_reads_other_labels() {
    let mut k = Kernel::new();
    let root = k.add_process(process(Id::default(), b"boot", b""), Id::default());
    let child = k.add_process(process(root, b"child", b""), root);
    k.get_process_mut(root).unwrap().prepare_process_label(child, Some(b"child"));
    assert_eq!(k.prepared_data(root), Some(&b"child"[..]));
    k.get_process_mut(root).unwrap().prepare_process_label(Id::new(9), None);
    assert_eq!(k.prepared_data(root), Some(&b""[..]));
    assert_eq!(k.prepared_data(Id::new(9)), None);
}

#[test]
fn kernel_process_names() {
    let mut k = Kernel::new();
    let root = k.add_process(process(Id::default(), b"boot", b""), Id::default());
    assert_eq!(k.get_pid_by_name("shell"), Id::default());
    assert!(k.set_process_name(root, "shell"));
    assert!(!k.set_process_name(Id::new(5), "shell"));
    assert_eq!(k.get_pid_by_name("shell"), root);
    assert!(k.set_process_name(Id::new(5), "other"));
    assert_eq!(k.get_pid_by_name("other"), Id::new(5));
    assert_eq!(k.get_pid_by_name("shell"), root);
}

#[test]
fn kernel_delete_process() {
    let mut k = Kernel::new();
    let root = k.add_process(process(Id::default(), b"boot", b""), Id::default());
    k.delete_process(root);
    assert!(k.root_exited());
    assert!(k.get_process(root).is_none());
    assert!(k.get_process_mut(root).is_none());
}

#[test]
fn wasm_paths_and_boot_order() {
    assert!(is_wasm_path("boot.wasm"));
    assert!(is_wasm_path("bin/a.wasm"));
    assert!(!is_wasm_path("wasm"));
    assert!(!is_wasm_path("boot.wat"));
    assert!(!is_wasm_path(".was"));
    assert_eq!(boot_path(0), "boot.wasm");
    assert_eq!(boot_path(1), "rom/boot.wasm");
    assert_eq!(boot_path(2), "bios/boot.wasm");
    assert!(try_next_boot(0, &Err(CreateProcessError::FileNotFound)));
    assert!(try_next_boot(1, &Err(CreateProcessError::FileNotFound)));
    assert!(!try_next_boot(2, &Err(CreateProcessError::FileNotFound)));
    assert!(!try_next_boot(0, &Err(CreateProcessError::InvalidWasm)));
    assert!(!try_next_boot(0, &Ok(Id::new(1))));
    assert_eq!(create_process_error(IoErrorKind::NotFound), CreateProcessError::FileNotFound);
    assert_eq!(create_process_error(IoErrorKind::NotSeekable), CreateProcessError::Other);
}

#[test]
fn open_modes() {
    let m = open_mode(0);
    assert!(m.read && !m.write && !m.append && !m.create && !m.truncate);
    let m = open_mode(FILE_WRITE | FILE_CREATE | FILE_TRUNCATE);
    assert!(!m.read && m.write && !m.append && m.create && m.truncate);
    let m = open_mode(FILE_APPEND);
    assert!(m.read && !m.write && m.append);
}

#[test]
fn file_dispatch_rules() {
    assert_eq!(read_dispatch(FileKind::Null), Dispatch::Nothing);
    assert_eq!(read_dispatch(FileKind::Stdin), Dispatch::Forward);
    assert_eq!(read_dispatch(FileKind::File), Dispatch::Forward);
    assert_eq!(read_dispatch(FileKind::Stdout), Dispatch::Refuse(FileError::CannotRead));
    assert_eq!(write_dispatch(FileKind::Null), Dispatch::Nothing);
    assert_eq!(write_dispatch(FileKind::Stderr), Dispatch::Forward);
    assert_eq!(write_dispatch(FileKind::File), Dispatch::Refuse(FileError::CannotWrite));
    assert_eq!(seek_dispatch(FileKind::File, 1), Dispatch::Forward);
    assert_eq!(seek_dispatch(FileKind::Null, 2), Dispatch::Nothing);
    assert_eq!(seek_dispatch(FileKind::Stdin, 0), Dispatch::Refuse(FileError::CannotSeek));
    assert_eq!(seek_dispatch(FileKind::File, 3), Dispatch::Refuse(FileError::InvalidSeekOption));
    assert_eq!(seek_origin(-5, 0), Ok(SeekOrigin::Start(u64::MAX - 4)));
    assert_eq!(seek_origin(-5, 1), Ok(SeekOrigin::End(-5)));
    assert_eq!(seek_origin(7, 2), Ok(SeekOrigin::Current(7)));
    assert_eq!(seek_origin(7, 9), Err(FileError::InvalidSeekOption));
    assert_eq!(file_error(IoErrorKind::ReadOnlyFilesystem), FileError::CannotWrite);
    assert_eq!(file_error(IoErrorKind::NotSeekable), FileError::CannotSeek);
    assert_eq!(file_error(IoErrorKind::NotFound), FileError::Other);
}

#[test]
fn imports_split_into_drivers_and_libraries() {
    let modules = ["env", "driver_draw", "graphics", "driver_draw", "wasm_os", "env", "driver_input", "driver"];
    let (drivers, libraries) = split_imports(&modules);
    assert_eq!(drivers, vec!["driver_draw", "driver_input"]);
    assert_eq!(libraries, vec!["graphics", "wasm_os", "driver"]);
    let (drivers, libraries) = split_imports(&[]);
    assert!(drivers.is_empty() && libraries.is_empty());
}

#[test]
fn kernel_counts_and_liveness() {
    let mut k = Kernel::new();
    assert_eq!(k.process_count(), 0);
    assert_eq!(k.event_name_count(), 0);
    let root = k.add_process(process(Id::default(), b"boot", b""), Id::default());
    assert_eq!(k.process_count(), 1);
    assert!(k.process_is_live(root));
    let mut stale = root;
    stale.increment_version();
    assert!(!k.process_is_live(stale));
    k.intern_event_name("a");
    k.intern_event_name("b");
    k.intern_event_name("a");
    assert_eq!(k.event_name_count(), 2);
    k.delete_process(root);
    assert_eq!(k.process_count(), 0);
    assert!(!k.process_is_live(root));
}

#[test]
fn first_process_is_the_root() {
    let mut k = Kernel::new();
    let root = k.add_process(process(Id::default(), b"boot", b""), Id::default());
    assert_eq!(root, root_pid());
    assert_eq!((root.number(), root.version()), (1, 0));
    assert!(!k.root_exited());
}

#[test]
fn stale_receiver_gets_no_event() {
    let mut k = Kernel::new();
    let root = k.add_process(process(Id::default(), b"boot", b""), Id::default());
    let child = k.add_process(process(root, b"child", b""), root);
    k.delete_process(child);
    let again = k.add_process(process(root, b"again", b""), root);
    assert_eq!(again.number(), child.number());
    assert_ne!(again, child);
    assert_eq!(k.send_event("ping", &[1], root, child), -1);
    assert!(k.get_process(child).is_none());
    assert_eq!(k.get_process(again).unwrap().event_queue.len(), 0);
    assert_eq!(k.send_event("ping", &[1], root, again), 0);
    assert_eq!(k.get_process(again).unwrap().event_queue.len(), 1);
    let e = k.get_process_mut(again).unwrap().take_events().pop().unwrap();
    assert_eq!(k.resend_event(&e, root, child), -1);
    assert_eq!(k.resend_event(&e, root, again), 0);
}

#[test]
fn program_labels_are_file_stems() {
    assert_eq!(program_label("boot.wasm"), b"boot".to_vec());
    assert_eq!(program_label("rom/boot.wasm"), b"boot".to_vec());
    assert_eq!(program_label("/bin/shell/edit.wasm"), b"edit".to_vec());
    assert_eq!(program_label("a/.wasm"), b".wasm".to_vec());
    assert_eq!(program_label("x..wasm"), b"x.".to_vec());
}

#[test]
fn standard_files_take_the_first_ids() {
    let files = standard_files("in", "out", "err");
    assert_eq!(files.live_count(), 3);
    assert_eq!(files.data(Id::new(1)), Some(&"in"));
    assert_eq!(files.data(Id::new(2)), Some(&"out"));
    assert_eq!(files.data(Id::new(3)), Some(&"err"));
    assert_eq!(files.data(Id::new(4)), None);
}

#[test]
fn current_event_is_set_while_handled() {
    let mut k = Kernel::new();
    let root = k.add_process(process(Id::default(), b"boot", b""), Id::default());
    assert!(k.get_current_event().is_none());
    assert_eq!(k.send_event("key", &[7], Id::default(), root), 0);
    let e = k.get_process_mut(root).unwrap().take_events().pop().unwrap();
    k.set_current_event(e);
    assert_eq!(k.get_current_event().unwrap().data(), &[7]);
    // Sending other events while handling one leaves it in place.
    assert_eq!(k.send_event("other", &[1], root, root), 0);
    assert_eq!(k.get_current_event().unwrap().data(), &[7]);
    let ended = k.end_current_event().unwrap();
    assert_eq!(ended.data(), &[7]);
    assert!(k.get_current_event().is_none());
}

#[test]
fn libraries_are_looked_for_in_order() {
    assert_eq!(library_dir(0), "rom/lib");
    assert_eq!(library_dir(1), "bios/lib");
    assert_eq!(library_dir(2), "lib");
}

#[test]
fn readable_part_fits_the_buffer() {
    assert_eq!(readable_part(&[1, 2, 3], 2), &[1, 2]);
    assert_eq!(readable_part(&[1, 2, 3], 5), &[1, 2, 3]);
    assert_eq!(readable_part(&[1, 2, 3], 0), &[] as &[u8]);
}
