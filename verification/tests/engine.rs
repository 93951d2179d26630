use watchcat::engine::{Action, Input, Outcome, Phase, Stage, WatchLoop};
use watchcat::error::WatchError;
use watchcat::kind::{
    AccessKind, AccessMode, CreateKind, DataChange, EventKind, ModifyKind, RemoveKind,
};
use watchcat::record::{NormalizedEvent, RawEvent};
use watchcat::request::{Backend, Scope, WatchRequest};

fn words(items: &[&str]) -> Vec<String> {
    items.iter().map(|s| s.to_string()).collect()
}

fn raw(kind: EventKind, paths: &[&str], description: &str) -> Input {
    Input::Raw {
        event: RawEvent { kind, paths: words(paths), description: description.to_string() },
    }
}

fn content_change(path: &str) -> Input {
    raw(EventKind::Modify(ModifyKind::Data(DataChange::Content)), &[path], "Modify(Data(Content))")
}

fn wait(deadline_ms: Option<u64>) -> Option<Action> {
    Some(Action::Wait { deadline_ms })
}

fn deliver(tags: &[&str], paths: &[&str], raw_description: &str) -> Option<Action> {
    Some(Action::Deliver {
        event: NormalizedEvent {
            tags: words(tags),
            paths: words(paths),
            raw_description: raw_description.to_string(),
        },
    })
}

fn cancelled() -> Option<Action> {
    Some(Action::Finish { outcome: Outcome::Cancelled })
}

fn failed(error: WatchError) -> Option<Action> {
    Some(Action::Finish { outcome: Outcome::Failed { error } })
}

/// Runs the setup of `request` with every step succeeding and returns the
/// watch together with the first answer of the running loop.
fn begun(request: WatchRequest) -> (WatchLoop, Option<Action>) {
    let paths = request.paths.len();
    let mut watch = WatchLoop::new(request);
    assert!(matches!(watch.step(false, 0, Input::Start), Some(Action::Construct { .. })));
    let mut answer = watch.step(false, 0, Input::Constructed);
    for _ in 0..paths {
        assert!(matches!(answer, Some(Action::Register { .. })));
        answer = watch.step(false, 0, Input::Registered);
    }
    (watch, answer)
}

fn request_for(path: &str) -> WatchRequest {
    WatchRequest::new(vec![path.to_string()])
}

#[test]
fn content_change_is_delivered_with_its_three_tags() {
    let mut watch = WatchLoop::new(request_for("/tmp/a"));
    assert_eq!(watch.phase(), Phase::Setup);
    assert_eq!(watch.pending_action(), None);
    assert_eq!(
        watch.step(false, 0, Input::Start),
        Some(Action::Construct { backend: Backend::Native })
    );
    assert_eq!(
        watch.step(false, 1, Input::Constructed),
        Some(Action::Register { path: "/tmp/a".to_string(), scope: Scope::NonRecursive })
    );
    assert_eq!(watch.step(false, 2, Input::Registered), wait(None));
    assert_eq!(watch.phase(), Phase::Running);
    assert_eq!(
        watch.step(false, 3, content_change("/tmp/a/file.txt")),
        deliver(
            &["modify", "data_change", "content"],
            &["/tmp/a/file.txt"],
            "Modify(Data(Content))"
        )
    );
    assert_eq!(watch.step(false, 4, Input::Delivered), wait(None));
}

#[test]
fn create_then_modify_are_delivered_one_by_one() {
    let (mut watch, answer) = begun(request_for("/tmp/a"));
    assert_eq!(answer, wait(None));
    assert_eq!(
        watch.step(
            false,
            1,
            raw(EventKind::Create(CreateKind::File), &["/tmp/a/file.txt"], "Create(File)")
        ),
        deliver(&["create", "file"], &["/tmp/a/file.txt"], "Create(File)")
    );
    assert_eq!(watch.step(false, 2, Input::Delivered), wait(None));
    assert_eq!(
        watch.step(false, 3, content_change("/tmp/a/file.txt")),
        deliver(
            &["modify", "data_change", "content"],
            &["/tmp/a/file.txt"],
            "Modify(Data(Content))"
        )
    );
}

#[test]
fn three_writes_within_the_window_give_one_callback_without_tags() {
    let mut request = request_for("/tmp/b");
    request.debounce_ms = 50;
    let (mut watch, answer) = begun(request);
    assert_eq!(answer, wait(None));
    assert_eq!(watch.step(false, 100, content_change("/tmp/b/file.txt")), wait(Some(150)));
    assert_eq!(watch.step(false, 110, content_change("/tmp/b/file.txt")), wait(Some(160)));
    assert_eq!(watch.step(false, 130, content_change("/tmp/b/file.txt")), wait(Some(180)));
    // Woken early: nothing is quiet yet.
    assert_eq!(watch.step(false, 179, Input::TimedOut), wait(Some(180)));
    assert_eq!(
        watch.step(false, 180, Input::TimedOut),
        deliver(&[], &["/tmp/b/file.txt"], "Modify(Data(Content))")
    );
    // Exactly one: after the callback the loop just waits.
    assert_eq!(watch.step(false, 181, Input::Delivered), wait(None));
    assert_eq!(watch.step(false, 500, Input::TimedOut), wait(None));
}

#[test]
fn two_writes_more_than_a_window_apart_give_two_callbacks() {
    let mut request = request_for("/tmp/b");
    request.debounce_ms = 50;
    let (mut watch, _) = begun(request);
    assert_eq!(watch.step(false, 100, content_change("f")), wait(Some(150)));
    assert_eq!(
        watch.step(false, 150, Input::TimedOut),
        deliver(&[], &["f"], "Modify(Data(Content))")
    );
    assert_eq!(watch.step(false, 151, Input::Delivered), wait(None));
    assert_eq!(watch.step(false, 200, content_change("f")), wait(Some(250)));
    assert_eq!(
        watch.step(false, 250, Input::TimedOut),
        deliver(&[], &["f"], "Modify(Data(Content))")
    );
}

#[test]
fn late_second_write_does_not_swallow_the_first_burst() {
    let mut request = request_for("/tmp/b");
    request.debounce_ms = 50;
    let (mut watch, _) = begun(request);
    assert_eq!(
        watch.step(false, 100, raw(EventKind::Create(CreateKind::File), &["f"], "Create(File)")),
        wait(Some(150))
    );
    // The loop was not woken in time; the second write arrives at 300.
    assert_eq!(
        watch.step(false, 300, content_change("f")),
        deliver(&[], &["f"], "Create(File)")
    );
    assert_eq!(watch.step(false, 301, Input::Delivered), wait(Some(350)));
    assert_eq!(
        watch.step(false, 350, Input::TimedOut),
        deliver(&[], &["f"], "Modify(Data(Content))")
    );
    assert_eq!(watch.step(false, 351, Input::Delivered), wait(None));
}

#[test]
fn coalesced_burst_carries_the_last_raw_kind() {
    let mut request = request_for("/tmp/b");
    request.debounce_ms = 50;
    let (mut watch, _) = begun(request);
    watch.step(false, 0, raw(EventKind::Create(CreateKind::File), &["f"], "Create(File)"));
    watch.step(false, 10, content_change("f"));
    watch.step(
        false,
        20,
        raw(
            EventKind::Access(AccessKind::Close(AccessMode::Write)),
            &["f"],
            "Access(Close(Write))",
        ),
    );
    assert_eq!(
        watch.step(false, 70, Input::TimedOut),
        deliver(&[], &["f"], "Access(Close(Write))")
    );
}

#[test]
fn polling_backend_is_built_with_its_interval() {
    let mut request = request_for("/tmp/c");
    request.force_polling = true;
    request.poll_interval_ms = 100;
    let mut watch = WatchLoop::new(request);
    assert_eq!(
        watch.step(false, 0, Input::Start),
        Some(Action::Construct { backend: Backend::Poll { interval_ms: 100 } })
    );
    watch.step(false, 0, Input::Constructed);
    assert_eq!(watch.step(false, 0, Input::Registered), wait(None));
    assert_eq!(
        watch.step(
            false,
            150,
            raw(EventKind::Create(CreateKind::Any), &["/tmp/c/new.txt"], "Create(Any)")
        ),
        deliver(&["create"], &["/tmp/c/new.txt"], "Create(Any)")
    );
}

#[test]
fn recursive_request_registers_recursively() {
    let mut request = request_for("/tmp/a");
    request.recursive = true;
    let mut watch = WatchLoop::new(request);
    watch.step(false, 0, Input::Start);
    assert_eq!(
        watch.step(false, 0, Input::Constructed),
        Some(Action::Register { path: "/tmp/a".to_string(), scope: Scope::Recursive })
    );
}

#[test]
fn close_during_the_wait_cancels() {
    let (mut watch, answer) = begun(request_for("/tmp/a"));
    assert_eq!(answer, wait(None));
    assert_eq!(watch.step(true, 5, Input::Control), cancelled());
    assert_eq!(watch.phase(), Phase::Cancelled);
    assert!(watch.is_finished());
}

#[test]
fn control_signal_cancels_even_if_the_flag_reads_unset() {
    let (mut watch, _) = begun(request_for("/tmp/a"));
    assert_eq!(watch.step(false, 5, Input::Control), cancelled());
}

#[test]
fn ignored_access_is_never_delivered() {
    let mut request = request_for("/tmp/d");
    request.ignore_access = true;
    let (mut watch, _) = begun(request);
    let open_for_read = raw(
        EventKind::Access(AccessKind::Open(AccessMode::Read)),
        &["/tmp/d/file.txt"],
        "Access(Open(Read))",
    );
    assert_eq!(watch.step(false, 1, open_for_read), wait(None));
    let close = raw(
        EventKind::Access(AccessKind::Close(AccessMode::Read)),
        &["/tmp/d/file.txt"],
        "Access(Close(Read))",
    );
    assert_eq!(watch.step(false, 2, close), wait(None));
    // Other categories still get through.
    assert_eq!(
        watch.step(false, 3, content_change("/tmp/d/file.txt")),
        deliver(
            &["modify", "data_change", "content"],
            &["/tmp/d/file.txt"],
            "Modify(Data(Content))"
        )
    );
}

#[test]
fn each_ignore_flag_keeps_its_category_from_the_callback() {
    let kinds = [
        (EventKind::Remove(RemoveKind::File), "remove"),
        (EventKind::Access(AccessKind::Read), "access"),
        (EventKind::Create(CreateKind::File), "create"),
        (EventKind::Modify(ModifyKind::Any), "modify"),
    ];
    for flag in 0..4 {
        let mut request = request_for("/tmp/d");
        request.ignore_remove = flag == 0;
        request.ignore_access = flag == 1;
        request.ignore_create = flag == 2;
        request.ignore_modify = flag == 3;
        let (mut watch, _) = begun(request);
        for (index, (kind, word)) in kinds.iter().enumerate() {
            let answer = watch.step(false, 1, raw(*kind, &["f"], word));
            if index == flag {
                assert_eq!(answer, wait(None));
            } else {
                assert!(matches!(
                    &answer,
                    Some(Action::Deliver { event }) if event.tags[0] == *word
                ));
                assert_eq!(watch.step(false, 2, Input::Delivered), wait(None));
            }
        }
    }
}

#[test]
fn kind_without_category_passes_every_filter() {
    let mut request = request_for("/tmp/d");
    request.ignore_remove = true;
    request.ignore_access = true;
    request.ignore_create = true;
    request.ignore_modify = true;
    let (mut watch, _) = begun(request);
    assert_eq!(
        watch.step(false, 1, raw(EventKind::Other, &["f"], "Other")),
        deliver(&[], &["f"], "Other")
    );
}

#[test]
fn failed_registration_ends_the_watch_with_that_path() {
    let request = WatchRequest::new(words(&["/tmp/ok", "/tmp/missing", "/tmp/never"]));
    let mut watch = WatchLoop::new(request);
    watch.step(false, 0, Input::Start);
    assert_eq!(
        watch.step(false, 0, Input::Constructed),
        Some(Action::Register { path: "/tmp/ok".to_string(), scope: Scope::NonRecursive })
    );
    assert_eq!(
        watch.step(false, 0, Input::Registered),
        Some(Action::Register { path: "/tmp/missing".to_string(), scope: Scope::NonRecursive })
    );
    let error = WatchError::Setup {
        path: Some("/tmp/missing".to_string()),
        message: "No such file or directory".to_string(),
    };
    assert_eq!(
        watch.step(
            false,
            0,
            Input::RegisterFailed { message: "No such file or directory".to_string() }
        ),
        failed(error.clone())
    );
    assert_eq!(watch.phase(), Phase::Failed);
    assert!(error.is_setup());
    assert_eq!(error.message(), "No such file or directory");
    // Nothing is delivered afterwards, whatever is reported.
    assert_eq!(watch.step(false, 1, content_change("/tmp/ok/file")), None);
    assert_eq!(watch.step(false, 1, Input::Registered), None);
    assert_eq!(watch.pending_action(), failed(error));
}

#[test]
fn failed_construction_ends_the_watch_without_a_path() {
    let mut watch = WatchLoop::new(request_for("/tmp/a"));
    watch.step(false, 0, Input::Start);
    assert_eq!(
        watch.step(false, 0, Input::ConstructFailed { message: "too many watches".to_string() }),
        failed(WatchError::Setup { path: None, message: "too many watches".to_string() })
    );
}

#[test]
fn request_without_paths_goes_straight_to_the_wait() {
    let mut watch = WatchLoop::new(WatchRequest::new(vec![]));
    watch.step(false, 0, Input::Start);
    assert_eq!(watch.step(false, 0, Input::Constructed), wait(None));
}

#[test]
fn flag_set_before_the_first_wait_cancels_after_setup() {
    let mut watch = WatchLoop::new(request_for("/tmp/a"));
    assert!(matches!(watch.step(true, 0, Input::Start), Some(Action::Construct { .. })));
    assert!(matches!(watch.step(true, 0, Input::Constructed), Some(Action::Register { .. })));
    assert_eq!(watch.step(true, 0, Input::Registered), cancelled());
}

#[test]
fn flag_is_read_at_the_top_of_every_iteration() {
    let (mut watch, _) = begun(request_for("/tmp/a"));
    // The event that ended the wait is still delivered ...
    assert!(matches!(
        watch.step(true, 1, content_change("f")),
        Some(Action::Deliver { .. })
    ));
    // ... and then the loop ends instead of waiting again.
    assert_eq!(watch.step(true, 2, Input::Delivered), cancelled());
}

#[test]
fn flag_ends_the_loop_after_a_filtered_event() {
    let mut request = request_for("/tmp/a");
    request.ignore_modify = true;
    let (mut watch, _) = begun(request);
    assert_eq!(watch.step(true, 1, content_change("f")), cancelled());
}

#[test]
fn source_error_fails_the_watch() {
    let (mut watch, _) = begun(request_for("/tmp/a"));
    assert_eq!(
        watch.step(false, 1, Input::SourceError { message: "queue overflow".to_string() }),
        failed(WatchError::Channel { message: "queue overflow".to_string() })
    );
    assert_eq!(watch.phase(), Phase::Failed);
}

#[test]
fn disconnected_channel_fails_the_watch() {
    let (mut watch, _) = begun(request_for("/tmp/a"));
    let error = WatchError::Channel { message: "receiving on a closed channel".to_string() };
    assert_eq!(
        watch.step(
            false,
            1,
            Input::Disconnected { message: "receiving on a closed channel".to_string() }
        ),
        failed(error.clone())
    );
    assert!(!error.is_setup());
    assert_eq!(error.message(), "receiving on a closed channel");
}

#[test]
fn callback_failure_fails_the_watch_with_its_cause() {
    let (mut watch, _) = begun(request_for("/tmp/a"));
    watch.step(false, 1, content_change("f"));
    let error = WatchError::Callback { message: "boom".to_string() };
    assert_eq!(
        watch.step(false, 2, Input::CallbackFailed { message: "boom".to_string() }),
        failed(error.clone())
    );
    assert_eq!(error.message(), "boom");
    assert_eq!(error.clone(), error);
}

#[test]
fn input_that_answers_nothing_changes_nothing() {
    let (mut watch, _) = begun(request_for("/tmp/a"));
    let before = watch.pending_action();
    for input in [
        Input::Start,
        Input::Constructed,
        Input::Registered,
        Input::Delivered,
        Input::Probed { present: true },
        Input::CallbackFailed { message: "x".to_string() },
        Input::RegisterFailed { message: "x".to_string() },
    ] {
        assert!(!watch.accepts(&input));
        assert_eq!(watch.step(true, 9, input), None);
        assert_eq!(watch.pending_action(), before);
        assert_eq!(watch.phase(), Phase::Running);
    }
    assert!(watch.accepts(&Input::Control));
    assert!(watch.accepts(&Input::TimedOut));
}

#[test]
fn finished_watch_accepts_nothing() {
    let (mut watch, _) = begun(request_for("/tmp/a"));
    watch.step(false, 1, Input::Control);
    for input in [Input::Start, Input::Control, Input::TimedOut, content_change("f")] {
        assert!(!watch.accepts(&input));
        assert_eq!(watch.step(false, 2, input), None);
    }
    assert_eq!(watch.pending_action(), cancelled());
}

#[test]
fn ignored_removal_is_decided_by_a_lookup_when_debouncing() {
    let mut request = request_for("/tmp/e");
    request.debounce_ms = 10;
    request.ignore_remove = true;
    let (mut watch, _) = begun(request);
    watch.step(false, 0, raw(EventKind::Remove(RemoveKind::File), &["gone"], "Remove(File)"));
    watch.step(false, 1, content_change("kept"));
    assert_eq!(
        watch.step(false, 20, Input::TimedOut),
        Some(Action::Probe { path: "gone".to_string() })
    );
    // `gone` is not on disk: dropped, and the next quiet burst is looked up.
    assert_eq!(
        watch.step(false, 21, Input::Probed { present: false }),
        Some(Action::Probe { path: "kept".to_string() })
    );
    assert_eq!(
        watch.step(false, 22, Input::Probed { present: true }),
        deliver(&[], &["kept"], "Modify(Data(Content))")
    );
    assert_eq!(watch.step(false, 23, Input::Delivered), wait(None));
}

#[test]
fn lookup_decides_whatever_the_last_kind_was() {
    let mut request = request_for("/tmp/e");
    request.debounce_ms = 10;
    request.ignore_remove = true;
    let (mut watch, _) = begun(request);
    // Removed and created again within the window: the path is there.
    watch.step(false, 0, raw(EventKind::Remove(RemoveKind::File), &["f"], "Remove(File)"));
    assert_eq!(
        watch.step(false, 10, Input::TimedOut),
        Some(Action::Probe { path: "f".to_string() })
    );
    assert_eq!(
        watch.step(false, 11, Input::Probed { present: true }),
        deliver(&[], &["f"], "Remove(File)")
    );
}

#[test]
fn removal_is_delivered_without_a_lookup_when_not_ignored() {
    let mut request = request_for("/tmp/e");
    request.debounce_ms = 10;
    let (mut watch, _) = begun(request);
    watch.step(false, 0, raw(EventKind::Remove(RemoveKind::File), &["f"], "Remove(File)"));
    assert_eq!(watch.step(false, 10, Input::TimedOut), deliver(&[], &["f"], "Remove(File)"));
}

#[test]
fn ignored_access_drops_a_burst_that_ends_in_an_access() {
    let mut request = request_for("/tmp/e");
    request.debounce_ms = 10;
    request.ignore_access = true;
    let (mut watch, _) = begun(request);
    watch.step(false, 0, raw(EventKind::Access(AccessKind::Read), &["read"], "Access(Read)"));
    watch.step(false, 1, raw(EventKind::Access(AccessKind::Read), &["also"], "Access(Read)"));
    watch.step(false, 2, content_change("written"));
    assert_eq!(
        watch.step(false, 50, Input::TimedOut),
        deliver(&[], &["written"], "Modify(Data(Content))")
    );
    assert_eq!(watch.step(false, 51, Input::Delivered), wait(None));
}

#[test]
fn create_and_modify_flags_are_not_applied_when_debouncing() {
    let mut request = request_for("/tmp/e");
    request.debounce_ms = 10;
    request.ignore_create = true;
    request.ignore_modify = true;
    let (mut watch, _) = begun(request);
    watch.step(false, 0, content_change("f"));
    assert_eq!(
        watch.step(false, 10, Input::TimedOut),
        deliver(&[], &["f"], "Modify(Data(Content))")
    );
}

#[test]
fn raw_event_with_two_paths_opens_two_bursts() {
    let mut request = request_for("/tmp/e");
    request.debounce_ms = 10;
    let (mut watch, _) = begun(request);
    let rename = raw(
        EventKind::Modify(ModifyKind::Name(watchcat::kind::RenameMode::Both)),
        &["old", "new"],
        "Modify(Name(Both))",
    );
    assert_eq!(watch.step(false, 5, rename), wait(Some(15)));
    assert_eq!(
        watch.step(false, 15, Input::TimedOut),
        deliver(&[], &["old"], "Modify(Name(Both))")
    );
    assert_eq!(
        watch.step(false, 16, Input::Delivered),
        deliver(&[], &["new"], "Modify(Name(Both))")
    );
    assert_eq!(watch.step(false, 17, Input::Delivered), wait(None));
}

#[test]
fn raw_event_with_two_paths_is_delivered_whole_without_debouncing() {
    let (mut watch, _) = begun(request_for("/tmp/e"));
    let rename = raw(
        EventKind::Modify(ModifyKind::Name(watchcat::kind::RenameMode::Both)),
        &["old", "new"],
        "Modify(Name(Both))",
    );
    assert_eq!(
        watch.step(false, 5, rename),
        deliver(&["modify", "rename", "both"], &["old", "new"], "Modify(Name(Both))")
    );
}

#[test]
fn flag_cancels_between_two_coalesced_deliveries() {
    let mut request = request_for("/tmp/e");
    request.debounce_ms = 10;
    let (mut watch, _) = begun(request);
    watch.step(false, 0, content_change("a"));
    watch.step(false, 1, content_change("b"));
    assert!(matches!(watch.step(false, 50, Input::TimedOut), Some(Action::Deliver { .. })));
    assert_eq!(watch.step(true, 51, Input::Delivered), cancelled());
}

#[test]
fn stage_follows_the_reports() {
    let mut watch = WatchLoop::new(request_for("/tmp/a"));
    assert_eq!(*watch.stage(), Stage::Created);
    watch.step(false, 0, Input::Start);
    assert_eq!(*watch.stage(), Stage::Constructing);
    watch.step(false, 0, Input::Constructed);
    assert_eq!(*watch.stage(), Stage::Registering { path: "/tmp/a".to_string() });
    watch.step(false, 0, Input::Registered);
    assert_eq!(*watch.stage(), Stage::Waiting);
    watch.step(false, 1, content_change("f"));
    assert!(matches!(watch.stage(), Stage::Delivering { .. }));
    assert_eq!(watch.phase(), Phase::Running);
    watch.step(false, 2, Input::CallbackFailed { message: "boom".to_string() });
    assert_eq!(
        *watch.stage(),
        Stage::Failed { error: WatchError::Callback { message: "boom".to_string() } }
    );
}

#[test]
fn only_a_delivery_needs_the_host_lock() {
    let event = NormalizedEvent::from_burst("f".to_string(), "Any".to_string());
    assert!(Action::Deliver { event }.needs_host_lock());
    assert!(!Action::Wait { deadline_ms: None }.needs_host_lock());
    assert!(!Action::Wait { deadline_ms: Some(5) }.needs_host_lock());
    assert!(!Action::Probe { path: "f".to_string() }.needs_host_lock());
    assert!(!Action::Construct { backend: Backend::Native }.needs_host_lock());
    assert!(!Action::Register { path: "f".to_string(), scope: Scope::Recursive }
        .needs_host_lock());
    assert!(!Action::Finish { outcome: Outcome::Cancelled }.needs_host_lock());
}

#[test]
fn records_are_built_as_documented() {
    let event = RawEvent {
        kind: EventKind::Create(CreateKind::Folder),
        paths: words(&["/tmp/a/dir"]),
        description: "Create(Folder)".to_string(),
    };
    let classified = NormalizedEvent::from_raw(event);
    assert_eq!(classified.tags, words(&["create", "folder"]));
    assert_eq!(classified.paths, words(&["/tmp/a/dir"]));
    assert_eq!(classified.raw_description, "Create(Folder)");
    assert_eq!(classified.clone(), classified);
    let burst = NormalizedEvent::from_burst("/tmp/a/f".to_string(), "Any".to_string());
    assert_eq!(burst.tags, Vec::<String>::new());
    assert_eq!(burst.paths, words(&["/tmp/a/f"]));
    assert_eq!(burst.raw_description, "Any");
}
