use watchcat::event::WatchatEvent;
use watchcat::kind::{
    AccessKind, AccessMode, CreateKind, DataChange, EventKind, MetadataKind, ModifyKind,
    RemoveKind, RenameMode,
};

fn words(items: &[&str]) -> Vec<String> {
    items.iter().map(|s| s.to_string()).collect()
}

#[test]
fn access_read_is_access_read() {
    let kind = EventKind::Access(AccessKind::Read);
    assert_eq!(WatchatEvent::convert_kind(&kind), words(&["access", "read"]));
}

#[test]
fn access_open_has_one_tag_per_mode() {
    let cases = [
        (AccessMode::Execute, "execute"),
        (AccessMode::Read, "read"),
        (AccessMode::Write, "write"),
    ];
    for (mode, word) in cases {
        let kind = EventKind::Access(AccessKind::Open(mode));
        assert_eq!(WatchatEvent::convert_kind(&kind), words(&["access", "open", word]));
    }
}

#[test]
fn access_close_has_one_tag_per_mode() {
    let cases = [
        (AccessMode::Execute, "execute"),
        (AccessMode::Read, "read"),
        (AccessMode::Write, "write"),
    ];
    for (mode, word) in cases {
        let kind = EventKind::Access(AccessKind::Close(mode));
        assert_eq!(WatchatEvent::convert_kind(&kind), words(&["access", "close", word]));
    }
}

#[test]
fn access_with_unknown_mode_stops_at_the_operation() {
    for mode in [AccessMode::Any, AccessMode::Other] {
        assert_eq!(
            WatchatEvent::convert_kind(&EventKind::Access(AccessKind::Open(mode))),
            words(&["access", "open"])
        );
        assert_eq!(
            WatchatEvent::convert_kind(&EventKind::Access(AccessKind::Close(mode))),
            words(&["access", "close"])
        );
    }
}

#[test]
fn create_names_file_or_folder() {
    assert_eq!(
        WatchatEvent::convert_kind(&EventKind::Create(CreateKind::File)),
        words(&["create", "file"])
    );
    assert_eq!(
        WatchatEvent::convert_kind(&EventKind::Create(CreateKind::Folder)),
        words(&["create", "folder"])
    );
}

#[test]
fn modify_data_names_size_or_content() {
    assert_eq!(
        WatchatEvent::convert_kind(&EventKind::Modify(ModifyKind::Data(DataChange::Size))),
        words(&["modify", "data_change", "size"])
    );
    assert_eq!(
        WatchatEvent::convert_kind(&EventKind::Modify(ModifyKind::Data(DataChange::Content))),
        words(&["modify", "data_change", "content"])
    );
}

#[test]
fn modify_metadata_names_the_attribute() {
    let cases = [
        (MetadataKind::AccessTime, "access_time"),
        (MetadataKind::WriteTime, "write_time"),
        (MetadataKind::Permissions, "permissions"),
        (MetadataKind::Ownership, "ownership"),
        (MetadataKind::Extended, "extended"),
    ];
    for (detail, word) in cases {
        let kind = EventKind::Modify(ModifyKind::Metadata(detail));
        assert_eq!(WatchatEvent::convert_kind(&kind), words(&["modify", "metadata", word]));
    }
}

#[test]
fn modify_name_names_the_side_of_the_rename() {
    let cases = [(RenameMode::From, "from"), (RenameMode::To, "to"), (RenameMode::Both, "both")];
    for (mode, word) in cases {
        let kind = EventKind::Modify(ModifyKind::Name(mode));
        assert_eq!(WatchatEvent::convert_kind(&kind), words(&["modify", "rename", word]));
    }
}

#[test]
fn remove_names_file_or_folder() {
    assert_eq!(
        WatchatEvent::convert_kind(&EventKind::Remove(RemoveKind::File)),
        words(&["remove", "file"])
    );
    assert_eq!(
        WatchatEvent::convert_kind(&EventKind::Remove(RemoveKind::Folder)),
        words(&["remove", "folder"])
    );
}

#[test]
fn unknown_sub_kind_gives_the_top_level_tag_alone() {
    for kind in [AccessKind::Any, AccessKind::Other] {
        assert_eq!(WatchatEvent::convert_kind(&EventKind::Access(kind)), words(&["access"]));
    }
    for kind in [CreateKind::Any, CreateKind::Other] {
        assert_eq!(WatchatEvent::convert_kind(&EventKind::Create(kind)), words(&["create"]));
    }
    for kind in [ModifyKind::Any, ModifyKind::Other] {
        assert_eq!(WatchatEvent::convert_kind(&EventKind::Modify(kind)), words(&["modify"]));
    }
    for kind in [RemoveKind::Any, RemoveKind::Other] {
        assert_eq!(WatchatEvent::convert_kind(&EventKind::Remove(kind)), words(&["remove"]));
    }
}

#[test]
fn unknown_detail_gives_the_two_coarser_tags() {
    for detail in [DataChange::Any, DataChange::Other] {
        assert_eq!(
            WatchatEvent::convert_kind(&EventKind::Modify(ModifyKind::Data(detail))),
            words(&["modify", "data_change"])
        );
    }
    for detail in [MetadataKind::Any, MetadataKind::Other] {
        assert_eq!(
            WatchatEvent::convert_kind(&EventKind::Modify(ModifyKind::Metadata(detail))),
            words(&["modify", "metadata"])
        );
    }
    for detail in [RenameMode::Any, RenameMode::Other] {
        assert_eq!(
            WatchatEvent::convert_kind(&EventKind::Modify(ModifyKind::Name(detail))),
            words(&["modify", "rename"])
        );
    }
}

#[test]
fn unknown_top_level_kind_gives_no_tags() {
    assert_eq!(WatchatEvent::convert_kind(&EventKind::Any), Vec::<String>::new());
    assert_eq!(WatchatEvent::convert_kind(&EventKind::Other), Vec::<String>::new());
}

#[test]
fn sub_classifiers_agree_with_the_whole() {
    assert_eq!(
        WatchatEvent::access_event(&AccessKind::Open(AccessMode::Write)),
        words(&["access", "open", "write"])
    );
    assert_eq!(WatchatEvent::create_event(&CreateKind::Folder), words(&["create", "folder"]));
    assert_eq!(
        WatchatEvent::modify_event(&ModifyKind::Name(RenameMode::Both)),
        words(&["modify", "rename", "both"])
    );
    assert_eq!(WatchatEvent::remove_event(&RemoveKind::File), words(&["remove", "file"]));
}

#[test]
fn category_looks_at_the_top_level_only() {
    assert_eq!(
        WatchatEvent::category(&EventKind::Access(AccessKind::Close(AccessMode::Write))),
        Some(WatchatEvent::Access)
    );
    assert_eq!(
        WatchatEvent::category(&EventKind::Create(CreateKind::Other)),
        Some(WatchatEvent::Create)
    );
    assert_eq!(
        WatchatEvent::category(&EventKind::Modify(ModifyKind::Any)),
        Some(WatchatEvent::Modify)
    );
    assert_eq!(
        WatchatEvent::category(&EventKind::Remove(RemoveKind::Folder)),
        Some(WatchatEvent::Remove)
    );
    assert_eq!(WatchatEvent::category(&EventKind::Any), None);
    assert_eq!(WatchatEvent::category(&EventKind::Other), None);
}

#[test]
fn first_tag_is_the_tag_of_the_category() {
    let kinds = [
        EventKind::Access(AccessKind::Read),
        EventKind::Create(CreateKind::File),
        EventKind::Modify(ModifyKind::Metadata(MetadataKind::Ownership)),
        EventKind::Remove(RemoveKind::Any),
    ];
    for kind in kinds {
        let category = WatchatEvent::category(&kind).unwrap();
        assert_eq!(WatchatEvent::convert_kind(&kind)[0], category.tag());
    }
    assert_eq!(WatchatEvent::Access.tag(), "access");
    assert_eq!(WatchatEvent::Create.tag(), "create");
    assert_eq!(WatchatEvent::Modify.tag(), "modify");
    assert_eq!(WatchatEvent::Remove.tag(), "remove");
}
