//! Classification of raw change kinds into ordered category tags.
//!
//! A tag sequence runs from the most general label to the most specific one,
//! for example `modify`, `data_change`, `content`. Detail that is not
//! recognized is left out, so an unknown sub-kind gives the coarser sequence
//! and an unknown top-level kind gives the empty one.

use vstd::prelude::*;
use crate::kind::{
    AccessKind, AccessMode, CreateKind, DataChange, EventKind, MetadataKind, ModifyKind,
    RemoveKind, RenameMode,
};

verus! {

/// The top-level category of a change. Filters act on this and on nothing finer.
#[derive(Clone, Copy, Debug, PartialEq, Eq, Structural)]
pub enum WatchatEvent {
    Access,
    Create,
    Modify,
    Remove,
}

/// The top-level category of a kind; `None` where even that is unrecognized.
pub open spec fn category_of(kind: EventKind) -> Option<WatchatEvent> {
    match kind {
        EventKind::Access(_) => Some(WatchatEvent::Access),
        EventKind::Create(_) => Some(WatchatEvent::Create),
        EventKind::Modify(_) => Some(WatchatEvent::Modify),
        EventKind::Remove(_) => Some(WatchatEvent::Remove),
        EventKind::Any | EventKind::Other => None,
    }
}

/// The tag of a top-level category.
pub open spec fn category_tag(category: WatchatEvent) -> Seq<char> {
    match category {
        WatchatEvent::Access => "access"@,
        WatchatEvent::Create => "create"@,
        WatchatEvent::Modify => "modify"@,
        WatchatEvent::Remove => "remove"@,
    }
}

/// The tag of an access mode; nothing where the mode is unrecognized.
pub open spec fn access_mode_tags(mode: AccessMode) -> Seq<Seq<char>> {
    match mode {
        AccessMode::Execute => seq!["execute"@],
        AccessMode::Read => seq!["read"@],
        AccessMode::Write => seq!["write"@],
        AccessMode::Any | AccessMode::Other => seq![],
    }
}

/// The tags of an access, most general first.
pub open spec fn access_tags(kind: AccessKind) -> Seq<Seq<char>> {
    match kind {
        AccessKind::Read => seq!["access"@, "read"@],
        AccessKind::Open(mode) => seq!["access"@, "open"@] + access_mode_tags(mode),
        AccessKind::Close(mode) => seq!["access"@, "close"@] + access_mode_tags(mode),
        AccessKind::Any | AccessKind::Other => seq!["access"@],
    }
}

/// The tags of a creation.
pub open spec fn create_tags(kind: CreateKind) -> Seq<Seq<char>> {
    match kind {
        CreateKind::File => seq!["create"@, "file"@],
        CreateKind::Folder => seq!["create"@, "folder"@],
        CreateKind::Any | CreateKind::Other => seq!["create"@],
    }
}

/// The tags of a modification, most general first.
pub open spec fn modify_tags(kind: ModifyKind) -> Seq<Seq<char>> {
    match kind {
        ModifyKind::Data(DataChange::Size) => seq!["modify"@, "data_change"@, "size"@],
        ModifyKind::Data(DataChange::Content) => seq!["modify"@, "data_change"@, "content"@],
        ModifyKind::Data(_) => seq!["modify"@, "data_change"@],
        ModifyKind::Metadata(MetadataKind::AccessTime) => seq![
            "modify"@,
            "metadata"@,
            "access_time"@,
        ],
        ModifyKind::Metadata(MetadataKind::WriteTime) => seq![
            "modify"@,
            "metadata"@,
            "write_time"@,
        ],
        ModifyKind::Metadata(MetadataKind::Permissions) => seq![
            "modify"@,
            "metadata"@,
            "permissions"@,
        ],
        ModifyKind::Metadata(MetadataKind::Ownership) => seq![
            "modify"@,
            "metadata"@,
            "ownership"@,
        ],
        ModifyKind::Metadata(MetadataKind::Extended) => seq!["modify"@, "metadata"@, "extended"@],
        ModifyKind::Metadata(_) => seq!["modify"@, "metadata"@],
        ModifyKind::Name(RenameMode::From) => seq!["modify"@, "rename"@, "from"@],
        ModifyKind::Name(RenameMode::To) => seq!["modify"@, "rename"@, "to"@],
        ModifyKind::Name(RenameMode::Both) => seq!["modify"@, "rename"@, "both"@],
        ModifyKind::Name(_) => seq!["modify"@, "rename"@],
        ModifyKind::Any | ModifyKind::Other => seq!["modify"@],
    }
}

/// The tags of a removal.
pub open spec fn remove_tags(kind: RemoveKind) -> Seq<Seq<char>> {
    match kind {
        RemoveKind::File => seq!["remove"@, "file"@],
        RemoveKind::Folder => seq!["remove"@, "folder"@],
        RemoveKind::Any | RemoveKind::Other => seq!["remove"@],
    }
}

/// The tag sequence of a raw kind: the whole classification, as one table.
pub open spec fn tag_names(kind: EventKind) -> Seq<Seq<char>> {
    match kind {
        EventKind::Access(access) => access_tags(access),
        EventKind::Create(create) => create_tags(create),
        EventKind::Modify(modify) => modify_tags(modify),
        EventKind::Remove(remove) => remove_tags(remove),
        EventKind::Any | EventKind::Other => seq![],
    }
}

/// The four category tags are four different words.
pub proof fn lemma_category_tags_differ(a: WatchatEvent, b: WatchatEvent)
    ensures
        category_tag(a) == category_tag(b) <==> a == b,
{
    reveal_strlit("access");
    reveal_strlit("create");
    reveal_strlit("modify");
    reveal_strlit("remove");
    if a != b {
        assert(category_tag(a)[0] != category_tag(b)[0]);
    }
}

/// A tag sequence begins with the tag of the kind's category, and is empty
/// exactly where the kind has no category. So the first tag of a classified
/// event tells its category, and nothing else does.
pub proof fn lemma_first_tag_is_category(kind: EventKind)
    ensures
        category_of(kind) is None <==> tag_names(kind).len() == 0,
        category_of(kind) matches Some(category) ==> tag_names(kind)[0] == category_tag(category),
{
}

impl WatchatEvent {
    /// The category that a raw kind falls under, whatever its sub-kind says.
    pub fn category(kind: &EventKind) -> (c: Option<WatchatEvent>)
        ensures
            c == category_of(*kind),
    {
        match kind {
            EventKind::Access(_) => Some(WatchatEvent::Access),
            EventKind::Create(_) => Some(WatchatEvent::Create),
            EventKind::Modify(_) => Some(WatchatEvent::Modify),
            EventKind::Remove(_) => Some(WatchatEvent::Remove),
            _ => None,
        }
    }

    /// The lowercase tag of this category.
    pub fn tag(&self) -> (t: String)
        ensures
            t@ == category_tag(*self),
    {
        match self {
            WatchatEvent::Access => "access".to_string(),
            WatchatEvent::Create => "create".to_string(),
            WatchatEvent::Modify => "modify".to_string(),
            WatchatEvent::Remove => "remove".to_string(),
        }
    }

    /// Classifies a raw kind into its tags, most general first.
    pub fn convert_kind(kind: &EventKind) -> (kinds: Vec<String>)
        ensures
            kinds.deep_view() == tag_names(*kind),
    {
        match kind {
            EventKind::Access(access_kind) => Self::access_event(access_kind),
            EventKind::Create(create_kind) => Self::create_event(create_kind),
            EventKind::Modify(modify_kind) => Self::modify_event(modify_kind),
            EventKind::Remove(remove_kind) => Self::remove_event(remove_kind),
            _ => Vec::new(),
        }
    }

    /// Tags of an access: `access`, then the operation, then its mode.
    pub fn access_event(kind: &AccessKind) -> (kinds: Vec<String>)
        ensures
            kinds.deep_view() == access_tags(*kind),
    {
        let mut kinds: Vec<String> = Vec::new();
        kinds.push("access".to_string());
        match kind {
            AccessKind::Read => {
                kinds.push("read".to_string());
            },
            AccessKind::Open(access_mode) => {
                kinds.push("open".to_string());
                Self::push_access_mode(&mut kinds, access_mode);
            },
            AccessKind::Close(access_mode) => {
                kinds.push("close".to_string());
                Self::push_access_mode(&mut kinds, access_mode);
            },
            _ => {},
        }
        kinds
    }

    /// Appends the tag of an access mode, if it has one.
    fn push_access_mode(kinds: &mut Vec<String>, mode: &AccessMode)
        ensures
            final(kinds).deep_view() == old(kinds).deep_view() + access_mode_tags(*mode),
    {
        match mode {
            AccessMode::Execute => {
                kinds.push("execute".to_string());
            },
            AccessMode::Read => {
                kinds.push("read".to_string());
            },
            AccessMode::Write => {
                kinds.push("write".to_string());
            },
            _ => {},
        }
    }

    /// Tags of a creation: `create`, then what was created.
    pub fn create_event(kind: &CreateKind) -> (kinds: Vec<String>)
        ensures
            kinds.deep_view() == create_tags(*kind),
    {
        let mut kinds: Vec<String> = Vec::new();
        kinds.push("create".to_string());
        match kind {
            CreateKind::File => kinds.push("file".to_string()),
            CreateKind::Folder => kinds.push("folder".to_string()),
            _ => {},
        }
        kinds
    }

    /// Tags of a modification: `modify`, then the aspect, then its detail.
    pub fn modify_event(kind: &ModifyKind) -> (kinds: Vec<String>)
        ensures
            kinds.deep_view() == modify_tags(*kind),
    {
        let mut kinds: Vec<String> = Vec::new();
        kinds.push("modify".to_string());
        match kind {
            ModifyKind::Data(data_change) => {
                kinds.push("data_change".to_string());
                match data_change {
                    DataChange::Size => kinds.push("size".to_string()),
                    DataChange::Content => kinds.push("content".to_string()),
                    _ => {},
                }
            },
            ModifyKind::Metadata(metadata_kind) => {
                kinds.push("metadata".to_string());
                match metadata_kind {
                    MetadataKind::AccessTime => kinds.push("access_time".to_string()),
                    MetadataKind::WriteTime => kinds.push("write_time".to_string()),
                    MetadataKind::Permissions => kinds.push("permissions".to_string()),
                    MetadataKind::Ownership => kinds.push("ownership".to_string()),
                    MetadataKind::Extended => kinds.push("extended".to_string()),
                    _ => {},
                }
            },
            ModifyKind::Name(rename_mode) => {
                kinds.push("rename".to_string());
                match rename_mode {
                    RenameMode::From => kinds.push("from".to_string()),
                    RenameMode::To => kinds.push("to".to_string()),
                    RenameMode::Both => kinds.push("both".to_string()),
                    _ => {},
                }
            },
            _ => {},
        }
        kinds
    }

    /// Tags of a removal: `remove`, then what was removed.
    pub fn remove_event(kind: &RemoveKind) -> (kinds: Vec<String>)
        ensures
            kinds.deep_view() == remove_tags(*kind),
    {
        let mut kinds: Vec<String> = Vec::new();
        kinds.push("remove".to_string());
        match kind {
            RemoveKind::File => kinds.push("file".to_string()),
            RemoveKind::Folder => kinds.push("folder".to_string()),
            _ => {},
        }
        kinds
    }
}

} // verus!
