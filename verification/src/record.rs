//! The two event records: what a backend reports and what the callback receives.

use vstd::prelude::*;
use crate::event::{tag_names, WatchatEvent};
use crate::kind::EventKind;

verus! {

/// One change as a backend reports it.
#[derive(Debug, PartialEq, Eq)]
pub struct RawEvent {
    /// The structured kind of the change.
    pub kind: EventKind,
    /// The affected paths, in the order reported.
    pub paths: Vec<String>,
    /// Diagnostic text of the kind, as the backend prints it.
    pub description: String,
}

/// The mathematical content of a [`RawEvent`].
pub struct RawEventView {
    pub kind: EventKind,
    pub paths: Seq<Seq<char>>,
    pub description: Seq<char>,
}

impl View for RawEvent {
    type V = RawEventView;

    open spec fn view(&self) -> RawEventView {
        RawEventView {
            kind: self.kind,
            paths: self.paths.deep_view(),
            description: self.description@,
        }
    }
}

impl Clone for RawEvent {
    fn clone(&self) -> (event: RawEvent)
        ensures
            event@ == self@,
    {
        RawEvent {
            kind: self.kind,
            paths: self.paths.clone(),
            description: self.description.clone(),
        }
    }
}

/// One event as the callback receives it.
#[derive(Debug, PartialEq, Eq)]
pub struct NormalizedEvent {
    /// Category tags, most general first; empty for a coalesced burst.
    pub tags: Vec<String>,
    /// The affected paths.
    pub paths: Vec<String>,
    /// Diagnostic text of the underlying raw kind.
    pub raw_description: String,
}

/// The mathematical content of a [`NormalizedEvent`].
pub struct NormalizedEventView {
    pub tags: Seq<Seq<char>>,
    pub paths: Seq<Seq<char>>,
    pub raw_description: Seq<char>,
}

impl View for NormalizedEvent {
    type V = NormalizedEventView;

    open spec fn view(&self) -> NormalizedEventView {
        NormalizedEventView {
            tags: self.tags.deep_view(),
            paths: self.paths.deep_view(),
            raw_description: self.raw_description@,
        }
    }
}

/// A single raw event, classified: its tags, its paths, its description.
pub open spec fn classified(raw: RawEventView) -> NormalizedEventView {
    NormalizedEventView {
        tags: tag_names(raw.kind),
        paths: raw.paths,
        raw_description: raw.description,
    }
}

/// A burst on one path, coalesced: no tags, that one path, the description
/// of the last raw kind seen.
pub open spec fn coalesced(path: Seq<char>, description: Seq<char>) -> NormalizedEventView {
    NormalizedEventView { tags: seq![], paths: seq![path], raw_description: description }
}

impl NormalizedEvent {
    /// Classifies one raw event for individual delivery.
    pub fn from_raw(raw: RawEvent) -> (event: NormalizedEvent)
        ensures
            event@ == classified(raw@),
    {
        let tags = WatchatEvent::convert_kind(&raw.kind);
        NormalizedEvent { tags, paths: raw.paths, raw_description: raw.description }
    }

    /// The emission for a coalesced burst on `path`.
    pub fn from_burst(path: String, description: String) -> (event: NormalizedEvent)
        ensures
            event@ == coalesced(path@, description@),
    {
        let tags: Vec<String> = Vec::new();
        let mut paths: Vec<String> = Vec::new();
        paths.push(path);
        assert(tags.deep_view() =~= Seq::<Seq<char>>::empty());
        assert(paths.deep_view() =~= seq![path@]);
        NormalizedEvent { tags, paths, raw_description: description }
    }

}

impl Clone for NormalizedEvent {
    fn clone(&self) -> (event: NormalizedEvent)
        ensures
            event@ == self@,
    {
        NormalizedEvent {
            tags: self.tags.clone(),
            paths: self.paths.clone(),
            raw_description: self.raw_description.clone(),
        }
    }
}

} // verus!
