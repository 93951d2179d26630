//! The configuration of one watch, and the choices that follow from it.

use vstd::prelude::*;
use crate::event::{category_of, WatchatEvent};
use crate::kind::EventKind;

verus! {

/// The sampling period of the poll backend when none is given, in milliseconds.
pub const DEFAULT_POLL_INTERVAL_MS: u64 = 200;

/// The debounce setting when none is given: negative, so debouncing is off.
pub const DEFAULT_DEBOUNCE_MS: i64 = -1;

/// How far below a watched directory the watch reaches.
#[derive(Clone, Copy, Debug, PartialEq, Eq, Structural)]
pub enum Scope {
    Recursive,
    NonRecursive,
}

/// The event source of a watch, chosen once when the watch is set up.
#[derive(Clone, Copy, Debug, PartialEq, Eq, Structural)]
pub enum Backend {
    /// The notification facility of the operating system.
    Native,
    /// Sampling of the watched paths every `interval_ms` milliseconds.
    Poll { interval_ms: u64 },
}

/// Which top-level categories are kept from the callback.
#[derive(Clone, Copy, Debug, PartialEq, Eq, Structural)]
pub struct FilterPolicy {
    pub ignore_remove: bool,
    pub ignore_access: bool,
    pub ignore_create: bool,
    pub ignore_modify: bool,
}

impl FilterPolicy {
    /// Whether the flag for `category` is set.
    pub open spec fn ignores(self, category: WatchatEvent) -> bool {
        match category {
            WatchatEvent::Access => self.ignore_access,
            WatchatEvent::Create => self.ignore_create,
            WatchatEvent::Modify => self.ignore_modify,
            WatchatEvent::Remove => self.ignore_remove,
        }
    }

    /// Whether a raw event of this kind passes when events are delivered one
    /// by one: it does unless the flag of its top-level category is set.
    pub open spec fn admits_raw(self, kind: EventKind) -> bool {
        match category_of(kind) {
            Some(category) => !self.ignores(category),
            None => true,
        }
    }

    /// Whether a coalesced burst passes. Removal is judged by whether the path
    /// still exists when the burst is flushed, access by the last raw kind
    /// seen; the flags for creation and modification do not apply.
    pub open spec fn admits_coalesced(self, kind: EventKind, path_exists: bool) -> bool {
        &&& !(self.ignore_remove && !path_exists)
        &&& !(self.ignore_access && category_of(kind) == Some(WatchatEvent::Access))
    }

    /// Whether the flag for `category` is set.
    pub fn is_ignored(&self, category: WatchatEvent) -> (b: bool)
        ensures
            b == self.ignores(category),
    {
        match category {
            WatchatEvent::Access => self.ignore_access,
            WatchatEvent::Create => self.ignore_create,
            WatchatEvent::Modify => self.ignore_modify,
            WatchatEvent::Remove => self.ignore_remove,
        }
    }

    /// Decides on one raw event that is delivered individually.
    pub fn passes_raw(&self, kind: &EventKind) -> (b: bool)
        ensures
            b == self.admits_raw(*kind),
    {
        match WatchatEvent::category(kind) {
            Some(category) => !self.is_ignored(category),
            None => true,
        }
    }

    /// Decides on one coalesced burst whose last raw kind was `kind`, given
    /// whether its path exists at flush time.
    pub fn passes_coalesced(&self, kind: &EventKind, path_exists: bool) -> (b: bool)
        ensures
            b == self.admits_coalesced(*kind, path_exists),
    {
        if self.ignore_remove && !path_exists {
            return false;
        }
        if self.ignore_access {
            match kind {
                EventKind::Access(_) => false,
                _ => true,
            }
        } else {
            true
        }
    }
}

/// What the caller asks of one watch. It does not change once the watch begins.
#[derive(Debug, PartialEq, Eq)]
pub struct WatchRequest {
    /// The paths to watch, in the order they are registered.
    pub paths: Vec<String>,
    /// Whether subdirectories are watched too.
    pub recursive: bool,
    /// Whether the poll backend is used in place of the native one.
    pub force_polling: bool,
    /// The sampling period of the poll backend, in milliseconds.
    pub poll_interval_ms: u64,
    /// The coalescing window in milliseconds; negative turns debouncing off.
    pub debounce_ms: i64,
    pub ignore_remove: bool,
    pub ignore_access: bool,
    pub ignore_create: bool,
    pub ignore_modify: bool,
}

impl WatchRequest {
    /// The scope under which every path is registered.
    pub open spec fn scope_of(self) -> Scope {
        if self.recursive {
            Scope::Recursive
        } else {
            Scope::NonRecursive
        }
    }

    /// The backend this request selects.
    pub open spec fn backend_of(self) -> Backend {
        if self.force_polling {
            Backend::Poll { interval_ms: self.poll_interval_ms }
        } else {
            Backend::Native
        }
    }

    /// The debounce window, where debouncing is on.
    pub open spec fn window_of(self) -> Option<u64> {
        if self.debounce_ms >= 0 {
            Some(self.debounce_ms as u64)
        } else {
            None
        }
    }

    /// The four ignore flags.
    pub open spec fn policy_of(self) -> FilterPolicy {
        FilterPolicy {
            ignore_remove: self.ignore_remove,
            ignore_access: self.ignore_access,
            ignore_create: self.ignore_create,
            ignore_modify: self.ignore_modify,
        }
    }

    /// A request for `paths` with every option at its default: not recursive,
    /// native backend, 200 ms poll interval, no debouncing, nothing ignored.
    pub fn new(paths: Vec<String>) -> (request: WatchRequest)
        ensures
            request.paths == paths,
            !request.recursive,
            !request.force_polling,
            request.poll_interval_ms == DEFAULT_POLL_INTERVAL_MS,
            request.debounce_ms == DEFAULT_DEBOUNCE_MS,
            !request.ignore_remove,
            !request.ignore_access,
            !request.ignore_create,
            !request.ignore_modify,
    {
        WatchRequest {
            paths,
            recursive: false,
            force_polling: false,
            poll_interval_ms: DEFAULT_POLL_INTERVAL_MS,
            debounce_ms: DEFAULT_DEBOUNCE_MS,
            ignore_remove: false,
            ignore_access: false,
            ignore_create: false,
            ignore_modify: false,
        }
    }

    /// A request from options that may each be absent; an absent option takes
    /// its default.
    pub fn from_options(
        paths: Vec<String>,
        recursive: Option<bool>,
        force_polling: Option<bool>,
        poll_interval_ms: Option<u64>,
        debounce_ms: Option<i64>,
        ignore_remove: Option<bool>,
        ignore_access: Option<bool>,
        ignore_create: Option<bool>,
        ignore_modify: Option<bool>,
    ) -> (request: WatchRequest)
        ensures
            request.paths == paths,
            request.recursive == recursive.unwrap_or(false),
            request.force_polling == force_polling.unwrap_or(false),
            request.poll_interval_ms == poll_interval_ms.unwrap_or(DEFAULT_POLL_INTERVAL_MS),
            request.debounce_ms == debounce_ms.unwrap_or(DEFAULT_DEBOUNCE_MS),
            request.ignore_remove == ignore_remove.unwrap_or(false),
            request.ignore_access == ignore_access.unwrap_or(false),
            request.ignore_create == ignore_create.unwrap_or(false),
            request.ignore_modify == ignore_modify.unwrap_or(false),
    {
        WatchRequest {
            paths,
            recursive: recursive.unwrap_or(false),
            force_polling: force_polling.unwrap_or(false),
            poll_interval_ms: poll_interval_ms.unwrap_or(DEFAULT_POLL_INTERVAL_MS),
            debounce_ms: debounce_ms.unwrap_or(DEFAULT_DEBOUNCE_MS),
            ignore_remove: ignore_remove.unwrap_or(false),
            ignore_access: ignore_access.unwrap_or(false),
            ignore_create: ignore_create.unwrap_or(false),
            ignore_modify: ignore_modify.unwrap_or(false),
        }
    }

    /// The scope under which every path is registered.
    pub fn scope(&self) -> (scope: Scope)
        ensures
            scope == self.scope_of(),
    {
        if self.recursive {
            Scope::Recursive
        } else {
            Scope::NonRecursive
        }
    }

    /// The backend to construct: polling where it is forced, native otherwise.
    pub fn backend(&self) -> (backend: Backend)
        ensures
            backend == self.backend_of(),
    {
        if self.force_polling {
            Backend::Poll { interval_ms: self.poll_interval_ms }
        } else {
            Backend::Native
        }
    }

    /// The debounce window in milliseconds, or `None` where debouncing is off.
    pub fn debounce_window(&self) -> (window: Option<u64>)
        ensures
            window == self.window_of(),
    {
        if self.debounce_ms >= 0 {
            Some(self.debounce_ms as u64)
        } else {
            None
        }
    }

    /// The four ignore flags as a policy.
    pub fn filters(&self) -> (policy: FilterPolicy)
        ensures
            policy == self.policy_of(),
    {
        FilterPolicy {
            ignore_remove: self.ignore_remove,
            ignore_access: self.ignore_access,
            ignore_create: self.ignore_create,
            ignore_modify: self.ignore_modify,
        }
    }
}

} // verus!
