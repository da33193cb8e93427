//! Shared data types of the index: exports, conversations, events, memories
//! and the result shapes that the query layer hands out.
//!
//! Every type that carries text has a view in which each string is a
//! `Seq<char>`; contracts across the crate are stated over those views.

use vstd::prelude::*;

verus! {

/// How an export was provided by the user.
#[derive(Debug, Clone, Copy, PartialEq, Eq, Structural)]
pub enum ExportSourceType {
    Zip,
    Folder,
}

/// Result of validating an export's directory structure.
#[derive(Debug, Clone, Copy, PartialEq, Eq, Structural)]
pub enum ValidationStatus {
    /// All expected files and directories are present.
    Valid,
    /// Some expected data is missing (e.g., no media directory).
    Incomplete,
    /// The export appears damaged or unreadable.
    Corrupted,
    /// Validation has not been performed.
    Unknown,
}

/// Download state of a cloud-hosted memory.
#[derive(Debug, Clone, Copy, PartialEq, Eq, Structural)]
pub enum DownloadStatus {
    Pending,
    Downloading,
    Downloaded,
    Failed,
}

/// A UTC instant: whole seconds since the Unix epoch and the nanoseconds
/// within that second.
#[derive(Debug, Clone, Copy, PartialEq, Eq, Structural)]
pub struct Timestamp {
    pub secs: i64,
    pub nanos: u32,
}

impl Timestamp {
    /// Nanoseconds since the epoch, as a mathematical integer.
    pub open spec fn total_nanos(self) -> int {
        self.secs as int * 1_000_000_000 + self.nanos as int
    }

    /// `self` is strictly earlier than `other`.
    pub open spec fn is_before(self, other: Timestamp) -> bool {
        self.total_nanos() < other.total_nanos()
    }

    /// The two instants are at most two seconds apart.
    pub open spec fn is_near(self, other: Timestamp) -> bool {
        -2_000_000_000 <= self.total_nanos() - other.total_nanos() <= 2_000_000_000
    }

    /// Decides `is_before`.
    pub fn before(&self, other: &Timestamp) -> (r: bool)
        ensures
            r == self.is_before(*other),
    {
        let a: i128 = (self.secs as i128) * 1_000_000_000i128 + (self.nanos as i128);
        let b: i128 = (other.secs as i128) * 1_000_000_000i128 + (other.nanos as i128);
        a < b
    }

    /// Decides `is_near`.
    pub fn near(&self, other: &Timestamp) -> (r: bool)
        ensures
            r == self.is_near(*other),
    {
        let a: i128 = (self.secs as i128) * 1_000_000_000i128 + (self.nanos as i128);
        let b: i128 = (other.secs as i128) * 1_000_000_000i128 + (other.nanos as i128);
        let d: i128 = a - b;
        -2_000_000_000i128 <= d && d <= 2_000_000_000i128
    }
}

/// A detected or imported data export.
#[derive(Debug)]
pub struct ExportSet {
    /// Unique identifier (typically the folder/file name).
    pub id: String,
    /// Paths to the export components (zip files or folders).
    pub source_paths: Vec<String>,
    /// Whether this was imported from zips or folders.
    pub source_type: ExportSourceType,
    /// Path where a zip was extracted to (if applicable).
    pub extraction_path: Option<String>,
    /// Filesystem creation date of the export.
    pub creation_date: Option<Timestamp>,
    /// Validation result from structure detection.
    pub validation_status: ValidationStatus,
}

pub struct ExportSetView {
    pub id: Seq<char>,
    pub source_paths: Seq<Seq<char>>,
    pub source_type: ExportSourceType,
    pub extraction_path: Option<Seq<char>>,
    pub creation_date: Option<Timestamp>,
    pub validation_status: ValidationStatus,
}

impl View for ExportSet {
    type V = ExportSetView;

    open spec fn view(&self) -> ExportSetView {
        ExportSetView {
            id: self.id@,
            source_paths: self.source_paths.deep_view(),
            source_type: self.source_type,
            extraction_path: self.extraction_path.deep_view(),
            creation_date: self.creation_date,
            validation_status: self.validation_status,
        }
    }
}

/// A chat conversation (1:1 or group).
#[derive(Debug)]
pub struct Conversation {
    pub id: String,
    /// Human-readable name.
    pub display_name: Option<String>,
    /// List of participant usernames.
    pub participants: Vec<String>,
    /// Timestamp of the most recent event.
    pub last_event_at: Option<Timestamp>,
    /// Total number of events in this conversation.
    pub message_count: i32,
    /// Whether any events have linked media files.
    pub has_media: bool,
}

pub struct ConversationView {
    pub id: Seq<char>,
    pub display_name: Option<Seq<char>>,
    pub participants: Seq<Seq<char>>,
    pub last_event_at: Option<Timestamp>,
    pub message_count: int,
    pub has_media: bool,
}

impl View for Conversation {
    type V = ConversationView;

    open spec fn view(&self) -> ConversationView {
        ConversationView {
            id: self.id@,
            display_name: self.display_name.deep_view(),
            participants: self.participants.deep_view(),
            last_event_at: self.last_event_at,
            message_count: self.message_count as int,
            has_media: self.has_media,
        }
    }
}

/// A single chat event (message, snap, media, status change, etc.).
#[derive(Debug)]
pub struct Event {
    pub id: String,
    pub timestamp: Timestamp,
    /// Username of the sender.
    pub sender: String,
    /// Resolved display name of the sender.
    pub sender_name: Option<String>,
    /// Absolute paths to linked media files.
    pub media_references: Vec<String>,
    /// ID of the conversation this event belongs to.
    pub conversation_id: Option<String>,
    /// Text content of the message (if any).
    pub content: Option<String>,
    /// Event type: TEXT, MEDIA, SNAP, SNAP_VIDEO, NOTE, STICKER, etc.
    pub event_type: String,
    /// JSON metadata (e.g., `{"media_ids": [...], "is_sender": true}`).
    pub metadata: Option<String>,
}

pub struct EventView {
    pub id: Seq<char>,
    pub timestamp: Timestamp,
    pub sender: Seq<char>,
    pub sender_name: Option<Seq<char>>,
    pub media_references: Seq<Seq<char>>,
    pub conversation_id: Option<Seq<char>>,
    pub content: Option<Seq<char>>,
    pub event_type: Seq<char>,
    pub metadata: Option<Seq<char>>,
}

impl View for Event {
    type V = EventView;

    open spec fn view(&self) -> EventView {
        EventView {
            id: self.id@,
            timestamp: self.timestamp,
            sender: self.sender@,
            sender_name: self.sender_name.deep_view(),
            media_references: self.media_references.deep_view(),
            conversation_id: self.conversation_id.deep_view(),
            content: self.content.deep_view(),
            event_type: self.event_type@,
            metadata: self.metadata.deep_view(),
        }
    }
}

impl Event {
    /// A copy of the event.
    pub fn duplicate(&self) -> (r: Event)
        ensures
            r@ == self@,
    {
        let media_references = self.media_references.clone();
        assert(media_references.deep_view() =~= self.media_references.deep_view());
        Event {
            id: self.id.clone(),
            timestamp: self.timestamp,
            sender: self.sender.clone(),
            sender_name: self.sender_name.clone(),
            media_references,
            conversation_id: self.conversation_id.clone(),
            content: self.content.clone(),
            event_type: self.event_type.clone(),
            metadata: self.metadata.clone(),
        }
    }
}

/// The views of a list of events, in order.
pub open spec fn event_views(events: Seq<Event>) -> Seq<EventView> {
    events.map_values(|e: Event| e@)
}

/// Every event of the list belongs to the conversation `key`.
pub open spec fn all_of(events: Seq<EventView>, key: Seq<char>) -> bool {
    forall|i: int| 0 <= i < events.len() ==> (#[trigger] events[i]).conversation_id == Some(key)
}

/// The events of every conversation of a history file belong to it.
pub open spec fn threads_keyed(threads: Seq<(String, Vec<Event>)>) -> bool {
    forall|t: int|
        0 <= t < threads.len() ==> all_of(
            event_views((#[trigger] threads[t]).1@),
            threads[t].0@,
        )
}

/// The views of a list of conversations, in order.
pub open spec fn conversation_views(conversations: Seq<Conversation>) -> Seq<ConversationView> {
    conversations.map_values(|c: Conversation| c@)
}

/// A person from the friends list.
#[derive(Debug)]
pub struct Person {
    pub username: String,
    pub display_name: Option<String>,
}

pub struct PersonView {
    pub username: Seq<char>,
    pub display_name: Option<Seq<char>>,
}

impl View for Person {
    type V = PersonView;

    open spec fn view(&self) -> PersonView {
        PersonView { username: self.username@, display_name: self.display_name.deep_view() }
    }
}

/// A saved memory. Coordinates are kept as the decimal text found in the
/// source; turning them into numbers is left to the caller.
#[derive(Debug)]
pub struct Memory {
    pub id: String,
    pub timestamp: Timestamp,
    /// "Image" or "Video".
    pub media_type: String,
    pub latitude: Option<String>,
    pub longitude: Option<String>,
    pub media_path: Option<String>,
    pub export_id: String,
    pub download_url: Option<String>,
    pub proxy_url: Option<String>,
    pub download_status: DownloadStatus,
}

pub struct MemoryView {
    pub id: Seq<char>,
    pub timestamp: Timestamp,
    pub media_type: Seq<char>,
    pub latitude: Option<Seq<char>>,
    pub longitude: Option<Seq<char>>,
    pub media_path: Option<Seq<char>>,
    pub export_id: Seq<char>,
    pub download_url: Option<Seq<char>>,
    pub proxy_url: Option<Seq<char>>,
    pub download_status: DownloadStatus,
}

impl View for Memory {
    type V = MemoryView;

    open spec fn view(&self) -> MemoryView {
        MemoryView {
            id: self.id@,
            timestamp: self.timestamp,
            media_type: self.media_type@,
            latitude: self.latitude.deep_view(),
            longitude: self.longitude.deep_view(),
            media_path: self.media_path.deep_view(),
            export_id: self.export_id@,
            download_url: self.download_url.deep_view(),
            proxy_url: self.proxy_url.deep_view(),
            download_status: self.download_status,
        }
    }
}

/// Aggregate statistics for an imported export.
#[derive(Debug)]
pub struct ExportStats {
    pub total_messages: i32,
    pub total_conversations: i32,
    pub total_memories: i32,
    pub total_media_files: i32,
    pub missing_media_count: i32,
    /// Top contacts by message count: `[(name, count)]`.
    pub top_contacts: Vec<(String, i32)>,
    pub start_date: Option<Timestamp>,
    pub end_date: Option<Timestamp>,
}

/// Progress update emitted during ingestion; `permille` is the fraction of
/// the pipeline done, in thousandths.
#[derive(Debug)]
pub struct IngestionProgress {
    pub export_id: String,
    pub current_step: String,
    pub permille: u32,
    pub message: String,
}

/// Final result of an ingestion pipeline run.
#[derive(Debug)]
pub struct IngestionResult {
    pub export_id: String,
    pub conversations_parsed: i32,
    pub events_parsed: i32,
    pub memories_parsed: i32,
    pub parse_failures: i32,
    pub warnings: Vec<String>,
    pub errors: Vec<String>,
}

/// Data integrity report for a processed export.
#[derive(Debug)]
pub struct ValidationReport {
    pub total_html_files: i32,
    pub parsed_html_files: i32,
    pub total_media_referenced: i32,
    pub media_found: i32,
    pub media_missing: i32,
    pub missing_files: Vec<String>,
    pub warnings: Vec<String>,
}

/// A full-text search result.
#[derive(Debug)]
pub struct SearchResult {
    pub event_id: String,
    pub conversation_id: Option<String>,
    pub conversation_name: Option<String>,
    pub sender: String,
    pub sender_name: Option<String>,
    pub content: String,
    pub timestamp: Timestamp,
    pub event_type: String,
}

/// A media file entry for the gallery view.
#[derive(Debug)]
pub struct MediaEntry {
    pub path: String,
    /// "Image" or "Video".
    pub media_type: String,
    pub timestamp: Option<Timestamp>,
    /// Source: "chat", "memory", or "snap".
    pub source: String,
    pub conversation_id: Option<String>,
}

/// A paginated page of messages.
#[derive(Debug)]
pub struct MessagePage {
    pub messages: Vec<Event>,
    pub total_count: i32,
    pub has_more: bool,
}

/// A lightweight gallery entry.
#[derive(Debug)]
pub struct MediaStreamEntry {
    pub id: String,
    pub path: String,
    /// "Image" or "Video".
    pub media_type: String,
    pub timestamp: Timestamp,
    /// "local" or "cloud".
    pub source: String,
}

/// A paginated result for the unified media stream.
#[derive(Debug)]
pub struct PaginatedMedia {
    pub items: Vec<MediaStreamEntry>,
    pub total_count: i32,
    pub has_more: bool,
}

} // verus!
