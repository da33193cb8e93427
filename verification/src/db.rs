//! The rules of the query layer that do not depend on the store engine:
//! how values are written to and read from rows, how pages are cut, and how
//! a search is put to the full-text index.

use vstd::prelude::*;
use vstd::string::StringExecFns;
use crate::json::{
    json_document, json_text, json_views, lemma_array_view, parse_json, write_json, Json, JsonView,
};
use crate::error::AppError;
use crate::models::{
    event_views, DownloadStatus, Event, EventView, ExportSourceType, MediaStreamEntry,
    MessagePage, PaginatedMedia, ValidationReport, ValidationStatus,
};
use crate::search::{sanitize_fts_query, sanitized};
use crate::text::{string_views, 
    chars_of, contains, decimal, decimal_text, has_infix, str_eq, trim, trimmed,
};
use crate::timestamps::{read_stored_instant, stored_instant};

verus! {

/// The label under which a validation status is stored.
pub open spec fn validation_label(s: ValidationStatus) -> Seq<char> {
    match s {
        ValidationStatus::Valid => "Valid"@,
        ValidationStatus::Incomplete => "Incomplete"@,
        ValidationStatus::Corrupted => "Corrupted"@,
        ValidationStatus::Unknown => "Unknown"@,
    }
}

/// The validation status that a stored label stands for; any label that is
/// none of the four stands for `Unknown`.
pub open spec fn validation_of(label: Seq<char>) -> ValidationStatus {
    if label == "Valid"@ {
        ValidationStatus::Valid
    } else if label == "Incomplete"@ {
        ValidationStatus::Incomplete
    } else if label == "Corrupted"@ {
        ValidationStatus::Corrupted
    } else {
        ValidationStatus::Unknown
    }
}

/// The label under which a source type is stored.
pub open spec fn source_label(s: ExportSourceType) -> Seq<char> {
    match s {
        ExportSourceType::Zip => "Zip"@,
        ExportSourceType::Folder => "Folder"@,
    }
}

/// The source type that a stored label stands for; any label but `Zip`
/// stands for `Folder`.
pub open spec fn source_of(label: Seq<char>) -> ExportSourceType {
    if label == "Zip"@ {
        ExportSourceType::Zip
    } else {
        ExportSourceType::Folder
    }
}

/// The label under which a download status is stored.
pub open spec fn download_label(s: DownloadStatus) -> Seq<char> {
    match s {
        DownloadStatus::Pending => "Pending"@,
        DownloadStatus::Downloading => "Downloading"@,
        DownloadStatus::Downloaded => "Downloaded"@,
        DownloadStatus::Failed => "Failed"@,
    }
}

/// The download status that a stored label stands for; any label that is
/// none of the four stands for `Pending`.
pub open spec fn download_of(label: Seq<char>) -> DownloadStatus {
    if label == "Downloading"@ {
        DownloadStatus::Downloading
    } else if label == "Downloaded"@ {
        DownloadStatus::Downloaded
    } else if label == "Failed"@ {
        DownloadStatus::Failed
    } else {
        DownloadStatus::Pending
    }
}

/// Writes a validation status as its label.
pub fn validation_status_label(s: ValidationStatus) -> (r: &'static str)
    ensures
        r@ == validation_label(s),
{
    match s {
        ValidationStatus::Valid => "Valid",
        ValidationStatus::Incomplete => "Incomplete",
        ValidationStatus::Corrupted => "Corrupted",
        ValidationStatus::Unknown => "Unknown",
    }
}

/// Reads a validation status from its label.
pub fn parse_validation_status(label: &str) -> (r: ValidationStatus)
    ensures
        r == validation_of(label@),
{
    if str_eq(label, "Valid") {
        ValidationStatus::Valid
    } else if str_eq(label, "Incomplete") {
        ValidationStatus::Incomplete
    } else if str_eq(label, "Corrupted") {
        ValidationStatus::Corrupted
    } else {
        ValidationStatus::Unknown
    }
}

/// Writes a source type as its label.
pub fn source_type_label(s: ExportSourceType) -> (r: &'static str)
    ensures
        r@ == source_label(s),
{
    match s {
        ExportSourceType::Zip => "Zip",
        ExportSourceType::Folder => "Folder",
    }
}

/// Reads a source type from its label.
pub fn parse_source_type(label: &str) -> (r: ExportSourceType)
    ensures
        r == source_of(label@),
{
    if str_eq(label, "Zip") {
        ExportSourceType::Zip
    } else {
        ExportSourceType::Folder
    }
}

/// Writes a download status as its label.
pub fn download_status_label(s: DownloadStatus) -> (r: &'static str)
    ensures
        r@ == download_label(s),
{
    match s {
        DownloadStatus::Pending => "Pending",
        DownloadStatus::Downloading => "Downloading",
        DownloadStatus::Downloaded => "Downloaded",
        DownloadStatus::Failed => "Failed",
    }
}

/// Reads a download status from its label.
pub fn parse_download_status(label: &str) -> (r: DownloadStatus)
    ensures
        r == download_of(label@),
{
    if str_eq(label, "Downloading") {
        DownloadStatus::Downloading
    } else if str_eq(label, "Downloaded") {
        DownloadStatus::Downloaded
    } else if str_eq(label, "Failed") {
        DownloadStatus::Failed
    } else {
        DownloadStatus::Pending
    }
}

/// Every status and source type is read back from its label as it was
/// written.
pub proof fn lemma_labels_round_trip(v: ValidationStatus, s: ExportSourceType, d: DownloadStatus)
    ensures
        validation_of(validation_label(v)) == v,
        source_of(source_label(s)) == s,
        download_of(download_label(d)) == d,
{
    reveal_strlit("Valid");
    reveal_strlit("Incomplete");
    reveal_strlit("Corrupted");
    reveal_strlit("Unknown");
    reveal_strlit("Zip");
    reveal_strlit("Folder");
    reveal_strlit("Pending");
    reveal_strlit("Downloading");
    reveal_strlit("Downloaded");
    reveal_strlit("Failed");
    assert("Valid"@.len() == 5 && "Incomplete"@.len() == 10 && "Corrupted"@.len() == 9
        && "Unknown"@.len() == 7);
    assert("Zip"@.len() == 3 && "Folder"@.len() == 6);
    assert("Pending"@.len() == 7 && "Downloading"@.len() == 11 && "Downloaded"@.len() == 10
        && "Failed"@.len() == 6);
}

/// What a look at an existing store shows of its layout.
#[derive(Debug, Clone, Copy, PartialEq, Eq, Structural)]
pub struct SchemaProbe {
    /// The exports table has the column `source_type`.
    pub has_source_type: bool,
    /// The exports table still has the single `source_path` of old.
    pub has_source_path: bool,
    /// The memories table has the download columns.
    pub has_download_columns: bool,
}

/// A change that brings an older store up to date.
#[derive(Debug, Clone, Copy, PartialEq, Eq, Structural)]
pub enum Migration {
    /// Add `source_type` to the exports table.
    AddSourceType,
    /// Rename `source_path` to `source_paths` and wrap each path into a
    /// list of one.
    WrapSourcePath,
    /// Add the download columns to the memories table.
    AddDownloadColumns,
}

/// The changes that a store of this layout needs, in the order in which
/// they are made; each is asked for by its own look at the layout.
pub open spec fn migrations_of(probe: SchemaProbe) -> Seq<Migration> {
    (if probe.has_source_type {
        seq![]
    } else {
        seq![Migration::AddSourceType]
    }) + (if probe.has_source_path {
        seq![Migration::WrapSourcePath]
    } else {
        seq![]
    }) + (if probe.has_download_columns {
        seq![]
    } else {
        seq![Migration::AddDownloadColumns]
    })
}

/// The layout after a change.
pub open spec fn migrated(probe: SchemaProbe, m: Migration) -> SchemaProbe {
    match m {
        Migration::AddSourceType => SchemaProbe { has_source_type: true, ..probe },
        Migration::WrapSourcePath => SchemaProbe { has_source_path: false, ..probe },
        Migration::AddDownloadColumns => SchemaProbe { has_download_columns: true, ..probe },
    }
}

/// The layout after a list of changes, made in order.
pub open spec fn migrated_all(probe: SchemaProbe, ms: Seq<Migration>) -> SchemaProbe
    decreases ms.len(),
{
    if ms.len() == 0 {
        probe
    } else {
        migrated(migrated_all(probe, ms.drop_last()), ms.last())
    }
}

/// The changes that a store of this layout needs.
pub fn pending_migrations(probe: SchemaProbe) -> (r: Vec<Migration>)
    ensures
        r@ == migrations_of(probe),
{
    let mut out: Vec<Migration> = Vec::new();
    if !probe.has_source_type {
        out.push(Migration::AddSourceType);
    }
    if probe.has_source_path {
        out.push(Migration::WrapSourcePath);
    }
    if !probe.has_download_columns {
        out.push(Migration::AddDownloadColumns);
    }
    assert(out@ =~= migrations_of(probe));
    out
}

/// Migrating is idempotent: a store that has been given the changes it
/// needs needs none.
pub proof fn lemma_migrations_idempotent(probe: SchemaProbe)
    ensures
        migrations_of(migrated_all(probe, migrations_of(probe))).len() == 0,
{
    let ms = migrations_of(probe);
    reveal_with_fuel(migrated_all, 4);
    let after = migrated_all(probe, ms);
    if ms.len() == 3 {
        assert(ms.drop_last().drop_last().drop_last().len() == 0);
    } else if ms.len() == 2 {
        assert(ms.drop_last().drop_last().len() == 0);
    } else if ms.len() == 1 {
        assert(ms.drop_last().len() == 0);
    }
    assert(after.has_source_type && !after.has_source_path && after.has_download_columns);
}

/// `v`, but at least `lo` and at most `hi`.
pub open spec fn clamped(v: int, lo: int, hi: int) -> int {
    if v < lo {
        lo
    } else if v > hi {
        hi
    } else {
        v
    }
}

/// The largest page of messages.
pub const MAX_MESSAGE_PAGE: i32 = 2000;

/// The largest page of media.
pub const MAX_MEDIA_PAGE: i32 = 1000;

/// The largest number of search results.
pub const MAX_SEARCH_RESULTS: i32 = 500;

/// The part of a list that a page shows: `limit` items from `offset` on.
#[derive(Debug, Clone, Copy, PartialEq, Eq, Structural)]
pub struct PageWindow {
    pub offset: i32,
    pub limit: i32,
}

/// The window for a request: the offset is at least 0, the limit at least
/// 1 and at most `max`.
pub open spec fn window_of(offset: int, limit: int, max: int) -> (int, int) {
    (clamped(offset, 0, i32::MAX as int), clamped(limit, 1, max))
}

/// There is more of the list behind the window.
pub open spec fn more_after(offset: int, limit: int, total: int) -> bool {
    offset + limit < total
}

impl PageWindow {
    /// The window for a request.
    pub fn new(offset: i32, limit: i32, max: i32) -> (r: PageWindow)
        requires
            1 <= max,
        ensures
            (r.offset as int, r.limit as int) == window_of(offset as int, limit as int, max as int),
            0 <= r.offset,
            1 <= r.limit <= max,
    {
        PageWindow {
            offset: if offset < 0 {
                0
            } else {
                offset
            },
            limit: if limit < 1 {
                1
            } else if limit > max {
                max
            } else {
                limit
            },
        }
    }

    /// The window for a page of messages.
    pub fn for_messages(offset: i32, limit: i32) -> (r: PageWindow)
        ensures
            (r.offset as int, r.limit as int) == window_of(offset as int, limit as int, 2000),
    {
        Self::new(offset, limit, MAX_MESSAGE_PAGE)
    }

    /// The window for a page of media.
    pub fn for_media(limit: i32, offset: i32) -> (r: PageWindow)
        ensures
            (r.offset as int, r.limit as int) == window_of(offset as int, limit as int, 1000),
    {
        Self::new(offset, limit, MAX_MEDIA_PAGE)
    }

    /// Whether there is more of a list of `total` items behind the window.
    pub fn has_more(&self, total: i32) -> (r: bool)
        ensures
            r == more_after(self.offset as int, self.limit as int, total as int),
    {
        (self.offset as i64) + (self.limit as i64) < (total as i64)
    }
}

/// The page of messages for a request: the messages that the store handed
/// out for the request's window, the number of all messages of the
/// conversation, and whether there are more behind the window.
pub fn message_page(messages: Vec<Event>, total_count: i32, offset: i32, limit: i32) -> (r:
    MessagePage)
    ensures
        r.messages == messages,
        r.total_count == total_count,
        r.has_more == more_after(
            window_of(offset as int, limit as int, 2000).0,
            window_of(offset as int, limit as int, 2000).1,
            total_count as int,
        ),
{
    let window = PageWindow::for_messages(offset, limit);
    MessagePage { messages, total_count, has_more: window.has_more(total_count) }
}

/// The page of the media stream for a request.
pub fn media_page(items: Vec<MediaStreamEntry>, total_count: i32, limit: i32, offset: i32) -> (r:
    PaginatedMedia)
    ensures
        r.items == items,
        r.total_count == total_count,
        r.has_more == more_after(
            window_of(offset as int, limit as int, 1000).0,
            window_of(offset as int, limit as int, 1000).1,
            total_count as int,
        ),
{
    let window = PageWindow::for_media(limit, offset);
    PaginatedMedia { items, total_count, has_more: window.has_more(total_count) }
}

/// The offset of a window is never negative, its limit is between 1 and
/// the largest page, and a page says that there is more exactly if the
/// window ends before the list does.
pub proof fn lemma_pagination(offset: int, limit: int, total: int)
    ensures
        window_of(offset, limit, 2000).0 >= 0,
        1 <= window_of(offset, limit, 2000).1 <= 2000,
        more_after(window_of(offset, limit, 2000).0, window_of(offset, limit, 2000).1, total) == (
        window_of(offset, limit, 2000).0 + window_of(offset, limit, 2000).1 < total),
{
}

/// `a`, but at most `b`.
pub open spec fn at_most(a: int, b: int) -> int {
    if a < b {
        a
    } else {
        b
    }
}

/// Where the page of a request begins in a list of `len` items.
pub open spec fn page_start(len: int, offset: int, limit: int) -> int {
    at_most(window_of(offset, limit, 2000).0, len)
}

/// Where the page of a request ends in a list of `len` items.
pub open spec fn page_end(len: int, offset: int, limit: int) -> int {
    at_most(window_of(offset, limit, 2000).0 + window_of(offset, limit, 2000).1, len)
}

/// The page of a request out of the stored events of a conversation, which
/// stand in the order of their instants: the events of the request's
/// window, as far as the list goes.
pub open spec fn page_slice(stored: Seq<EventView>, offset: int, limit: int) -> Seq<EventView> {
    stored.subrange(
        page_start(stored.len() as int, offset, limit),
        page_end(stored.len() as int, offset, limit),
    )
}

/// Cuts the page of a request out of the events of a conversation: the
/// events of the window, the number of all events, and whether there are
/// more behind the window.
pub fn cut_page(stored: &Vec<Event>, offset: i32, limit: i32) -> (r: MessagePage)
    ensures
        event_views(r.messages@) == page_slice(event_views(stored@), offset as int, limit as int),
        r.total_count == at_most(stored@.len() as int, i32::MAX as int),
        r.has_more == more_after(
            window_of(offset as int, limit as int, 2000).0,
            window_of(offset as int, limit as int, 2000).1,
            stored@.len() as int,
        ),
{
    let window = PageWindow::for_messages(offset, limit);
    let len = stored.len();
    let first = window.offset as u64;
    let last = first + (window.limit as u64);
    let start: usize = if first < len as u64 {
        first as usize
    } else {
        len
    };
    let end: usize = if last < len as u64 {
        last as usize
    } else {
        len
    };
    let mut messages: Vec<Event> = Vec::new();
    let mut i: usize = start;
    assert(event_views(messages@) =~= event_views(stored@).subrange(start as int, start as int));
    while i < end
        invariant
            start <= i <= end <= stored@.len(),
            event_views(messages@) == event_views(stored@).subrange(start as int, i as int),
        decreases end - i,
    {
        let ghost sofar = event_views(messages@);
        let copy = stored[i].duplicate();
        messages.push(copy);
        assert(event_views(messages@) =~= sofar.push(copy@));
        i += 1;
        assert(event_views(messages@) =~= event_views(stored@).subrange(start as int, i as int));
    }
    let total_count: i32 = if len > 0x7fff_ffff {
        0x7fff_ffff
    } else {
        len as i32
    };
    MessagePage { messages, total_count, has_more: last < len as u64 }
}

/// The pagination law over the stored events of a conversation: the page
/// holds the events from the clamped offset on, at most as many as the
/// clamped limit and never more than 2000, in the order of the list; a
/// negative offset acts as 0, a limit below 1 as 1 and one above 2000 as
/// 2000; and the page says that there is more exactly if events stand
/// behind its end.
pub proof fn lemma_page_slice(stored: Seq<EventView>, offset: int, limit: int)
    ensures
        page_slice(stored, offset, limit).len() <= window_of(offset, limit, 2000).1 <= 2000,
        0 <= page_start(stored.len() as int, offset, limit) <= page_end(
            stored.len() as int,
            offset,
            limit,
        ) <= stored.len(),
        forall|k: int|
            0 <= k < page_slice(stored, offset, limit).len() ==> #[trigger] page_slice(
                stored,
                offset,
                limit,
            )[k] == stored[page_start(stored.len() as int, offset, limit) + k],
        offset <= 0 ==> page_slice(stored, offset, limit) == page_slice(stored, 0, limit),
        limit <= 1 ==> page_slice(stored, offset, limit) == page_slice(stored, offset, 1),
        limit >= 2000 ==> page_slice(stored, offset, limit) == page_slice(stored, offset, 2000),
        more_after(
            window_of(offset, limit, 2000).0,
            window_of(offset, limit, 2000).1,
            stored.len() as int,
        ) <==> page_end(stored.len() as int, offset, limit) < stored.len(),
{
}

/// A search as it is put to the full-text index.
#[derive(Debug)]
pub struct SearchRequest {
    /// The match expression.
    pub expression: String,
    /// The most results to hand out.
    pub limit: i32,
}

/// The search for a user's query, or none where the query has no word: then
/// nothing is asked of the store and nothing is found. The limit is at
/// least 1 and at most 500.
pub fn search_request(query: &str, limit: i32) -> (r: Option<SearchRequest>)
    ensures
        r is None <==> sanitized(query@).len() == 0,
        r matches Some(s) ==> s.expression@ == sanitized(query@) && s.limit == clamped(
            limit as int,
            1,
            500,
        ),
{
    let expression = sanitize_fts_query(query);
    if expression.as_str().unicode_len() == 0 {
        return None;
    }
    let limit = if limit < 1 {
        1
    } else if limit > MAX_SEARCH_RESULTS {
        MAX_SEARCH_RESULTS
    } else {
        limit
    };
    Some(SearchRequest { expression, limit })
}

/// The longest query that a search command takes, in characters.
pub const MAX_QUERY_CHARS: usize = 500;

/// The search for a search command: a query of more than 500 characters is
/// refused with a validation error; a command without a limit asks for 50
/// results.
pub fn search_command(query: &str, limit: Option<i32>) -> (r: Result<Option<SearchRequest>, AppError>)
    ensures
        r is Err <==> query@.len() > 500,
        r matches Err(e) ==> e is Validation,
        r matches Ok(request) ==> {
            &&& request is None <==> sanitized(query@).len() == 0
            &&& request matches Some(s) ==> s.expression@ == sanitized(query@) && s.limit
                == clamped(
                match limit {
                    Some(l) => l as int,
                    None => 50,
                },
                1,
                500,
            )
        },
{
    if query.unicode_len() > MAX_QUERY_CHARS {
        return Err(
            AppError::Validation(String::from_str("Search query too long (max 500 characters)")),
        );
    }
    let limit = match limit {
        Some(l) => l,
        None => 50,
    };
    Ok(search_request(query, limit))
}

/// The content is entered in the full-text index: it is there and not
/// blank.
pub open spec fn is_indexed(content: Option<Seq<char>>) -> bool {
    match content {
        Some(c) => trimmed(c).len() > 0,
        None => false,
    }
}

/// Decides `is_indexed`.
pub fn indexes_content(content: &Option<String>) -> (r: bool)
    ensures
        r == is_indexed(content.deep_view()),
{
    match content {
        Some(c) => {
            let chars = chars_of(c.as_str());
            trim(&chars).len() > 0
        },
        None => false,
    }
}

/// A row of the full-text index.
#[derive(Debug)]
pub struct IndexRow {
    pub content: String,
    pub event_id: String,
    pub conversation_id: Option<String>,
    pub sender: String,
}

pub struct IndexRowView {
    pub content: Seq<char>,
    pub event_id: Seq<char>,
    pub conversation_id: Option<Seq<char>>,
    pub sender: Seq<char>,
}

impl View for IndexRow {
    type V = IndexRowView;

    open spec fn view(&self) -> IndexRowView {
        IndexRowView {
            content: self.content@,
            event_id: self.event_id@,
            conversation_id: self.conversation_id.deep_view(),
            sender: self.sender@,
        }
    }
}

/// What storing an event does to the full-text index: the rows of the
/// event's id are taken out, and, where the content is indexed, a row for
/// the event is put in. Rows are never replaced in place.
#[derive(Debug)]
pub struct IndexUpdate {
    /// The id whose rows are taken out.
    pub remove: String,
    /// The row that is put in.
    pub add: Option<IndexRow>,
}

/// The row of an event in the full-text index; none where its content is
/// not indexed.
pub open spec fn index_row_of(e: EventView) -> Option<IndexRowView> {
    if is_indexed(e.content) {
        Some(
            IndexRowView {
                content: e.content.unwrap(),
                event_id: e.id,
                conversation_id: e.conversation_id,
                sender: e.sender,
            },
        )
    } else {
        None
    }
}

/// The rows of an index without those of the event `id`.
pub open spec fn without_id(rows: Seq<IndexRowView>, id: Seq<char>) -> Seq<IndexRowView>
    decreases rows.len(),
{
    if rows.len() == 0 {
        seq![]
    } else if rows.last().event_id == id {
        without_id(rows.drop_last(), id)
    } else {
        without_id(rows.drop_last(), id).push(rows.last())
    }
}

/// The number of rows of the event `id` in an index.
pub open spec fn rows_of(rows: Seq<IndexRowView>, id: Seq<char>) -> nat
    decreases rows.len(),
{
    if rows.len() == 0 {
        0
    } else if rows.last().event_id == id {
        rows_of(rows.drop_last(), id) + 1
    } else {
        rows_of(rows.drop_last(), id)
    }
}

/// The index after an event has been stored.
pub open spec fn indexed_with(rows: Seq<IndexRowView>, e: EventView) -> Seq<IndexRowView> {
    match index_row_of(e) {
        Some(row) => without_id(rows, e.id).push(row),
        None => without_id(rows, e.id),
    }
}

/// The update of the full-text index that goes with storing an event.
pub fn index_update(event: &Event) -> (r: IndexUpdate)
    ensures
        r.remove@ == event@.id,
        r.add.is_some() == index_row_of(event@).is_some(),
        r.add matches Some(row) ==> index_row_of(event@) == Some(row@),
{
    let add = if indexes_content(&event.content) {
        match &event.content {
            Some(c) => Some(
                IndexRow {
                    content: c.clone(),
                    event_id: event.id.clone(),
                    conversation_id: event.conversation_id.clone(),
                    sender: event.sender.clone(),
                },
            ),
            None => None,
        }
    } else {
        None
    };
    IndexUpdate { remove: event.id.clone(), add }
}

proof fn lemma_without_id(rows: Seq<IndexRowView>, id: Seq<char>, other: Seq<char>)
    ensures
        rows_of(without_id(rows, id), id) == 0,
        other != id ==> rows_of(without_id(rows, id), other) == rows_of(rows, other),
    decreases rows.len(),
{
    if rows.len() > 0 {
        lemma_without_id(rows.drop_last(), id, other);
        if rows.last().event_id != id {
            let kept = without_id(rows.drop_last(), id).push(rows.last());
            assert(kept.drop_last() =~= without_id(rows.drop_last(), id));
            assert(kept.last() == rows.last());
        }
    }
}

/// The index holds at most one row for an event, however often the event
/// is stored: after an event has been stored, once or again, the index
/// holds exactly one row of its id where its content is indexed and none
/// where it is not, and the rows of every other event are as many as
/// before.
pub proof fn lemma_one_row_per_event(rows: Seq<IndexRowView>, e: EventView, other: Seq<char>)
    ensures
        rows_of(indexed_with(rows, e), e.id) == if is_indexed(e.content) {
            1nat
        } else {
            0nat
        },
        rows_of(indexed_with(indexed_with(rows, e), e), e.id) == rows_of(
            indexed_with(rows, e),
            e.id,
        ),
        other != e.id ==> rows_of(indexed_with(rows, e), other) == rows_of(rows, other),
{
    lemma_without_id(rows, e.id, other);
    lemma_without_id(indexed_with(rows, e), e.id, other);
    if is_indexed(e.content) {
        let row = index_row_of(e).unwrap();
        let once = without_id(rows, e.id).push(row);
        assert(once.drop_last() =~= without_id(rows, e.id));
        assert(once.last() == row);
        let twice = without_id(once, e.id).push(row);
        assert(twice.drop_last() =~= without_id(once, e.id));
        assert(twice.last() == row);
    }
}

/// The kind of media in the stream: a video where the stored type holds
/// `VIDEO` or is `Video`, an image otherwise.
pub open spec fn stream_kind(raw: Seq<char>) -> Seq<char> {
    if contains(raw, "VIDEO"@) || raw == "Video"@ {
        "Video"@
    } else {
        "Image"@
    }
}

/// Decides `stream_kind`.
pub fn stream_media_type(raw: &str) -> (r: &'static str)
    ensures
        r@ == stream_kind(raw@),
{
    let chars = chars_of(raw);
    let video = chars_of("VIDEO");
    if has_infix(&chars, &video) || str_eq(raw, "Video") {
        "Video"
    } else {
        "Image"
    }
}

/// The display name of a conversation: the name of the person that the
/// conversation is with, where the directory knows one, else the stored
/// name.
pub fn resolve_display_name(person_name: Option<String>, stored_name: Option<String>) -> (r:
    Option<String>)
    ensures
        r == if person_name is Some {
            person_name
        } else {
            stored_name
        },
{
    match person_name {
        Some(n) => Some(n),
        None => stored_name,
    }
}

/// The stored form of midnight UTC on `date`, which is given as
/// `YYYY-MM-DD`: the events of a conversation before it are counted to find
/// the position of the date in the conversation.
pub fn message_index_target(date: &str) -> (r: String)
    ensures
        r@ == date@ + "T00:00:00+00:00"@,
{
    String::from_str(date).concat("T00:00:00+00:00")
}

/// A list of strings as a document: the array of them.
pub open spec fn strings_doc(v: Seq<Seq<char>>) -> JsonView {
    JsonView::Array(v.map_values(|s: Seq<char>| JsonView::Text(s)))
}

/// The stored form of a list of strings: the JSON array of them, or `[]`
/// where it cannot be written.
pub open spec fn strings_text(v: Seq<Seq<char>>) -> Seq<char> {
    match json_text(strings_doc(v)) {
        Some(t) => t,
        None => "[]"@,
    }
}

/// Every item is a string.
pub open spec fn all_text(items: Seq<JsonView>) -> bool {
    forall|i: int| 0 <= i < items.len() ==> (#[trigger] items[i]) is Text
}

/// The list of strings that a stored text stands for: the items of the
/// JSON array of strings that it holds, and the empty list for any other
/// text.
pub open spec fn strings_of(text: Seq<char>) -> Seq<Seq<char>> {
    match json_document(text) {
        Some(JsonView::Array(items)) => if all_text(items) {
            items.map_values(|j: JsonView| j->Text_0)
        } else {
            seq![]
        },
        _ => seq![],
    }
}

/// Writes a list of strings in its stored form.
pub fn write_strings(v: &Vec<String>) -> (r: String)
    ensures
        r@ == strings_text(string_views(v@)),
{
    let mut items: Vec<Json> = Vec::new();
    let mut i: usize = 0;
    while i < v.len()
        invariant
            i <= v@.len(),
            items@.len() == i,
            forall|k: int| 0 <= k < i ==> (#[trigger] items@[k])@ == JsonView::Text(v@[k]@),
        decreases v@.len() - i,
    {
        items.push(Json::Text(v[i].clone()));
        i += 1;
    }
    let doc = Json::Array(items);
    proof {
        lemma_array_view(items);
        assert(json_views(items@) =~= string_views(v@).map_values(|s: Seq<char>| JsonView::Text(s)));
        reveal_with_fuel(JsonView::is_canonical, 2);
        assert(doc@.is_canonical()) by {
            let views = json_views(items@);
            assert forall|k: int| 0 <= k < views.len() implies (#[trigger] views[k]).is_canonical() by {
                assert(views[k] is Text);
            }
        }
    }
    match write_json(&doc) {
        Some(text) => text,
        None => String::from_str("[]"),
    }
}

/// Reads a list of strings from its stored form.
pub fn read_strings(text: &str) -> (r: Vec<String>)
    ensures
        string_views(r@) == strings_of(text@),
{
    let mut out: Vec<String> = Vec::new();
    assert(string_views(out@) =~= Seq::<Seq<char>>::empty());
    let doc = match parse_json(text) {
        Ok(doc) => doc,
        Err(_) => {
            return out;
        },
    };
    let items = match doc.as_items() {
        Some(items) => items,
        None => {
            return out;
        },
    };
    let ghost views = json_views(items@);
    assert(doc@ == JsonView::Array(views));
    let mut i: usize = 0;
    while i < items.len()
        invariant
            i <= items@.len(),
            views == json_views(items@),
            json_document(text@) == Some(JsonView::Array(views)),
            out@.len() == i,
            forall|k: int| 0 <= k < i ==> (#[trigger] views[k]) is Text,
            forall|k: int| 0 <= k < i ==> (#[trigger] out@[k])@ == views[k]->Text_0,
        decreases items@.len() - i,
    {
        match items[i].as_text() {
            Some(s) => {
                out.push(s.clone());
            },
            None => {
                assert(!(views[i as int] is Text));
                let empty: Vec<String> = Vec::new();
                assert(string_views(empty@) =~= Seq::<Seq<char>>::empty());
                return empty;
            },
        }
        i += 1;
    }
    assert(string_views(out@) =~= views.map_values(|j: JsonView| j->Text_0));
    out
}

/// A row of the events table, with the display name of the sender joined
/// in.
#[derive(Debug)]
pub struct EventRow {
    pub id: String,
    pub timestamp: String,
    pub sender: String,
    pub conversation_id: Option<String>,
    pub content: Option<String>,
    pub event_type: String,
    pub media_references: String,
    pub metadata: Option<String>,
    pub sender_name: Option<String>,
}

/// The event that a row stands for: its instant is read from the stored
/// text, the sentinel standing in for a text that cannot be read, and its
/// media references are read from their stored form.
pub open spec fn event_of_row(row: EventRow) -> EventView {
    EventView {
        id: row.id@,
        timestamp: stored_instant(row.timestamp@),
        sender: row.sender@,
        sender_name: row.sender_name.deep_view(),
        media_references: strings_of(row.media_references@),
        conversation_id: row.conversation_id.deep_view(),
        content: row.content.deep_view(),
        event_type: row.event_type@,
        metadata: row.metadata.deep_view(),
    }
}

/// Reads an event from its row.
pub fn event_from_row(row: EventRow) -> (r: Event)
    ensures
        r@ == event_of_row(row),
{
    let timestamp = read_stored_instant(row.timestamp.as_str());
    let media_references = read_strings(row.media_references.as_str());
    assert(media_references.deep_view() =~= string_views(media_references@));
    Event {
        id: row.id,
        timestamp,
        sender: row.sender,
        sender_name: row.sender_name,
        media_references,
        conversation_id: row.conversation_id,
        content: row.content,
        event_type: row.event_type,
        metadata: row.metadata,
    }
}

/// The difference `a - b`, kept within the range of `i32`.
pub open spec fn difference(a: int, b: int) -> int {
    clamped(a - b, i32::MIN as int, i32::MAX as int)
}

/// The warnings of a validation report: one for media events without a
/// linked file and one for conversations without messages, each only where
/// there are any.
pub open spec fn report_warnings(media_missing: int, empty_conversations: int) -> Seq<Seq<char>> {
    (if media_missing > 0 {
        seq![decimal_text(media_missing) + " media events have no linked file"@]
    } else {
        seq![]
    }) + (if empty_conversations > 0 {
        seq![decimal_text(empty_conversations) + " conversations have no messages"@]
    } else {
        seq![]
    })
}

/// The integrity report for the counts that the store hands out: how many
/// media events there are, how many of them have a linked file, how many
/// conversations there are and how many of those are empty.
pub fn validation_report(
    total_media_referenced: i32,
    media_found: i32,
    total_html_files: i32,
    empty_conversations: i32,
) -> (r: ValidationReport)
    ensures
        r.total_html_files == total_html_files,
        r.parsed_html_files == total_html_files,
        r.total_media_referenced == total_media_referenced,
        r.media_found == media_found,
        r.media_missing == difference(total_media_referenced as int, media_found as int),
        r.missing_files@.len() == 0,
        string_views(r.warnings@) == report_warnings(
            r.media_missing as int,
            empty_conversations as int,
        ),
{
    let wide: i64 = (total_media_referenced as i64) - (media_found as i64);
    let media_missing: i32 = if wide < -2147483648 {
        -2147483648
    } else if wide > 2147483647 {
        2147483647
    } else {
        wide as i32
    };
    let mut warnings: Vec<String> = Vec::new();
    assert(string_views(warnings@) =~= Seq::<Seq<char>>::empty());
    if media_missing > 0 {
        let w = decimal(media_missing as i128).concat(" media events have no linked file");
        warnings.push(w);
        assert(string_views(warnings@) =~= seq![w@]);
    }
    let ghost first = string_views(warnings@);
    if empty_conversations > 0 {
        let w = decimal(empty_conversations as i128).concat(" conversations have no messages");
        warnings.push(w);
        assert(string_views(warnings@) =~= first.push(w@));
    }
    assert(string_views(warnings@) =~= report_warnings(
        media_missing as int,
        empty_conversations as int,
    ));
    ValidationReport {
        total_html_files,
        parsed_html_files: total_html_files,
        total_media_referenced,
        media_found,
        media_missing,
        missing_files: Vec::new(),
        warnings,
    }
}

} // verus!
