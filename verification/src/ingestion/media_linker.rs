//! Links events to media files: files are indexed by the media id in their
//! name, and events that carry media ids in their metadata get the paths of
//! the files that are still there.

use vstd::hash_map::StringHashMap;
use vstd::prelude::*;
use crate::json::{json_document, json_views, parse_json, JsonView};
use crate::models::{Event, EventView};
use crate::text::{string_views, chars_of, path_exists, str_eq, string_of_range};

verus! {

/// A file found under a media directory: its name and its full path.
#[derive(Debug)]
pub struct MediaFile {
    pub file_name: String,
    pub path: String,
}

pub struct MediaFileView {
    pub file_name: Seq<char>,
    pub path: Seq<char>,
}

impl View for MediaFile {
    type V = MediaFileView;

    open spec fn view(&self) -> MediaFileView {
        MediaFileView { file_name: self.file_name@, path: self.path@ }
    }
}

/// The views of a list of files, in order.
pub open spec fn file_views(files: Seq<MediaFile>) -> Seq<MediaFileView> {
    files.map_values(|f: MediaFile| f@)
}

/// The position of the first `c` in `s`, or the length of `s` where it
/// holds none.
pub open spec fn first_of(s: Seq<char>, c: char) -> int
    decreases s.len(),
{
    if s.len() == 0 || s[0] == c {
        0
    } else {
        1 + first_of(s.drop_first(), c)
    }
}

/// The position of the last `c` in `s`, or -1 where it holds none.
pub open spec fn last_of(s: Seq<char>, c: char) -> int
    decreases s.len(),
{
    if s.len() == 0 {
        -1
    } else if s.last() == c {
        s.len() - 1
    } else {
        last_of(s.drop_last(), c)
    }
}

/// What follows the first `_` of a file name; nothing where it has none.
pub open spec fn after_underscore(name: Seq<char>) -> Seq<char> {
    name.skip(first_of(name, '_') + 1)
}

/// The media id in a file name of the form `<date>_<id>.<ext>`: what stands
/// between the first `_` and the last `.` behind it, or everything behind
/// the `_` where no `.` follows. A name without `_`, or with nothing in
/// that place, holds no id.
pub open spec fn media_id_of(name: Seq<char>) -> Option<Seq<char>> {
    if first_of(name, '_') >= name.len() {
        None
    } else {
        let after = after_underscore(name);
        let dot = last_of(after, '.');
        let id = if dot >= 0 {
            after.take(dot)
        } else {
            after
        };
        if id.len() > 0 {
            Some(id)
        } else {
            None
        }
    }
}

/// The index after `files` have been added to `map`, in order: a later file
/// with the same id replaces an earlier one.
pub open spec fn indexed(map: Map<Seq<char>, Seq<char>>, files: Seq<MediaFileView>) -> Map<
    Seq<char>,
    Seq<char>,
>
    decreases files.len(),
{
    if files.len() == 0 {
        map
    } else {
        let before = indexed(map, files.drop_last());
        match media_id_of(files.last().file_name) {
            Some(id) => before.insert(id, files.last().path),
            None => before,
        }
    }
}

/// The event type is one that carries media.
pub open spec fn carries_media(event_type: Seq<char>) -> bool {
    ||| event_type == "MEDIA"@
    ||| event_type == "NOTE"@
    ||| event_type == "SNAP"@
    ||| event_type == "SNAP_VIDEO"@
    ||| event_type == "STICKER"@
}

/// The event is one that linking works on: of a type that carries media,
/// and without any reference yet.
pub open spec fn wants_media(e: EventView) -> bool {
    e.media_references.len() == 0 && carries_media(e.event_type)
}

/// The texts among `items`, in order.
pub open spec fn texts_of(items: Seq<JsonView>) -> Seq<Seq<char>>
    decreases items.len(),
{
    if items.len() == 0 {
        seq![]
    } else {
        match items.last().text() {
            Some(t) => texts_of(items.drop_last()).push(t),
            None => texts_of(items.drop_last()),
        }
    }
}

/// The media ids that the metadata of an event carries: the strings in the
/// array `media_ids` of the metadata document. Metadata that is absent, is
/// no JSON document or has no such array carries none.
pub open spec fn metadata_ids(metadata: Option<Seq<char>>) -> Seq<Seq<char>> {
    match metadata {
        Some(text) => match json_document(text) {
            Some(doc) => match doc.items_at("media_ids"@) {
                Some(items) => texts_of(items),
                None => seq![],
            },
            None => seq![],
        },
        None => seq![],
    }
}

/// The paths that `map` holds for `ids`, in the order of the ids; ids that
/// the map does not hold are passed over.
pub open spec fn candidates(map: Map<Seq<char>, Seq<char>>, ids: Seq<Seq<char>>) -> Seq<Seq<char>>
    decreases ids.len(),
{
    if ids.len() == 0 {
        seq![]
    } else if map.contains_key(ids.last()) {
        candidates(map, ids.drop_last()).push(map[ids.last()])
    } else {
        candidates(map, ids.drop_last())
    }
}

/// The paths among `paths` that are marked present, in order.
pub open spec fn kept(paths: Seq<Seq<char>>, present: Seq<bool>) -> Seq<Seq<char>>
    recommends
        present.len() == paths.len(),
    decreases paths.len(),
{
    if paths.len() == 0 || present.len() != paths.len() {
        seq![]
    } else if present.last() {
        kept(paths.drop_last(), present.drop_last()).push(paths.last())
    } else {
        kept(paths.drop_last(), present.drop_last())
    }
}

/// The event that linking makes of `e` when `found` are the files for it
/// that are there: an event that linking works on gets `found` as its
/// references, any other stays as it is.
pub open spec fn attached(e: EventView, found: Seq<Seq<char>>) -> EventView {
    if wants_media(e) {
        EventView { media_references: found, ..e }
    } else {
        e
    }
}

/// The event that linking against `map` makes of `e` when `present` says,
/// for each path that the map holds for the ids in the event's metadata,
/// whether its file is there: an event that linking works on gets the
/// paths whose files are there, in order; any other stays as it is.
pub open spec fn linked_with(
    e: EventView,
    map: Map<Seq<char>, Seq<char>>,
    present: Seq<bool>,
) -> EventView {
    attached(e, kept(candidates(map, metadata_ids(e.metadata)), present))
}

/// The answers for the event at `i`; none where the list holds none for
/// it.
pub open spec fn answers_at(answers: Seq<Vec<bool>>, i: int) -> Seq<bool> {
    if 0 <= i < answers.len() {
        answers[i]@
    } else {
        seq![]
    }
}

/// `after` is what linking against `map` makes of `before` for some
/// answers on which files are there.
pub open spec fn linked(before: EventView, after: EventView, map: Map<Seq<char>, Seq<char>>) -> bool {
    exists|present: Seq<bool>|
        present.len() == candidates(map, metadata_ids(before.metadata)).len() && after
            == #[trigger] linked_with(before, map, present)
}

pub struct MediaLinker {
    /// Maps media id (from the file name) to the file's path.
    id_map: StringHashMap<String>,
}

impl View for MediaLinker {
    type V = Map<Seq<char>, Seq<char>>;

    closed spec fn view(&self) -> Map<Seq<char>, Seq<char>> {
        Map::new(|k: Seq<char>| self.id_map@.contains_key(k), |k: Seq<char>| self.id_map@[k]@)
    }
}

impl MediaLinker {
    /// Reads the media id out of a file name.
    pub fn media_id(file_name: &str) -> (r: Option<String>)
        ensures
            r.deep_view() == media_id_of(file_name@),
    {
        let name = chars_of(file_name);
        let n = name.len();
        let mut u: usize = 0;
        assert(name@.skip(0) =~= name@);
        while u < n && name[u] != '_'
            invariant
                u <= n,
                n == name@.len(),
                first_of(name@, '_') == u + first_of(name@.skip(u as int), '_'),
            decreases n - u,
        {
            assert(name@.skip(u as int).drop_first() =~= name@.skip(u + 1));
            u += 1;
        }
        if u >= n {
            assert(name@.skip(n as int) =~= Seq::<char>::empty());
            return None;
        }
        assert(first_of(name@, '_') == u);
        let start = u + 1;
        let ghost after = after_underscore(name@);
        assert(after =~= name@.subrange(start as int, n as int));
        let mut end: usize = n;
        let mut dot_found = false;
        assert(after.take(after.len() as int) =~= after);
        while end > start && !dot_found
            invariant
                start <= end <= n,
                n == name@.len(),
                after == name@.subrange(start as int, n as int),
                !dot_found ==> last_of(after, '.') == last_of(after.take(end - start), '.'),
                dot_found ==> end < n && last_of(after, '.') == end - start,
            decreases end - start + if dot_found { 0int } else { 1int },
        {
            let ghost part = after.take(end - start);
            assert(part.last() == name@[end - 1]);
            assert(part.drop_last() =~= after.take(end - start - 1));
            end -= 1;
            if name[end] == '.' {
                dot_found = true;
            }
        }
        let stop = if dot_found {
            end
        } else {
            assert(after.take(0) =~= Seq::<char>::empty());
            n
        };
        if stop == start {
            assert(after.take(0).len() == 0);
            return None;
        }
        let id = string_of_range(&name, start, stop);
        assert(name@.subrange(start as int, stop as int) =~= if dot_found {
            after.take(end - start)
        } else {
            after
        });
        Some(id)
    }

    /// An index of `files`.
    pub fn new(files: &Vec<MediaFile>) -> (r: Self)
        ensures
            r@ == indexed(Map::empty(), file_views(files@)),
    {
        let mut linker = MediaLinker { id_map: StringHashMap::new() };
        assert(linker@ =~= Map::<Seq<char>, Seq<char>>::empty());
        linker.add_media_directory(files);
        linker
    }

    /// Adds the files of one more media directory to the index. A file
    /// whose name holds no media id is passed over; a file whose id is
    /// indexed already takes the place of the earlier one.
    pub fn add_media_directory(&mut self, files: &Vec<MediaFile>)
        ensures
            final(self)@ == indexed(old(self)@, file_views(files@)),
    {
        let mut i: usize = 0;
        assert(file_views(files@).take(0) =~= Seq::<MediaFileView>::empty());
        while i < files.len()
            invariant
                i <= files@.len(),
                self@ == indexed(old(self)@, file_views(files@).take(i as int)),
            decreases files@.len() - i,
        {
            let ghost upto = file_views(files@).take(i + 1);
            let ghost sofar = self@;
            assert(upto.drop_last() =~= file_views(files@).take(i as int));
            assert(upto.last() == files@[i as int]@);
            match Self::media_id(files[i].file_name.as_str()) {
                Some(id) => {
                    let path = files[i].path.clone();
                    self.id_map.insert(id, path);
                    assert(self@ =~= sofar.insert(id@, path@));
                },
                None => {},
            }
            i += 1;
        }
        assert(file_views(files@).take(files@.len() as int) =~= file_views(files@));
    }

    /// The index itself: for each media id the path of its file.
    pub fn get_id_map(&self) -> (r: &StringHashMap<String>)
        ensures
            r@.dom() == self@.dom(),
            forall|id: Seq<char>| r@.contains_key(id) ==> r@[id]@ == #[trigger] self@[id],
    {
        &self.id_map
    }

    /// The number of ids in the index.
    pub fn len(&self) -> (r: usize)
        ensures
            r == self@.dom().len(),
    {
        broadcast use vstd::hash_map::group_hash_map_axioms;

        assert(self@.dom() =~= self.id_map@.dom());
        self.id_map.len()
    }

    /// Whether the index holds `id`.
    pub fn contains_id(&self, id: &str) -> (r: bool)
        ensures
            r == self@.contains_key(id@),
    {
        self.id_map.contains_key(id)
    }

    /// The path that the index holds for `id`.
    pub fn path_of(&self, id: &str) -> (r: Option<&String>)
        ensures
            match r {
                Some(p) => self@.contains_key(id@) && self@[id@] == p@,
                None => !self@.contains_key(id@),
            },
    {
        self.id_map.get(id)
    }

    /// The media ids that the metadata of an event carries.
    pub fn extract_media_ids(metadata: &Option<String>) -> (r: Vec<String>)
        ensures
            string_views(r@) == metadata_ids(metadata.deep_view()),
    {
        let mut ids: Vec<String> = Vec::new();
        assert(string_views(ids@) =~= Seq::<Seq<char>>::empty());
        let text = match metadata {
            Some(text) => text,
            None => {
                return ids;
            },
        };
        let doc = match parse_json(text.as_str()) {
            Ok(doc) => doc,
            Err(_) => {
                return ids;
            },
        };
        match doc.items_at("media_ids") {
            Some(items) => {
                let mut i: usize = 0;
                assert(json_views(items@).take(0) =~= Seq::<JsonView>::empty());
                while i < items.len()
                    invariant
                        i <= items@.len(),
                        string_views(ids@) == texts_of(json_views(items@).take(i as int)),
                    decreases items@.len() - i,
                {
                    let ghost sofar = string_views(ids@);
                    let ghost upto = json_views(items@).take(i + 1);
                    assert(upto.drop_last() =~= json_views(items@).take(i as int));
                    assert(upto.last() == items@[i as int]@);
                    match items[i].as_text() {
                        Some(t) => {
                            ids.push(t.clone());
                            assert(string_views(ids@) =~= sofar.push(t@));
                        },
                        None => {},
                    }
                    i += 1;
                }
                assert(json_views(items@).take(items@.len() as int) =~= json_views(items@));
            },
            None => {},
        }
        ids
    }

    /// The event type is one that carries media.
    pub fn is_media_type(event_type: &str) -> (r: bool)
        ensures
            r == carries_media(event_type@),
    {
        str_eq(event_type, "MEDIA") || str_eq(event_type, "NOTE") || str_eq(event_type, "SNAP")
            || str_eq(event_type, "SNAP_VIDEO") || str_eq(event_type, "STICKER")
    }

    /// The paths that the index holds for `ids`, in the order of the ids.
    pub fn resolve(&self, ids: &Vec<String>) -> (r: Vec<String>)
        ensures
            string_views(r@) == candidates(self@, string_views(ids@)),
    {
        let mut paths: Vec<String> = Vec::new();
        let mut i: usize = 0;
        assert(string_views(ids@).take(0) =~= Seq::<Seq<char>>::empty());
        assert(string_views(paths@) =~= Seq::<Seq<char>>::empty());
        while i < ids.len()
            invariant
                i <= ids@.len(),
                string_views(paths@) == candidates(self@, string_views(ids@).take(i as int)),
            decreases ids@.len() - i,
        {
            let ghost sofar = string_views(paths@);
            let ghost upto = string_views(ids@).take(i + 1);
            assert(upto.drop_last() =~= string_views(ids@).take(i as int));
            assert(upto.last() == ids@[i as int]@);
            match self.id_map.get(ids[i].as_str()) {
                Some(p) => {
                    paths.push(p.clone());
                    assert(string_views(paths@) =~= sofar.push(p@));
                },
                None => {},
            }
            i += 1;
        }
        assert(string_views(ids@).take(ids@.len() as int) =~= string_views(ids@));
        paths
    }

    /// Gives an event that linking works on the references `found`; any
    /// other event is left alone.
    pub fn attach(event: &mut Event, found: Vec<String>)
        ensures
            final(event)@ == attached(old(event)@, string_views(found@)),
    {
        if event.media_references.len() == 0 && Self::is_media_type(event.event_type.as_str()) {
            event.media_references = found;
            assert(event.media_references.deep_view() =~= string_views(found@));
        }
    }

    /// Looks, for each of the paths, whether something is there now.
    fn look_for(paths: &Vec<String>) -> (r: Vec<bool>)
        ensures
            r@.len() == paths@.len(),
    {
        let mut present: Vec<bool> = Vec::new();
        let mut i: usize = 0;
        while i < paths.len()
            invariant
                i <= paths@.len(),
                present@.len() == i,
            decreases paths@.len() - i,
        {
            present.push(path_exists(paths[i].as_str()));
            i += 1;
        }
        present
    }

    /// The paths among `paths` that are marked present, in order; none
    /// where there is not one mark for each path.
    pub fn keep_present(paths: Vec<String>, present: &Vec<bool>) -> (r: Vec<String>)
        ensures
            string_views(r@) == kept(string_views(paths@), present@),
    {
        let mut found: Vec<String> = Vec::new();
        if present.len() != paths.len() {
            assert(string_views(found@) =~= Seq::<Seq<char>>::empty());
            return found;
        }
        let mut i: usize = 0;
        assert(string_views(paths@).take(0) =~= Seq::<Seq<char>>::empty());
        assert(present@.take(0) =~= Seq::<bool>::empty());
        assert(string_views(found@) =~= Seq::<Seq<char>>::empty());
        while i < paths.len()
            invariant
                i <= paths@.len(),
                present@.len() == paths@.len(),
                string_views(found@) == kept(
                    string_views(paths@).take(i as int),
                    present@.take(i as int),
                ),
            decreases paths@.len() - i,
        {
            let ghost sofar = string_views(found@);
            let ghost upto = string_views(paths@).take(i + 1);
            assert(upto.drop_last() =~= string_views(paths@).take(i as int));
            assert(upto.last() == paths@[i as int]@);
            assert(present@.take(i + 1).drop_last() =~= present@.take(i as int));
            assert(present@.take(i + 1).last() == present@[i as int]);
            if present[i] {
                found.push(paths[i].clone());
                assert(string_views(found@) =~= sofar.push(paths@[i as int]@));
            }
            i += 1;
        }
        assert(string_views(paths@).take(paths@.len() as int) =~= string_views(paths@));
        assert(present@.take(paths@.len() as int) =~= present@);
        found
    }

    /// The paths that the index holds for the media ids in the metadata of
    /// an event, in the order of the ids.
    pub fn candidates_for(&self, event: &Event) -> (r: Vec<String>)
        ensures
            string_views(r@) == candidates(self@, metadata_ids(event@.metadata)),
    {
        let ids = Self::extract_media_ids(&event.metadata);
        self.resolve(&ids)
    }

    /// Links one event, given for each of its candidate paths whether the
    /// file is there: an event that linking works on gets the paths whose
    /// files are there, and none where there is not one answer for each
    /// candidate; any other event is left alone.
    pub fn link_event_with(&self, event: &mut Event, present: &Vec<bool>)
        ensures
            final(event)@ == linked_with(old(event)@, self@, present@),
    {
        let paths = self.candidates_for(event);
        let found = Self::keep_present(paths, present);
        Self::attach(event, found);
    }

    /// Links one event: the files of its candidate paths are looked for,
    /// and the event is linked with the answers.
    pub fn link_event(&self, event: &mut Event)
        ensures
            linked(old(event)@, final(event)@, self@),
    {
        let paths = self.candidates_for(event);
        let present = Self::look_for(&paths);
        let found = Self::keep_present(paths, &present);
        Self::attach(event, found);
        assert(final(event)@ == linked_with(old(event)@, self@, present@));
    }

    /// Links the events, given for each event and each of its candidate
    /// paths whether the file is there; an event without answers is linked
    /// as with none of its files there.
    pub fn link_media_with(&self, events: &mut Vec<Event>, answers: &Vec<Vec<bool>>)
        ensures
            final(events)@.len() == old(events)@.len(),
            forall|i: int|
                0 <= i < old(events)@.len() ==> (#[trigger] final(events)@[i])@ == linked_with(
                    old(events)@[i]@,
                    self@,
                    answers_at(answers@, i),
                ),
    {
        let none: Vec<bool> = Vec::new();
        let mut i: usize = 0;
        while i < events.len()
            invariant
                i <= events@.len(),
                events@.len() == old(events)@.len(),
                none@.len() == 0,
                forall|k: int|
                    0 <= k < i ==> (#[trigger] events@[k])@ == linked_with(
                        old(events)@[k]@,
                        self@,
                        answers_at(answers@, k),
                    ),
                forall|k: int| i <= k < events@.len() ==> events@[k] == old(events)@[k],
            decreases events@.len() - i,
        {
            if i < answers.len() {
                self.link_event_with(&mut events[i], &answers[i]);
            } else {
                assert(none@ =~= answers_at(answers@, i as int));
                self.link_event_with(&mut events[i], &none);
            }
            i += 1;
        }
    }

    /// Links the events to the indexed files. An event that has references
    /// already, or whose type carries no media, stays as it is. Any other
    /// event gets, for the media ids in its metadata and in their order,
    /// the paths of the indexed files that are still there; everything
    /// else about it stays as it is.
    pub fn link_media(&self, events: &mut Vec<Event>)
        ensures
            final(events)@.len() == old(events)@.len(),
            forall|i: int|
                0 <= i < old(events)@.len() ==> linked(
                    #[trigger] old(events)@[i]@,
                    final(events)@[i]@,
                    self@,
                ),
    {
        let mut i: usize = 0;
        while i < events.len()
            invariant
                i <= events@.len(),
                events@.len() == old(events)@.len(),
                forall|k: int|
                    0 <= k < i ==> linked(#[trigger] old(events)@[k]@, events@[k]@, self@),
                forall|k: int| i <= k < events@.len() ==> events@[k] == old(events)@[k],
            decreases events@.len() - i,
        {
            self.link_event(&mut events[i]);
            i += 1;
        }
    }
}

/// An event that has references after linking is left alone by every later
/// linking.
pub proof fn lemma_linked_stays(
    mid: EventView,
    after: EventView,
    map: Map<Seq<char>, Seq<char>>,
)
    requires
        mid.media_references.len() > 0,
        linked(mid, after, map),
    ensures
        after == mid,
{
}

/// Linking twice is linking once: what two runs make of an event, one run
/// could have made of it, so no reference is ever attached a second time.
pub proof fn lemma_link_twice(
    before: EventView,
    mid: EventView,
    after: EventView,
    map: Map<Seq<char>, Seq<char>>,
)
    requires
        linked(before, mid, map),
        linked(mid, after, map),
    ensures
        linked(before, after, map),
        mid.media_references.len() > 0 ==> after == mid,
{
    if wants_media(before) {
        if mid.media_references.len() == 0 {
            assert(mid.media_references =~= before.media_references);
            assert(mid == before);
        }
    }
}

/// Linking is idempotent while the index and the files stay as they are:
/// linking an event again, with the same answers on which files are
/// there, leaves it as the first linking made it, so that no list of
/// references grows or gains a path a second time.
pub proof fn lemma_link_again(e: EventView, map: Map<Seq<char>, Seq<char>>, present: Seq<bool>)
    ensures
        linked_with(linked_with(e, map, present), map, present) == linked_with(e, map, present),
{
    let once = linked_with(e, map, present);
    if wants_media(e) {
        assert(once.metadata == e.metadata);
        if once.media_references.len() == 0 {
            assert(wants_media(once));
            assert(linked_with(once, map, present).media_references =~= once.media_references);
        }
    }
}

} // verus!
