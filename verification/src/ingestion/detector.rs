//! Recognising exports: which names look like parts of an export, which
//! parts belong together, and what a group of parts amounts to.

use vstd::prelude::*;
use crate::error::AppError;
use crate::ingestion::media_linker::last_of;
use crate::models::{ExportSet, ExportSetView, ExportSourceType, Timestamp, ValidationStatus};
use crate::text::{string_views, 
    chars_of, contains, ends_with, has_infix, has_prefix, has_suffix, lowercase, name_order,
    starts_with, str_eq, string_of_range, to_lowercase,
};

verus! {

/// The pattern of a standard part name: the base id `mydata~<digits>`,
/// then an optional part number and an optional `.zip`.
pub open spec fn export_id_pattern() -> Seq<char> {
    "^(mydata~\\d+)(?:-\\d+)?(?:\\.zip)?$"@
}

/// The text of the first capture group of the first match of the regular
/// expression `pattern` in `text`, as the `regex` crate finds it; `None`
/// where nothing matches, the group took no part in the match, or the
/// pattern is not valid.
pub uninterp spec fn regex_capture(pattern: Seq<char>, text: Seq<char>) -> Option<Seq<char>>;

/// `regex::Regex::new`, `Regex::captures` and `Captures::get(1)`: the text
/// of the first capture group. The outcome is a function of the pattern
/// and the text.
#[verifier::external_body]
fn first_capture(pattern: &str, text: &str) -> (r: Option<String>)
    ensures
        r.deep_view() == regex_capture(pattern@, text@),
{
    match regex::Regex::new(pattern) {
        Ok(re) => re.captures(text).and_then(|c| c.get(1)).map(|m| m.as_str().to_string()),
        Err(_) => None,
    }
}

/// Which marks of an export were seen.
#[derive(Debug, Clone, Copy, PartialEq, Eq, Structural)]
pub struct Signature {
    /// The index document.
    pub has_index: bool,
    /// The chat-history subtree.
    pub has_chat: bool,
    /// A media subtree.
    pub has_media: bool,
}

impl Signature {
    /// The marks seen in either.
    pub open spec fn or(self, other: Signature) -> Signature {
        Signature {
            has_index: self.has_index || other.has_index,
            has_chat: self.has_chat || other.has_chat,
            has_media: self.has_media || other.has_media,
        }
    }

    /// No mark at all.
    pub open spec fn none() -> Signature {
        Signature { has_index: false, has_chat: false, has_media: false }
    }
}

/// What the marks amount to: valid with all three, incomplete with some of
/// them, unknown with none.
pub open spec fn status_of(s: Signature) -> ValidationStatus {
    if s.has_index && s.has_chat && s.has_media {
        ValidationStatus::Valid
    } else if s.has_index || s.has_chat || s.has_media {
        ValidationStatus::Incomplete
    } else {
        ValidationStatus::Unknown
    }
}

/// The marks seen across `members`.
pub open spec fn combined(members: Seq<Signature>) -> Signature
    decreases members.len(),
{
    if members.len() == 0 {
        Signature::none()
    } else {
        combined(members.drop_last()).or(members.last())
    }
}

/// Something found under a scan root that looks like part of an export.
#[derive(Debug)]
pub struct Candidate {
    /// The file or folder name.
    pub name: String,
    /// The full path.
    pub path: String,
    /// When the file system says it was created.
    pub created: Option<Timestamp>,
    /// The marks seen in it.
    pub signature: Signature,
}

pub struct CandidateView {
    pub name: Seq<char>,
    pub path: Seq<char>,
    pub created: Option<Timestamp>,
    pub signature: Signature,
}

impl View for Candidate {
    type V = CandidateView;

    open spec fn view(&self) -> CandidateView {
        CandidateView {
            name: self.name@,
            path: self.path@,
            created: self.created,
            signature: self.signature,
        }
    }
}

/// The views of a list of candidates, in order.
pub open spec fn candidate_views(cs: Seq<Candidate>) -> Seq<CandidateView> {
    cs.map_values(|c: Candidate| c@)
}

/// The views of a list of exports, in order.
pub open spec fn export_views(es: Seq<ExportSet>) -> Seq<ExportSetView> {
    es.map_values(|e: ExportSet| e@)
}

/// The name looks like part of an export: in lower case it begins with
/// `mydata~` or holds `snapchat`.
pub open spec fn looks_like_export(name: Seq<char>) -> bool {
    starts_with(lowercase(name), "mydata~"@) || contains(lowercase(name), "snapchat"@)
}

/// The name without its extension: what stands before its last `.`, or all
/// of it where it has no `.` behind its first character.
pub open spec fn stem_of(name: Seq<char>) -> Seq<char> {
    if last_of(name, '.') <= 0 {
        name
    } else {
        name.take(last_of(name, '.'))
    }
}

/// The key under which a part is grouped: the base id of a standard part
/// name, and the stem of any other name.
pub open spec fn group_key_of(name: Seq<char>) -> Seq<char> {
    match regex_capture(export_id_pattern(), name) {
        Some(base) => base,
        None => stem_of(name),
    }
}

/// The name has the extension `zip`.
pub open spec fn is_zip_name(name: Seq<char>) -> bool {
    name.len() > 4 && ends_with(name, ".zip"@)
}

/// Some member is a zip archive.
pub open spec fn any_zip(members: Seq<CandidateView>) -> bool {
    exists|i: int| 0 <= i < members.len() && is_zip_name((#[trigger] members[i]).name)
}

/// The members of the group `key` among `cs`, in order.
pub open spec fn members_of(cs: Seq<CandidateView>, key: Seq<char>) -> Seq<CandidateView>
    decreases cs.len(),
{
    if cs.len() == 0 {
        seq![]
    } else if group_key_of(cs.last().name) == key {
        members_of(cs.drop_last(), key).push(cs.last())
    } else {
        members_of(cs.drop_last(), key)
    }
}

/// The group keys of `cs`, each once, in the order in which they first
/// occur.
pub open spec fn keys_of(cs: Seq<CandidateView>) -> Seq<Seq<char>>
    decreases cs.len(),
{
    if cs.len() == 0 {
        seq![]
    } else if keys_of(cs.drop_last()).contains(group_key_of(cs.last().name)) {
        keys_of(cs.drop_last())
    } else {
        keys_of(cs.drop_last()).push(group_key_of(cs.last().name))
    }
}

/// The marks of each member, in order.
pub open spec fn signatures_of(members: Seq<CandidateView>) -> Seq<Signature> {
    members.map_values(|c: CandidateView| c.signature)
}

/// The paths of the members, in order.
pub open spec fn paths_of(members: Seq<CandidateView>) -> Seq<Seq<char>> {
    members.map_values(|c: CandidateView| c.path)
}

/// The export that the group `key` with `members` amounts to; none where
/// no mark of an export was seen in any member.
pub open spec fn export_of(key: Seq<char>, members: Seq<CandidateView>) -> Option<ExportSetView> {
    let status = status_of(combined(signatures_of(members)));
    if status == ValidationStatus::Unknown || members.len() == 0 {
        None
    } else {
        Some(
            ExportSetView {
                id: key,
                source_paths: paths_of(members),
                source_type: if any_zip(members) {
                    ExportSourceType::Zip
                } else {
                    ExportSourceType::Folder
                },
                extraction_path: None,
                creation_date: members[0].created,
                validation_status: status,
            },
        )
    }
}

/// The exports of the groups `keys` among `cs`, in the order of the keys.
pub open spec fn exports_of(cs: Seq<CandidateView>, keys: Seq<Seq<char>>) -> Seq<ExportSetView>
    decreases keys.len(),
{
    if keys.len() == 0 {
        seq![]
    } else {
        match export_of(keys.last(), members_of(cs, keys.last())) {
            Some(e) => exports_of(cs, keys.drop_last()).push(e),
            None => exports_of(cs, keys.drop_last()),
        }
    }
}

/// The exports found among the candidates `cs`.
pub open spec fn detected(cs: Seq<CandidateView>) -> Seq<ExportSetView> {
    exports_of(cs, keys_of(cs))
}

/// No candidate comes behind one whose path is later in the order of
/// strings.
pub open spec fn is_path_ordered(cs: Seq<CandidateView>) -> bool {
    forall|i: int, j: int|
        0 <= i < j < cs.len() ==> !name_order((#[trigger] cs[j]).path, (#[trigger] cs[i]).path)
}

/// The candidate has the path `path`.
pub open spec fn has_path(path: Seq<char>) -> spec_fn(CandidateView) -> bool {
    |c: CandidateView| c.path == path
}

/// `sorted` holds the candidates `cs` in the order of their paths, those
/// with the same path in the order in which `cs` holds them.
pub open spec fn is_sorting(sorted: Seq<CandidateView>, cs: Seq<CandidateView>) -> bool {
    &&& sorted.to_multiset() == cs.to_multiset()
    &&& is_path_ordered(sorted)
    &&& forall|path: Seq<char>| #[trigger] sorted.filter(has_path(path)) == cs.filter(has_path(path))
}

/// `slice::sort_by` with `str::cmp` on the paths: afterwards the same
/// candidates stand in the order of their paths, and, the sort being
/// stable, those with the same path in the order of before.
#[verifier::external_body]
fn sort_by_path(candidates: &mut Vec<Candidate>)
    ensures
        is_sorting(candidate_views(final(candidates)@), candidate_views(old(candidates)@)),
{
    candidates.sort_by(|a, b| a.path.as_str().cmp(b.path.as_str()))
}

/// The ids of a list of exports, in order.
pub open spec fn ids_of(es: Seq<ExportSetView>) -> Seq<Seq<char>> {
    es.map_values(|e: ExportSetView| e.id)
}

/// The exports of `es` whose id does not occur before them, in order.
pub open spec fn first_of_each(es: Seq<ExportSetView>) -> Seq<ExportSetView>
    decreases es.len(),
{
    if es.len() == 0 {
        seq![]
    } else if ids_of(first_of_each(es.drop_last())).contains(es.last().id) {
        first_of_each(es.drop_last())
    } else {
        first_of_each(es.drop_last()).push(es.last())
    }
}

pub struct ExportDetector;

impl ExportDetector {
    /// Decides `looks_like_export`.
    pub fn is_candidate_name(name: &str) -> (r: bool)
        ensures
            r == looks_like_export(name@),
    {
        proof {
            reveal_strlit("mydata~");
            reveal_strlit("snapchat");
        }
        let lower = to_lowercase(name);
        let chars = chars_of(lower.as_str());
        let prefix = chars_of("mydata~");
        let tag = chars_of("snapchat");
        has_prefix(&chars, &prefix) || has_infix(&chars, &tag)
    }

    /// The name without its extension.
    pub fn file_stem(name: &str) -> (r: String)
        ensures
            r@ == stem_of(name@),
    {
        let chars = chars_of(name);
        let n = chars.len();
        let mut end: usize = n;
        assert(chars@.take(n as int) =~= chars@);
        while end > 0 && chars[end - 1] != '.'
            invariant
                end <= n,
                n == chars@.len(),
                last_of(chars@, '.') == last_of(chars@.take(end as int), '.'),
            decreases end,
        {
            assert(chars@.take(end as int).drop_last() =~= chars@.take(end - 1));
            end -= 1;
        }
        if end <= 1 {
            assert(last_of(chars@, '.') <= 0) by {
                if end == 1 {
                    assert(chars@.take(1).last() == chars@[0]);
                }
            }
            let r = string_of_range(&chars, 0, n);
            assert(chars@.subrange(0, n as int) =~= chars@);
            r
        } else {
            assert(chars@.take(end as int).last() == chars@[end - 1]);
            assert(last_of(chars@, '.') == end - 1);
            let r = string_of_range(&chars, 0, end - 1);
            assert(chars@.subrange(0, end - 1) =~= chars@.take(end - 1));
            r
        }
    }

    /// The key under which a part named `name` is grouped.
    pub fn group_key(name: &str) -> (r: String)
        ensures
            r@ == group_key_of(name@),
    {
        match first_capture("^(mydata~\\d+)(?:-\\d+)?(?:\\.zip)?$", name) {
            Some(base) => base,
            None => Self::file_stem(name),
        }
    }

    /// Decides `is_zip_name`.
    pub fn has_zip_extension(name: &str) -> (r: bool)
        ensures
            r == is_zip_name(name@),
    {
        proof {
            reveal_strlit(".zip");
        }
        let chars = chars_of(name);
        let suffix = chars_of(".zip");
        chars.len() > 4 && has_suffix(&chars, &suffix)
    }

    /// The marks seen in the entry names of an archive: the index document
    /// as an entry of its own, and the chat-history and media subtrees in
    /// the path of any entry.
    pub fn zip_signature(entry_names: &Vec<String>) -> (r: Signature)
        ensures
            r.has_index == exists|i: int|
                0 <= i < entry_names@.len() && (#[trigger] entry_names@[i])@ == "index.html"@,
            r.has_chat == exists|i: int|
                0 <= i < entry_names@.len() && contains(
                    (#[trigger] entry_names@[i])@,
                    "html/chat_history"@,
                ),
            r.has_media == exists|i: int|
                0 <= i < entry_names@.len() && (contains(
                    (#[trigger] entry_names@[i])@,
                    "chat_media/"@,
                ) || contains(entry_names@[i]@, "media/"@)),
    {
        let chat = chars_of("html/chat_history");
        let chat_media = chars_of("chat_media/");
        let media = chars_of("media/");
        let mut sig = Signature { has_index: false, has_chat: false, has_media: false };
        let mut i: usize = 0;
        while i < entry_names.len()
            invariant
                i <= entry_names@.len(),
                chat@ == "html/chat_history"@,
                chat_media@ == "chat_media/"@,
                media@ == "media/"@,
                sig.has_index == exists|k: int|
                    0 <= k < i && (#[trigger] entry_names@[k])@ == "index.html"@,
                sig.has_chat == exists|k: int|
                    0 <= k < i && contains((#[trigger] entry_names@[k])@, "html/chat_history"@),
                sig.has_media == exists|k: int|
                    0 <= k < i && (contains((#[trigger] entry_names@[k])@, "chat_media/"@)
                        || contains(entry_names@[k]@, "media/"@)),
            decreases entry_names@.len() - i,
        {
            let name = chars_of(entry_names[i].as_str());
            if str_eq(entry_names[i].as_str(), "index.html") {
                sig.has_index = true;
            }
            if has_infix(&name, &chat) {
                sig.has_chat = true;
            }
            if has_infix(&name, &chat_media) || has_infix(&name, &media) {
                sig.has_media = true;
            }
            i += 1;
        }
        sig
    }

    /// What the marks of one archive or folder amount to.
    pub fn validate(signature: Signature) -> (r: ValidationStatus)
        ensures
            r == status_of(signature),
    {
        if signature.has_index && signature.has_chat && signature.has_media {
            ValidationStatus::Valid
        } else if signature.has_index || signature.has_chat || signature.has_media {
            ValidationStatus::Incomplete
        } else {
            ValidationStatus::Unknown
        }
    }

    /// What a single folder amounts to: only a folder with the index
    /// document is taken for an export.
    pub fn validate_folder(signature: Signature) -> (r: Option<ValidationStatus>)
        ensures
            r == if signature.has_index {
                Some(status_of(signature))
            } else {
                None
            },
    {
        if signature.has_index {
            Some(Self::validate(signature))
        } else {
            None
        }
    }

    /// What a single archive amounts to: only an archive with the index
    /// document is taken for an export.
    pub fn validate_zip(signature: Signature) -> (r: Option<ValidationStatus>)
        ensures
            r == if signature.has_index {
                Some(status_of(signature))
            } else {
                None
            },
    {
        Self::validate_folder(signature)
    }

    /// What the marks of a group of folders amount to, taken together.
    pub fn validate_folder_group(members: &Vec<Signature>) -> (r: ValidationStatus)
        ensures
            r == status_of(combined(members@)),
    {
        let mut all = Signature { has_index: false, has_chat: false, has_media: false };
        let mut i: usize = 0;
        assert(members@.take(0) =~= Seq::<Signature>::empty());
        while i < members.len()
            invariant
                i <= members@.len(),
                all == combined(members@.take(i as int)),
            decreases members@.len() - i,
        {
            assert(members@.take(i + 1).drop_last() =~= members@.take(i as int));
            let m = members[i];
            all = Signature {
                has_index: all.has_index || m.has_index,
                has_chat: all.has_chat || m.has_chat,
                has_media: all.has_media || m.has_media,
            };
            i += 1;
        }
        assert(members@.take(members@.len() as int) =~= members@);
        Self::validate(all)
    }

    /// What the marks of a group of archive parts amount to, taken
    /// together.
    pub fn validate_zip_group(members: &Vec<Signature>) -> (r: ValidationStatus)
        ensures
            r == status_of(combined(members@)),
    {
        Self::validate_folder_group(members)
    }

    /// Whether `keys` holds `key`.
    fn knows_key(keys: &Vec<String>, key: &str) -> (r: bool)
        ensures
            r == string_views(keys@).contains(key@),
    {
        let mut i: usize = 0;
        while i < keys.len()
            invariant
                i <= keys@.len(),
                forall|k: int| 0 <= k < i ==> string_views(keys@)[k] != key@,
            decreases keys@.len() - i,
        {
            if str_eq(keys[i].as_str(), key) {
                assert(string_views(keys@)[i as int] == key@);
                return true;
            }
            i += 1;
        }
        false
    }

    /// The export that the group `key` among `cs` amounts to; `each` holds
    /// the group key of each candidate.
    fn export_for(cs: &Vec<Candidate>, each: &Vec<String>, key: &String) -> (r: Option<ExportSet>)
        requires
            each@.len() == cs@.len(),
            forall|j: int|
                0 <= j < cs@.len() ==> (#[trigger] each@[j])@ == group_key_of(cs@[j]@.name),
        ensures
            r.is_some() == export_of(key@, members_of(candidate_views(cs@), key@)).is_some(),
            r matches Some(e) ==> export_of(key@, members_of(candidate_views(cs@), key@)) == Some(
                e@,
            ),
    {
        let ghost all = candidate_views(cs@);
        let mut paths: Vec<String> = Vec::new();
        let mut sig = Signature { has_index: false, has_chat: false, has_media: false };
        let mut zip = false;
        let mut created: Option<Timestamp> = None;
        let mut j: usize = 0;
        assert(all.take(0) =~= Seq::<CandidateView>::empty());
        assert(string_views(paths@) =~= paths_of(members_of(all.take(0), key@)));
        assert(signatures_of(members_of(all.take(0), key@)) =~= Seq::<Signature>::empty());
        while j < cs.len()
            invariant
                j <= cs@.len(),
                all == candidate_views(cs@),
                each@.len() == cs@.len(),
                forall|j: int|
                    0 <= j < cs@.len() ==> (#[trigger] each@[j])@ == group_key_of(cs@[j]@.name),
                string_views(paths@) == paths_of(members_of(all.take(j as int), key@)),
                sig == combined(signatures_of(members_of(all.take(j as int), key@))),
                zip == any_zip(members_of(all.take(j as int), key@)),
                members_of(all.take(j as int), key@).len() > 0 ==> created == members_of(
                    all.take(j as int),
                    key@,
                )[0].created,
            decreases cs@.len() - j,
        {
            let ghost before = members_of(all.take(j as int), key@);
            let ghost upto = all.take(j + 1);
            assert(upto.drop_last() =~= all.take(j as int));
            assert(upto.last() == cs@[j as int]@);
            let c = &cs[j];
            let k = &each[j];
            if str_eq(k.as_str(), key.as_str()) {
                let ghost after = before.push(c@);
                assert(members_of(upto, key@) == after);
                let ghost old_paths = string_views(paths@);
                if paths.len() == 0 {
                    created = c.created;
                    assert(before.len() == 0) by {
                        assert(paths_of(before).len() == before.len());
                    }
                } else {
                    assert(before.len() > 0) by {
                        assert(paths_of(before).len() == before.len());
                    }
                    assert(after[0] == before[0]);
                }
                let path = c.path.clone();
                paths.push(path);
                assert(string_views(paths@) =~= old_paths.push(c@.path));
                assert(paths_of(after) =~= paths_of(before).push(c@.path));
                assert(signatures_of(after).drop_last() =~= signatures_of(before));
                assert(signatures_of(after).last() == c@.signature);
                sig = Signature {
                    has_index: sig.has_index || c.signature.has_index,
                    has_chat: sig.has_chat || c.signature.has_chat,
                    has_media: sig.has_media || c.signature.has_media,
                };
                let z = Self::has_zip_extension(c.name.as_str());
                proof {
                    if any_zip(before) {
                        let w = choose|i: int|
                            0 <= i < before.len() && is_zip_name((#[trigger] before[i]).name);
                        assert(after[w] == before[w]);
                    }
                    if z {
                        assert(after[before.len() as int] == c@);
                    }
                    if any_zip(after) {
                        let w = choose|i: int|
                            0 <= i < after.len() && is_zip_name((#[trigger] after[i]).name);
                        if w < before.len() {
                            assert(before[w] == after[w]);
                        }
                    }
                }
                zip = zip || z;
            }
            j += 1;
        }
        assert(all.take(cs@.len() as int) =~= all);
        let ghost members = members_of(all, key@);
        assert(paths_of(members).len() == members.len());
        let status = Self::validate(sig);
        if status == ValidationStatus::Unknown || paths.len() == 0 {
            return None;
        }
        let export = ExportSet {
            id: key.clone(),
            source_paths: paths,
            source_type: if zip {
                ExportSourceType::Zip
            } else {
                ExportSourceType::Folder
            },
            extraction_path: None,
            creation_date: created,
            validation_status: status,
        };
        assert(export.source_paths.deep_view() =~= paths_of(members));
        Some(export)
    }

    /// Groups the candidates into exports. The candidates are put in the
    /// order of their paths; those with the same group key form a group,
    /// the groups standing in the order in which their keys first occur;
    /// and each group in which a mark of an export was seen becomes an
    /// export with the group key as its id, the members' paths as its
    /// source paths, and the creation date of its first member.
    pub fn group_candidates(candidates: Vec<Candidate>) -> (r: Result<Vec<ExportSet>, AppError>)
        ensures
            r matches Ok(exports) && exists|sorted: Seq<CandidateView>|
                #[trigger] is_sorting(sorted, candidate_views(candidates@)) && export_views(
                    exports@,
                ) == detected(sorted),
    {
        let mut cs = candidates;
        sort_by_path(&mut cs);
        let ghost sorted = candidate_views(cs@);
        let mut keys: Vec<String> = Vec::new();
        let mut i: usize = 0;
        assert(sorted.take(0) =~= Seq::<CandidateView>::empty());
        assert(string_views(keys@) =~= Seq::<Seq<char>>::empty());
        let mut each: Vec<String> = Vec::new();
        while i < cs.len()
            invariant
                i <= cs@.len(),
                sorted == candidate_views(cs@),
                string_views(keys@) == keys_of(sorted.take(i as int)),
                each@.len() == i,
                forall|j: int|
                    0 <= j < i ==> (#[trigger] each@[j])@ == group_key_of(cs@[j]@.name),
            decreases cs@.len() - i,
        {
            let ghost upto = sorted.take(i + 1);
            let ghost sofar = string_views(keys@);
            assert(upto.drop_last() =~= sorted.take(i as int));
            assert(upto.last() == cs@[i as int]@);
            let k = Self::group_key(cs[i].name.as_str());
            if !Self::knows_key(&keys, k.as_str()) {
                keys.push(k.clone());
                assert(string_views(keys@) =~= sofar.push(k@));
            }
            each.push(k);
            i += 1;
        }
        assert(sorted.take(cs@.len() as int) =~= sorted);
        let mut exports: Vec<ExportSet> = Vec::new();
        let mut g: usize = 0;
        assert(string_views(keys@).take(0) =~= Seq::<Seq<char>>::empty());
        assert(export_views(exports@) =~= Seq::<ExportSetView>::empty());
        while g < keys.len()
            invariant
                g <= keys@.len(),
                sorted == candidate_views(cs@),
                each@.len() == cs@.len(),
                forall|j: int|
                    0 <= j < cs@.len() ==> (#[trigger] each@[j])@ == group_key_of(cs@[j]@.name),
                export_views(exports@) == exports_of(sorted, string_views(keys@).take(g as int)),
            decreases keys@.len() - g,
        {
            let ghost upto = string_views(keys@).take(g + 1);
            let ghost sofar = export_views(exports@);
            assert(upto.drop_last() =~= string_views(keys@).take(g as int));
            assert(upto.last() == keys@[g as int]@);
            match Self::export_for(&cs, &each, &keys[g]) {
                Some(e) => {
                    exports.push(e);
                    assert(export_views(exports@) =~= sofar.push(e@));
                },
                None => {},
            }
            g += 1;
        }
        assert(string_views(keys@).take(keys@.len() as int) =~= string_views(keys@));
        Ok(exports)
    }

    /// `exports` without those whose id occurred before: of several
    /// exports with one id the first stays.
    pub fn dedupe_exports(exports: Vec<ExportSet>) -> (r: Vec<ExportSet>)
        ensures
            export_views(r@) == first_of_each(export_views(exports@)),
    {
        let mut input = exports;
        let ghost all = export_views(input@);
        let n = input.len();
        let mut kept: Vec<ExportSet> = Vec::new();
        let mut ids: Vec<String> = Vec::new();
        let mut rest: Vec<ExportSet> = Vec::new();
        // the list is emptied from its end, so it is read back to front first
        while input.len() > 0
            invariant
                input@.len() + rest@.len() == n,
                n == all.len(),
                forall|k: int| 0 <= k < input@.len() ==> (#[trigger] input@[k])@ == all[k],
                forall|k: int|
                    0 <= k < rest@.len() ==> (#[trigger] rest@[k])@ == all[n - 1 - k],
            decreases input@.len(),
        {
            let e = input.pop().unwrap();
            rest.push(e);
        }
        let mut i: usize = 0;
        assert(all.take(0) =~= Seq::<ExportSetView>::empty());
        assert(export_views(kept@) =~= Seq::<ExportSetView>::empty());
        assert(string_views(ids@) =~= Seq::<Seq<char>>::empty());
        while rest.len() > 0
            invariant
                i + rest@.len() == n,
                n == all.len(),
                forall|k: int|
                    0 <= k < rest@.len() ==> (#[trigger] rest@[k])@ == all[n - 1 - k],
                export_views(kept@) == first_of_each(all.take(i as int)),
                string_views(ids@) == ids_of(first_of_each(all.take(i as int))),
            decreases rest@.len(),
        {
            let ghost upto = all.take(i + 1);
            let ghost sofar = export_views(kept@);
            let ghost sofar_ids = string_views(ids@);
            assert(upto.drop_last() =~= all.take(i as int));
            let e = rest.pop().unwrap();
            assert(e@ == all[i as int]);
            assert(upto.last() == e@);
            if !Self::knows_key(&ids, e.id.as_str()) {
                ids.push(e.id.clone());
                kept.push(e);
                assert(export_views(kept@) =~= sofar.push(e@));
                assert(string_views(ids@) =~= sofar_ids.push(e@.id));
                assert(ids_of(sofar.push(e@)) =~= ids_of(sofar).push(e@.id));
            }
            i += 1;
        }
        assert(all.take(n as int) =~= all);
        kept
    }

    /// An export must name at least one source path.
    pub fn check_export(export: &ExportSet) -> (r: Result<(), AppError>)
        ensures
            r is Ok <==> export.source_paths@.len() > 0,
            r matches Err(e) ==> e is Validation,
    {
        if export.source_paths.len() == 0 {
            Err(AppError::Validation("Export has no source path".to_owned()))
        } else {
            Ok(())
        }
    }
}

} // verus!
