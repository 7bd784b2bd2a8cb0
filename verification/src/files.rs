//! Descriptions of media files, and the list of them.

use crate::clock::{unix_seconds, whole_seconds, Span};
use crate::encoding::lemma_encoded_empty;
use crate::http::{AppError, ErrorView, NOT_FOUND};
use crate::media::{
    base64url_encoded, content_type, content_type_of, decode_media_path, encode_path, media_path_of_id, path_id,
    path_of_id, MediaPath,
};
use crate::path::{
    file_name, is_media, is_media_name, law_text_of_bytes, opt_utf8_text, path_file_name, text_of, utf8_text,
};
use crate::stats::Stats;
use crate::stream::{check_found, not_found, Found};
use crate::upload::Fault;
use vstd::prelude::*;
use vstd::utf8::encode_utf8;

verus! {

/// The description of a media file.
#[derive(Debug)]
pub struct MediaMeta {
    /// The name under which the file's path is known to clients.
    pub id: String,
    pub path: String,
    pub name: String,
    pub content_type: String,
    pub size: u64,
    /// When the file was last changed, in seconds since the Unix epoch.
    pub mtime: u64,
    pub stream_url: String,
}

/// What the file system says of a file: its size, and the time from the Unix
/// epoch to its last change, if that is known.
#[derive(Clone, Copy)]
pub struct FileStat {
    pub size: u64,
    pub modified: Option<Span>,
}

/// The name that a file is shown under.
pub open spec fn shown_name(path: Seq<u8>) -> Seq<char> {
    match opt_utf8_text(file_name(path)) {
        Some(name) => name,
        None => "media"@,
    }
}

impl MediaMeta {
    /// Is this the description of the file at a path, with the given name for
    /// the path, content type, size and time of the last change?
    pub open spec fn describes(
        &self,
        path: MediaPath,
        id: Seq<char>,
        content_type: Seq<char>,
        stat: FileStat,
    ) -> bool {
        &&& self.id@ == id
        &&& self.path@ == path.text()
        &&& self.name@ == shown_name(path.bytes())
        &&& self.content_type@ == content_type
        &&& self.size == stat.size
        &&& self.mtime == whole_seconds(stat.modified)
        &&& self.stream_url@ == "/api/stream/"@ + id
    }

    /// Describes the file at a path, with the given name for the path and
    /// content type.
    pub fn describe(path: &MediaPath, id: String, content_type: String, stat: FileStat) -> (r:
        MediaMeta)
        ensures
            r.describes(*path, id@, content_type@, stat),
    {
        let name = match path_file_name(path.as_bytes()) {
            Some(bytes) => match text_of(bytes) {
                Some(name) => name,
                None => "media".to_owned(),
            },
            None => "media".to_owned(),
        };
        let mut stream_url = "/api/stream/".to_owned();
        stream_url.append(id.as_str());
        MediaMeta {
            id,
            path: path.as_text().to_owned(),
            name,
            content_type,
            size: stat.size,
            mtime: unix_seconds(stat.modified),
            stream_url,
        }
    }

    fn copy(&self) -> (r: MediaMeta)
        ensures
            r == *self,
    {
        MediaMeta {
            id: self.id.clone(),
            path: self.path.clone(),
            name: self.name.clone(),
            content_type: self.content_type.clone(),
            size: self.size,
            mtime: self.mtime,
            stream_url: self.stream_url.clone(),
        }
    }
}

/// Is this the description of the file at a path? The path's name in it stands
/// for the path: a client that asks for the stream of a media file by that name
/// gets the file, if its path is text.
pub open spec fn is_media_meta(meta: MediaMeta, path: MediaPath, stat: FileStat) -> bool {
    &&& meta.describes(path, path_id(path.text()), content_type_of(path.bytes()), stat)
    &&& path.text().len() > 0 ==> path_of_id(meta.id@) == Ok::<Seq<char>, ErrorView>(path.text())
    &&& is_media(path.bytes()) && utf8_text(path.bytes()) is Some ==> {
        &&& media_path_of_id(meta.id@) == Ok::<Seq<char>, ErrorView>(path.text())
        &&& encode_utf8(path.text()) == path.bytes()
    }
}

/// Describes the file at a path. `None` is a file of which the file system says
/// nothing.
pub fn file_meta(path: &MediaPath, stat: Option<FileStat>) -> (r: Result<MediaMeta, AppError>)
    ensures
        match stat {
            Some(stat) => r matches Ok(meta) && is_media_meta(meta, *path, stat) && meta.size
                == stat.size && meta.path@ == path.text() && meta.id@ == base64url_encoded(
                encode_utf8(path.text()),
            ),
            None => r matches Err(e) && e@ == not_found(),
        },
{
    match stat {
        Some(stat) => {
            let text = path.as_text();
            proof {
                if is_media(path.bytes()) && utf8_text(path.bytes()) is Some {
                    vstd::utf8::decode_utf8_encode_utf8(path.bytes());
                    lemma_encoded_empty(path.text());
                }
            }
            let id = encode_path(text);
            let media_type = content_type(path.as_bytes());
            Ok(MediaMeta::describe(path, id, media_type, stat))
        },
        None => Err(AppError::new(NOT_FOUND, "media file not found")),
    }
}

/// Does one sequence of bytes come before another in the order of a dictionary?
pub open spec fn bytes_before(a: Seq<u8>, b: Seq<u8>) -> bool
    decreases a.len(),
{
    if b.len() == 0 {
        false
    } else if a.len() == 0 {
        true
    } else if a[0] != b[0] {
        a[0] < b[0]
    } else {
        bytes_before(a.drop_first(), b.drop_first())
    }
}

proof fn lemma_before_total(a: Seq<u8>, b: Seq<u8>)
    ensures
        bytes_before(a, b) || bytes_before(b, a) || a == b,
    decreases a.len(),
{
    if a.len() > 0 && b.len() > 0 && a[0] == b[0] {
        lemma_before_total(a.drop_first(), b.drop_first());
        if a.drop_first() == b.drop_first() {
            assert(a == seq![a[0]] + a.drop_first());
            assert(b == seq![b[0]] + b.drop_first());
        }
    } else if a.len() == 0 && b.len() == 0 {
        assert(a == b);
    }
}

proof fn lemma_before_irreflexive(a: Seq<u8>)
    ensures
        !bytes_before(a, a),
    decreases a.len(),
{
    if a.len() > 0 {
        lemma_before_irreflexive(a.drop_first());
    }
}

proof fn lemma_before_transitive(a: Seq<u8>, b: Seq<u8>, c: Seq<u8>)
    requires
        bytes_before(a, b),
        bytes_before(b, c),
    ensures
        bytes_before(a, c),
    decreases a.len(),
{
    if a.len() > 0 && a[0] == b[0] && b[0] == c[0] {
        lemma_before_transitive(a.drop_first(), b.drop_first(), c.drop_first());
    }
}

fn text_before(a: &str, b: &str) -> (r: bool)
    ensures
        r == bytes_before(encode_utf8(a@), encode_utf8(b@)),
{
    let x = a.as_bytes();
    let y = b.as_bytes();
    let mut i: usize = 0;
    proof {
        assert(x@.skip(0) == x@);
        assert(y@.skip(0) == y@);
    }
    while i < x.len() && i < y.len() && x[i] == y[i]
        invariant
            i <= x@.len(),
            i <= y@.len(),
            bytes_before(x@.skip(i as int), y@.skip(i as int)) == bytes_before(x@, y@),
        decreases x@.len() - i,
    {
        proof {
            assert(x@.skip(i as int).drop_first() == x@.skip(i + 1));
            assert(y@.skip(i as int).drop_first() == y@.skip(i + 1));
        }
        i = i + 1;
    }
    if i == y.len() {
        false
    } else if i == x.len() {
        true
    } else {
        x[i] < y[i]
    }
}

/// The texts of some strings.
pub open spec fn texts(strings: Seq<String>) -> Seq<Seq<char>> {
    strings.map_values(|s: String| s@)
}

/// The order of two entries of a list: by their keys, and by their places where
/// these are the same.
pub open spec fn entry_before(keys: Seq<Seq<char>>, i: usize, j: usize) -> bool {
    let a = encode_utf8(keys[i as int]);
    let b = encode_utf8(keys[j as int]);
    bytes_before(a, b) || (a == b && i < j)
}

/// The places from `lo` to `hi` of a list, in the order of its entries.
pub open spec fn is_sorted_run(keys: Seq<Seq<char>>, run: Seq<usize>, lo: int, hi: int) -> bool {
    &&& run.len() == hi - lo
    &&& forall|i: int| 0 <= i < run.len() ==> lo <= #[trigger] run[i] < hi
    &&& forall|i: int, j: int|
        0 <= i < j < run.len() ==> entry_before(keys, #[trigger] run[i], #[trigger] run[j])
}

proof fn lemma_entry_transitive(keys: Seq<Seq<char>>, i: usize, j: usize, k: usize)
    requires
        entry_before(keys, i, j),
        entry_before(keys, j, k),
    ensures
        entry_before(keys, i, k),
{
    let a = encode_utf8(keys[i as int]);
    let b = encode_utf8(keys[j as int]);
    let c = encode_utf8(keys[k as int]);
    if bytes_before(a, b) && bytes_before(b, c) {
        lemma_before_transitive(a, b, c);
    }
}

fn merge(keys: &Vec<String>, left: Vec<usize>, right: Vec<usize>, lo: usize, mid: usize, hi: usize)
    -> (r: Vec<usize>)
    requires
        lo <= mid <= hi <= keys@.len(),
        is_sorted_run(texts(keys@), left@, lo as int, mid as int),
        is_sorted_run(texts(keys@), right@, mid as int, hi as int),
    ensures
        is_sorted_run(texts(keys@), r@, lo as int, hi as int),
{
    let mut r: Vec<usize> = Vec::new();
    let mut i: usize = 0;
    let mut j: usize = 0;
    while i < left.len() || j < right.len()
        invariant
            lo <= mid <= hi <= keys@.len(),
            is_sorted_run(texts(keys@), left@, lo as int, mid as int),
            is_sorted_run(texts(keys@), right@, mid as int, hi as int),
            i <= left@.len(),
            j <= right@.len(),
            r@.len() == i + j,
            forall|k: int| 0 <= k < r@.len() ==> lo <= #[trigger] r@[k] < hi,
            forall|k: int, l: int|
                0 <= k < l < r@.len() ==> entry_before(texts(keys@), #[trigger] r@[k], #[trigger] r@[l]),
            forall|k: int, l: int|
                0 <= k < r@.len() && i <= l < left@.len() ==> entry_before(
                    texts(keys@),
                    #[trigger] r@[k],
                    #[trigger] left@[l],
                ),
            forall|k: int, l: int|
                0 <= k < r@.len() && j <= l < right@.len() ==> entry_before(
                    texts(keys@),
                    #[trigger] r@[k],
                    #[trigger] right@[l],
                ),
        decreases left@.len() - i + right@.len() - j,
    {
        let take_right: bool = i == left.len() || (j < right.len() && text_before(
            keys[right[j]].as_str(),
            keys[left[i]].as_str(),
        ));
        let ghost before = r@;
        if take_right {
            let x: usize = right[j];
            proof {
                assert forall|l: int| i <= l < left@.len() implies entry_before(
                    texts(keys@),
                    x,
                    #[trigger] left@[l],
                ) by {
                    if l > i {
                        lemma_entry_transitive(texts(keys@), x, left@[i as int], left@[l]);
                    }
                }
            }
            r.push(x);
            j = j + 1;
        } else {
            let x: usize = left[i];
            proof {
                assert forall|l: int| j <= l < right@.len() implies entry_before(
                    texts(keys@),
                    x,
                    #[trigger] right@[l],
                ) by {
                    lemma_before_total(
                        encode_utf8(keys@[x as int]@),
                        encode_utf8(keys@[right@[j as int] as int]@),
                    );
                    if l > j {
                        lemma_entry_transitive(texts(keys@), x, right@[j as int], right@[l]);
                    }
                }
            }
            r.push(x);
            i = i + 1;
        }
    }
    r
}

fn sort_run(keys: &Vec<String>, lo: usize, hi: usize) -> (r: Vec<usize>)
    requires
        lo <= hi <= keys@.len(),
    ensures
        is_sorted_run(texts(keys@), r@, lo as int, hi as int),
    decreases hi - lo,
{
    if hi - lo <= 1 {
        let mut r: Vec<usize> = Vec::new();
        if lo < hi {
            r.push(lo);
        }
        return r;
    }
    let mid: usize = lo + (hi - lo) / 2;
    let left = sort_run(keys, lo, mid);
    let right = sort_run(keys, mid, hi);
    merge(keys, left, right, lo, mid, hi)
}

/// Are these the given files in the order of their keys, files with the same
/// key in the order in which they came?
pub open spec fn is_sorted_list(files: Seq<MediaMeta>, keys: Seq<Seq<char>>, r: Seq<MediaMeta>) -> bool {
    exists|order: Seq<usize>| #[trigger]
        is_sorted_run(keys, order, 0, keys.len() as int) && r.len() == order.len() && forall|i: int|
            0 <= i < r.len() ==> #[trigger] r[i] == files[order[i] as int]
}

/// Sorts files by the given keys.
pub fn sort_by_keys(files: &Vec<MediaMeta>, keys: &Vec<String>) -> (r: Vec<MediaMeta>)
    requires
        files@.len() == keys@.len(),
    ensures
        is_sorted_list(files@, texts(keys@), r@),
{
    let order = sort_run(keys, 0, keys.len());
    let mut r: Vec<MediaMeta> = Vec::new();
    let mut i: usize = 0;
    while i < order.len()
        invariant
            files@.len() == keys@.len(),
            is_sorted_run(texts(keys@), order@, 0, keys@.len() as int),
            i <= order@.len(),
            r@.len() == i,
            forall|k: int| 0 <= k < i ==> #[trigger] r@[k] == files@[order@[k] as int],
        decreases order@.len() - i,
    {
        r.push(files[order[i]].copy());
        i = i + 1;
    }
    proof {
        assert(is_sorted_run(texts(keys@), order@, 0, texts(keys@).len() as int));
    }
    r
}

/// A text in lower case.
pub uninterp spec fn lowercase(s: Seq<char>) -> Seq<char>;

/// `str::to_lowercase` gives the lower case of a text as Unicode defines it.
pub assume_specification[ str::to_lowercase ](s: &str) -> (r: String)
    ensures
        r@ == lowercase(s@),
;

/// The keys by which files are listed: their names in lower case.
pub open spec fn name_keys(files: Seq<MediaMeta>) -> Seq<Seq<char>> {
    files.map_values(|f: MediaMeta| lowercase(f.name@))
}

/// Puts files in the order in which they are listed: by their names, whatever
/// the case of these.
pub fn sort_files(files: Vec<MediaMeta>) -> (r: Vec<MediaMeta>)
    ensures
        is_sorted_list(files@, name_keys(files@), r@),
{
    let mut keys: Vec<String> = Vec::new();
    let mut i: usize = 0;
    while i < files.len()
        invariant
            i <= files@.len(),
            keys@.len() == i,
            forall|k: int| 0 <= k < i ==> (#[trigger] keys@[k])@ == lowercase(files@[k].name@),
        decreases files@.len() - i,
    {
        keys.push(files[i].name.as_str().to_lowercase());
        i = i + 1;
    }
    proof {
        assert(texts(keys@) == name_keys(files@));
    }
    sort_by_keys(&files, &keys)
}

/// A sorted list is as long as what was sorted, has each of the files, and has
/// no other.
pub proof fn law_list_keeps_files(
    files: Seq<MediaMeta>,
    keys: Seq<Seq<char>>,
    r: Seq<MediaMeta>,
    n: int,
)
    requires
        keys.len() == files.len(),
        is_sorted_list(files, keys, r),
        0 <= n < files.len(),
    ensures
        r.len() == files.len(),
        r.contains(files[n]),
        files.contains(r[n]),
{
    let order = choose|order: Seq<usize>| #[trigger]
        is_sorted_run(keys, order, 0, keys.len() as int) && r.len() == order.len() && forall|i: int|
            0 <= i < r.len() ==> #[trigger] r[i] == files[order[i] as int];
    let places = order.map_values(|x: usize| x as int);
    let all = vstd::set_lib::set_int_range(0, files.len() as int);
    vstd::set_lib::lemma_int_range(0, files.len() as int);
    assert forall|i: int, j: int|
        0 <= i < places.len() && 0 <= j < places.len() && i != j implies places[i] != places[j] by {
        if i < j {
            assert(entry_before(keys, order[i], order[j]));
            lemma_before_irreflexive(encode_utf8(keys[places[i]]));
        } else {
            assert(entry_before(keys, order[j], order[i]));
            lemma_before_irreflexive(encode_utf8(keys[places[j]]));
        }
    }
    places.unique_seq_to_set();
    assert forall|x: int| places.to_set().contains(x) implies all.contains(x) by {
        let i = choose|i: int| 0 <= i < places.len() && places[i] == x;
        assert(0 <= order[i] < files.len());
    }
    vstd::set_lib::lemma_subset_equality(places.to_set(), all);
    assert(all.contains(n));
    assert(places.to_set().contains(n));
    let i = choose|i: int| 0 <= i < places.len() && places[i] == n;
    assert(r[i] == files[n]);
    assert(r[n] == files[order[n] as int]);
}

/// An entry of the directory of uploads, and what the file system says of it.
pub struct DirEntry {
    pub path: MediaPath,
    pub is_file: bool,
    pub stat: Option<FileStat>,
}

impl DirEntry {
    /// Is the entry listed? A regular file is if it has the extension of a
    /// media file and can be described.
    pub open spec fn is_listed(&self) -> bool {
        self.is_file && is_media(self.path.bytes()) && self.stat is Some
    }

    /// Is this the description of the entry?
    pub open spec fn is_described_by(&self, meta: MediaMeta) -> bool {
        meta.describes(
            self.path,
            path_id(self.path.text()),
            content_type_of(self.path.bytes()),
            self.stat->0,
        )
    }
}

/// The entries of a directory that are listed.
pub open spec fn listed_entries(entries: Seq<DirEntry>) -> Seq<DirEntry> {
    entries.filter(|e: DirEntry| e.is_listed())
}

/// Are these the descriptions of the entries, one by one?
pub open spec fn describe_all(files: Seq<MediaMeta>, entries: Seq<DirEntry>) -> bool {
    &&& files.len() == entries.len()
    &&& forall|i: int| 0 <= i < files.len() ==> #[trigger] entries[i].is_described_by(files[i])
}

/// Is this the list of the media files in a directory: the description of each
/// entry that is listed, by name, whatever the case?
pub open spec fn is_file_list(entries: Seq<DirEntry>, r: Seq<MediaMeta>) -> bool {
    exists|files: Seq<MediaMeta>| #[trigger]
        describe_all(files, listed_entries(entries)) && is_sorted_list(files, name_keys(files), r)
}

/// Lists the media files among the entries of a directory.
pub fn list_files(entries: &Vec<DirEntry>) -> (r: Vec<MediaMeta>)
    ensures
        is_file_list(entries@, r@),
        r@.len() == entries@.filter(
            |e: DirEntry| e.is_file && is_media(e.path.bytes()) && e.stat is Some,
        ).len(),
{
    let mut files: Vec<MediaMeta> = Vec::new();
    let mut i: usize = 0;
    proof {
        reveal(Seq::filter);
    }
    while i < entries.len()
        invariant
            i <= entries@.len(),
            describe_all(files@, listed_entries(entries@.take(i as int))),
        decreases entries@.len() - i,
    {
        let entry = &entries[i];
        proof {
            reveal(Seq::filter);
            assert(entries@.take(i + 1).drop_last() == entries@.take(i as int));
        }
        if entry.is_file && is_media_name(entry.path.as_bytes()) && entry.stat.is_some() {
            match file_meta(&entry.path, entry.stat) {
                Ok(meta) => {
                    files.push(meta);
                },
                Err(_) => {},
            }
        }
        i = i + 1;
    }
    proof {
        assert(entries@.take(i as int) == entries@);
    }
    let r = sort_files(files);
    proof {
        assert(is_file_list(entries@, r@));
        law_list_length(entries@, r@);
    }
    r
}

/// What came of reading the directory of uploads.
pub enum Listing {
    /// The directory could not be opened.
    Missing,
    /// The directory could not be read to its end.
    Unreadable,
    /// The directory has these entries.
    Entries(Vec<DirEntry>),
}

/// A request for the list of files that was counted.
pub struct ListRequest(());

/// Takes a request for the list of files, which is counted whatever comes of it.
pub fn admit_list(stats: &mut Stats) -> (r: ListRequest)
    ensures
        *final(stats) == old(stats).listed(),
{
    stats.count_file_list();
    ListRequest(())
}

impl ListRequest {
    /// Answers when the directory was read.
    pub fn answered(self, listing: Listing) -> (r: Result<Vec<MediaMeta>, AppError>)
        ensures
            match listing {
                Listing::Missing => r matches Err(e) && e@ == Fault::UploadDirMissing.answer(),
                Listing::Unreadable => r matches Err(e) && e@
                    == Fault::UploadDirUnreadable.answer(),
                Listing::Entries(entries) => r matches Ok(files) && is_file_list(entries@, files@),
            },
    {
        match listing {
            Listing::Missing => Err(Fault::UploadDirMissing.error()),
            Listing::Unreadable => Err(Fault::UploadDirUnreadable.error()),
            Listing::Entries(entries) => Ok(list_files(&entries)),
        }
    }
}

/// A request for the description of a media file whose path is to be looked up.
pub struct MetaRequest {
    /// The path as the client gave it.
    pub path: String,
}

/// Takes a request for the description of a media file and reads the path in
/// it. The request is counted whatever comes of it.
pub fn admit_meta(stats: &mut Stats, encoded_path: &str) -> (r: Result<MetaRequest, AppError>)
    ensures
        *final(stats) == old(stats).described(),
        match media_path_of_id(encoded_path@) {
            Ok(path) => r matches Ok(request) && request.path@ == path,
            Err(error) => r matches Err(e) && e@ == error,
        },
{
    stats.count_meta();
    match decode_media_path(encoded_path) {
        Ok(path) => Ok(MetaRequest { path }),
        Err(e) => Err(e),
    }
}

impl MetaRequest {
    /// Answers when the path was looked up and the file system was asked about
    /// the file there: a regular file of which it says something is described.
    pub fn answered(self, found: Option<Found>, stat: Option<FileStat>) -> (r: Result<
        MediaMeta,
        AppError,
    >)
        ensures
            match (found, stat) {
                (Some(f), Some(stat)) if f.is_file => r matches Ok(meta) && is_media_meta(
                    meta,
                    f.path,
                    stat,
                ),
                _ => r matches Err(e) && e@ == not_found(),
            },
    {
        match check_found(found) {
            Ok(path) => file_meta(&path, stat),
            Err(e) => Err(e),
        }
    }
}

proof fn lemma_entry_is_listed(entries: Seq<DirEntry>, files: Seq<MediaMeta>, r: Seq<MediaMeta>, i: int)
    requires
        describe_all(files, listed_entries(entries)),
        is_sorted_list(files, name_keys(files), r),
        0 <= i < entries.len(),
        entries[i].is_listed(),
    ensures
        exists|j: int| 0 <= j < r.len() && entries[i].is_described_by(#[trigger] r[j]),
{
    let kept = listed_entries(entries);
    entries.lemma_filter_contains(|e: DirEntry| e.is_listed(), i);
    let k = choose|k: int| 0 <= k < kept.len() && kept[k] == entries[i];
    assert(kept[k].is_described_by(files[k]));
    law_list_keeps_files(files, name_keys(files), r, k);
    let j = choose|j: int| 0 <= j < r.len() && r[j] == files[k];
    assert(entries[i].is_described_by(r[j]));
}

proof fn lemma_listed_is_entry(entries: Seq<DirEntry>, files: Seq<MediaMeta>, r: Seq<MediaMeta>, j: int)
    requires
        describe_all(files, listed_entries(entries)),
        is_sorted_list(files, name_keys(files), r),
        0 <= j < files.len(),
    ensures
        exists|i: int|
            0 <= i < entries.len() && entries[i].is_listed() && (#[trigger]
            entries[i]).is_described_by(r[j]),
{
    let kept = listed_entries(entries);
    let listed = |e: DirEntry| e.is_listed();
    law_list_keeps_files(files, name_keys(files), r, j);
    let k = choose|k: int| 0 <= k < files.len() && files[k] == r[j];
    assert(kept[k].is_described_by(files[k]));
    entries.lemma_filter_pred(listed, k);
    assert(kept.contains(kept[k]));
    entries.lemma_filter_contains_rev(listed, kept[k]);
    let i = choose|i: int| 0 <= i < entries.len() && entries[i] == kept[k];
    assert(entries[i].is_described_by(r[j]));
}

/// Each media file in a directory is in the list of them, and each one in the
/// list is in the directory.
pub proof fn law_list_is_complete(entries: Seq<DirEntry>, r: Seq<MediaMeta>)
    requires
        is_file_list(entries, r),
    ensures
        r.len() == listed_entries(entries).len(),
        forall|i: int|
            0 <= i < entries.len() && #[trigger] entries[i].is_listed() ==> exists|j: int|
                0 <= j < r.len() && entries[i].is_described_by(#[trigger] r[j]),
        forall|j: int|
            0 <= j < r.len() ==> exists|i: int|
                0 <= i < entries.len() && entries[i].is_listed() && (#[trigger]
                entries[i]).is_described_by(#[trigger] r[j]),
{
    let files = choose|files: Seq<MediaMeta>| #[trigger]
        describe_all(files, listed_entries(entries)) && is_sorted_list(files, name_keys(files), r);
    if files.len() > 0 {
        law_list_keeps_files(files, name_keys(files), r, 0);
    }
    assert forall|i: int| 0 <= i < entries.len() && #[trigger] entries[i].is_listed() implies exists|
        j: int,
    | 0 <= j < r.len() && entries[i].is_described_by(#[trigger] r[j]) by {
        lemma_entry_is_listed(entries, files, r, i);
    }
    assert forall|j: int| 0 <= j < r.len() implies exists|i: int|
        0 <= i < entries.len() && entries[i].is_listed() && (#[trigger]
        entries[i]).is_described_by(#[trigger] r[j]) by {
        lemma_listed_is_entry(entries, files, r, j);
    }
}

/// The description of a file says what the file system says of it: its size as it
/// is, and the whole seconds of its last change. Its name is the last component
/// of its path, its type goes by its path, and the name of the path is the
/// base64url text of it, also in the address of the stream.
pub proof fn law_description(meta: MediaMeta, path: MediaPath, stat: FileStat, name: Seq<char>)
    requires
        is_media_meta(meta, path, stat),
    ensures
        meta.size == stat.size,
        stat.modified matches Some(span) ==> meta.mtime == span.secs,
        stat.modified is None ==> meta.mtime == 0,
        meta.path@ == path.text(),
        meta.id@ == base64url_encoded(encode_utf8(path.text())),
        meta.stream_url@ == "/api/stream/"@ + meta.id@,
        meta.content_type@ == content_type_of(path.bytes()),
        file_name(path.bytes()) == Some(encode_utf8(name)) ==> meta.name@ == name,
        file_name(path.bytes()) is None ==> meta.name@ == "media"@,
        file_name(path.bytes()) matches Some(n) && utf8_text(n) is None ==> meta.name@ == "media"@,
{
    law_text_of_bytes(encode_utf8(name), name);
}

/// The order of bytes is that of a dictionary: a common start does not matter, the
/// first byte that differs decides, and what ends first comes first.
pub proof fn law_dictionary_order(start: Seq<u8>, a: Seq<u8>, b: Seq<u8>)
    ensures
        bytes_before(start + a, start + b) == bytes_before(a, b),
        a.len() > 0 && b.len() > 0 && a[0] != b[0] ==> bytes_before(a, b) == (a[0] < b[0]),
        a.len() == 0 ==> bytes_before(a, b) == (b.len() > 0),
        b.len() == 0 ==> !bytes_before(a, b),
    decreases start.len(),
{
    if start.len() > 0 {
        let rest = start.drop_first();
        law_dictionary_order(rest, a, b);
        assert((start + a).drop_first() == rest + a);
        assert((start + b).drop_first() == rest + b);
    } else {
        assert(start + a == a);
        assert(start + b == b);
    }
}

/// Files that are sorted by keys are in the order of these, and where they are the
/// same in the order in which the files came. Each file is there exactly once.
pub proof fn law_sorted_by_keys(files: Seq<MediaMeta>, keys: Seq<Seq<char>>, r: Seq<MediaMeta>)
    requires
        keys.len() == files.len(),
        is_sorted_list(files, keys, r),
    ensures
        r.len() == files.len(),
        exists|order: Seq<usize>|
            {
                &&& #[trigger] order.len() == files.len()
                &&& forall|i: int|
                    0 <= i < order.len() ==> 0 <= #[trigger] order[i] < files.len() && r[i]
                        == files[order[i] as int]
                &&& forall|i: int, j: int|
                    0 <= i < j < order.len() ==> {
                        let a = encode_utf8(keys[#[trigger] order[i] as int]);
                        let b = encode_utf8(keys[#[trigger] order[j] as int]);
                        bytes_before(a, b) || (a == b && order[i] < order[j])
                    }
            },
{
    let order = choose|order: Seq<usize>| #[trigger]
        is_sorted_run(keys, order, 0, keys.len() as int) && r.len() == order.len() && forall|i: int|
            0 <= i < r.len() ==> #[trigger] r[i] == files[order[i] as int];
    assert forall|i: int| 0 <= i < order.len() implies 0 <= #[trigger] order[i] < files.len() && r[i]
        == files[order[i] as int] by {
        assert(r[i] == files[order[i] as int]);
    }
    assert forall|i: int, j: int| 0 <= i < j < order.len() implies {
        let a = encode_utf8(keys[#[trigger] order[i] as int]);
        let b = encode_utf8(keys[#[trigger] order[j] as int]);
        bytes_before(a, b) || (a == b && order[i] < order[j])
    } by {
        assert(entry_before(keys, order[i], order[j]));
    }
}

/// A list is in the order of its names in lower case.
pub proof fn law_list_order(files: Seq<MediaMeta>, r: Seq<MediaMeta>)
    requires
        is_sorted_list(files, name_keys(files), r),
    ensures
        r.len() == files.len(),
        forall|i: int, j: int|
            0 <= i < j < r.len() ==> !bytes_before(
                encode_utf8(lowercase((#[trigger] r[j]).name@)),
                encode_utf8(lowercase((#[trigger] r[i]).name@)),
            ),
{
    let keys = name_keys(files);
    law_sorted_by_keys(files, keys, r);
    let order = choose|order: Seq<usize>| #[trigger]
        is_sorted_run(keys, order, 0, keys.len() as int) && r.len() == order.len() && forall|i: int|
            0 <= i < r.len() ==> #[trigger] r[i] == files[order[i] as int];
    assert forall|i: int, j: int| 0 <= i < j < r.len() implies !bytes_before(
        encode_utf8(lowercase((#[trigger] r[j]).name@)),
        encode_utf8(lowercase((#[trigger] r[i]).name@)),
    ) by {
        let a = encode_utf8(keys[order[i] as int]);
        let b = encode_utf8(keys[order[j] as int]);
        assert(entry_before(keys, order[i], order[j]));
        assert(r[i] == files[order[i] as int] && r[j] == files[order[j] as int]);
        lemma_before_irreflexive(a);
        if bytes_before(a, b) && bytes_before(b, a) {
            lemma_before_transitive(a, b, a);
        }
    }
}

/// The keys by which files are sorted are the texts as they are, and the keys by
/// which they are listed their names in lower case.
pub proof fn law_keys(strings: Seq<String>, files: Seq<MediaMeta>, i: int)
    ensures
        texts(strings).len() == strings.len(),
        0 <= i < strings.len() ==> texts(strings)[i] == strings[i]@,
        name_keys(files).len() == files.len(),
        0 <= i < files.len() ==> name_keys(files)[i] == lowercase(files[i].name@),
{
}

proof fn lemma_listed_entries(entries: Seq<DirEntry>)
    ensures
        listed_entries(entries) == entries.filter(
            |e: DirEntry| e.is_file && is_media(e.path.bytes()) && e.stat is Some,
        ),
{
    let listed = |e: DirEntry| e.is_listed();
    let inline = |e: DirEntry| e.is_file && is_media(e.path.bytes()) && e.stat is Some;
    assert(listed =~= inline);
}

/// The list has as many descriptions as there are regular files with the extension
/// of a media file of which the file system says something.
pub proof fn law_list_length(entries: Seq<DirEntry>, r: Seq<MediaMeta>)
    requires
        is_file_list(entries, r),
    ensures
        r.len() == entries.filter(
            |e: DirEntry| e.is_file && is_media(e.path.bytes()) && e.stat is Some,
        ).len(),
{
    lemma_listed_entries(entries);
    let files = choose|files: Seq<MediaMeta>| #[trigger]
        describe_all(files, listed_entries(entries)) && is_sorted_list(files, name_keys(files), r);
    law_list_order(files, r);
}

/// Every regular file with the extension of a media file of which the file system
/// says something is listed, with its path and its size as they are, whatever
/// these are.
pub proof fn law_media_file_is_listed(entries: Seq<DirEntry>, r: Seq<MediaMeta>, i: int)
    requires
        is_file_list(entries, r),
        0 <= i < entries.len(),
        entries[i].is_file,
        is_media(entries[i].path.bytes()),
        entries[i].stat is Some,
    ensures
        exists|j: int|
            {
                &&& 0 <= j < r.len()
                &&& (#[trigger] r[j]).path@ == entries[i].path.text()
                &&& r[j].size == entries[i].stat->0.size
                &&& r[j].describes(
                    entries[i].path,
                    base64url_encoded(encode_utf8(entries[i].path.text())),
                    content_type_of(entries[i].path.bytes()),
                    entries[i].stat->0,
                )
            },
{
    let files = choose|files: Seq<MediaMeta>| #[trigger]
        describe_all(files, listed_entries(entries)) && is_sorted_list(files, name_keys(files), r);
    lemma_entry_is_listed(entries, files, r, i);
    let j = choose|j: int| 0 <= j < r.len() && entries[i].is_described_by(#[trigger] r[j]);
    assert(r[j].path@ == entries[i].path.text());
}

/// What is listed is a regular file with the extension of a media file.
pub proof fn law_listed_is_media_file(entries: Seq<DirEntry>, r: Seq<MediaMeta>, j: int)
    requires
        is_file_list(entries, r),
        0 <= j < r.len(),
    ensures
        exists|i: int|
            {
                &&& 0 <= i < entries.len()
                &&& (#[trigger] entries[i]).is_file && is_media(entries[i].path.bytes())
                    && entries[i].stat is Some
                &&& r[j].path@ == entries[i].path.text()
                &&& r[j].size == entries[i].stat->0.size
                &&& r[j].describes(
                    entries[i].path,
                    base64url_encoded(encode_utf8(entries[i].path.text())),
                    content_type_of(entries[i].path.bytes()),
                    entries[i].stat->0,
                )
            },
{
    let files = choose|files: Seq<MediaMeta>| #[trigger]
        describe_all(files, listed_entries(entries)) && is_sorted_list(files, name_keys(files), r);
    law_list_order(files, r);
    lemma_listed_is_entry(entries, files, r, j);
    let i = choose|i: int|
        0 <= i < entries.len() && entries[i].is_listed() && (#[trigger]
        entries[i]).is_described_by(r[j]);
    assert(entries[i].is_file);
}

} // verus!
