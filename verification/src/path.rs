//! File paths, as the bytes that the operating system has for them, and the
//! media types that the service streams.
//!
//! A path's components stand between slashes; empty ones and a single full
//! stop after a slash do not count.

use crate::text::chars_of;
use vstd::prelude::*;
use vstd::slice::{slice_subrange, slice_to_vec};
use vstd::utf8::{decode_utf8, encode_utf8, valid_utf8};

verus! {

/// The path without what does not count at its end: slashes, and full stops
/// that follow a slash.
pub open spec fn trimmed_path(p: Seq<u8>) -> Seq<u8>
    decreases p.len(),
{
    if p.len() > 0 && (p.last() == 47 || (p.len() > 1 && p.last() == 46 && p[p.len() - 2] == 47)) {
        trimmed_path(p.drop_last())
    } else {
        p
    }
}

/// What follows the last slash.
pub open spec fn last_segment(p: Seq<u8>) -> Seq<u8>
    decreases p.len(),
{
    if p.len() == 0 || p.last() == 47 {
        Seq::empty()
    } else {
        last_segment(p.drop_last()).push(p.last())
    }
}

/// The name of the file that a path leads to: its last component, unless that
/// is the root, the current or the parent directory.
pub open spec fn file_name(p: Seq<u8>) -> Option<Seq<u8>> {
    let name = last_segment(trimmed_path(p));
    if name.len() == 0 || name == seq![46u8] || name == seq![46u8, 46u8] {
        None
    } else {
        Some(name)
    }
}

/// The position of the last full stop, or -1 if there is none.
pub open spec fn last_dot(name: Seq<u8>) -> int
    decreases name.len(),
{
    if name.len() == 0 {
        -1
    } else if name.last() == 46 {
        name.len() - 1
    } else {
        last_dot(name.drop_last())
    }
}

/// The extension of a path's file name: what follows its last full stop, if
/// there is one that is not the name's first character.
pub open spec fn extension(p: Seq<u8>) -> Option<Seq<u8>> {
    match file_name(p) {
        Some(name) => if last_dot(name) > 0 {
            Some(name.skip(last_dot(name) + 1))
        } else {
            None
        },
        None => None,
    }
}

/// The file name of a path without its extension and the full stop before it.
pub open spec fn file_stem(p: Seq<u8>) -> Option<Seq<u8>> {
    match file_name(p) {
        Some(name) => if last_dot(name) > 0 {
            Some(name.take(last_dot(name)))
        } else {
            Some(name)
        },
        None => None,
    }
}

/// The text that the bytes encode in UTF-8, if they do.
pub open spec fn utf8_text(bytes: Seq<u8>) -> Option<Seq<char>> {
    if valid_utf8(bytes) {
        Some(decode_utf8(bytes))
    } else {
        None
    }
}

/// The text of optional bytes, if there are any and they encode one.
pub open spec fn opt_utf8_text(bytes: Option<Seq<u8>>) -> Option<Seq<char>> {
    match bytes {
        Some(b) => utf8_text(b),
        None => None,
    }
}

/// The error of `String::from_utf8`.
#[verifier::external_type_specification]
#[verifier::external_body]
pub struct ExFromUtf8Error(std::string::FromUtf8Error);

/// `String::from_utf8` gives the text that the bytes encode, and an error
/// exactly when they are not valid UTF-8.
pub assume_specification[ String::from_utf8 ](vec: Vec<u8>) -> (r: Result<
    String,
    std::string::FromUtf8Error,
>)
    ensures
        match r {
            Ok(s) => utf8_text(vec@) == Some(s@),
            Err(_) => utf8_text(vec@) is None,
        },
;

/// Reads bytes as text.
pub fn text_of(bytes: &[u8]) -> (r: Option<String>)
    ensures
        match r {
            Some(s) => utf8_text(bytes@) == Some(s@),
            None => utf8_text(bytes@) is None,
        },
{
    match String::from_utf8(slice_to_vec(bytes)) {
        Ok(s) => Some(s),
        Err(_) => None,
    }
}

/// Finds the file name in a path.
pub fn path_file_name(p: &[u8]) -> (r: Option<&[u8]>)
    ensures
        match r {
            Some(name) => file_name(p@) == Some(name@),
            None => file_name(p@) is None,
        },
{
    let mut hi: usize = p.len();
    proof {
        assert(p@.take(hi as int) == p@);
    }
    while hi > 0 && (p[hi - 1] == 47 || (hi > 1 && p[hi - 1] == 46 && p[hi - 2] == 47))
        invariant
            hi <= p@.len(),
            trimmed_path(p@.take(hi as int)) == trimmed_path(p@),
        decreases hi,
    {
        proof {
            assert(p@.take(hi as int).drop_last() == p@.take(hi - 1));
        }
        hi = hi - 1;
    }
    let mut lo: usize = hi;
    let ghost t = trimmed_path(p@);
    proof {
        assert(t == p@.take(hi as int));
        assert(t.take(hi as int) == t);
        assert(t.skip(hi as int) == Seq::<u8>::empty());
        assert(last_segment(t.take(lo as int)) + t.skip(lo as int) == last_segment(t));
    }
    while lo > 0 && p[lo - 1] != 47
        invariant
            lo <= hi <= p@.len(),
            t == p@.take(hi as int),
            t == trimmed_path(p@),
            last_segment(t.take(lo as int)) + t.skip(lo as int) == last_segment(t),
        decreases lo,
    {
        proof {
            let s = t.take(lo as int);
            assert(s.drop_last() == t.take(lo - 1));
            assert(last_segment(s.drop_last()).push(s.last()) + t.skip(lo as int)
                == last_segment(s.drop_last()) + t.skip(lo - 1));
        }
        lo = lo - 1;
    }
    let name = slice_subrange(p, lo, hi);
    proof {
        assert(last_segment(t.take(lo as int)) == Seq::<u8>::empty());
        assert(t.skip(lo as int) == name@);
        assert(Seq::<u8>::empty() + name@ == name@);
        assert(name@.len() == 1 && name@[0] == 46 ==> name@ == seq![46u8]);
        assert(name@.len() == 2 && name@[0] == 46 && name@[1] == 46 ==> name@ == seq![46u8, 46u8]);
    }
    if name.len() == 0 || (name.len() == 1 && name[0] == 46) || (name.len() == 2 && name[0] == 46
        && name[1] == 46) {
        None
    } else {
        Some(name)
    }
}

/// Where a file name's extension starts: the position of its last full stop,
/// or zero if that is the first character or there is none.
fn split_point(name: &[u8]) -> (r: usize)
    ensures
        r == (if last_dot(name@) > 0 {
            last_dot(name@)
        } else {
            0
        }),
        r < name@.len() || r == 0,
{
    let mut i: usize = name.len();
    proof {
        assert(name@.take(i as int) == name@);
    }
    while i > 0 && name[i - 1] != 46
        invariant
            i <= name@.len(),
            last_dot(name@.take(i as int)) == last_dot(name@),
        decreases i,
    {
        proof {
            assert(name@.take(i as int).drop_last() == name@.take(i - 1));
        }
        i = i - 1;
    }
    if i == 0 {
        0
    } else {
        i - 1
    }
}

/// Finds the extension in a path.
pub fn path_extension(p: &[u8]) -> (r: Option<&[u8]>)
    ensures
        match r {
            Some(e) => extension(p@) == Some(e@),
            None => extension(p@) is None,
        },
{
    match path_file_name(p) {
        Some(name) => {
            let dot: usize = split_point(name);
            if dot > 0 {
                let len: usize = name.len();
                let e = slice_subrange(name, dot + 1, len);
                proof {
                    assert(e@ == name@.skip(dot + 1));
                }
                Some(e)
            } else {
                None
            }
        },
        None => None,
    }
}

/// Finds the file name without its extension in a path.
pub fn path_file_stem(p: &[u8]) -> (r: Option<&[u8]>)
    ensures
        match r {
            Some(s) => file_stem(p@) == Some(s@),
            None => file_stem(p@) is None,
        },
{
    match path_file_name(p) {
        Some(name) => {
            let dot: usize = split_point(name);
            if dot > 0 {
                let s = slice_subrange(name, 0, dot);
                proof {
                    assert(s@ == name@.take(dot as int));
                }
                Some(s)
            } else {
                Some(name)
            }
        },
        None => None,
    }
}

/// The extensions of the media files that the service streams.
pub open spec fn media_extension_list() -> Seq<Seq<char>> {
    seq![
        "aac"@,
        "flac"@,
        "m4a"@,
        "mp3"@,
        "ogg"@,
        "opus"@,
        "wav"@,
        "webm"@,
        "m4v"@,
        "mkv"@,
        "mov"@,
        "mp4"@,
    ]
}

/// The extensions of the media files that the service streams.
pub fn media_extensions() -> (r: Vec<&'static str>)
    ensures
        r@.map_values(|s: &str| s@) == media_extension_list(),
{
    vec!["aac", "flac", "m4a", "mp3", "ogg", "opus", "wav", "webm", "m4v", "mkv", "mov", "mp4"]
}

/// A byte as a character, in lower case if it is an ASCII letter.
pub open spec fn lower_char(b: u8) -> char {
    if 65 <= b <= 90 {
        (b + 32) as char
    } else {
        b as char
    }
}

/// Bytes as characters, with ASCII letters in lower case.
pub open spec fn lower_text(bytes: Seq<u8>) -> Seq<char> {
    bytes.map_values(|b: u8| lower_char(b))
}

/// Does the path have the extension of a media file, in either case?
pub open spec fn is_media(p: Seq<u8>) -> bool {
    extension(p) matches Some(e) && media_extension_list().contains(lower_text(e))
}

fn same_ignoring_case(bytes: &[u8], name: &str) -> (r: bool)
    ensures
        r == (lower_text(bytes@) == name@),
{
    let chars = chars_of(name);
    if bytes.len() != chars.len() {
        proof {
            assert(lower_text(bytes@).len() == bytes@.len());
        }
        return false;
    }
    let mut i: usize = 0;
    while i < bytes.len()
        invariant
            i <= bytes@.len() == chars@.len(),
            chars@ == name@,
            forall|j: int| 0 <= j < i ==> lower_char(bytes@[j]) == chars@[j],
        decreases bytes@.len() - i,
    {
        let b: u8 = bytes[i];
        let c: char = if 65 <= b && b <= 90 {
            (b + 32) as char
        } else {
            b as char
        };
        if c != chars[i] {
            proof {
                assert(lower_text(bytes@)[i as int] != name@[i as int]);
            }
            return false;
        }
        i = i + 1;
    }
    proof {
        assert(lower_text(bytes@) == name@);
    }
    true
}

/// Does the path have the extension of a media file?
pub fn is_media_name(path: &[u8]) -> (r: bool)
    ensures
        r == is_media(path@),
{
    let ext = match path_extension(path) {
        Some(ext) => ext,
        None => {
            return false;
        },
    };
    let list = media_extensions();
    let ghost texts = media_extension_list();
    let mut i: usize = 0;
    while i < list.len()
        invariant
            i <= list@.len(),
            list@.map_values(|s: &str| s@) == texts,
            texts == media_extension_list(),
            extension(path@) == Some(ext@),
            forall|j: int| 0 <= j < i ==> #[trigger] texts[j] != lower_text(ext@),
        decreases list@.len() - i,
    {
        proof {
            assert(list@.map_values(|s: &str| s@)[i as int] == list@[i as int]@);
        }
        if same_ignoring_case(ext, list[i]) {
            proof {
                assert(texts[i as int] == lower_text(ext@));
            }
            return true;
        }
        i = i + 1;
    }
    false
}

/// A path without a slash is the name of a file, unless it is empty or means
/// the current or the parent directory.
pub proof fn lemma_single_component(p: Seq<u8>)
    requires
        !p.contains(47),
    ensures
        file_name(p) == (if p.len() == 0 || p == seq![46u8] || p == seq![46u8, 46u8] {
            None
        } else {
            Some(p)
        }),
{
    lemma_no_slash(p);
    if p.len() > 0 {
        assert(p[p.len() - 1] != 47);
        if p.len() > 1 {
            assert(p[p.len() - 2] != 47);
        }
    }
}

proof fn lemma_no_slash(p: Seq<u8>)
    requires
        !p.contains(47),
    ensures
        last_segment(p) == p,
    decreases p.len(),
{
    if p.len() > 0 {
        let t = p.drop_last();
        assert(p[p.len() - 1] != 47);
        assert forall|i: int| 0 <= i < t.len() implies t[i] != 47 by {
            assert(p[i] != 47);
        }
        lemma_no_slash(t);
        assert(t.push(p.last()) == p);
    }
}

/// The name of a file in a directory is the file's own name.
pub proof fn lemma_in_directory(dir: Seq<u8>, name: Seq<u8>)
    requires
        !name.contains(47),
        file_name(name) is Some,
    ensures
        file_name(dir + seq![47u8] + name) == Some(name),
        extension(dir + seq![47u8] + name) == extension(name),
        is_media(dir + seq![47u8] + name) == is_media(name),
{
    let p = dir + seq![47u8] + name;
    lemma_single_component(name);
    lemma_last_segment(dir, name);
    assert(p.last() == name.last());
    assert(name[name.len() - 1] != 47);
    if name.len() > 1 {
        assert(p[p.len() - 2] == name[name.len() - 2]);
        assert(name[name.len() - 2] != 47);
    } else {
        assert(name[0] == 46 ==> name == seq![46u8]);
    }
    assert(trimmed_path(p) == p);
}

proof fn lemma_last_segment(dir: Seq<u8>, name: Seq<u8>)
    requires
        !name.contains(47),
    ensures
        last_segment(dir + seq![47u8] + name) == name,
    decreases name.len(),
{
    let p = dir + seq![47u8] + name;
    if name.len() == 0 {
        assert(p.last() == 47);
    } else {
        let t = name.drop_last();
        assert(name[name.len() - 1] != 47);
        assert(p.last() == name.last());
        assert forall|i: int| 0 <= i < t.len() implies t[i] != 47 by {
            assert(name[i] != 47);
        }
        assert(p.drop_last() == dir + seq![47u8] + t);
        lemma_last_segment(dir, t);
        assert(t.push(name.last()) == name);
    }
}

/// What follows the last slash has no slash.
pub proof fn lemma_last_segment_has_no_slash(p: Seq<u8>)
    ensures
        !last_segment(p).contains(47),
    decreases p.len(),
{
    if p.len() > 0 && p.last() != 47 {
        lemma_last_segment_has_no_slash(p.drop_last());
        let t = last_segment(p.drop_last());
        assert forall|i: int| 0 <= i < last_segment(p).len() implies last_segment(p)[i] != 47 by {
            if i < t.len() {
                assert(t.contains(t[i]));
            }
        }
    }
}

/// The last full stop is the one after which there is no other.
pub proof fn lemma_last_dot(x: Seq<u8>, y: Seq<u8>)
    requires
        !y.contains(46),
    ensures
        last_dot(x + seq![46u8] + y) == x.len(),
    decreases y.len(),
{
    let all = x + seq![46u8] + y;
    if y.len() == 0 {
        assert(all.last() == 46);
    } else {
        let t = y.drop_last();
        assert(y[y.len() - 1] != 46);
        assert(all.last() == y.last());
        assert forall|i: int| 0 <= i < t.len() implies t[i] != 46 by {
            assert(y[i] != 46);
        }
        assert(all.drop_last() == x + seq![46u8] + t);
        lemma_last_dot(x, t);
    }
}

/// The position of the last full stop is that of a full stop.
pub proof fn lemma_last_dot_is_dot(name: Seq<u8>)
    ensures
        -1 <= last_dot(name) < name.len(),
        last_dot(name) >= 0 ==> name[last_dot(name)] == 46,
    decreases name.len(),
{
    if name.len() > 0 && name.last() != 46 {
        lemma_last_dot_is_dot(name.drop_last());
    }
}

/// What follows the last slash of a path is the name of the file, unless it
/// means a directory, and slashes and single full stops behind it do not count.
pub proof fn law_file_name(p: Seq<u8>, dir: Seq<u8>, name: Seq<u8>)
    ensures
        file_name(p + seq![47u8]) == file_name(p),
        file_name(p + seq![47u8, 46u8]) == file_name(p),
        file_name(Seq::empty()) is None,
        file_name(seq![46u8]) is None,
        file_name(seq![46u8, 46u8]) is None,
        file_name(dir + seq![47u8, 46u8, 46u8]) is None,
        !name.contains(47) && name.len() > 0 && name != seq![46u8] && name != seq![46u8, 46u8] ==> {
            &&& file_name(name) == Some(name)
            &&& file_name(dir + seq![47u8] + name) == Some(name)
        },
{
    let a = p + seq![47u8];
    assert(a.drop_last() == p);
    let b = p + seq![47u8, 46u8];
    assert(b.drop_last() == a);
    lemma_single_component(Seq::empty());
    let dot = seq![46u8];
    let dots = seq![46u8, 46u8];
    assert(!dot.contains(47));
    assert(!dots.contains(47));
    lemma_single_component(dot);
    lemma_single_component(dots);
    let c = dir + seq![47u8, 46u8, 46u8];
    assert(c == dir + seq![47u8] + dots);
    lemma_last_segment(dir, dots);
    assert(trimmed_path(c) == c);
    if !name.contains(47) && name.len() > 0 && name != seq![46u8] && name != seq![46u8, 46u8] {
        lemma_single_component(name);
        lemma_in_directory(dir, name);
    }
}

/// A file name is its stem, a full stop and its extension, which has no full
/// stop; a name without a full stop behind its first character is all stem. The
/// directory does not matter.
pub proof fn law_extension(p: Seq<u8>, stem: Seq<u8>, ext: Seq<u8>)
    ensures
        file_name(p) == Some(stem + seq![46u8] + ext) && stem.len() > 0 && !ext.contains(46) ==> {
            &&& file_stem(p) == Some(stem)
            &&& extension(p) == Some(ext)
        },
        file_name(p) == Some(stem) && stem.len() > 0 && !stem.skip(1).contains(46) ==> {
            &&& file_stem(p) == Some(stem)
            &&& extension(p) is None
        },
        file_name(p) is None ==> file_stem(p) is None && extension(p) is None,
{
    let name = stem + seq![46u8] + ext;
    if file_name(p) == Some(name) && stem.len() > 0 && !ext.contains(46) {
        lemma_last_dot(stem, ext);
        assert(name.take(stem.len() as int) == stem);
        assert(name.skip(stem.len() as int + 1) == ext);
    }
    if file_name(p) == Some(stem) && stem.len() > 0 && !stem.skip(1).contains(46) {
        lemma_last_dot_is_dot(stem);
        let d = last_dot(stem);
        if d > 0 {
            assert(stem.skip(1)[d - 1] == 46);
        }
    }
}

/// Does a byte stand for a lower case letter or digit, in either case?
pub open spec fn is_same_letter(b: u8, c: char) -> bool {
    b as char == c || (65 <= b <= 90 && (b + 32) as char == c)
}

proof fn lemma_same_letter(b: u8, c: char)
    requires
        'a' <= c <= 'z' || '0' <= c <= '9',
    ensures
        lower_char(b) == c <==> is_same_letter(b, c),
{
}

proof fn lemma_same_extension(e: Seq<u8>, x: Seq<char>)
    requires
        forall|i: int| 0 <= i < x.len() ==> 'a' <= #[trigger] x[i] <= 'z' || '0' <= x[i] <= '9',
    ensures
        lower_text(e) == x <==> e.len() == x.len() && forall|i: int|
            0 <= i < x.len() ==> is_same_letter(e[i], #[trigger] x[i]),
{
    if lower_text(e) == x {
        assert forall|i: int| 0 <= i < x.len() implies is_same_letter(e[i], #[trigger] x[i]) by {
            assert(lower_text(e)[i] == lower_char(e[i]));
            lemma_same_letter(e[i], x[i]);
        }
    }
    if e.len() == x.len() && forall|i: int|
        0 <= i < x.len() ==> is_same_letter(e[i], #[trigger] x[i]) {
        assert forall|i: int| 0 <= i < x.len() implies #[trigger] lower_text(e)[i] == x[i] by {
            assert(is_same_letter(e[i], x[i]));
            lemma_same_letter(e[i], x[i]);
        }
        assert(lower_text(e) == x);
    }
}

/// A path is that of a media file exactly when its extension is one of twelve,
/// letter for letter and in whichever case. Nothing else of the path matters.
pub proof fn law_media_file(p: Seq<u8>, e: Seq<u8>)
    ensures
        extension(p) is None ==> !is_media(p),
        extension(p) == Some(e) ==> (is_media(p) <==> exists|x: Seq<char>|
            {
                &&& {
                    ||| x == "aac"@
                    ||| x == "flac"@
                    ||| x == "m4a"@
                    ||| x == "mp3"@
                    ||| x == "ogg"@
                    ||| x == "opus"@
                    ||| x == "wav"@
                    ||| x == "webm"@
                    ||| x == "m4v"@
                    ||| x == "mkv"@
                    ||| x == "mov"@
                    ||| x == "mp4"@
                }
                &&& e.len() == x.len()
                &&& forall|i: int| 0 <= i < x.len() ==> is_same_letter(e[i], #[trigger] x[i])
            }),
{
    reveal_strlit("aac");
    reveal_strlit("flac");
    reveal_strlit("m4a");
    reveal_strlit("mp3");
    reveal_strlit("ogg");
    reveal_strlit("opus");
    reveal_strlit("wav");
    reveal_strlit("webm");
    reveal_strlit("m4v");
    reveal_strlit("mkv");
    reveal_strlit("mov");
    reveal_strlit("mp4");
    let list = media_extension_list();
    assert forall|k: int| 0 <= k < list.len() implies (lower_text(e) == #[trigger] list[k] <==> e.len()
        == list[k].len() && forall|i: int|
        0 <= i < list[k].len() ==> is_same_letter(e[i], #[trigger] list[k][i])) by {
        lemma_same_extension(e, list[k]);
    }
    if extension(p) == Some(e) {
        if is_media(p) {
            let k = choose|k: int| 0 <= k < list.len() && list[k] == lower_text(e);
            let x = list[k];
            assert(e.len() == x.len());
        }
        assert forall|x: Seq<char>|
            list.contains(x) && e.len() == x.len() && (forall|i: int|
                0 <= i < x.len() ==> is_same_letter(e[i], #[trigger] x[i])) implies is_media(p) by {
            let k = choose|k: int| 0 <= k < list.len() && list[k] == x;
            assert(lower_text(e) == list[k]);
        }
        assert(list[0] == "aac"@ && list[1] == "flac"@ && list[2] == "m4a"@ && list[3] == "mp3"@);
        assert(list[4] == "ogg"@ && list[5] == "opus"@ && list[6] == "wav"@ && list[7] == "webm"@);
        assert(list[8] == "m4v"@ && list[9] == "mkv"@ && list[10] == "mov"@ && list[11] == "mp4"@);
    }
}

/// The text of bytes is the one that they encode, and no other bytes encode it;
/// bytes that encode none have none.
pub proof fn law_text_of_bytes(bytes: Seq<u8>, text: Seq<char>)
    ensures
        utf8_text(encode_utf8(text)) == Some(text),
        opt_utf8_text(Some(encode_utf8(text))) == Some(text),
        utf8_text(bytes) matches Some(t) ==> encode_utf8(t) == bytes,
        opt_utf8_text(Some(bytes)) == utf8_text(bytes),
        opt_utf8_text(None) is None,
{
    vstd::utf8::encode_utf8_decode_utf8(text);
    vstd::utf8::encode_utf8_valid_utf8(text);
    if vstd::utf8::valid_utf8(bytes) {
        vstd::utf8::decode_utf8_encode_utf8(bytes);
    }
}

} // verus!
