//! The names under which uploads are stored.

use crate::encoding::{
    lemma_encode_ascii, lemma_encode_concat, lemma_encoded_ascii_byte, lemma_encoded_empty,
};
use crate::http::{AppError, ErrorView};
use crate::path::{
    extension, file_name, file_stem, is_media, opt_utf8_text, path_extension, path_file_name,
    path_file_stem, text_of,
};
use crate::text::{
    chars_of, decimal, decimal_text, is_white_space, law_stripped, lemma_nothing_to_strip, string_of,
    strip, stripped, Strip,
};
use crate::upload::Fault;
use vstd::prelude::*;
use vstd::utf8::encode_utf8;

verus! {

/// Is the character one that file systems reserve?
pub open spec fn is_reserved(c: char) -> bool {
    c == '\\' || c == '/' || c == ':' || c == '*' || c == '?' || c == '"' || c == '<' || c == '>' || c
        == '|'
}

/// The text with a hyphen for each reserved character.
pub open spec fn hyphenated(s: Seq<char>) -> Seq<char> {
    s.map_values(
        |c: char|
            if is_reserved(c) {
                '-'
            } else {
                c
            },
    )
}

/// The last component of a client's file name.
pub open spec fn base_name(value: Seq<char>) -> Seq<char> {
    match opt_utf8_text(file_name(encode_utf8(value))) {
        Some(name) => name,
        None => "upload"@,
    }
}

/// A name without reserved characters, and without full stops and then white
/// space around it.
pub open spec fn cleaned(name: Seq<char>) -> Seq<char> {
    let c = stripped(stripped(hyphenated(name), Strip::Dots), Strip::WhiteSpace);
    if c.len() == 0 {
        "upload"@
    } else {
        c
    }
}

/// The name under which a client's file is stored.
pub open spec fn safe(value: Seq<char>) -> Seq<char> {
    cleaned(base_name(value))
}

fn clean(name: &str) -> (r: String)
    ensures
        r@ == cleaned(name@),
{
    let mut chars = chars_of(name);
    let ghost before = chars@;
    let mut i: usize = 0;
    while i < chars.len()
        invariant
            i <= chars@.len(),
            chars@.len() == before.len(),
            forall|j: int| 0 <= j < i ==> chars@[j] == hyphenated(before)[j],
            forall|j: int| i <= j < chars@.len() ==> chars@[j] == before[j],
        decreases chars@.len() - i,
    {
        let c = chars[i];
        if c == '\\' || c == '/' || c == ':' || c == '*' || c == '?' || c == '"' || c == '<' || c
            == '>' || c == '|' {
            chars[i] = '-';
        }
        i = i + 1;
    }
    proof {
        assert(chars@ == hyphenated(before));
    }
    let bare = strip(chars.as_slice(), Strip::Dots);
    let trimmed = strip(bare.as_slice(), Strip::WhiteSpace);
    if trimmed.len() == 0 {
        "upload".to_owned()
    } else {
        string_of(trimmed.as_slice())
    }
}

/// Gives the name under which a client's file is stored.
pub fn safe_name(value: &str) -> (r: String)
    ensures
        r@ == safe(value@),
        value@.len() > 0 && (forall|i: int|
            0 <= i < value@.len() ==> {
                let c = #[trigger] value@[i];
                c != '\\' && c != '/' && c != ':' && c != '*' && c != '?' && c != '"' && c != '<' && c
                    != '>' && c != '|'
            }) && value@[0] != '.' && !is_white_space(value@[0]) && value@.last() != '.'
            && !is_white_space(value@.last()) ==> r@ == value@,
{
    proof {
        if value@.len() > 0 && (forall|i: int|
            0 <= i < value@.len() ==> {
                let c = #[trigger] value@[i];
                c != '\\' && c != '/' && c != ':' && c != '*' && c != '?' && c != '"' && c != '<' && c
                    != '>' && c != '|'
            }) && value@[0] != '.' && !is_white_space(value@[0]) && value@.last() != '.'
            && !is_white_space(value@.last()) {
            law_name_is_kept(value@);
        }
    }
    let name = match path_file_name(value.as_bytes()) {
        Some(bytes) => text_of(bytes),
        None => None,
    };
    match name {
        Some(name) => clean(name.as_str()),
        None => clean("upload"),
    }
}

/// The name under which a file is stored is not empty, has no reserved
/// character, so no slash either, and neither starts nor ends with white space.
pub proof fn law_safe_name(value: Seq<char>)
    ensures
        safe(value).len() > 0,
        forall|i: int| 0 <= i < safe(value).len() ==> !is_reserved(#[trigger] safe(value)[i]),
        !Strip::WhiteSpace.takes(safe(value)[0]),
        !Strip::WhiteSpace.takes(safe(value).last()),
{
    reveal_strlit("upload");
    let h = hyphenated(base_name(value));
    let d = stripped(h, Strip::Dots);
    let c = stripped(d, Strip::WhiteSpace);
    crate::text::lemma_stripped(h, Strip::Dots);
    crate::text::lemma_stripped(d, Strip::WhiteSpace);
    if c.len() > 0 {
        assert forall|i: int| 0 <= i < c.len() implies !is_reserved(#[trigger] c[i]) by {
            assert(c.contains(c[i]));
            assert(d.contains(c[i]));
            assert(h.contains(c[i]));
        }
    }
}

/// The part of an upload's name that comes before its number.
pub open spec fn stem_text(filename: Seq<char>) -> Seq<char> {
    match opt_utf8_text(file_stem(encode_utf8(filename))) {
        Some(s) => s,
        None => "media"@,
    }
}

/// The extension of an upload's name, with the full stop before it.
pub open spec fn suffix_text(filename: Seq<char>) -> Seq<char> {
    match opt_utf8_text(extension(encode_utf8(filename))) {
        Some(e) => "."@ + e,
        None => Seq::empty(),
    }
}

/// The name that is tried in the `n`th place for an upload: its own first,
/// then with a number before the extension.
pub open spec fn candidate(filename: Seq<char>, n: nat) -> Seq<char> {
    if n < 2 {
        stem_text(filename) + suffix_text(filename)
    } else {
        stem_text(filename) + "-"@ + decimal(n) + suffix_text(filename)
    }
}

/// What to do once it was looked up whether a name is taken.
pub enum NameAction {
    /// Store the upload under this name.
    Use(String),
    /// Look up whether this name is taken.
    Try(String),
    /// Answer with the error.
    Fail(AppError),
}

/// What a decision on a name says.
#[verifier::ext_equal]
pub enum NameDecision {
    Use(Seq<char>),
    Try(Seq<char>),
    Fail(ErrorView),
}

impl View for NameAction {
    type V = NameDecision;

    open spec fn view(&self) -> NameDecision {
        match self {
            NameAction::Use(name) => NameDecision::Use(name@),
            NameAction::Try(name) => NameDecision::Try(name@),
            NameAction::Fail(e) => NameDecision::Fail(e@),
        }
    }
}

/// How the search for a name goes on from the `n`th one: a name that is free is
/// used, and after one that is taken the next is tried. `None` is a name of
/// which that could not be found out.
pub open spec fn name_decision(filename: Seq<char>, n: nat, taken: Option<bool>) -> NameDecision {
    match taken {
        Some(false) => NameDecision::Use(candidate(filename, n)),
        Some(true) => NameDecision::Try(candidate(filename, n + 1)),
        None => NameDecision::Fail(Fault::NameUnchecked.answer()),
    }
}

/// The names to try for an upload, one after the other.
pub struct UploadNames {
    stem: String,
    suffix: String,
    tried: u64,
    filename: Ghost<Seq<char>>,
}

impl UploadNames {
    #[verifier::type_invariant]
    spec fn well_formed(self) -> bool {
        &&& self.stem@ == stem_text(self.filename@)
        &&& self.suffix@ == suffix_text(self.filename@)
    }

    /// The upload's own name.
    pub closed spec fn filename(&self) -> Seq<char> {
        self.filename@
    }

    /// How many names were given so far.
    pub closed spec fn tried(&self) -> u64 {
        self.tried
    }

    /// The names for an upload.
    pub fn new(filename: &str) -> (r: UploadNames)
        ensures
            r.filename() == filename@,
            r.tried() == 0,
    {
        let stem = match path_file_stem(filename.as_bytes()) {
            Some(bytes) => match text_of(bytes) {
                Some(s) => s,
                None => "media".to_owned(),
            },
            None => "media".to_owned(),
        };
        let suffix = match path_extension(filename.as_bytes()) {
            Some(bytes) => match text_of(bytes) {
                Some(e) => {
                    let mut s = ".".to_owned();
                    s.append(e.as_str());
                    s
                },
                None => String::new(),
            },
            None => String::new(),
        };
        UploadNames { stem, suffix, tried: 0, filename: Ghost(filename@) }
    }

    /// Gives the next name to try.
    pub fn next_name(&mut self) -> (r: String)
        requires
            old(self).tried() < u64::MAX,
        ensures
            r@ == candidate(old(self).filename(), (old(self).tried() + 1) as nat),
            final(self).filename() == old(self).filename(),
            final(self).tried() == old(self).tried() + 1,
    {
        proof {
            use_type_invariant(&*self);
        }
        let n: u64 = self.tried + 1;
        self.tried = n;
        self.name(n)
    }

    fn name(&self, n: u64) -> (r: String)
        ensures
            r@ == candidate(self.filename(), n as nat),
    {
        proof {
            use_type_invariant(self);
        }
        let mut name = self.stem.clone();
        if n >= 2 {
            name.append("-");
            name.append(decimal_text(n).as_str());
        }
        name.append(self.suffix.as_str());
        name
    }

    /// Goes on when it was looked up whether the name that was given last is
    /// taken. `None` is a name of which that could not be found out.
    pub fn checked(&mut self, taken: Option<bool>) -> (r: NameAction)
        requires
            old(self).tried() >= 1,
            taken == Some(true) ==> old(self).tried() < u64::MAX,
        ensures
            r@ == name_decision(old(self).filename(), old(self).tried() as nat, taken),
            final(self).filename() == old(self).filename(),
            final(self).tried() == old(self).tried() + (if taken == Some(true) {
                1int
            } else {
                0
            }),
    {
        match taken {
            Some(true) => NameAction::Try(self.next_name()),
            Some(false) => NameAction::Use(self.name(self.tried)),
            None => NameAction::Fail(Fault::NameUnchecked.error()),
        }
    }
}

/// The name that the search comes to from the `n`th one on, within so many
/// further ones, where the given names are taken.
pub open spec fn found_name(filename: Seq<char>, taken: Set<Seq<char>>, n: nat, further: nat) -> Option<
    Seq<char>,
>
    decreases further,
{
    match name_decision(filename, n, Some(taken.contains(candidate(filename, n)))) {
        NameDecision::Use(name) => Some(name),
        _ => if further == 0 {
            None
        } else {
            found_name(filename, taken, n + 1, (further - 1) as nat)
        },
    }
}

/// The search comes to the first name from the `n`th one on that is free.
proof fn lemma_found_name(filename: Seq<char>, taken: Set<Seq<char>>, n: nat, further: nat, k: nat)
    requires
        n <= k <= n + further,
        !taken.contains(candidate(filename, k)),
        forall|j: nat| n <= j < k ==> taken.contains(#[trigger] candidate(filename, j)),
    ensures
        found_name(filename, taken, n, further) == Some(candidate(filename, k)),
    decreases further,
{
    if n < k {
        assert(taken.contains(candidate(filename, n)));
        lemma_found_name(filename, taken, n + 1, (further - 1) as nat, k);
    }
}

/// Names of which none is free are different and taken, so no more than those.
proof fn lemma_taken_names(filename: Seq<char>, taken: Set<Seq<char>>, n: nat)
    requires
        taken.finite(),
        forall|j: nat| 1 <= j <= n ==> taken.contains(#[trigger] candidate(filename, j)),
    ensures
        n <= taken.len(),
    decreases n,
{
    if n > 0 {
        let last = candidate(filename, n);
        let rest = taken.remove(last);
        assert forall|j: nat| 1 <= j <= n - 1 implies rest.contains(#[trigger] candidate(filename, j)) by {
            law_candidates_differ(filename, j, n);
        }
        lemma_taken_names(filename, rest, (n - 1) as nat);
    }
}

proof fn lemma_first_free(filename: Seq<char>, taken: Set<Seq<char>>, n: nat) -> (k: nat)
    requires
        taken.finite(),
        1 <= n,
        forall|j: nat| 1 <= j < n ==> taken.contains(#[trigger] candidate(filename, j)),
    ensures
        n <= k <= taken.len() + 1,
        !taken.contains(candidate(filename, k)),
        forall|j: nat| 1 <= j < k ==> taken.contains(#[trigger] candidate(filename, j)),
    decreases taken.len() + 1 - n,
{
    lemma_taken_names(filename, taken, (n - 1) as nat);
    if taken.contains(candidate(filename, n)) {
        lemma_taken_names(filename, taken, n);
        lemma_first_free(filename, taken, n + 1)
    } else {
        n
    }
}

/// However many names are taken, the search for one comes to an end after at
/// most one name more than those, and it ends with the first name that is free.
pub proof fn law_first_free_name(filename: Seq<char>, taken: Set<Seq<char>>)
    requires
        taken.finite(),
    ensures
        exists|k: nat|
            {
                &&& 1 <= k <= taken.len() + 1
                &&& found_name(filename, taken, 1, taken.len()) == Some(
                    #[trigger] candidate(filename, k),
                )
                &&& !taken.contains(candidate(filename, k))
                &&& forall|j: nat| 1 <= j < k ==> taken.contains(#[trigger] candidate(filename, j))
            },
{
    let k = lemma_first_free(filename, taken, 1);
    lemma_found_name(filename, taken, 1, taken.len(), k);
}

/// The first name that is tried for an upload is its own, if that is the name
/// of one file.
pub proof fn law_own_name_first(filename: Seq<char>)
    requires
        file_name(encode_utf8(filename)) == Some(encode_utf8(filename)),
    ensures
        candidate(filename, 1) == filename,
{
    let f = encode_utf8(filename);
    lemma_file_name_has_no_slash(f);
    if filename.contains('/') {
        let i = choose|i: int| 0 <= i < filename.len() && filename[i] == '/';
        let a = filename.take(i);
        let b = filename.skip(i + 1);
        assert(filename == a + seq!['/'] + b);
        lemma_encode_concat(a + seq!['/'], b);
        lemma_encode_concat(a, seq!['/']);
        lemma_encode_ascii('/');
        assert(f == encode_utf8(a) + seq![47u8] + encode_utf8(b));
        assert(f[encode_utf8(a).len() as int] == 47);
    }
    if extension(f) is Some {
        let k = lemma_stem_and_suffix(filename);
        assert(filename.take(k) + (seq!['.'] + filename.skip(k + 1)) == filename);
    } else {
        vstd::utf8::encode_utf8_decode_utf8(filename);
        vstd::utf8::encode_utf8_valid_utf8(filename);
        assert(stem_text(filename) + suffix_text(filename) == filename);
    }
}

proof fn lemma_encoded_without(s: Seq<char>, b: u8)
    requires
        b < 0x80,
        !s.contains(b as char),
    ensures
        !encode_utf8(s).contains(b),
{
    if encode_utf8(s).contains(b) {
        let i = choose|i: int| 0 <= i < encode_utf8(s).len() && encode_utf8(s)[i] == b;
        lemma_encoded_ascii_byte(s, i);
    }
}

/// A text is what comes before its last full stop, that full stop, and a rest
/// without any.
proof fn lemma_split_at_last_dot(s: Seq<char>) -> (k: int)
    requires
        s.contains('.'),
    ensures
        0 <= k < s.len(),
        s == s.take(k) + seq!['.'] + s.skip(k + 1),
        !s.skip(k + 1).contains('.'),
    decreases s.len(),
{
    if s.last() == '.' {
        let k = s.len() - 1;
        assert(s.skip(k + 1).len() == 0);
        assert(s == s.take(k) + seq!['.'] + s.skip(k + 1));
        k
    } else {
        let t = s.drop_last();
        let i = choose|i: int| 0 <= i < s.len() && s[i] == '.';
        assert(t[i] == '.');
        let k = lemma_split_at_last_dot(t);
        let rest = s.skip(k + 1);
        assert(t[k] == '.') by {
            assert(t == t.take(k) + seq!['.'] + t.skip(k + 1));
        }
        assert(s == s.take(k) + seq!['.'] + rest);
        if rest.contains('.') {
            let j = choose|j: int| 0 <= j < rest.len() && rest[j] == '.';
            assert(t.skip(k + 1)[j] == '.');
        }
        k
    }
}

/// The bytes of `a`, a full stop and `b`, where neither has a slash and `b` no
/// full stop, are a file name with stem `a` and extension `b`.
proof fn lemma_stem_and_extension(a: Seq<char>, b: Seq<char>)
    requires
        a.len() > 0,
        !a.contains('/'),
        !b.contains('/'),
        !b.contains('.'),
        a != seq!['.'] || b.len() > 0,
    ensures
        ({
            let f = encode_utf8(a + seq!['.'] + b);
            &&& file_name(f) == Some(f)
            &&& file_stem(f) == Some(encode_utf8(a))
            &&& extension(f) == Some(encode_utf8(b))
        }),
{
    let text = a + seq!['.'] + b;
    let f = encode_utf8(text);
    let x = encode_utf8(a);
    let y = encode_utf8(b);
    lemma_encode_concat(a + seq!['.'], b);
    lemma_encode_concat(a, seq!['.']);
    lemma_encode_ascii('.');
    assert(f == x + seq![46u8] + y);
    assert forall|i: int| 0 <= i < text.len() implies text[i] != '/' by {
        if i < a.len() {
            assert(a.contains(a[i]));
        } else if i > a.len() {
            assert(b.contains(b[i - a.len() - 1]));
        }
    }
    lemma_encoded_without(text, 47);
    lemma_encoded_without(b, 46);
    crate::path::lemma_single_component(f);
    crate::path::lemma_last_dot(x, y);
    lemma_encoded_empty(a);
    lemma_encoded_empty(b);
    assert(f.take(x.len() as int) == x);
    assert(f.skip(x.len() as int + 1) == y);
    if f == seq![46u8, 46u8] {
        assert(x.len() == 1 && y.len() == 0);
        assert(x[0] == f[0]);
        lemma_encoded_ascii_byte(a, 0);
        assert(a.len() == 1);
        assert(a == seq!['.']);
        assert(false);
    }
}

proof fn lemma_stem_and_suffix(filename: Seq<char>) -> (k: int)
    requires
        !filename.contains('/'),
        extension(encode_utf8(filename)) is Some,
    ensures
        0 < k < filename.len(),
        filename == filename.take(k) + seq!['.'] + filename.skip(k + 1),
        !filename.skip(k + 1).contains('.'),
        !filename.take(k).contains('/'),
        !filename.skip(k + 1).contains('/'),
        filename.take(k) != seq!['.'] || filename.skip(k + 1).len() > 0,
        stem_text(filename) == filename.take(k),
        suffix_text(filename) == seq!['.'] + filename.skip(k + 1),
        extension(encode_utf8(filename)) == Some(encode_utf8(filename.skip(k + 1))),
{
    let f = encode_utf8(filename);
    lemma_encoded_without(filename, 47);
    crate::path::lemma_single_component(f);
    let d = crate::path::last_dot(f);
    crate::path::lemma_last_dot_is_dot(f);
    assert(f[d] == 46);
    lemma_encoded_ascii_byte(filename, d);
    let k = lemma_split_at_last_dot(filename);
    let a = filename.take(k);
    let b = filename.skip(k + 1);
    assert forall|i: int| 0 <= i < a.len() implies a[i] != '/' by {
        assert(filename.contains(filename[i]));
    }
    assert forall|i: int| 0 <= i < b.len() implies b[i] != '/' by {
        assert(filename.contains(filename[i + k + 1]));
    }
    lemma_encode_concat(a + seq!['.'], b);
    lemma_encode_concat(a, seq!['.']);
    lemma_encode_ascii('.');
    assert(f == encode_utf8(a) + seq![46u8] + encode_utf8(b));
    lemma_encoded_without(b, 46);
    crate::path::lemma_last_dot(encode_utf8(a), encode_utf8(b));
    lemma_encoded_empty(a);
    if a == seq!['.'] && b.len() == 0 {
        lemma_encoded_empty(b);
        assert(f == seq![46u8, 46u8]);
    }
    lemma_stem_and_extension(a, b);
    vstd::utf8::encode_utf8_decode_utf8(a);
    vstd::utf8::encode_utf8_valid_utf8(a);
    vstd::utf8::encode_utf8_decode_utf8(b);
    vstd::utf8::encode_utf8_valid_utf8(b);
    reveal_strlit(".");
    assert("."@ == seq!['.']);
    k
}

/// The name under which a media file is stored is that of one file: it leads
/// to nothing but an entry of the directory that it is put in.
pub proof fn law_upload_stays_in_directory(value: Seq<char>)
    requires
        is_media(encode_utf8(safe(value))),
    ensures
        file_name(encode_utf8(safe(value))) == Some(encode_utf8(safe(value))),
        !safe(value).contains('/'),
{
    law_safe_name(value);
    if safe(value).contains('/') {
        let i = choose|i: int| 0 <= i < safe(value).len() && safe(value)[i] == '/';
        assert(!is_reserved(safe(value)[i]));
    }
    lemma_encoded_without(safe(value), 47);
    crate::path::lemma_single_component(encode_utf8(safe(value)));
}

/// The names that are tried for an upload are all different.
pub proof fn law_candidates_differ(filename: Seq<char>, m: nat, n: nat)
    requires
        1 <= m < n,
    ensures
        candidate(filename, m) != candidate(filename, n),
{
    let stem = stem_text(filename);
    let suffix = suffix_text(filename);
    let x = candidate(filename, m);
    let y = candidate(filename, n);
    reveal_strlit("-");
    crate::text::lemma_decimal_digits(m);
    crate::text::lemma_decimal_digits(n);
    if x == y {
        let s = stem.len() as int;
        let e = x.len() - suffix.len();
        assert(y.subrange(s + 1, e) == decimal(n));
        if m < 2 {
            assert(x.len() < y.len());
        } else {
            assert(x.subrange(s + 1, e) == decimal(m));
            crate::text::lemma_decimal_injective(m, n);
        }
    }
}

/// Each name that is tried for a media file is that of one file with the same
/// extension, and the first one is the file's own name.
pub proof fn law_candidates_are_media(filename: Seq<char>, n: nat)
    requires
        !filename.contains('/'),
        is_media(encode_utf8(filename)),
    ensures
        candidate(filename, 1) == filename,
        file_name(encode_utf8(candidate(filename, n))) == Some(encode_utf8(candidate(filename, n))),
        extension(encode_utf8(candidate(filename, n))) == extension(encode_utf8(filename)),
        is_media(encode_utf8(candidate(filename, n))),
{
    let k = lemma_stem_and_suffix(filename);
    let a = filename.take(k);
    let b = filename.skip(k + 1);
    assert(a + (seq!['.'] + b) == a + seq!['.'] + b);
    if n < 2 {
        lemma_stem_and_extension(a, b);
    } else {
        let d = decimal(n);
        let c = a + "-"@ + d;
        reveal_strlit("-");
        crate::text::lemma_decimal_digits(n);
        assert forall|i: int| 0 <= i < c.len() implies c[i] != '/' by {
            if i < a.len() {
                assert(a.contains(a[i]));
            } else if i > a.len() {
                assert(crate::text::is_digit(d[i - a.len() - 1]));
            }
        }
        assert(candidate(filename, n) == c + seq!['.'] + b);
        lemma_stem_and_extension(c, b);
    }
}

/// A media file that is stored in a directory, under whichever of the names
/// that are tried for it, is one that the service lists and streams.
pub proof fn law_upload_can_be_streamed(value: Seq<char>, n: nat, dir: Seq<u8>)
    requires
        is_media(encode_utf8(safe(value))),
    ensures
        is_media(dir + seq![47u8] + encode_utf8(candidate(safe(value), n))),
        file_name(dir + seq![47u8] + encode_utf8(candidate(safe(value), n))) == Some(
            encode_utf8(candidate(safe(value), n)),
        ),
{
    law_upload_stays_in_directory(value);
    law_candidates_are_media(safe(value), n);
    let name = encode_utf8(candidate(safe(value), n));
    lemma_file_name_has_no_slash(name);
    crate::path::lemma_in_directory(dir, name);
}

proof fn lemma_file_name_has_no_slash(p: Seq<u8>)
    requires
        file_name(p) == Some(p),
    ensures
        !p.contains(47),
{
    crate::path::lemma_last_segment_has_no_slash(crate::path::trimmed_path(p));
}

/// A file name without reserved characters, and with neither a full stop nor
/// white space at its ends, is kept as it is, however long it is.
pub proof fn law_name_is_kept(value: Seq<char>)
    requires
        value.len() > 0,
        forall|i: int|
            0 <= i < value.len() ==> {
                let c = #[trigger] value[i];
                c != '\\' && c != '/' && c != ':' && c != '*' && c != '?' && c != '"' && c != '<' && c
                    != '>' && c != '|'
            },
        value[0] != '.' && !is_white_space(value[0]),
        value.last() != '.' && !is_white_space(value.last()),
    ensures
        safe(value) == value,
{
    let f = encode_utf8(value);
    lemma_encoded_without(value, 47);
    crate::path::lemma_single_component(f);
    lemma_encoded_empty(value);
    if f == seq![46u8] || f == seq![46u8, 46u8] {
        lemma_encoded_ascii_byte(value, 0);
        let i = choose|i: int| 0 <= i < value.len() && value[i] == '.';
        assert(value.len() <= 2);
        assert(i == 0 || i == value.len() - 1);
    }
    crate::path::law_text_of_bytes(f, value);
    assert(hyphenated(value) == value);
    lemma_nothing_to_strip(value, Strip::Dots);
    lemma_nothing_to_strip(value, Strip::WhiteSpace);
}

proof fn lemma_hyphenated_char(c: char)
    ensures
        ({
            let h = hyphenated(seq![c])[0];
            &&& h == '.' <==> c == '.'
            &&& is_white_space(h) <==> is_white_space(c)
            &&& c == '.' || is_white_space(c) ==> h == c
        }),
{
}

proof fn lemma_hyphenated(s: Seq<char>, i: int)
    requires
        0 <= i < s.len(),
    ensures
        ({
            let h = hyphenated(s)[i];
            &&& h == '.' <==> s[i] == '.'
            &&& is_white_space(h) <==> is_white_space(s[i])
        }),
{
    lemma_hyphenated_char(s[i]);
    assert(hyphenated(seq![s[i]])[0] == hyphenated(s)[i]);
}

/// The stored name has a character for each one of the client's file name
/// between the full stops and then the white space at its ends: a hyphen for a
/// reserved one, and otherwise the same. A name of which nothing is left, or that
/// is none, is stored as `upload`.
pub proof fn law_stored_name(
    value: Seq<char>,
    name: Seq<char>,
    d1: Seq<char>,
    w1: Seq<char>,
    core: Seq<char>,
    w2: Seq<char>,
    d2: Seq<char>,
)
    requires
        file_name(encode_utf8(value)) == Some(encode_utf8(name)),
        name == d1 + (w1 + core + w2) + d2,
        forall|i: int| 0 <= i < d1.len() ==> #[trigger] d1[i] == '.',
        forall|i: int| 0 <= i < d2.len() ==> #[trigger] d2[i] == '.',
        forall|i: int| 0 <= i < w1.len() ==> is_white_space(#[trigger] w1[i]),
        forall|i: int| 0 <= i < w2.len() ==> is_white_space(#[trigger] w2[i]),
        core.len() > 0 ==> !is_white_space(core[0]) && !is_white_space(core.last()),
        (w1 + core + w2).len() > 0 ==> (w1 + core + w2)[0] != '.' && (w1 + core + w2).last() != '.',
    ensures
        core.len() == 0 ==> safe(value) == "upload"@,
        core.len() > 0 ==> {
            &&& safe(value).len() == core.len()
            &&& forall|i: int|
                0 <= i < core.len() ==> {
                    let c = core[i];
                    #[trigger] safe(value)[i] == (if c == '\\' || c == '/' || c == ':' || c == '*'
                        || c == '?' || c == '"' || c == '<' || c == '>' || c == '|' {
                        '-'
                    } else {
                        c
                    })
                }
        },
{
    crate::path::law_text_of_bytes(encode_utf8(name), name);
    let mid = w1 + core + w2;
    let (ha, hm, hb) = (hyphenated(d1), hyphenated(mid), hyphenated(d2));
    assert(hyphenated(name) == ha + hm + hb);
    assert forall|i: int| 0 <= i < ha.len() implies Strip::Dots.takes(#[trigger] ha[i]) by {
        lemma_hyphenated(d1, i);
    }
    assert forall|i: int| 0 <= i < hb.len() implies Strip::Dots.takes(#[trigger] hb[i]) by {
        lemma_hyphenated(d2, i);
    }
    if mid.len() > 0 {
        lemma_hyphenated(mid, 0);
        lemma_hyphenated(mid, mid.len() - 1);
    }
    law_stripped(ha, hm, hb, Strip::Dots);
    let (hv, hc, hw) = (hyphenated(w1), hyphenated(core), hyphenated(w2));
    assert(hm == hv + hc + hw);
    assert forall|i: int| 0 <= i < hv.len() implies Strip::WhiteSpace.takes(#[trigger] hv[i]) by {
        lemma_hyphenated(w1, i);
    }
    assert forall|i: int| 0 <= i < hw.len() implies Strip::WhiteSpace.takes(#[trigger] hw[i]) by {
        lemma_hyphenated(w2, i);
    }
    if core.len() > 0 {
        lemma_hyphenated(core, 0);
        lemma_hyphenated(core, core.len() - 1);
    }
    law_stripped(hv, hc, hw, Strip::WhiteSpace);
}

/// Slashes and single full stops behind a client's file name do not matter, and
/// a path that leads to no file is stored as `upload`.
pub proof fn law_end_of_path_does_not_count(value: Seq<char>)
    ensures
        safe(value + seq!['/']) == safe(value),
        safe(value + seq!['/', '.']) == safe(value),
        file_name(encode_utf8(value)) is None ==> safe(value) == "upload"@,
{
    let f = encode_utf8(value);
    crate::path::law_file_name(f, f, f);
    lemma_encode_concat(value, seq!['/']);
    lemma_encode_ascii('/');
    lemma_encode_ascii('.');
    lemma_encode_concat(value, seq!['/', '.']);
    lemma_encode_concat(seq!['/'], seq!['.']);
    assert(seq!['/'] + seq!['.'] == seq!['/', '.']);
    assert(seq![47u8] + seq![46u8] == seq![47u8, 46u8]);
    reveal_strlit("upload");
    let u = "upload"@;
    if file_name(f) is None {
        assert(base_name(value) == u);
        assert(hyphenated(u) == u);
        lemma_nothing_to_strip(u, Strip::Dots);
        lemma_nothing_to_strip(u, Strip::WhiteSpace);
    }
}

/// The names that are tried for an upload are its own one, and then the same with
/// a hyphen and a number before the extension, whatever the number is.
pub proof fn law_candidate_with_extension(stem: Seq<char>, ext: Seq<char>, n: nat)
    requires
        stem.len() > 0,
        !stem.contains('/'),
        !ext.contains('/'),
        !ext.contains('.'),
        stem != seq!['.'] || ext.len() > 0,
    ensures
        candidate(stem + seq!['.'] + ext, 1) == stem + seq!['.'] + ext,
        n >= 2 ==> candidate(stem + seq!['.'] + ext, n) == stem + seq!['-'] + decimal(n) + seq!['.']
            + ext,
{
    let filename = stem + seq!['.'] + ext;
    lemma_stem_and_extension(stem, ext);
    crate::path::law_text_of_bytes(encode_utf8(stem), stem);
    crate::path::law_text_of_bytes(encode_utf8(ext), ext);
    reveal_strlit(".");
    reveal_strlit("-");
    assert("."@ == seq!['.']);
    assert("-"@ == seq!['-']);
    assert(stem + (seq!['.'] + ext) == filename);
    assert(stem + seq!['-'] + decimal(n) + (seq!['.'] + ext) == stem + seq!['-'] + decimal(n)
        + seq!['.'] + ext);
}

/// A name without an extension gets the hyphen and the number at its end.
pub proof fn law_candidate_without_extension(filename: Seq<char>, n: nat)
    requires
        file_name(encode_utf8(filename)) == Some(encode_utf8(filename)),
        !filename.skip(1).contains('.'),
    ensures
        candidate(filename, 1) == filename,
        n >= 2 ==> candidate(filename, n) == filename + seq!['-'] + decimal(n),
{
    law_own_name_first(filename);
    let f = encode_utf8(filename);
    lemma_encoded_empty(filename);
    crate::path::lemma_last_dot_is_dot(f);
    let d = crate::path::last_dot(f);
    if d > 0 {
        let first = seq![filename[0]];
        let rest = filename.skip(1);
        assert(filename == first + rest);
        lemma_encode_concat(first, rest);
        let head = encode_utf8(first);
        if d < head.len() {
            lemma_encoded_ascii_byte(first, d);
            assert(first[0] == '.');
            lemma_encode_ascii('.');
        } else {
            lemma_encoded_ascii_byte(rest, d - head.len());
        }
        assert(false);
    }
    crate::path::law_text_of_bytes(f, filename);
    reveal_strlit("-");
    assert("-"@ == seq!['-']);
    assert(filename + seq!['-'] + decimal(n) + Seq::<char>::empty() == filename + seq!['-']
        + decimal(n));
}

/// The search for a name uses the name that was looked up if it is free, goes on
/// with the next one if it is taken, and fails if that could not be found out.
pub proof fn law_name_search(filename: Seq<char>, n: nat, action: NameAction)
    ensures
        name_decision(filename, n, Some(false)) == NameDecision::Use(candidate(filename, n)),
        name_decision(filename, n, Some(true)) == NameDecision::Try(candidate(filename, n + 1)),
        name_decision(filename, n, None) matches NameDecision::Fail(e) && e.status == 500 && e.detail
            == "failed to check upload path"@ && e.headers == crate::http::no_fields(),
        match action {
            NameAction::Use(name) => action@ == NameDecision::Use(name@),
            NameAction::Try(name) => action@ == NameDecision::Try(name@),
            NameAction::Fail(e) => action@ == NameDecision::Fail(e@),
        },
{
}

} // verus!
