//! The emote catalog: named binary assets indexed at startup, plus the fixed
//! table of textual kaomoji replacements.

use vstd::prelude::*;

use crate::text::{chars_of, lower_of, lowercase, string_of, sub_chars};

verus! {

/// One named binary asset. `name` is the lowercased file stem and is the
/// catalog key; `file_name` is what the asset is displayed as when attached.
#[derive(Debug)]
pub struct Emote {
    pub name: String,
    pub file_name: String,
    pub bytes: Vec<u8>,
}

/// The contents of an [`Emote`].
pub struct SpecEmote {
    pub name: Seq<char>,
    pub file_name: Seq<char>,
    pub bytes: Seq<u8>,
}

impl View for Emote {
    type V = SpecEmote;

    open spec fn view(&self) -> SpecEmote {
        SpecEmote { name: self.name@, file_name: self.file_name@, bytes: self.bytes@ }
    }
}

impl DeepView for Emote {
    type V = SpecEmote;

    open spec fn deep_view(&self) -> SpecEmote {
        self.view()
    }
}

/// Byte-for-byte copy of `v`.
fn copy_bytes(v: &Vec<u8>) -> (r: Vec<u8>)
    ensures
        r@ == v@,
{
    let mut r: Vec<u8> = Vec::new();
    let mut i: usize = 0;
    while i < v.len()
        invariant
            i <= v.len(),
            r@ == v@.subrange(0, i as int),
        decreases v.len() - i,
    {
        r.push(v[i]);
        proof {
            assert(v@.subrange(0, i + 1 as int) =~= v@.subrange(0, i as int).push(v@[i as int]));
        }
        i = i + 1;
    }
    proof {
        assert(r@ =~= v@);
    }
    r
}

impl Clone for Emote {
    fn clone(&self) -> (r: Self)
        ensures
            r.name@ == self.name@,
            r.file_name@ == self.file_name@,
            r.bytes@ == self.bytes@,
    {
        Emote {
            name: self.name.clone(),
            file_name: self.file_name.clone(),
            bytes: copy_bytes(&self.bytes),
        }
    }
}

impl Emote {
    /// The attachment to send for this emote: its bytes under its display
    /// file name.
    pub fn as_attachment(&self) -> (r: (&[u8], &str))
        ensures
            r.0@ == self.bytes@,
            r.1@ == self.file_name@,
    {
        (self.bytes.as_slice(), self.file_name.as_str())
    }
}

/// Largest index `i` in `[1, j)` with `s[i] == '.'`, or `0` when there is
/// none.
pub open spec fn last_dot_from(s: Seq<char>, j: int) -> int
    decreases j,
{
    if j <= 1 || j > s.len() {
        0
    } else if s[j - 1] == '.' {
        j - 1
    } else {
        last_dot_from(s, j - 1)
    }
}

/// The file stem: everything before the last `.`, except that a name whose
/// only `.` leads it (or that has none) is kept whole.
pub open spec fn stem_of(s: Seq<char>) -> Seq<char> {
    let d = last_dot_from(s, s.len() as int);
    if d >= 1 {
        s.subrange(0, d)
    } else {
        s
    }
}

/// The file stem of `file_name`.
pub fn stem(file_name: &str) -> (r: String)
    ensures
        r@ == stem_of(file_name@),
{
    let v = chars_of(file_name);
    let mut j: usize = v.len();
    while j > 1 && v[j - 1] != '.'
        invariant
            0 <= j <= v.len(),
            last_dot_from(v@, v@.len() as int) == last_dot_from(v@, j as int),
        decreases j,
    {
        j = j - 1;
    }
    if j > 1 {
        let cut = sub_chars(&v, 0, j - 1);
        string_of(&cut)
    } else {
        file_name.to_owned()
    }
}

/// The fixed table of textual triggers and their literal replacements, in
/// application order. Longer triggers sharing a prefix with shorter ones come
/// first, so that the longer form wins.
pub open spec fn text_emote_table() -> Seq<(Seq<Seq<char>>, Seq<char>)> {
    seq![
        (seq!["lf"@, "lennyface"@, "lenny"@], "( ͡° ͜ʖ ͡°)"@),
        (seq!["shrug"@, "s"@], "¯\\\\\\_(ツ)\\_/¯"@),
    ]
}

/// The in-memory emote catalog, loaded once at startup from the asset files
/// the embedding program reads off disk.
#[derive(Debug)]
pub struct EmoteManager {
    pub emotes: Vec<Emote>,
    pub text_emotes: Vec<(Vec<String>, String)>,
}

/// First index at or after `i` whose emote is named `key`, if any.
pub open spec fn find_from(emotes: Seq<Emote>, key: Seq<char>, i: int) -> Option<int>
    decreases emotes.len() - i,
{
    if i < 0 || i >= emotes.len() {
        None
    } else if emotes[i].name@ == key {
        Some(i)
    } else {
        find_from(emotes, key, i + 1)
    }
}

/// The first emote in `emotes` named `key`, if any.
pub open spec fn spec_find_emote(emotes: Seq<Emote>, key: Seq<char>) -> Option<Emote> {
    match find_from(emotes, key, 0) {
        Some(i) => Some(emotes[i]),
        None => None,
    }
}

impl EmoteManager {
    /// Builds the catalog from the given asset files, each a display file
    /// name with its contents. The catalog key of each asset is its
    /// lowercased file stem. The embedding program reads the asset
    /// directories and must abort the whole load on any I/O or name-decoding
    /// error rather than call this with a partial list.
    pub fn new(files: Vec<(String, Vec<u8>)>) -> (r: Self)
        ensures
            r.emotes@.len() == files@.len(),
            forall|i: int|
                0 <= i < files@.len() ==> {
                    &&& (#[trigger] r.emotes@[i]).file_name@ == files@[i].0@
                    &&& r.emotes@[i].bytes@ == files@[i].1@
                    &&& r.emotes@[i].name@ == lower_of(stem_of(files@[i].0@))
                },
            r.text_emotes.deep_view() == text_emote_table(),
    {
        let mut emotes: Vec<Emote> = Vec::new();
        let mut i: usize = 0;
        while i < files.len()
            invariant
                i <= files.len(),
                emotes@.len() == i,
                forall|k: int|
                    0 <= k < i ==> {
                        &&& (#[trigger] emotes@[k]).file_name@ == files@[k].0@
                        &&& emotes@[k].bytes@ == files@[k].1@
                        &&& emotes@[k].name@ == lower_of(stem_of(files@[k].0@))
                    },
            decreases files.len() - i,
        {
            let file_name = files[i].0.clone();
            let stem_str = stem(file_name.as_str());
            let name = lowercase(stem_str.as_str());
            let bytes = copy_bytes(&files[i].1);
            emotes.push(Emote { name, file_name, bytes });
            i = i + 1;
        }
        let mut text_emotes: Vec<(Vec<String>, String)> = Vec::new();
        let lenny: Vec<String> = vec!["lf".to_owned(), "lennyface".to_owned(), "lenny".to_owned()];
        text_emotes.push((lenny, "( ͡° ͜ʖ ͡°)".to_owned()));
        let shrug: Vec<String> = vec!["shrug".to_owned(), "s".to_owned()];
        text_emotes.push((shrug, "¯\\\\\\_(ツ)\\_/¯".to_owned()));
        proof {
            assert(text_emotes.deep_view() =~~= text_emote_table());
        }
        EmoteManager { emotes, text_emotes }
    }

    /// Case-insensitive exact-match lookup: the first emote whose name is the
    /// lowercased form of `name`, or nothing.
    pub fn find_emote_by_name(&self, name: &str) -> (r: Option<&Emote>)
        ensures
            r is Some <==> find_from(self.emotes@, lower_of(name@), 0) is Some,
            r matches Some(e) ==> *e == spec_find_emote(self.emotes@, lower_of(name@))->0,
    {
        let key = lowercase(name);
        let mut i: usize = 0;
        while i < self.emotes.len()
            invariant
                i <= self.emotes@.len(),
                key@ == lower_of(name@),
                find_from(self.emotes@, key@, 0) == find_from(self.emotes@, key@, i as int),
            decreases self.emotes@.len() - i,
        {
            if self.emotes[i].name == key {
                return Some(&self.emotes[i]);
            }
            i = i + 1;
        }
        None
    }

    pub fn n_emotes(&self) -> (r: usize)
        ensures
            r == self.emotes@.len(),
    {
        self.emotes.len()
    }

    pub fn emotes(&self) -> (r: &Vec<Emote>)
        ensures
            r == &self.emotes,
    {
        &self.emotes
    }

    pub fn text_emotes(&self) -> (r: &Vec<(Vec<String>, String)>)
        ensures
            r == &self.text_emotes,
    {
        &self.text_emotes
    }
}

} // verus!
