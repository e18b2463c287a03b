use vstd::prelude::*;
use crate::order::{apply_order, is_permutation, precedes, sorted_by, sorted_order, KeyedItem, SortKey, key_of};
use crate::text::{
    chars_of, ends_with, equals_literal, has_prefix, has_suffix, lowercase, push_chars, push_str,
    same_chars, starts_with, string_from_chars, to_lowercase, trim, trimmed,
};

verus! {

/// The prefix Windows puts in front of verbatim paths.
pub open spec fn verbatim_prefix() -> Seq<char> {
    seq!['\\', '\\', '?', '\\']
}

/// A path as shown to the user: without a leading `\\?\`.
pub open spec fn display_path_of(p: Seq<char>) -> Seq<char> {
    if has_prefix(p, verbatim_prefix()) { p.skip(4) } else { p }
}

/// Removes a leading `\\?\` from a path.
pub fn display_path(p: &str) -> (r: String)
    ensures
        r@ == display_path_of(p@),
{
    let c = chars_of(p);
    let pre: Vec<char> = vec!['\\', '\\', '?', '\\'];
    assert(pre@ =~= verbatim_prefix());
    if starts_with(c.as_slice(), pre.as_slice()) {
        let mut v: Vec<char> = Vec::new();
        let mut i: usize = 4;
        while i < c.len()
            invariant
                4 <= i <= c@.len(),
                v@ == c@.subrange(4, i as int),
            decreases c@.len() - i,
        {
            v.push(c[i]);
            assert(c@.subrange(4, i + 1) =~= c@.subrange(4, i as int).push(c@[i as int]));
            i = i + 1;
        }
        assert(v@ =~= c@.skip(4));
        string_from_chars(v.as_slice())
    } else {
        string_from_chars(c.as_slice())
    }
}

/// Whether a requested path asks for the overview of drives and cloud
/// folders rather than a directory.
pub open spec fn is_overview_request(path: Seq<char>, root_name: Seq<char>) -> bool {
    let t = trimmed(path);
    t == root_name || t == "This PC"@ || t == "This Mac"@ || t == "drives"@ || t == "computer"@
}

/// Decides whether a requested path asks for the overview.
pub fn overview_requested(path: &str, root_name: &str) -> (b: bool)
    ensures
        b == is_overview_request(path@, root_name@),
{
    let c = chars_of(path);
    let t = trim(c.as_slice());
    let r = chars_of(root_name);
    same_chars(t.as_slice(), r.as_slice()) || equals_literal(t.as_slice(), "This PC") || equals_literal(t.as_slice(), "This Mac")
        || equals_literal(t.as_slice(), "drives") || equals_literal(t.as_slice(), "computer")
}

/// Where a requested directory is, before the file system resolves it.
#[derive(Debug, PartialEq, Eq)]
pub enum DirTarget {
    /// The user's home directory.
    Home,
    /// A path below the home directory.
    UnderHome(String),
    /// A path as written.
    Path(String),
}

/// Whether a character takes one byte in UTF-8.
pub open spec fn is_ascii_char(c: char) -> bool {
    (c as u32) < 0x80
}

/// A trimmed request as read on Windows: a bare drive (`F:`, two bytes)
/// gets the backslash that makes it the drive's root; elsewhere, and on
/// other systems, the request stays as it is.
pub open spec fn drive_root_fixed(t: Seq<char>, on_windows: bool) -> Seq<char> {
    if on_windows && t.len() == 2 && is_ascii_char(t[0]) && t[1] == ':' { t.push('\\') } else { t }
}

/// The directory a request designates: none means home; a trimmed path
/// (with a bare Windows drive completed to its root) starting with `~`
/// means home, or, past its first two characters (the `~/`), a path
/// below home; anything else is taken as written.
pub open spec fn dir_target_of(path: Option<Seq<char>>, on_windows: bool) -> (bool, Option<Seq<char>>, Seq<char>) {
    match path {
        None => (true, None, Seq::empty()),
        Some(p) => {
            let t = drive_root_fixed(trimmed(p), on_windows);
            if has_prefix(t, seq!['~']) {
                if t.len() > 2 { (false, Some(t.skip(2)), Seq::empty()) } else { (true, None, Seq::empty()) }
            } else {
                (false, None, t)
            }
        },
    }
}

pub open spec fn dir_target_view(d: DirTarget) -> (bool, Option<Seq<char>>, Seq<char>) {
    match d {
        DirTarget::Home => (true, None, Seq::empty()),
        DirTarget::UnderHome(s) => (false, Some(s@), Seq::empty()),
        DirTarget::Path(s) => (false, None, s@),
    }
}

/// Works out which directory a request designates; `on_windows` tells
/// whether a bare drive is completed to its root.  A `~` followed by a
/// character that is not ASCII is left out: the byte offset two would
/// fall inside that character.
pub fn dir_target(path: Option<&str>, on_windows: bool) -> (d: DirTarget)
    requires
        path matches Some(p) ==> (has_prefix(trimmed(p@), seq!['~']) && trimmed(p@).len() >= 2
            ==> is_ascii_char(trimmed(p@)[1])),
    ensures
        dir_target_view(d) == dir_target_of(match path { Some(p) => Some(p@), None => None }, on_windows),
{
    match path {
        None => DirTarget::Home,
        Some(p) => {
            let c = chars_of(p);
            let mut t = trim(c.as_slice());
            if on_windows && t.len() == 2 && (t[0] as u32) < 0x80 && t[1] == ':' {
                t.push('\\');
            }
            if t.len() > 0 && t[0] == '~' {
                assert(has_prefix(t@, seq!['~'])) by {
                    assert(t@.take(1) =~= seq!['~']);
                }
                if t.len() > 2 {
                    let mut v: Vec<char> = Vec::new();
                    let mut i: usize = 2;
                    while i < t.len()
                        invariant
                            2 <= i <= t@.len(),
                            v@ == t@.subrange(2, i as int),
                        decreases t@.len() - i,
                    {
                        v.push(t[i]);
                        assert(t@.subrange(2, i + 1) =~= t@.subrange(2, i as int).push(t@[i as int]));
                        i = i + 1;
                    }
                    assert(v@ =~= t@.skip(2));
                    DirTarget::UnderHome(string_from_chars(v.as_slice()))
                } else {
                    DirTarget::Home
                }
            } else {
                assert(!has_prefix(t@, seq!['~'])) by {
                    if has_prefix(t@, seq!['~']) {
                        assert(t@.take(1)[0] == '~');
                    }
                }
                DirTarget::Path(string_from_chars(t.as_slice()))
            }
        },
    }
}

/// The parent shown for a directory: the overview (named `root_name`) at
/// a drive root, where the parent is missing, empty or a drive (`C:`).
pub open spec fn parent_shown_of(parent: Option<Seq<char>>, root_name: Seq<char>) -> Seq<char> {
    match parent {
        Some(p) => if p.len() == 0 || has_suffix(p, seq![':']) { root_name } else { p },
        None => root_name,
    }
}

/// Works out the parent shown for a directory; `parent` is already
/// cleaned of a verbatim prefix.
pub fn parent_shown(parent: Option<&str>, root_name: &str) -> (r: String)
    ensures
        r@ == parent_shown_of(match parent { Some(p) => Some(p@), None => None }, root_name@),
{
    match parent {
        Some(p) => {
            let c = chars_of(p);
            let colon: Vec<char> = vec![':'];
            assert(colon@ =~= seq![':']);
            if c.len() == 0 || ends_with(c.as_slice(), colon.as_slice()) {
                String::from_str(root_name)
            } else {
                String::from_str(p)
            }
        },
        None => String::from_str(root_name),
    }
}

/// File name endings of the audio files a directory listing shows.
pub open spec fn is_audio_name(lower: Seq<char>) -> bool {
    has_suffix(lower, ".wav"@) || has_suffix(lower, ".mp3"@) || has_suffix(lower, ".flac"@)
        || has_suffix(lower, ".m4a"@) || has_suffix(lower, ".aiff"@) || has_suffix(lower, ".ogg"@)
}

fn ends_lit(s: &[char], lit: &str) -> (b: bool)
    ensures
        b == has_suffix(s@, lit@),
{
    let l = chars_of(lit);
    ends_with(s, l.as_slice())
}

/// Whether an entry of a directory is listed: hidden entries (name starting
/// with `.`) never are; directories always are; files when their name, in
/// lower case, has an audio file ending.
pub open spec fn is_listed(name: Seq<char>, is_dir: bool) -> bool {
    !has_prefix(name, seq!['.']) && (is_dir || is_audio_name(lowercase(name)))
}

/// Decides whether a directory entry is listed.
pub fn listed(name: &str, is_dir: bool) -> (b: bool)
    ensures
        b == is_listed(name@, is_dir),
{
    let c = chars_of(name);
    let dot: Vec<char> = vec!['.'];
    assert(dot@ =~= seq!['.']);
    if starts_with(c.as_slice(), dot.as_slice()) {
        return false;
    }
    if is_dir {
        return true;
    }
    let low = to_lowercase(name);
    let l = chars_of(low.as_str());
    let s = l.as_slice();
    ends_lit(s, ".wav") || ends_lit(s, ".mp3") || ends_lit(s, ".flac") || ends_lit(s, ".m4a")
        || ends_lit(s, ".aiff") || ends_lit(s, ".ogg")
}

/// `s` without any number of leading dots.
pub open spec fn without_leading_dots(s: Seq<char>) -> Seq<char>
    decreases s.len(),
{
    if s.len() > 0 && s[0] == '.' { without_leading_dots(s.drop_first()) } else { s }
}

/// A file extension as the library scan compares it: lower case, without
/// leading dots.
pub open spec fn normalized_extension_of(e: Seq<char>) -> Seq<char> {
    without_leading_dots(lowercase(e))
}

/// Normalises a file extension given by the user.
pub fn normalize_extension(e: &str) -> (r: String)
    ensures
        r@ == normalized_extension_of(e@),
{
    let low = to_lowercase(e);
    let c = chars_of(low.as_str());
    let mut a: usize = 0;
    assert(c@.skip(0) =~= c@);
    while a < c.len() && c[a] == '.'
        invariant
            a <= c@.len(),
            without_leading_dots(c@) == without_leading_dots(c@.skip(a as int)),
        decreases c@.len() - a,
    {
        assert(c@.skip(a as int).drop_first() =~= c@.skip(a + 1));
        a = a + 1;
    }
    let mut v: Vec<char> = Vec::new();
    let mut i: usize = a;
    while i < c.len()
        invariant
            a <= i <= c@.len(),
            v@ == c@.subrange(a as int, i as int),
        decreases c@.len() - i,
    {
        v.push(c[i]);
        assert(c@.subrange(a as int, i + 1) =~= c@.subrange(a as int, i as int).push(c@[i as int]));
        i = i + 1;
    }
    assert(v@ =~= c@.skip(a as int));
    if a < c.len() {
        assert(c@.skip(a as int)[0] == c@[a as int]);
    }
    string_from_chars(v.as_slice())
}

/// The path of a file relative to the scanned folder.
pub open spec fn relative_path_of(prefix: Seq<char>, name: Seq<char>) -> Seq<char> {
    if prefix.len() == 0 { name } else { prefix + seq!['/'] + name }
}

/// Joins a relative folder path and a file name.
pub fn relative_path(prefix: &str, name: &str) -> (r: String)
    ensures
        r@ == relative_path_of(prefix@, name@),
{
    let p = chars_of(prefix);
    if p.len() == 0 {
        String::from_str(name)
    } else {
        let mut v: Vec<char> = Vec::new();
        push_chars(&mut v, p.as_slice());
        v.push('/');
        push_str(&mut v, name);
        assert(v@ =~= prefix@ + seq!['/'] + name@);
        string_from_chars(v.as_slice())
    }
}

/// A hidden entry: its name starts with `.`.  Library scans and volume
/// listings pass over hidden entries.
pub open spec fn is_hidden_name(name: Seq<char>) -> bool {
    has_prefix(name, seq!['.'])
}

/// Whether an entry named `name` is hidden.
pub fn hidden_name(name: &str) -> (b: bool)
    ensures
        b == is_hidden_name(name@),
{
    let n = chars_of(name);
    if n.len() > 0 && n[0] == '.' {
        assert(n@.take(1) =~= seq!['.']);
        true
    } else {
        proof {
            if has_prefix(n@, seq!['.']) {
                assert(n@.take(1)[0] == '.');
            }
        }
        false
    }
}

/// Whether a file of extension `ext` (already in lower case) is kept by a
/// scan: every file is when no extensions are given, otherwise those
/// whose extension is one of them.
pub open spec fn extension_kept(ext: Seq<char>, allowed: Option<Seq<Seq<char>>>) -> bool {
    match allowed {
        None => true,
        Some(list) => list.contains(ext),
    }
}

/// Decides whether a scanned file is kept.
pub fn keeps_extension(ext: &str, allowed: &Option<Vec<String>>) -> (b: bool)
    ensures
        b == extension_kept(ext@, match allowed { Some(v) => Some(v@.map_values(|s: String| s@)), None => None }),
{
    match allowed {
        None => true,
        Some(list) => {
            let e = String::from_str(ext);
            let ghost m = list@.map_values(|s: String| s@);
            let mut i: usize = 0;
            while i < list.len()
                invariant
                    i <= list@.len(),
                    m == list@.map_values(|s: String| s@),
                    *allowed == Some(*list),
                    e@ == ext@,
                    forall|j: int| 0 <= j < i ==> m[j] != ext@,
                decreases list@.len() - i,
            {
                if list[i] == e {
                    assert(m[i as int] == ext@);
                    assert(m.contains(ext@));
                    return true;
                }
                i = i + 1;
            }
            false
        },
    }
}

/// What a listed entry is.
#[derive(Clone, Copy, Debug, PartialEq, Eq, Structural)]
pub enum EntryKind {
    Drive,
    Cloud,
    Dir,
    File,
}

/// The name of an entry kind sent to the user interface.
pub open spec fn kind_name_of(k: EntryKind) -> Seq<char> {
    match k {
        EntryKind::Drive => "drive"@,
        EntryKind::Cloud => "cloud"@,
        EntryKind::Dir => "dir"@,
        EntryKind::File => "file"@,
    }
}

impl EntryKind {
    /// The name of the kind sent to the user interface.
    pub fn name(&self) -> (s: &'static str)
        ensures
            s@ == kind_name_of(*self),
    {
        match self {
            EntryKind::Drive => "drive",
            EntryKind::Cloud => "cloud",
            EntryKind::Dir => "dir",
            EntryKind::File => "file",
        }
    }
}

/// An entry of a directory listing, a drive or a cloud folder.
#[derive(Debug)]
pub struct DirEntry {
    pub name: String,
    pub path: String,
    pub is_dir: bool,
    pub size_bytes: u64,
    pub kind: EntryKind,
}

/// A file found by a library scan.
#[derive(Debug)]
pub struct AssetFileInfo {
    pub name: String,
    pub path: String,
    pub relative_path: String,
    pub extension: String,
    pub size_bytes: u64,
    pub mtime_ms: u64,
}

/// A directory listing is sorted directories first, then by name in lower
/// case.
pub open spec fn listing_key(e: DirEntry) -> SortKey {
    (if e.is_dir { 0u8 } else { 1u8 }, lowercase(e.name@))
}

/// Cloud folders and scanned files are sorted by name in lower case.
pub open spec fn name_key(name: Seq<char>) -> SortKey {
    (0u8, lowercase(name))
}

/// `r` holds `items` reordered by the stable sort on `keys`.
pub open spec fn stably_sorted<T>(items: Seq<T>, keys: Seq<SortKey>, r: Seq<T>) -> bool {
    exists|p: Seq<usize>| {
        &&& is_permutation(p, items.len())
        &&& sorted_by(p, keys)
        &&& r.len() == p.len()
        &&& forall|k: int| 0 <= k < p.len() ==> #[trigger] r[k] == items[p[k] as int]
    }
}

fn sort_with_keys<T>(items: Vec<T>, keys: Vec<KeyedItem>) -> (r: Vec<T>)
    requires
        keys@.len() == items@.len(),
    ensures
        stably_sorted(items@, keys@.map_values(|k: KeyedItem| key_of(k)), r@),
{
    let p = sorted_order(keys.as_slice());
    let ghost orig = items@;
    let r = apply_order(items, p.as_slice());
    assert(is_permutation(p@, orig.len()));
    r
}

/// Sorts a directory listing: directories first, then by name in lower
/// case; entries that compare equal keep their order.
pub fn sort_listing(entries: Vec<DirEntry>) -> (r: Vec<DirEntry>)
    ensures
        stably_sorted(entries@, entries@.map_values(|e: DirEntry| listing_key(e)), r@),
{
    let mut keys: Vec<KeyedItem> = Vec::new();
    let mut i: usize = 0;
    while i < entries.len()
        invariant
            i <= entries@.len(),
            keys@.len() == i,
            forall|j: int| 0 <= j < i ==> key_of(#[trigger] keys@[j]) == listing_key(entries@[j]),
        decreases entries@.len() - i,
    {
        let low = to_lowercase(entries[i].name.as_str());
        let text = chars_of(low.as_str());
        let group: u8 = if entries[i].is_dir { 0 } else { 1 };
        keys.push(KeyedItem { group, text });
        i = i + 1;
    }
    assert(keys@.map_values(|k: KeyedItem| key_of(k)) =~= entries@.map_values(|e: DirEntry| listing_key(e)));
    sort_with_keys(entries, keys)
}

/// Sorts cloud folders by name in lower case, keeping the order of equal
/// names.
pub fn sort_folders_by_name(entries: Vec<DirEntry>) -> (r: Vec<DirEntry>)
    ensures
        stably_sorted(entries@, entries@.map_values(|e: DirEntry| name_key(e.name@)), r@),
{
    let mut keys: Vec<KeyedItem> = Vec::new();
    let mut i: usize = 0;
    while i < entries.len()
        invariant
            i <= entries@.len(),
            keys@.len() == i,
            forall|j: int| 0 <= j < i ==> key_of(#[trigger] keys@[j]) == name_key(entries@[j].name@),
        decreases entries@.len() - i,
    {
        let low = to_lowercase(entries[i].name.as_str());
        let text = chars_of(low.as_str());
        keys.push(KeyedItem { group: 0, text });
        i = i + 1;
    }
    assert(keys@.map_values(|k: KeyedItem| key_of(k)) =~= entries@.map_values(|e: DirEntry| name_key(e.name@)));
    sort_with_keys(entries, keys)
}

/// Sorts the files found by a library scan by name in lower case, keeping
/// the order of equal names.
pub fn sort_assets(files: Vec<AssetFileInfo>) -> (r: Vec<AssetFileInfo>)
    ensures
        stably_sorted(files@, files@.map_values(|f: AssetFileInfo| name_key(f.name@)), r@),
{
    let mut keys: Vec<KeyedItem> = Vec::new();
    let mut i: usize = 0;
    while i < files.len()
        invariant
            i <= files@.len(),
            keys@.len() == i,
            forall|j: int| 0 <= j < i ==> key_of(#[trigger] keys@[j]) == name_key(files@[j].name@),
        decreases files@.len() - i,
    {
        let low = to_lowercase(files[i].name.as_str());
        let text = chars_of(low.as_str());
        keys.push(KeyedItem { group: 0, text });
        i = i + 1;
    }
    assert(keys@.map_values(|k: KeyedItem| key_of(k)) =~= files@.map_values(|f: AssetFileInfo| name_key(f.name@)));
    sort_with_keys(files, keys)
}

/// The name shown for a Dropbox account listed in Dropbox's `info.json`.
pub open spec fn dropbox_name_of(key: Seq<char>) -> Seq<char> {
    if key == "personal"@ {
        "Dropbox (Personal)"@
    } else if key == "business"@ {
        "Dropbox (Business)"@
    } else {
        "Dropbox ("@ + key + ")"@
    }
}

/// Names a Dropbox account.
pub fn dropbox_name(key: &str) -> (r: String)
    ensures
        r@ == dropbox_name_of(key@),
{
    let k = chars_of(key);
    if equals_literal(k.as_slice(), "personal") {
        String::from_str("Dropbox (Personal)")
    } else if equals_literal(k.as_slice(), "business") {
        String::from_str("Dropbox (Business)")
    } else {
        let mut v: Vec<char> = Vec::new();
        push_str(&mut v, "Dropbox (");
        push_chars(&mut v, k.as_slice());
        push_str(&mut v, ")");
        string_from_chars(v.as_slice())
    }
}

/// The entries of Dropbox's `info.json` as `serde_json` reads them: for
/// each key of the top-level object, in the order the parsed object walks
/// its keys, the key and the `path` string under it (`None` where the
/// entry has no string `path`); `None` where the text is not a JSON
/// object.
pub uninterp spec fn dropbox_info_of(text: Seq<char>) -> Option<Seq<(Seq<char>, Option<Seq<char>>)>>;

/// An `info.json` entry seen abstractly.
pub open spec fn info_entry_view(e: (String, Option<String>)) -> (Seq<char>, Option<Seq<char>>) {
    (e.0@, match e.1 { Some(p) => Some(p@), None => None })
}

/// Parses `info.json` with `serde_json::from_str` into a JSON value, which
/// depends on the text alone, and copies out each key of the top-level
/// object with its `path` string; the contract names the result.
#[verifier::external_body]
fn read_dropbox_info(text: &str) -> (r: Option<Vec<(String, Option<String>)>>)
    ensures
        match r {
            Some(v) => dropbox_info_of(text@) == Some(v@.map_values(|e: (String, Option<String>)| info_entry_view(e))),
            None => dropbox_info_of(text@) is None,
        },
{
    let v: serde_json::Value = serde_json::from_str(text).ok()?;
    let obj = v.as_object()?;
    Some(obj.iter().map(|(k, e)| (k.clone(), e.get("path").and_then(|p| p.as_str()).map(|p| p.to_string()))).collect())
}

/// The Dropbox accounts of the entries: each entry with a path, in order,
/// as its shown name and its path.
pub open spec fn dropbox_accounts_of(es: Seq<(Seq<char>, Option<Seq<char>>)>) -> Seq<(Seq<char>, Seq<char>)>
    decreases es.len(),
{
    if es.len() == 0 {
        Seq::empty()
    } else {
        let rest = dropbox_accounts_of(es.drop_last());
        match es.last().1 {
            Some(p) => rest.push((dropbox_name_of(es.last().0), p)),
            None => rest,
        }
    }
}

/// The Dropbox accounts listed in the text of Dropbox's `info.json`: the
/// shown name and the folder of each account that has a path, in order;
/// none where the text is not a JSON object.
pub fn dropbox_accounts(info_json: &str) -> (r: Vec<(String, String)>)
    ensures
        r@.map_values(|a: (String, String)| (a.0@, a.1@)) == match dropbox_info_of(info_json@) {
            Some(es) => dropbox_accounts_of(es),
            None => Seq::empty(),
        },
{
    let mut r: Vec<(String, String)> = Vec::new();
    match read_dropbox_info(info_json) {
        None => {
            assert(r@.map_values(|a: (String, String)| (a.0@, a.1@)) =~= Seq::<(Seq<char>, Seq<char>)>::empty());
        },
        Some(entries) => {
            let ghost es = entries@.map_values(|e: (String, Option<String>)| info_entry_view(e));
            let mut i: usize = 0;
            while i < entries.len()
                invariant
                    i <= entries@.len(),
                    es == entries@.map_values(|e: (String, Option<String>)| info_entry_view(e)),
                    r@.map_values(|a: (String, String)| (a.0@, a.1@)) == dropbox_accounts_of(es.take(i as int)),
                decreases entries@.len() - i,
            {
                assert(es.take(i + 1).drop_last() =~= es.take(i as int));
                assert(es.take(i + 1).last() == info_entry_view(entries@[i as int]));
                let ghost before = r@.map_values(|a: (String, String)| (a.0@, a.1@));
                match &entries[i].1 {
                    Some(p) => {
                        let name = dropbox_name(entries[i].0.as_str());
                        let path = p.clone();
                        r.push((name, path));
                        assert(r@.map_values(|a: (String, String)| (a.0@, a.1@)) =~= before.push((name@, path@)));
                    },
                    None => {},
                }
                i = i + 1;
            }
            assert(es.take(entries@.len() as int) =~= es);
        },
    }
    r
}

/// The name shown for the root file system among the drives of a Unix
/// system: `Macintosh HD (/)` on macOS, `Root (/)` elsewhere.
pub open spec fn root_drive_label_of(is_mac: bool) -> Seq<char> {
    if is_mac { "Macintosh HD (/)"@ } else { "Root (/)"@ }
}

/// Names the root file system among the drives.
pub fn root_drive_label(is_mac: bool) -> (r: String)
    ensures
        r@ == root_drive_label_of(is_mac),
{
    if is_mac {
        String::from_str("Macintosh HD (/)")
    } else {
        String::from_str("Root (/)")
    }
}

/// The drive name of a mounted volume called `name`: none for a hidden
/// volume (its name starts with `.`) or one that is the root file system
/// itself, else the name followed by ` (Volume)`.
pub open spec fn volume_label_of(name: Seq<char>, is_root: bool) -> Option<Seq<char>> {
    if is_hidden_name(name) || is_root {
        None
    } else {
        Some(name + " (Volume)"@)
    }
}

/// Names a mounted volume, or leaves it out of the drives.
pub fn volume_label(name: &str, is_root: bool) -> (r: Option<String>)
    ensures
        match volume_label_of(name@, is_root) {
            Some(l) => r matches Some(s) && s@ == l,
            None => r is None,
        },
{
    let n = chars_of(name);
    if n.len() > 0 && n[0] == '.' {
        assert(n@.take(1) =~= seq!['.']);
        return None;
    }
    proof {
        if has_prefix(n@, seq!['.']) {
            assert(n@.take(1)[0] == '.');
        }
    }
    if is_root {
        return None;
    }
    let mut v = n;
    push_str(&mut v, " (Volume)");
    Some(string_from_chars(v.as_slice()))
}

/// Keys already seen, in lower case, when collecting cloud folders: the
/// first folder of each path is kept.
pub struct SeenPaths {
    keys: Vec<String>,
}

impl View for SeenPaths {
    type V = Set<Seq<char>>;

    closed spec fn view(&self) -> Set<Seq<char>> {
        self.keys@.map_values(|s: String| s@).to_set()
    }
}

impl SeenPaths {
    pub fn new() -> (s: Self)
        ensures
            s@ == Set::<Seq<char>>::empty(),
    {
        let s = SeenPaths { keys: Vec::new() };
        assert(s@ =~= Set::<Seq<char>>::empty());
        s
    }

    /// Records `path`; returns whether it was new (compared in lower case).
    pub fn first_visit(&mut self, path: &str) -> (fresh: bool)
        ensures
            fresh == !old(self)@.contains(lowercase(path@)),
            final(self)@ == old(self)@.insert(lowercase(path@)),
    {
        let key = to_lowercase(path);
        let ghost m = self.keys@.map_values(|s: String| s@);
        let mut i: usize = 0;
        while i < self.keys.len()
            invariant
                i <= self.keys@.len(),
                self.keys@ == old(self).keys@,
                key@ == lowercase(path@),
                m == self.keys@.map_values(|s: String| s@),
                forall|j: int| 0 <= j < i ==> m[j] != key@,
            decreases self.keys@.len() - i,
        {
            if self.keys[i] == key {
                assert(m[i as int] == key@);
                assert(self@.contains(key@));
                assert(self@.insert(key@) =~= self@);
                return false;
            }
            i = i + 1;
        }
        assert(!m.contains(key@));
        let ghost before = self@;
        self.keys.push(key);
        assert(self.keys@.map_values(|s: String| s@) =~= m.push(key@));
        proof {
            m.lemma_push_to_set_commute(key@);
        }
        assert(self@ =~= before.insert(key@));
        true
    }
}

/// In a sorted directory listing no directory comes after a file, and the
/// entries are the listed ones, each taken once.
pub proof fn law_listing_dirs_first(entries: Seq<DirEntry>, r: Seq<DirEntry>)
    requires
        stably_sorted(entries, entries.map_values(|e: DirEntry| listing_key(e)), r),
    ensures
        r.len() == entries.len(),
        forall|a: int, b: int| 0 <= a < b < r.len() && r[b].is_dir ==> r[a].is_dir,
        forall|k: int| 0 <= k < r.len() ==> entries.contains(#[trigger] r[k]),
{
    let keys = entries.map_values(|e: DirEntry| listing_key(e));
    let p = choose|p: Seq<usize>| {
        &&& is_permutation(p, entries.len())
        &&& sorted_by(p, keys)
        &&& r.len() == p.len()
        &&& forall|k: int| 0 <= k < p.len() ==> #[trigger] r[k] == entries[p[k] as int]
    };
    assert forall|a: int, b: int| 0 <= a < b < r.len() && r[b].is_dir implies r[a].is_dir by {
        assert(r[a] == entries[p[a] as int] && r[b] == entries[p[b] as int]);
        assert(keys[p[a] as int] == listing_key(entries[p[a] as int]));
        assert(keys[p[b] as int] == listing_key(entries[p[b] as int]));
        assert(precedes(keys[p[a] as int], p[a] as int, keys[p[b] as int], p[b] as int));
    }
    assert forall|k: int| 0 <= k < r.len() implies entries.contains(#[trigger] r[k]) by {
        assert(r[k] == entries[p[k] as int]);
        assert(p[k] < entries.len());
    }
}

/// `s` without every leading repetition of `p` (for a non-empty `p`).
pub open spec fn strip_all_prefixes(s: Seq<char>, p: Seq<char>) -> Seq<char>
    decreases s.len(),
{
    if p.len() > 0 && has_prefix(s, p) {
        strip_all_prefixes(s.skip(p.len() as int), p)
    } else {
        s
    }
}

fn strip_all_exec(s: &[char], p: &[char]) -> (r: Vec<char>)
    requires
        p@.len() > 0,
    ensures
        r@ == strip_all_prefixes(s@, p@),
{
    let mut a: usize = 0;
    assert(s@.skip(0) =~= s@);
    while occurs_at_start(s, p, a)
        invariant
            a <= s@.len(),
            p@.len() > 0,
            strip_all_prefixes(s@, p@) == strip_all_prefixes(s@.skip(a as int), p@),
        decreases s@.len() - a,
    {
        assert(s@.skip(a as int).skip(p@.len() as int) =~= s@.skip(a + p@.len()));
        assert(a + p@.len() <= s@.len());
        assert(s@.len() == s.len());
        a = a + p.len();
    }
    let mut v: Vec<char> = Vec::new();
    let mut i: usize = a;
    while i < s.len()
        invariant
            a <= i <= s@.len(),
            v@ == s@.subrange(a as int, i as int),
        decreases s@.len() - i,
    {
        v.push(s[i]);
        assert(s@.subrange(a as int, i + 1) =~= s@.subrange(a as int, i as int).push(s@[i as int]));
        i = i + 1;
    }
    assert(v@ =~= s@.skip(a as int));
    v
}

fn occurs_at_start(s: &[char], p: &[char], a: usize) -> (b: bool)
    requires
        a <= s@.len(),
    ensures
        b == has_prefix(s@.skip(a as int), p@),
{
    if p.len() > s.len() - a {
        return false;
    }
    let mut i: usize = 0;
    while i < p.len()
        invariant
            a + p@.len() <= s@.len(),
            s@.len() == s.len(),
            i <= p@.len(),
            forall|j: int| 0 <= j < i ==> s@[a + j] == p@[j],
        decreases p@.len() - i,
    {
        if s[a + i] != p[i] {
            assert(s@.skip(a as int).take(p@.len() as int)[i as int] != p@[i as int]);
            return false;
        }
        i = i + 1;
    }
    assert(s@.skip(a as int).take(p@.len() as int) =~= p@);
    true
}

/// `s` with every `-` replaced by a space.
pub open spec fn dashes_to_spaces(s: Seq<char>) -> Seq<char> {
    s.map_values(|c: char| if c == '-' { ' ' } else { c })
}

/// The name shown for a folder of the macOS cloud storage directory.
pub open spec fn cloud_storage_name_of(raw: Seq<char>) -> Seq<char> {
    if has_prefix(raw, "Dropbox"@) {
        dashes_to_spaces(raw)
    } else if has_prefix(raw, "GoogleDrive"@) {
        "Google Drive ("@ + strip_all_prefixes(raw, "GoogleDrive-"@) + ")"@
    } else if has_prefix(raw, "OneDrive"@) {
        "OneDrive ("@ + strip_all_prefixes(raw, "OneDrive-"@) + ")"@
    } else if has_prefix(raw, "Box"@) {
        "Box"@
    } else {
        raw
    }
}

fn starts_lit(s: &[char], lit: &str) -> (b: bool)
    ensures
        b == has_prefix(s@, lit@),
{
    let l = chars_of(lit);
    starts_with(s, l.as_slice())
}

/// Names a folder of the macOS cloud storage directory.
pub fn cloud_storage_name(raw: &str) -> (r: String)
    ensures
        r@ == cloud_storage_name_of(raw@),
{
    let c = chars_of(raw);
    let s = c.as_slice();
    if starts_lit(s, "Dropbox") {
        let mut v: Vec<char> = Vec::new();
        let mut i: usize = 0;
        while i < s.len()
            invariant
                i <= s@.len(),
                v@ == dashes_to_spaces(s@.take(i as int)),
            decreases s@.len() - i,
        {
            let ch = s[i];
            v.push(if ch == '-' { ' ' } else { ch });
            assert(dashes_to_spaces(s@.take(i + 1)) =~= dashes_to_spaces(s@.take(i as int)).push(if ch == '-' { ' ' } else { ch }));
            i = i + 1;
        }
        assert(s@.take(s@.len() as int) =~= s@);
        string_from_chars(v.as_slice())
    } else if starts_lit(s, "GoogleDrive") {
        let pre = chars_of("GoogleDrive-");
        proof {
            reveal_strlit("GoogleDrive-");
        }
        let rest = strip_all_exec(s, pre.as_slice());
        let mut v: Vec<char> = Vec::new();
        push_str(&mut v, "Google Drive (");
        push_chars(&mut v, rest.as_slice());
        push_str(&mut v, ")");
        string_from_chars(v.as_slice())
    } else if starts_lit(s, "OneDrive") {
        let pre = chars_of("OneDrive-");
        proof {
            reveal_strlit("OneDrive-");
        }
        let rest = strip_all_exec(s, pre.as_slice());
        let mut v: Vec<char> = Vec::new();
        push_str(&mut v, "OneDrive (");
        push_chars(&mut v, rest.as_slice());
        push_str(&mut v, ")");
        string_from_chars(v.as_slice())
    } else if starts_lit(s, "Box") {
        String::from_str("Box")
    } else {
        string_from_chars(s)
    }
}

/// The name shown for a Windows drive: its volume label when it has one,
/// otherwise a description of its drive type.
pub open spec fn drive_name_of(label: Seq<char>, letter: char, drive_type: u32) -> Seq<char> {
    let tail = seq![' ', '(', letter, ':', ')'];
    if label.len() > 0 {
        label + tail
    } else if drive_type == 2 {
        "Removable Disk"@ + tail
    } else if drive_type == 3 {
        "Local Disk"@ + tail
    } else if drive_type == 4 {
        "Network Drive"@ + tail
    } else if drive_type == 5 {
        "CD Drive"@ + tail
    } else {
        "Drive"@ + tail
    }
}

/// Names a Windows drive.
pub fn drive_name(label: &str, letter: char, drive_type: u32) -> (r: String)
    ensures
        r@ == drive_name_of(label@, letter, drive_type),
{
    let l = chars_of(label);
    let mut v: Vec<char> = Vec::new();
    if l.len() > 0 {
        push_chars(&mut v, l.as_slice());
    } else if drive_type == 2 {
        push_str(&mut v, "Removable Disk");
    } else if drive_type == 3 {
        push_str(&mut v, "Local Disk");
    } else if drive_type == 4 {
        push_str(&mut v, "Network Drive");
    } else if drive_type == 5 {
        push_str(&mut v, "CD Drive");
    } else {
        push_str(&mut v, "Drive");
    }
    let ghost head = v@;
    v.push(' ');
    v.push('(');
    v.push(letter);
    v.push(':');
    v.push(')');
    assert(v@ =~= head + seq![' ', '(', letter, ':', ')']);
    string_from_chars(v.as_slice())
}

/// Whether a Windows drive letter is listed: drive types 0 and 1 (unknown,
/// no root directory) are not, nor optical drives without a disc.
pub open spec fn drive_listed_of(drive_type: u32, has_volume_info: bool) -> bool {
    drive_type > 1 && !(drive_type == 5 && !has_volume_info)
}

/// Decides whether a Windows drive letter is listed.
pub fn drive_listed(drive_type: u32, has_volume_info: bool) -> (b: bool)
    ensures
        b == drive_listed_of(drive_type, has_volume_info),
{
    drive_type > 1 && !(drive_type == 5 && !has_volume_info)
}

/// macOS marks online-only cloud placeholders with this file flag.
pub const UF_DATALESS: u32 = 0x4000_0000;
/// Windows file attributes of files whose content is elsewhere.
pub const FILE_ATTRIBUTE_RECALL_ON_DATA_ACCESS: u32 = 0x0040_0000;
pub const FILE_ATTRIBUTE_OFFLINE: u32 = 0x0000_1000;

/// Whether a macOS file's content is on the disk: not a placeholder, and,
/// when non-empty, with blocks allocated.
pub open spec fn mac_file_local(flags: u32, len: u64, blocks: u64) -> bool {
    flags & UF_DATALESS == 0 && !(len > 0 && blocks == 0)
}

/// Decides whether a macOS file's content is on the disk.
pub fn mac_file_downloaded(flags: u32, len: u64, blocks: u64) -> (b: bool)
    ensures
        b == mac_file_local(flags, len, blocks),
{
    if flags & UF_DATALESS != 0 {
        return false;
    }
    if len > 0 && blocks == 0 {
        return false;
    }
    true
}

/// Whether a Windows file's content is on the disk: neither recalled on
/// access nor offline.
pub open spec fn windows_file_local(attrs: u32) -> bool {
    attrs & (FILE_ATTRIBUTE_RECALL_ON_DATA_ACCESS | FILE_ATTRIBUTE_OFFLINE) == 0
}

/// Decides whether a Windows file's content is on the disk.
pub fn windows_file_downloaded(attrs: u32) -> (b: bool)
    ensures
        b == windows_file_local(attrs),
{
    attrs & (FILE_ATTRIBUTE_RECALL_ON_DATA_ACCESS | FILE_ATTRIBUTE_OFFLINE) == 0
}

} // verus!
