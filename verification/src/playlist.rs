use vstd::prelude::*;
use crate::text::{
    chars_of, ends_with, equals_literal, has_prefix, has_suffix, is_digit, is_space,
    lemma_signed_decimal_chars, lemma_split_append_line, lemma_trimmed_bounded,
    lemma_trimmed_idempotent, lines_of, lowercase, push_signed_decimal, push_str, signed_decimal,
    split_lines, starts_with, string_from_chars, to_lowercase, trim, trimmed,
};

verus! {

/// Where a playlist is written.
#[derive(Clone, Copy, Debug, PartialEq, Eq, Structural)]
pub enum PlaylistFormat {
    /// An extended M3U text (`m3u`, `m3u8`).
    M3u,
    /// A JSON set file (`thset`, `json`).
    Json,
}

/// The format a playlist format name selects, or the error message for
/// an unknown name; names are compared in lower case.
pub open spec fn playlist_format_of(name: Seq<char>) -> Result<PlaylistFormat, Seq<char>> {
    let l = lowercase(name);
    if l == "m3u"@ || l == "m3u8"@ {
        Ok(PlaylistFormat::M3u)
    } else if l == "thset"@ || l == "json"@ {
        Ok(PlaylistFormat::Json)
    } else {
        Err("Unsupported playlist format: "@ + name)
    }
}

/// Picks the playlist format from its name.
pub fn playlist_format(name: &str) -> (r: Result<PlaylistFormat, String>)
    ensures
        match (r, playlist_format_of(name@)) {
            (Ok(a), Ok(b)) => a == b,
            (Err(a), Err(b)) => a@ == b,
            _ => false,
        },
{
    let low = to_lowercase(name);
    let l = chars_of(low.as_str());
    if equals_literal(l.as_slice(), "m3u") || equals_literal(l.as_slice(), "m3u8") {
        Ok(PlaylistFormat::M3u)
    } else if equals_literal(l.as_slice(), "thset") || equals_literal(l.as_slice(), "json") {
        Ok(PlaylistFormat::Json)
    } else {
        let mut v: Vec<char> = Vec::new();
        push_str(&mut v, "Unsupported playlist format: ");
        push_str(&mut v, name);
        Err(string_from_chars(v.as_slice()))
    }
}

/// Whether a playlist file is read as JSON: its path ends in `.json` or
/// `.thset`, in lower case.  Other files are read as M3U text.
pub open spec fn is_json_playlist_path(path: Seq<char>) -> bool {
    has_suffix(lowercase(path), ".json"@) || has_suffix(lowercase(path), ".thset"@)
}

/// Decides how a playlist file is read.
pub fn is_json_playlist(path: &str) -> (b: bool)
    ensures
        b == is_json_playlist_path(path@),
{
    let low = to_lowercase(path);
    let l = chars_of(low.as_str());
    let a = chars_of(".json");
    let b = chars_of(".thset");
    ends_with(l.as_slice(), a.as_slice()) || ends_with(l.as_slice(), b.as_slice())
}

/// A playlist item to write: its title, its location and its duration
/// in whole seconds.
#[derive(Debug)]
pub struct M3uItem {
    pub name: String,
    pub path: String,
    pub seconds: i64,
}

/// The M3U text lines of one item.
pub open spec fn m3u_item_text(it: M3uItem) -> Seq<char> {
    "#EXTINF:"@ + signed_decimal(it.seconds as int) + ","@ + it.name@ + "\n"@ + it.path@ + "\n"@
}

/// The M3U text of the items that come before position `n`.
pub open spec fn m3u_items_text(items: Seq<M3uItem>, n: nat) -> Seq<char>
    decreases n,
{
    if n == 0 {
        Seq::empty()
    } else {
        m3u_items_text(items, (n - 1) as nat) + m3u_item_text(items[n - 1])
    }
}

/// An extended M3U playlist: the header line, then two lines per item.
pub open spec fn m3u_text(items: Seq<M3uItem>) -> Seq<char> {
    "#EXTM3U\n"@ + m3u_items_text(items, items.len())
}

/// Writes an extended M3U playlist.
pub fn write_m3u(items: &[M3uItem]) -> (s: String)
    ensures
        s@ == m3u_text(items@),
{
    let mut v: Vec<char> = Vec::new();
    push_str(&mut v, "#EXTM3U\n");
    let mut i: usize = 0;
    while i < items.len()
        invariant
            i <= items@.len(),
            v@ == "#EXTM3U\n"@ + m3u_items_text(items@, i as nat),
        decreases items@.len() - i,
    {
        let ghost before = v@;
        let it = &items[i];
        push_str(&mut v, "#EXTINF:");
        push_signed_decimal(&mut v, it.seconds);
        push_str(&mut v, ",");
        push_str(&mut v, it.name.as_str());
        push_str(&mut v, "\n");
        push_str(&mut v, it.path.as_str());
        push_str(&mut v, "\n");
        assert(v@ =~= before + m3u_item_text(items@[i as int]));
        i = i + 1;
    }
    string_from_chars(v.as_slice())
}

/// An item read from an M3U playlist: the title of its `#EXTINF` line if
/// one came before it, its location as written, and the duration text of
/// that line.
#[derive(Debug)]
pub struct M3uEntry {
    pub name: Option<String>,
    pub location: String,
    pub duration_text: Option<String>,
}

/// An M3U entry seen abstractly.
pub type EntryView = (Option<Seq<char>>, Seq<char>, Option<Seq<char>>);

pub open spec fn entry_view(e: M3uEntry) -> EntryView {
    (
        match e.name {
            Some(n) => Some(n@),
            None => None,
        },
        e.location@,
        match e.duration_text {
            Some(d) => Some(d@),
            None => None,
        },
    )
}

/// The reader's state between lines: the pending title and duration text,
/// and the entries read so far.
pub type M3uState = (Option<Seq<char>>, Option<Seq<char>>, Seq<EntryView>);

/// Index of the first comma in `s`, if any.
pub open spec fn first_comma(s: Seq<char>) -> Option<int>
    decreases s.len(),
{
    if s.len() == 0 {
        None
    } else if s[0] == ',' {
        Some(0)
    } else {
        match first_comma(s.drop_first()) {
            Some(i) => Some(i + 1),
            None => None,
        }
    }
}

/// The reader's state after one line of the playlist.
/// Blank lines are skipped; an `#EXTINF:` line sets the pending title, and,
/// when it has a comma, the duration text before it; other lines starting
/// with `#` are comments; any other line is an item's location.
pub open spec fn m3u_step(st: M3uState, line: Seq<char>) -> M3uState {
    let t = trimmed(line);
    if t.len() == 0 {
        st
    } else if has_prefix(t, "#EXTINF:"@) {
        let info = t.skip(8);
        match first_comma(info) {
            Some(c) => (Some(trimmed(info.skip(c + 1))), Some(trimmed(info.take(c))), st.2),
            None => (Some(trimmed(info)), st.1, st.2),
        }
    } else if has_prefix(t, seq!['#']) {
        st
    } else {
        (None, None, st.2.push((st.0, t, st.1)))
    }
}

/// The reader's state after the first `n` lines.
pub open spec fn m3u_run(lines: Seq<Seq<char>>, n: nat) -> M3uState
    decreases n,
{
    if n == 0 {
        (None, None, Seq::empty())
    } else {
        m3u_step(m3u_run(lines, (n - 1) as nat), lines[n - 1])
    }
}

/// The items of an M3U playlist text.
pub open spec fn m3u_entries(text: Seq<char>) -> Seq<EntryView> {
    m3u_run(split_lines(text), split_lines(text).len()).2
}

fn find_comma(s: &[char]) -> (r: Option<usize>)
    ensures
        match first_comma(s@) {
            Some(i) => r == Some(i as usize) && 0 <= i < s@.len(),
            None => r is None,
        },
{
    let mut i: usize = 0;
    while i < s.len()
        invariant
            i <= s@.len(),
            forall|j: int| 0 <= j < i ==> s@[j] != ',',
        decreases s@.len() - i,
    {
        if s[i] == ',' {
            proof {
                lemma_first_comma(s@, i as int);
            }
            return Some(i);
        }
        i = i + 1;
    }
    proof {
        lemma_no_comma(s@);
    }
    None
}

proof fn lemma_first_comma(s: Seq<char>, i: int)
    requires
        0 <= i < s.len(),
        s[i] == ',',
        forall|j: int| 0 <= j < i ==> s[j] != ',',
    ensures
        first_comma(s) == Some(i),
    decreases s.len(),
{
    if i > 0 {
        assert forall|j: int| 0 <= j < i - 1 implies s.drop_first()[j] != ',' by {
            assert(s.drop_first()[j] == s[j + 1]);
        }
        lemma_first_comma(s.drop_first(), i - 1);
    }
}

proof fn lemma_no_comma(s: Seq<char>)
    requires
        forall|j: int| 0 <= j < s.len() ==> s[j] != ',',
    ensures
        first_comma(s) is None,
    decreases s.len(),
{
    if s.len() > 0 {
        assert forall|j: int| 0 <= j < s.drop_first().len() implies s.drop_first()[j] != ',' by {
            assert(s.drop_first()[j] == s[j + 1]);
        }
        lemma_no_comma(s.drop_first());
    }
}

fn slice_from(s: &[char], a: usize) -> (r: Vec<char>)
    requires
        a <= s@.len(),
    ensures
        r@ == s@.skip(a as int),
{
    let mut r: Vec<char> = Vec::new();
    let mut i: usize = a;
    while i < s.len()
        invariant
            a <= i <= s@.len(),
            r@ == s@.subrange(a as int, i as int),
        decreases s@.len() - i,
    {
        r.push(s[i]);
        assert(s@.subrange(a as int, i + 1) =~= s@.subrange(a as int, i as int).push(s@[i as int]));
        i = i + 1;
    }
    assert(r@ =~= s@.skip(a as int));
    r
}

fn slice_to(s: &[char], b: usize) -> (r: Vec<char>)
    requires
        b <= s@.len(),
    ensures
        r@ == s@.take(b as int),
{
    let mut r: Vec<char> = Vec::new();
    let mut i: usize = 0;
    while i < b
        invariant
            i <= b <= s@.len(),
            r@ == s@.take(i as int),
        decreases b - i,
    {
        r.push(s[i]);
        assert(s@.take(i + 1) =~= s@.take(i as int).push(s@[i as int]));
        i = i + 1;
    }
    r
}

/// Reads the items of an extended M3U playlist text.
pub fn parse_m3u(text: &str) -> (r: Vec<M3uEntry>)
    ensures
        r@.len() == m3u_entries(text@).len(),
        forall|i: int| 0 <= i < r@.len() ==> entry_view(#[trigger] r@[i]) == m3u_entries(text@)[i],
{
    let chars = chars_of(text);
    let lines = lines_of(chars.as_slice());
    let extinf = chars_of("#EXTINF:");
    proof {
        reveal_strlit("#EXTINF:");
    }
    let ghost ls = split_lines(text@);
    let mut items: Vec<M3uEntry> = Vec::new();
    let mut name: Option<Vec<char>> = None;
    let mut duration: Option<Vec<char>> = None;
    let mut i: usize = 0;
    while i < lines.len()
        invariant
            ls == split_lines(text@),
            lines@.len() == ls.len(),
            forall|j: int| 0 <= j < lines@.len() ==> #[trigger] lines@[j]@ == ls[j],
            extinf@ == "#EXTINF:"@,
            extinf@.len() == 8,
            i <= lines@.len(),
            ({
                let st = m3u_run(ls, i as nat);
                &&& st.0 == match name { Some(n) => Some(n@), None => None::<Seq<char>> }
                &&& st.1 == match duration { Some(d) => Some(d@), None => None::<Seq<char>> }
                &&& st.2.len() == items@.len()
                &&& forall|j: int| 0 <= j < items@.len() ==> entry_view(#[trigger] items@[j]) == st.2[j]
            }),
        decreases lines@.len() - i,
    {
        let t = trim(lines[i].as_slice());
        if t.len() == 0 {
        } else if starts_with(t.as_slice(), extinf.as_slice()) {
            let info = slice_from(t.as_slice(), 8);
            match find_comma(info.as_slice()) {
                Some(c) => {
                    assert(c < info.len());
                    let title = slice_from(info.as_slice(), c + 1);
                    let dur = slice_to(info.as_slice(), c);
                    name = Some(trim(title.as_slice()));
                    duration = Some(trim(dur.as_slice()));
                },
                None => {
                    name = Some(trim(info.as_slice()));
                },
            }
        } else if t[0] == '#' {
            assert(has_prefix(t@, seq!['#'])) by {
                assert(t@.take(1) =~= seq!['#']);
            }
        } else {
            assert(!has_prefix(t@, seq!['#'])) by {
                if has_prefix(t@, seq!['#']) {
                    assert(t@.take(1)[0] == '#');
                }
            }
            let ghost before = items@;
            let n = match name {
                Some(n) => Some(string_from_chars(n.as_slice())),
                None => None,
            };
            let d = match duration {
                Some(d) => Some(string_from_chars(d.as_slice())),
                None => None,
            };
            items.push(M3uEntry { name: n, location: string_from_chars(t.as_slice()), duration_text: d });
            name = None;
            duration = None;
            assert(items@.drop_last() =~= before);
        }
        i = i + 1;
    }
    items
}

/// Every item comes from a location line: its location is a non-empty,
/// trimmed line that is not a comment.
pub proof fn law_m3u_locations(lines: Seq<Seq<char>>, n: nat)
    ensures
        forall|j: int| 0 <= j < m3u_run(lines, n).2.len() ==> {
            let loc = #[trigger] m3u_run(lines, n).2[j].1;
            &&& loc.len() > 0
            &&& loc[0] != '#'
            &&& trimmed(loc) == loc
        },
    decreases n,
{
    if n > 0 {
        law_m3u_locations(lines, (n - 1) as nat);
        let st = m3u_run(lines, (n - 1) as nat);
        let t = trimmed(lines[n - 1]);
        if t.len() > 0 && !has_prefix(t, "#EXTINF:"@) && !has_prefix(t, seq!['#']) {
            assert(t.take(1) =~= seq![t[0]]);
            lemma_trimmed_idempotent(lines[n - 1]);
        }
    }
}

/// Where an item read from a playlist lies: its location as written when
/// that is an absolute path, else `joined`, the location joined onto the
/// playlist's directory.
pub open spec fn item_location_of(location: Seq<char>, is_absolute: bool, joined: Seq<char>) -> Seq<char> {
    if is_absolute { location } else { joined }
}

/// Resolves the location of an item read from a playlist; the file system
/// facts (whether it is absolute, the joined path) come from the caller.
pub fn item_location(location: String, is_absolute: bool, joined: String) -> (r: String)
    ensures
        r@ == item_location_of(location@, is_absolute, joined@),
{
    if is_absolute { location } else { joined }
}

/// The name of an item read from a playlist: the title of its `#EXTINF`
/// line if it had one, else the file name of its path when there is one
/// that is valid text, else the whole path.
pub open spec fn item_name_of(title: Option<Seq<char>>, file_name: Option<Seq<char>>, path: Seq<char>) -> Seq<char> {
    match title {
        Some(t) => t,
        None => match file_name {
            Some(f) => f,
            None => path,
        },
    }
}

/// Names an item read from a playlist.
pub fn item_name(title: Option<String>, file_name: Option<String>, path: &str) -> (r: String)
    ensures
        r@ == item_name_of(
            match title { Some(t) => Some(t@), None => None },
            match file_name { Some(f) => Some(f@), None => None },
            path@,
        ),
{
    match title {
        Some(t) => t,
        None => match file_name {
            Some(f) => f,
            None => String::from_str(path),
        },
    }
}

/// A written item with an absolute location is read back under its title
/// and at its location, whatever the playlist's directory and the file
/// name of its path.
pub proof fn law_absolute_items_read_back(items: Seq<M3uItem>, i: int, joined: Seq<char>, file_name: Option<Seq<char>>)
    requires
        forall|k: int| 0 <= k < items.len() ==> m3u_round_trips(#[trigger] items[k]),
        0 <= i < items.len(),
    ensures
        m3u_entries(m3u_text(items)).len() == items.len(),
        item_location_of(m3u_entries(m3u_text(items))[i].1, true, joined) == items[i].path@,
        item_name_of(m3u_entries(m3u_text(items))[i].0, file_name, items[i].path@) == items[i].name@,
{
    law_m3u_round_trip(items);
}

/// The `#EXTINF` line written for an item.
pub open spec fn extinf_line(it: M3uItem) -> Seq<char> {
    "#EXTINF:"@ + signed_decimal(it.seconds as int) + ","@ + it.name@
}

/// The lines of a playlist written with the first `k` items, without the
/// empty piece after the last line feed.
pub open spec fn m3u_lines(items: Seq<M3uItem>, k: nat) -> Seq<Seq<char>>
    decreases k,
{
    if k == 0 {
        seq!["#EXTM3U"@]
    } else {
        m3u_lines(items, (k - 1) as nat).push(extinf_line(items[k - 1])).push(items[k - 1].path@)
    }
}

/// An item that a written playlist gives back as it was: its title and
/// location hold no line feed and no white space at either end, and its
/// location is not empty and does not start with `#`.
pub open spec fn m3u_round_trips(it: M3uItem) -> bool {
    &&& forall|i: int| 0 <= i < it.name@.len() ==> it.name@[i] != '\n'
    &&& forall|i: int| 0 <= i < it.path@.len() ==> it.path@[i] != '\n'
    &&& trimmed(it.name@) == it.name@
    &&& trimmed(it.path@) == it.path@
    &&& it.path@.len() > 0
    &&& it.path@[0] != '#'
}

/// The entry read back for a written item.
pub open spec fn written_entry(it: M3uItem) -> EntryView {
    (Some(it.name@), it.path@, Some(signed_decimal(it.seconds as int)))
}

proof fn lemma_extinf_no_newline(it: M3uItem)
    requires
        m3u_round_trips(it),
    ensures
        forall|i: int| 0 <= i < extinf_line(it).len() ==> extinf_line(it)[i] != '\n',
{
    reveal_strlit("#EXTINF:");
    reveal_strlit(",");
    let d = signed_decimal(it.seconds as int);
    lemma_signed_decimal_chars(it.seconds as int);
    let e = extinf_line(it);
    assert forall|i: int| 0 <= i < e.len() implies e[i] != '\n' by {
        if i < 8 {
            assert(e[i] == "#EXTINF:"@[i]);
        } else if i < 8 + d.len() {
            assert(e[i] == d[i - 8]);
            if i > 8 {
                assert(is_digit(d[i - 8]));
            }
        } else if i == 8 + d.len() {
            assert(e[i] == ',');
        } else {
            assert(e[i] == it.name@[i - 9 - d.len()]);
        }
    }
}

proof fn lemma_m3u_lines_split(items: Seq<M3uItem>, k: nat)
    requires
        k <= items.len(),
        forall|i: int| 0 <= i < items.len() ==> m3u_round_trips(#[trigger] items[i]),
    ensures
        split_lines("#EXTM3U\n"@ + m3u_items_text(items, k)) == m3u_lines(items, k).push(Seq::<char>::empty()),
    decreases k,
{
    reveal_strlit("#EXTM3U\n");
    reveal_strlit("#EXTM3U");
    reveal_strlit("\n");
    let empty = Seq::<char>::empty();
    if k == 0 {
        let h = "#EXTM3U"@;
        assert forall|i: int| 0 <= i < h.len() implies h[i] != '\n' by {}
        lemma_split_append_line(empty, h);
        assert("#EXTM3U\n"@ + m3u_items_text(items, k) =~= empty + h + seq!['\n']);
        assert(split_lines(empty) == seq![empty]);
        assert(empty + h =~= h);
        assert(seq![empty].update(0, h) =~= seq![h]);
    } else {
        lemma_m3u_lines_split(items, (k - 1) as nat);
        let it = items[k - 1];
        assert(m3u_round_trips(it));
        let prev = "#EXTM3U\n"@ + m3u_items_text(items, (k - 1) as nat);
        let e = extinf_line(it);
        let p = it.path@;
        assert("#EXTM3U\n"@ + m3u_items_text(items, k) =~= prev + e + seq!['\n'] + p + seq!['\n']);
        lemma_extinf_no_newline(it);
        lemma_split_append_line(prev, e);
        let lp = m3u_lines(items, (k - 1) as nat);
        assert(lp.push(empty).update(lp.len() as int, empty + e) =~= lp.push(e));
        assert(split_lines(prev + e + seq!['\n']) =~= lp.push(e).push(empty));
        lemma_split_append_line(prev + e + seq!['\n'], p);
        assert(lp.push(e).push(empty).update(lp.len() as int + 1, empty + p) =~= lp.push(e).push(p));
    }
}

proof fn lemma_m3u_line_at(items: Seq<M3uItem>, k: nat, i: int)
    requires
        k <= items.len(),
        0 <= i < k,
    ensures
        m3u_lines(items, k).len() == 1 + 2 * k,
        m3u_lines(items, k)[1 + 2 * i] == extinf_line(items[i]),
        m3u_lines(items, k)[2 + 2 * i] == items[i].path@,
    decreases k,
{
    lemma_m3u_lines_len(items, (k - 1) as nat);
    if i < k - 1 {
        lemma_m3u_line_at(items, (k - 1) as nat, i);
    }
}

proof fn lemma_m3u_lines_len(items: Seq<M3uItem>, k: nat)
    ensures
        m3u_lines(items, k).len() == 1 + 2 * k,
        m3u_lines(items, k)[0] == "#EXTM3U"@,
    decreases k,
{
    if k > 0 {
        lemma_m3u_lines_len(items, (k - 1) as nat);
    }
}

proof fn lemma_header_step(st: M3uState)
    ensures
        m3u_step(st, "#EXTM3U"@) == st,
{
    reveal_strlit("#EXTM3U");
    reveal_strlit("#EXTINF:");
    let h = "#EXTM3U"@;
    assert(!is_space(h[0]) && !is_space(h.last()));
    lemma_trimmed_bounded(h);
    assert(h.take(1) =~= seq!['#']);
}

proof fn lemma_extinf_step(st: M3uState, it: M3uItem)
    requires
        m3u_round_trips(it),
    ensures
        m3u_step(st, extinf_line(it)) == (Some(it.name@), Some(signed_decimal(it.seconds as int)), st.2),
{
    reveal_strlit("#EXTINF:");
    reveal_strlit(",");
    let d = signed_decimal(it.seconds as int);
    lemma_signed_decimal_chars(it.seconds as int);
    let n = it.name@;
    let e = extinf_line(it);
    assert(e[0] == '#');
    if n.len() > 0 {
        lemma_trimmed_idempotent(n);
        assert(e.last() == n.last());
    } else {
        assert(e.last() == ',');
    }
    lemma_trimmed_bounded(e);
    assert(e.take(8) =~= "#EXTINF:"@);
    let info = e.skip(8);
    assert(info =~= d + seq![','] + n);
    assert forall|j: int| 0 <= j < d.len() implies info[j] != ',' by {
        assert(info[j] == d[j]);
        if j > 0 {
            assert(is_digit(d[j]));
        }
    }
    lemma_first_comma(info, d.len() as int);
    assert(info.skip(d.len() as int + 1) =~= n);
    assert(info.take(d.len() as int) =~= d);
    assert(!is_space(d[0]) && !is_space(d.last()));
    lemma_trimmed_bounded(d);
}

proof fn lemma_path_step(st: M3uState, it: M3uItem)
    requires
        m3u_round_trips(it),
    ensures
        m3u_step(st, it.path@) == (None::<Seq<char>>, None::<Seq<char>>, st.2.push((st.0, it.path@, st.1))),
{
    reveal_strlit("#EXTINF:");
    let p = it.path@;
    if p.len() >= 8 {
        assert(p.take(8)[0] != "#EXTINF:"@[0]);
    }
    assert(p.take(1)[0] != '#');
}

proof fn lemma_m3u_run_written(items: Seq<M3uItem>, j: nat)
    requires
        j <= items.len(),
        forall|i: int| 0 <= i < items.len() ==> m3u_round_trips(#[trigger] items[i]),
    ensures
        m3u_run(m3u_lines(items, items.len()).push(Seq::<char>::empty()), 1 + 2 * j)
            == (None::<Seq<char>>, None::<Seq<char>>, items.take(j as int).map_values(|it: M3uItem| written_entry(it))),
    decreases j,
{
    let lf = m3u_lines(items, items.len()).push(Seq::<char>::empty());
    lemma_m3u_lines_len(items, items.len());
    if j == 0 {
        lemma_header_step((None, None, Seq::empty()));
        assert(lf[0] == "#EXTM3U"@);
        assert(m3u_run(lf, 0) == (None::<Seq<char>>, None::<Seq<char>>, Seq::<EntryView>::empty()));
        assert(m3u_run(lf, 1) == m3u_step(m3u_run(lf, 0), lf[0]));
        assert(items.take(0).map_values(|it: M3uItem| written_entry(it)) =~= Seq::<EntryView>::empty());
    } else {
        let i = j - 1;
        lemma_m3u_run_written(items, i as nat);
        lemma_m3u_line_at(items, items.len(), i);
        let it = items[i];
        assert(m3u_round_trips(it));
        assert(lf[1 + 2 * i] == extinf_line(it));
        assert(lf[2 + 2 * i] == it.path@);
        let st0 = m3u_run(lf, (1 + 2 * i) as nat);
        lemma_extinf_step(st0, it);
        let st1 = m3u_step(st0, extinf_line(it));
        assert(m3u_run(lf, (2 + 2 * i) as nat) == st1);
        lemma_path_step(st1, it);
        assert(m3u_run(lf, (3 + 2 * i) as nat) == m3u_step(st1, it.path@));
        assert(items.take(j as int).map_values(|x: M3uItem| written_entry(x))
            =~= items.take(i).map_values(|x: M3uItem| written_entry(x)).push(written_entry(it)));
    }
}

/// Reading a written playlist gives back each item's title, location and
/// duration numeral, in order, for items whose title and location hold no
/// line feed and no white space at either end and whose location is not
/// empty and does not start with `#`.
pub proof fn law_m3u_round_trip(items: Seq<M3uItem>)
    requires
        forall|i: int| 0 <= i < items.len() ==> m3u_round_trips(#[trigger] items[i]),
    ensures
        m3u_entries(m3u_text(items)) == items.map_values(|it: M3uItem| written_entry(it)),
{
    let empty = Seq::<char>::empty();
    lemma_m3u_lines_split(items, items.len());
    let lf = m3u_lines(items, items.len()).push(empty);
    lemma_m3u_lines_len(items, items.len());
    assert(split_lines(m3u_text(items)) == lf);
    lemma_m3u_run_written(items, items.len());
    assert(lf[(1 + 2 * items.len()) as int] == empty);
    assert(trimmed(empty).len() == 0);
    assert(items.take(items.len() as int) =~= items);
}

proof fn lemma_run_prefix(a: Seq<Seq<char>>, b: Seq<Seq<char>>, n: nat)
    requires
        n <= a.len(),
        n <= b.len(),
        forall|j: int| 0 <= j < n ==> a[j] == b[j],
    ensures
        m3u_run(a, n) == m3u_run(b, n),
    decreases n,
{
    if n > 0 {
        lemma_run_prefix(a, b, (n - 1) as nat);
    }
}

/// A line the reader passes over: white space only, or a comment that is
/// not an `#EXTINF` line.
pub open spec fn ignorable_line(l: Seq<char>) -> bool {
    trimmed(l).len() == 0 || (has_prefix(trimmed(l), seq!['#']) && !has_prefix(trimmed(l), "#EXTINF:"@))
}

proof fn lemma_run_with_blank(lines: Seq<Seq<char>>, k: int, blank: Seq<char>, n: nat)
    requires
        0 <= k <= lines.len(),
        k <= n <= lines.len(),
        ignorable_line(blank),
    ensures
        m3u_run(lines.insert(k, blank), n + 1) == m3u_run(lines, n),
    decreases n,
{
    let ins = lines.insert(k, blank);
    if n == k {
        assert(ins[k] == blank);
        lemma_run_prefix(ins, lines, n);
    } else {
        lemma_run_with_blank(lines, k, blank, (n - 1) as nat);
        assert(ins[n as int] == lines[n - 1]);
    }
}

/// Blank lines and comments (other than `#EXTINF`) change nothing:
/// putting one anywhere in a playlist's lines, even between an `#EXTINF`
/// line and its location, leaves the items read, their titles and
/// durations as they were.
pub proof fn law_blank_lines_ignored(lines: Seq<Seq<char>>, k: int, blank: Seq<char>)
    requires
        0 <= k <= lines.len(),
        ignorable_line(blank),
    ensures
        m3u_run(lines.insert(k, blank), lines.len() + 1) == m3u_run(lines, lines.len()),
{
    lemma_run_with_blank(lines, k, blank, lines.len());
}

} // verus!
