//! Entries of a directory listing as `ls -la` prints it on the device.
use vstd::prelude::*;
use crate::text::{chars_of, lines, lines_of, string_of, words, words_of};

verus! {

/// One entry of a directory listing.
#[derive(Debug, Clone)]
pub struct FileEntry {
    /// The entry's name (the listing's words after the eighth, joined by spaces).
    pub name: String,
    /// The directory, without trailing slashes, then `/` and the name.
    pub path: String,
    /// Whether the listing line starts with `d`.
    pub is_dir: bool,
}

/// The abstract content of a [`FileEntry`].
pub struct FileEntryView {
    pub name: Seq<char>,
    pub path: Seq<char>,
    pub is_dir: bool,
}

impl View for FileEntry {
    type V = FileEntryView;

    open spec fn view(&self) -> FileEntryView {
        FileEntryView { name: self.name@, path: self.path@, is_dir: self.is_dir }
    }
}

impl DeepView for FileEntry {
    type V = FileEntryView;

    open spec fn deep_view(&self) -> FileEntryView {
        self@
    }
}

/// The words joined by single spaces.
pub open spec fn join_words(ws: Seq<Seq<char>>) -> Seq<char>
    decreases ws.len(),
{
    if ws.len() == 0 {
        Seq::empty()
    } else if ws.len() == 1 {
        ws[0]
    } else {
        join_words(ws.drop_last()) + seq![' '] + ws.last()
    }
}

/// `s` without its trailing `'/'` characters (`trim_end_matches('/')`).
pub open spec fn strip_slashes(s: Seq<char>) -> Seq<char>
    decreases s.len(),
{
    if s.len() > 0 && s.last() == '/' {
        strip_slashes(s.drop_last())
    } else {
        s
    }
}

/// The entry a listing line describes, in directory `dir`: a line of at
/// least seven words describes one.
pub open spec fn entry_of_line(line: Seq<char>, dir: Seq<char>) -> Option<FileEntryView> {
    let ws = words(line);
    if ws.len() >= 7 {
        let name = join_words(ws.skip(8));
        Some(
            FileEntryView {
                name,
                path: strip_slashes(dir) + seq!['/'] + name,
                is_dir: line.len() > 0 && line[0] == 'd',
            },
        )
    } else {
        None
    }
}

/// The entries the given lines describe, in order.
pub open spec fn entries_of_lines(ls: Seq<Seq<char>>, dir: Seq<char>) -> Seq<FileEntryView>
    decreases ls.len(),
{
    if ls.len() == 0 {
        Seq::empty()
    } else {
        let prev = entries_of_lines(ls.drop_last(), dir);
        match entry_of_line(ls.last(), dir) {
            Some(e) => prev.push(e),
            None => prev,
        }
    }
}

/// The entries of a listing of `dir`: its lines after the first (the total).
pub open spec fn listed_entries(listing: Seq<char>, dir: Seq<char>) -> Seq<FileEntryView> {
    entries_of_lines(lines(listing).skip(1), dir)
}

/// Whether every line after the first has other than exactly seven words;
/// a line of seven words has no eighth word to start the name at.
pub open spec fn listing_well_formed(listing: Seq<char>) -> bool {
    forall|i: int| 1 <= i < lines(listing).len() ==> #[trigger] words(lines(listing)[i]).len() != 7
}

/// The name: the words from the ninth on, joined by spaces.
fn join_from(ws: &Vec<Vec<char>>, start: usize) -> (out: Vec<char>)
    requires
        start <= ws@.len(),
    ensures
        out@ == join_words(ws.deep_view().skip(start as int)),
{
    let ghost w = ws.deep_view();
    let mut out: Vec<char> = Vec::new();
    let mut i: usize = start;
    assert(w.skip(start as int).take(0) =~= Seq::<Seq<char>>::empty());
    while i < ws.len()
        invariant
            start <= i <= ws@.len(),
            w == ws.deep_view(),
            out@ == join_words(w.skip(start as int).take(i - start)),
        decreases ws@.len() - i,
    {
        let ghost prev = w.skip(start as int).take(i - start);
        let ghost next = w.skip(start as int).take(i + 1 - start);
        assert(next.drop_last() =~= prev);
        assert(next.last() == w[i as int]);
        assert(ws[i as int].deep_view() =~= ws[i as int]@);
        if i > start {
            out.push(' ');
        }
        let ghost mid = out@;
        let word = &ws[i];
        let mut k: usize = 0;
        while k < word.len()
            invariant
                k <= word@.len(),
                out@ == mid + word@.take(k as int),
            decreases word@.len() - k,
        {
            out.push(word[k]);
            assert(out@ =~= mid + word@.take(k + 1));
            k = k + 1;
        }
        assert(word@.take(word@.len() as int) =~= word@);
        if i > start {
            assert(out@ =~= join_words(prev) + seq![' '] + w[i as int]);
        } else {
            assert(prev.len() == 0);
            assert(out@ =~= w[i as int]);
        }
        i = i + 1;
    }
    assert(w.skip(start as int).take(ws@.len() - start) =~= w.skip(start as int));
    out
}

fn strip_slashes_of(s: &[char]) -> (out: Vec<char>)
    ensures
        out@ == strip_slashes(s@),
{
    let mut j: usize = s.len();
    assert(s@.take(j as int) =~= s@);
    while j > 0 && s[j - 1] == '/'
        invariant
            j <= s@.len(),
            strip_slashes(s@) == strip_slashes(s@.take(j as int)),
        decreases j,
    {
        assert(s@.take(j as int).drop_last() =~= s@.take(j - 1));
        j = j - 1;
    }
    let mut out: Vec<char> = Vec::new();
    let mut k: usize = 0;
    while k < j
        invariant
            k <= j <= s@.len(),
            out@ == s@.take(k as int),
        decreases j - k,
    {
        out.push(s[k]);
        assert(out@ =~= s@.take(k + 1));
        k = k + 1;
    }
    out
}

fn parse_entry_line(line: &[char], dir: &[char]) -> (e: Option<FileEntry>)
    requires
        words(line@).len() != 7,
    ensures
        match e {
            Some(x) => entry_of_line(line@, dir@) == Some(x@),
            None => entry_of_line(line@, dir@) is None,
        },
{
    let ws = words_of(line);
    if ws.len() >= 7 {
        let name_chars = join_from(&ws, 8);
        let mut path_chars = strip_slashes_of(dir);
        let ghost base = path_chars@;
        path_chars.push('/');
        let mut k: usize = 0;
        while k < name_chars.len()
            invariant
                k <= name_chars@.len(),
                path_chars@ == base + seq!['/'] + name_chars@.take(k as int),
            decreases name_chars@.len() - k,
        {
            path_chars.push(name_chars[k]);
            assert(path_chars@ =~= base + seq!['/'] + name_chars@.take(k + 1));
            k = k + 1;
        }
        assert(name_chars@.take(name_chars@.len() as int) =~= name_chars@);
        let is_dir = line.len() > 0 && line[0] == 'd';
        let name = string_of(name_chars.as_slice());
        let path = string_of(path_chars.as_slice());
        Some(FileEntry { name, path, is_dir })
    } else {
        None
    }
}

/// Whether a listing can be read: no line after the first has exactly seven words.
pub fn listing_parsable(listing: &str) -> (ok: bool)
    ensures
        ok == listing_well_formed(listing@),
{
    let cs = chars_of(listing);
    let ls = lines_of(cs.as_slice());
    let ghost l = ls.deep_view();
    let mut i: usize = 1;
    while i < ls.len()
        invariant
            1 <= i,
            l == ls.deep_view(),
            l == lines(listing@),
            forall|k: int| 1 <= k < i && k < l.len() ==> #[trigger] words(l[k]).len() != 7,
        decreases ls@.len() - i,
    {
        assert(ls[i as int].deep_view() =~= ls[i as int]@);
        let ws = words_of(ls[i].as_slice());
        if ws.len() == 7 {
            assert(words(l[i as int]).len() == 7);
            return false;
        }
        i = i + 1;
    }
    true
}

/// Parses the output of `ls -la <dir>`: every line after the first with at
/// least seven words is an entry of `dir`.
pub fn parse_file_listing(listing: &str, dir: &str) -> (out: Vec<FileEntry>)
    requires
        listing_well_formed(listing@),
    ensures
        out.deep_view() == listed_entries(listing@, dir@),
{
    let cs = chars_of(listing);
    let dcs = chars_of(dir);
    let ls = lines_of(cs.as_slice());
    let ghost l = ls.deep_view();
    let ghost rest = l.skip(1);
    proof {
        crate::text::lemma_pieces_nonempty(cs@, true);
    }
    let mut out: Vec<FileEntry> = Vec::new();
    let mut i: usize = 1;
    assert(rest.take(0) =~= Seq::<Seq<char>>::empty());
    while i < ls.len()
        invariant
            1 <= i,
            i <= ls@.len(),
            l == ls.deep_view(),
            l == lines(listing@),
            rest == l.skip(1),
            listing_well_formed(listing@),
            dcs@ == dir@,
            out.deep_view() == entries_of_lines(rest.take(i - 1), dir@),
        decreases ls@.len() - i,
    {
        assert(rest.take(i as int).drop_last() =~= rest.take(i - 1));
        assert(rest.take(i as int).last() == l[i as int]);
        assert(ls[i as int].deep_view() =~= ls[i as int]@);
        assert(words(l[i as int]).len() != 7);
        let ghost before = out.deep_view();
        match parse_entry_line(ls[i].as_slice(), dcs.as_slice()) {
            Some(e) => {
                out.push(e);
                assert(out.deep_view() =~= before.push(out@[out@.len() - 1]@));
            },
            None => {},
        }
        i = i + 1;
    }
    assert(rest.take(ls@.len() - 1) =~= rest);
    out
}

} // verus!
