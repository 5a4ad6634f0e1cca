//! Character-level text handling: whitespace, trimming, lines and words.
use vstd::prelude::*;
use vstd::utf8::*;

verus! {

/// Unicode `White_Space`, the set that `char::is_whitespace` tests.
pub open spec fn is_blank(c: char) -> bool {
    let u = c as u32;
    ||| 0x09 <= u <= 0x0d
    ||| u == 0x20
    ||| u == 0x85
    ||| u == 0xa0
    ||| u == 0x1680
    ||| 0x2000 <= u <= 0x200a
    ||| u == 0x2028
    ||| u == 0x2029
    ||| u == 0x202f
    ||| u == 0x205f
    ||| u == 0x3000
}

/// The pieces of `s` between separator characters (`'\n'` when `lines`,
/// whitespace otherwise); there is always one more piece than separators.
pub open spec fn pieces(s: Seq<char>, lines: bool) -> Seq<Seq<char>>
    decreases s.len(),
{
    if s.len() == 0 {
        seq![Seq::<char>::empty()]
    } else {
        let prev = pieces(s.drop_last(), lines);
        let c = s.last();
        if (if lines { c == '\n' } else { is_blank(c) }) {
            prev.push(Seq::<char>::empty())
        } else {
            prev.update(prev.len() - 1, prev.last().push(c))
        }
    }
}

/// The lines of `s`: the text between `'\n'` characters.
pub open spec fn lines(s: Seq<char>) -> Seq<Seq<char>> {
    pieces(s, true)
}

/// The words of `s`: maximal runs of non-whitespace characters, in order
/// (what `str::split_whitespace` yields).
pub open spec fn words(s: Seq<char>) -> Seq<Seq<char>> {
    pieces(s, false).filter(|w: Seq<char>| w.len() > 0)
}

/// `s` without its leading whitespace.
pub open spec fn trim_start(s: Seq<char>) -> Seq<char>
    decreases s.len(),
{
    if s.len() > 0 && is_blank(s[0]) {
        trim_start(s.drop_first())
    } else {
        s
    }
}

/// `s` without its trailing whitespace.
pub open spec fn trim_end(s: Seq<char>) -> Seq<char>
    decreases s.len(),
{
    if s.len() > 0 && is_blank(s.last()) {
        trim_end(s.drop_last())
    } else {
        s
    }
}

/// `s` without leading and trailing whitespace (what `str::trim` gives).
pub open spec fn trim(s: Seq<char>) -> Seq<char> {
    trim_end(trim_start(s))
}

/// The text that `String::from_utf8_lossy` makes of `bytes`.
pub uninterp spec fn utf8_lossy(bytes: Seq<u8>) -> Seq<char>;

/// Calls `String::from_utf8_lossy`. The result is named by `utf8_lossy`;
/// std documents that well-formed UTF-8 comes back decoded unchanged, and
/// that is stated too. What malformed input turns into is left unsaid.
#[verifier::external_body]
pub(crate) fn decode_lossy(bytes: &[u8]) -> (text: String)
    ensures
        text@ == utf8_lossy(bytes@),
        valid_utf8(bytes@) ==> text@ == decode_utf8(bytes@),
{
    String::from_utf8_lossy(bytes).into_owned()
}

/// The string of exactly these characters.
pub(crate) fn string_of(chars: &[char]) -> (s: String)
    ensures
        s@ == chars@,
{
    let mut s = String::new();
    let mut i: usize = 0;
    while i < chars.len()
        invariant
            i <= chars@.len(),
            s@ == chars@.take(i as int),
        decreases chars@.len() - i,
    {
        push_char(&mut s, chars[i]);
        assert(chars@.take(i + 1) =~= chars@.take(i as int).push(chars@[i as int]));
        i = i + 1;
    }
    assert(chars@.take(chars@.len() as int) =~= chars@);
    s
}

/// Decodes a string slice into its characters.
pub fn chars_of(s: &str) -> (out: Vec<char>)
    ensures
        out@ == s@,
{
    let mut out: Vec<char> = Vec::new();
    for c in it: s.chars()
        invariant
            out@ == it.seq().take(it.index() as int),
    {
        out.push(c);
    }
    out
}

/// Whether `c` is whitespace (`char::is_whitespace`).
pub fn is_blank_char(c: char) -> (b: bool)
    ensures
        b == is_blank(c),
{
    let u = c as u32;
    (0x09 <= u && u <= 0x0d) || u == 0x20 || u == 0x85 || u == 0xa0 || u == 0x1680 || (0x2000
        <= u && u <= 0x200a) || u == 0x2028 || u == 0x2029 || u == 0x202f || u == 0x205f || u
        == 0x3000
}

/// Whether two character sequences are equal.
pub fn same_chars(a: &[char], b: &[char]) -> (eq: bool)
    ensures
        eq == (a@ == b@),
{
    if a.len() != b.len() {
        return false;
    }
    let mut i: usize = 0;
    while i < a.len()
        invariant
            a@.len() == b@.len(),
            i <= a@.len(),
            forall|k: int| 0 <= k < i ==> a@[k] == b@[k],
        decreases a@.len() - i,
    {
        if a[i] != b[i] {
            return false;
        }
        i = i + 1;
    }
    assert(a@ =~= b@);
    true
}

/// Splitting always yields at least one piece.
pub proof fn lemma_pieces_nonempty(s: Seq<char>, lines: bool)
    ensures
        pieces(s, lines).len() >= 1,
    decreases s.len(),
{
    if s.len() > 0 {
        lemma_pieces_nonempty(s.drop_last(), lines);
    }
}

proof fn lemma_chars_deep(v: Vec<char>)
    ensures
        v.deep_view() == v@,
{
    assert(v.deep_view() =~= v@);
}

proof fn lemma_take_push(s: Seq<char>, i: int)
    requires
        0 <= i < s.len(),
    ensures
        s.take(i + 1).drop_last() == s.take(i),
        s.take(i + 1).last() == s[i],
{
    assert(s.take(i + 1).drop_last() =~= s.take(i));
}

/// Splits `s` at every separator (`'\n'` when `lines`, whitespace otherwise).
fn split_pieces(s: &[char], lines: bool) -> (out: Vec<Vec<char>>)
    ensures
        out.deep_view() == pieces(s@, lines),
{
    let mut done: Vec<Vec<char>> = Vec::new();
    let mut cur: Vec<char> = Vec::new();
    let mut i: usize = 0;
    assert(s@.take(0) =~= Seq::<char>::empty());
    while i < s.len()
        invariant
            i <= s@.len(),
            pieces(s@.take(i as int), lines) == done.deep_view().push(cur@),
        decreases s@.len() - i,
    {
        let c = s[i];
        proof {
            lemma_take_push(s@, i as int);
        }
        let sep = if lines {
            c == '\n'
        } else {
            is_blank_char(c)
        };
        if sep {
            let ghost before = done.deep_view();
            let ghost fv = cur@;
            let finished = cur;
            proof {
                lemma_chars_deep(finished);
            }
            done.push(finished);
            cur = Vec::new();
            assert(done.deep_view() =~= before.push(fv));
        } else {
            let ghost prev = done.deep_view().push(cur@);
            cur.push(c);
            assert(prev.update(prev.len() - 1, prev.last().push(c)) =~= done.deep_view().push(
                cur@,
            ));
        }
        i = i + 1;
    }
    assert(s@.take(s@.len() as int) =~= s@);
    let ghost before = done.deep_view();
    let ghost fv = cur@;
    proof {
        lemma_chars_deep(cur);
    }
    done.push(cur);
    assert(done.deep_view() =~= before.push(fv));
    done
}

/// The lines of `s`, split at `'\n'`.
pub fn lines_of(s: &[char]) -> (out: Vec<Vec<char>>)
    ensures
        out.deep_view() == lines(s@),
{
    split_pieces(s, true)
}

/// The words of `s`: its maximal runs of non-whitespace characters.
pub fn words_of(s: &[char]) -> (out: Vec<Vec<char>>)
    ensures
        out.deep_view() == words(s@),
{
    let parts = split_pieces(s, false);
    let ghost p = parts.deep_view();
    let mut out: Vec<Vec<char>> = Vec::new();
    let mut i: usize = 0;
    assert(p.take(0) =~= Seq::<Seq<char>>::empty());
    while i < parts.len()
        invariant
            i <= parts@.len(),
            p == parts.deep_view(),
            out.deep_view() == p.take(i as int).filter(|w: Seq<char>| w.len() > 0),
        decreases parts@.len() - i,
    {
        assert(p.take(i + 1).drop_last() =~= p.take(i as int));
        reveal_with_fuel(Seq::<_>::filter, 1);
        if parts[i].len() > 0 {
            let ghost before = out.deep_view();
            let w = parts[i].clone();
            out.push(w);
            assert(out.deep_view() =~= before.push(p[i as int]));
        }
        i = i + 1;
    }
    assert(p.take(p.len() as int) =~= p);
    out
}

/// `s` without leading and trailing whitespace.
pub fn trim_chars(s: &[char]) -> (out: Vec<char>)
    ensures
        out@ == trim(s@),
{
    let n = s.len();
    let mut i: usize = 0;
    assert(s@.skip(0) =~= s@);
    while i < n && is_blank_char(s[i])
        invariant
            n == s@.len(),
            i <= n,
            trim_start(s@) == trim_start(s@.skip(i as int)),
        decreases n - i,
    {
        assert(s@.skip(i as int).drop_first() =~= s@.skip(i + 1));
        i = i + 1;
    }
    assert(trim_start(s@) == s@.skip(i as int));
    let mut j: usize = n;
    while j > i && is_blank_char(s[j - 1])
        invariant
            n == s@.len(),
            i <= j <= n,
            trim_end(s@.skip(i as int)) == trim_end(s@.subrange(i as int, j as int)),
        decreases j,
    {
        assert(s@.subrange(i as int, j as int).drop_last() =~= s@.subrange(i as int, j - 1));
        j = j - 1;
    }
    assert(s@.skip(i as int) =~= s@.subrange(i as int, n as int));
    let mut out: Vec<char> = Vec::new();
    let mut k: usize = i;
    while k < j
        invariant
            i <= k <= j <= n,
            n == s@.len(),
            out@ == s@.subrange(i as int, k as int),
        decreases j - k,
    {
        out.push(s[k]);
        assert(out@ =~= s@.subrange(i as int, k + 1));
        k = k + 1;
    }
    out
}

/// The text of `s` with leading and trailing whitespace removed (`str::trim`).
pub fn trim_text(s: &str) -> (out: String)
    ensures
        out@ == trim(s@),
{
    let cs = chars_of(s);
    let t = trim_chars(cs.as_slice());
    string_of(t.as_slice())
}


/// The decimal digit character for `d < 10`.
pub open spec fn decimal_char(d: nat) -> char {
    ((0x30 + d) as u8) as char
}

/// `n` in decimal (`format!("{}", n)`).
pub open spec fn decimal_text(n: nat) -> Seq<char>
    decreases n,
{
    if n < 10 {
        seq![decimal_char(n)]
    } else {
        decimal_text(n / 10).push(decimal_char(n % 10))
    }
}

fn push_decimal(n: usize, out: &mut Vec<char>)
    ensures
        final(out)@ == old(out)@ + decimal_text(n as nat),
    decreases n,
{
    if n >= 10 {
        push_decimal(n / 10, out);
    }
    let d = (n % 10) as u8;
    let c = (0x30u8 + d) as char;
    assert(c == decimal_char((n % 10) as nat));
    out.push(c);
    assert(final(out)@ =~= old(out)@ + decimal_text(n as nat));
}

/// `n` in decimal.
pub fn decimal(n: usize) -> (s: String)
    ensures
        s@ == decimal_text(n as nat),
{
    let mut v: Vec<char> = Vec::new();
    push_decimal(n, &mut v);
    assert(v@ =~= decimal_text(n as nat));
    string_of(v.as_slice())
}


/// Calls `String::push`: the character is appended.
#[verifier::external_body]
pub(crate) fn push_char(s: &mut String, c: char)
    ensures
        final(s)@ == old(s)@.push(c),
{
    s.push(c);
}

/// Calls `String::pop`: the last character is removed and returned; an
/// empty string stays empty and gives none.
#[verifier::external_body]
pub(crate) fn pop_char(s: &mut String) -> (r: Option<char>)
    ensures
        old(s)@.len() == 0 ==> r is None && final(s)@ == old(s)@,
        old(s)@.len() > 0 ==> r == Some(old(s)@.last()) && final(s)@ == old(s)@.drop_last(),
{
    s.pop()
}

} // verus!
