//! Character-level text handling: whitespace, trimming, splitting into
//! words and lines, and searching. Everything here works on `Seq<char>`
//! in specifications and on `Vec<char>` in code.
use vstd::prelude::*;
use vstd::std_specs::iter::IteratorSpec;

verus! {

// ---------------------------------------------------------------------
// Specifications
// ---------------------------------------------------------------------

/// Unicode `White_Space`, the set that `char::is_whitespace` tests.
pub open spec fn is_ws(c: char) -> bool {
    let u = c as u32;
    ||| 9 <= u <= 13
    ||| u == 32
    ||| u == 0x85
    ||| u == 0xA0
    ||| u == 0x1680
    ||| 0x2000 <= u <= 0x200A
    ||| u == 0x2028
    ||| u == 0x2029
    ||| u == 0x202F
    ||| u == 0x205F
    ||| u == 0x3000
}

/// The characters that are stripped from both ends of a token of an
/// activity record: `{`, `}` and `;`.
pub open spec fn is_record_punct(c: char) -> bool {
    c == '{' || c == '}' || c == ';'
}

/// The predicate that a trim strips: record punctuation when `punct`,
/// whitespace otherwise.
pub open spec fn strips(c: char, punct: bool) -> bool {
    if punct {
        is_record_punct(c)
    } else {
        is_ws(c)
    }
}

/// `s` without its leading characters that `strips`.
pub open spec fn trim_start_by(s: Seq<char>, punct: bool) -> Seq<char>
    decreases s.len(),
{
    if s.len() > 0 && strips(s[0], punct) {
        trim_start_by(s.drop_first(), punct)
    } else {
        s
    }
}

/// `s` without its trailing characters that `strips`.
pub open spec fn trim_end_by(s: Seq<char>, punct: bool) -> Seq<char>
    decreases s.len(),
{
    if s.len() > 0 && strips(s.last(), punct) {
        trim_end_by(s.drop_last(), punct)
    } else {
        s
    }
}

/// `s` without the characters at either end that `strips`.
pub open spec fn trim_by(s: Seq<char>, punct: bool) -> Seq<char> {
    trim_end_by(trim_start_by(s, punct), punct)
}

/// `str::trim`: `s` without leading and trailing whitespace.
pub open spec fn trim(s: Seq<char>) -> Seq<char> {
    trim_by(s, false)
}

/// A pending piece as a list of zero or one pieces: empty pieces vanish.
pub open spec fn flush(cur: Seq<char>) -> Seq<Seq<char>> {
    if cur.len() > 0 {
        seq![cur]
    } else {
        seq![]
    }
}

/// The words of `s`, when the word read so far is `cur`.
pub open spec fn words_from(s: Seq<char>, cur: Seq<char>) -> Seq<Seq<char>>
    decreases s.len(),
{
    if s.len() == 0 {
        flush(cur)
    } else if is_ws(s[0]) {
        flush(cur) + words_from(s.drop_first(), seq![])
    } else {
        words_from(s.drop_first(), cur.push(s[0]))
    }
}

/// `str::split_whitespace`: the maximal runs of non-whitespace characters.
pub open spec fn words(s: Seq<char>) -> Seq<Seq<char>> {
    words_from(s, seq![])
}

/// A line ended by `\n`: a `\r` just before that `\n` is not part of it.
pub open spec fn strip_cr(line: Seq<char>) -> Seq<char> {
    if line.len() > 0 && line.last() == '\r' {
        line.drop_last()
    } else {
        line
    }
}

/// The lines of `s`, when the line read so far is `cur`.
pub open spec fn lines_from(s: Seq<char>, cur: Seq<char>) -> Seq<Seq<char>>
    decreases s.len(),
{
    if s.len() == 0 {
        flush(cur)
    } else if s[0] == '\n' {
        seq![strip_cr(cur)] + lines_from(s.drop_first(), seq![])
    } else {
        lines_from(s.drop_first(), cur.push(s[0]))
    }
}

/// `str::lines`: pieces split at `\n` (or `\r\n`); a final line ending
/// adds no empty line.
pub open spec fn lines(s: Seq<char>) -> Seq<Seq<char>> {
    lines_from(s, seq![])
}

/// `needle` occurs in `hay` at position `i`.
pub open spec fn occurs_at(hay: Seq<char>, needle: Seq<char>, i: int) -> bool {
    0 <= i && i + needle.len() <= hay.len() && hay.subrange(i, i + needle.len()) == needle
}

/// `str::contains`: `needle` occurs somewhere in `hay`.
pub open spec fn contains(hay: Seq<char>, needle: Seq<char>) -> bool {
    exists|i: int| occurs_at(hay, needle, i)
}

/// `str::starts_with`.
pub open spec fn starts_with(s: Seq<char>, prefix: Seq<char>) -> bool {
    occurs_at(s, prefix, 0)
}

/// The position of the first `c` in `s`, if any (`str::find`).
pub open spec fn find_char(s: Seq<char>, c: char) -> Option<int>
    decreases s.len(),
{
    if s.len() == 0 {
        None
    } else if s[0] == c {
        Some(0)
    } else {
        match find_char(s.drop_first(), c) {
            Some(i) => Some(i + 1),
            None => None,
        }
    }
}

/// The views of a sequence of character vectors.
pub open spec fn seqs_of(v: Seq<Vec<char>>) -> Seq<Seq<char>> {
    v.map_values(|x: Vec<char>| x@)
}

/// The views of a sequence of strings.
pub open spec fn strs_of(v: Seq<String>) -> Seq<Seq<char>> {
    v.map_values(|x: String| x@)
}

/// `parts` joined with `sep` between neighbours (`[&str]::join`).
pub open spec fn join(parts: Seq<Seq<char>>, sep: Seq<char>) -> Seq<char>
    decreases parts.len(),
{
    if parts.len() == 0 {
        seq![]
    } else if parts.len() == 1 {
        parts[0]
    } else {
        join(parts.drop_last(), sep) + sep + parts.last()
    }
}

// ---------------------------------------------------------------------
// Lemmas
// ---------------------------------------------------------------------

/// Leading characters that all strip, followed by one that does not,
/// are exactly what `trim_start_by` removes.
pub proof fn lemma_trim_start_skip(s: Seq<char>, punct: bool, k: int)
    requires
        0 <= k <= s.len(),
        forall|i: int| 0 <= i < k ==> strips(#[trigger] s[i], punct),
        k == s.len() || !strips(s[k], punct),
    ensures
        trim_start_by(s, punct) == s.skip(k),
    decreases k,
{
    if k == 0 {
        assert(s.skip(0) =~= s);
    } else {
        let t = s.drop_first();
        assert forall|i: int| 0 <= i < k - 1 implies strips(#[trigger] t[i], punct) by {
            assert(t[i] == s[i + 1]);
        }
        lemma_trim_start_skip(t, punct, k - 1);
        assert(t.skip(k - 1) =~= s.skip(k));
    }
}

/// Trailing characters that all strip, preceded by one that does not,
/// are exactly what `trim_end_by` removes.
pub proof fn lemma_trim_end_take(s: Seq<char>, punct: bool, k: int)
    requires
        0 <= k <= s.len(),
        forall|i: int| k <= i < s.len() ==> strips(#[trigger] s[i], punct),
        k == 0 || !strips(s[k - 1], punct),
    ensures
        trim_end_by(s, punct) == s.take(k),
    decreases s.len() - k,
{
    if k == s.len() {
        assert(s.take(k) =~= s);
    } else {
        let t = s.drop_last();
        assert(strips(s[s.len() - 1], punct));
        assert forall|i: int| k <= i < t.len() implies strips(#[trigger] t[i], punct) by {
            assert(t[i] == s[i]);
        }
        lemma_trim_end_take(t, punct, k);
        assert(t.take(k) =~= s.take(k));
    }
}

/// A trimmed text neither starts nor ends with a character that strips.
pub proof fn lemma_trim_clean(s: Seq<char>, punct: bool)
    ensures
        trim_by(s, punct).len() > 0 ==> !strips(trim_by(s, punct)[0], punct),
        trim_by(s, punct).len() > 0 ==> !strips(trim_by(s, punct).last(), punct),
    decreases s.len(),
{
    lemma_trim_start_clean(s, punct);
    lemma_trim_end_clean(trim_start_by(s, punct), punct);
    lemma_trim_end_prefix(trim_start_by(s, punct), punct);
}

proof fn lemma_trim_start_clean(s: Seq<char>, punct: bool)
    ensures
        trim_start_by(s, punct).len() > 0 ==> !strips(trim_start_by(s, punct)[0], punct),
    decreases s.len(),
{
    if s.len() > 0 && strips(s[0], punct) {
        lemma_trim_start_clean(s.drop_first(), punct);
    }
}

proof fn lemma_trim_end_clean(s: Seq<char>, punct: bool)
    ensures
        trim_end_by(s, punct).len() > 0 ==> !strips(trim_end_by(s, punct).last(), punct),
    decreases s.len(),
{
    if s.len() > 0 && strips(s.last(), punct) {
        lemma_trim_end_clean(s.drop_last(), punct);
    }
}

/// `trim_end_by` keeps a prefix of its argument.
proof fn lemma_trim_end_prefix(s: Seq<char>, punct: bool)
    ensures
        trim_end_by(s, punct).len() <= s.len(),
        trim_end_by(s, punct) == s.take(trim_end_by(s, punct).len() as int),
    decreases s.len(),
{
    if s.len() > 0 && strips(s.last(), punct) {
        lemma_trim_end_prefix(s.drop_last(), punct);
        let r = trim_end_by(s.drop_last(), punct);
        assert(s.drop_last().take(r.len() as int) =~= s.take(r.len() as int));
    } else {
        assert(s.take(s.len() as int) =~= s);
    }
}

/// Trimming twice is trimming once.
pub proof fn lemma_trim_idempotent(s: Seq<char>, punct: bool)
    ensures
        trim_by(trim_by(s, punct), punct) == trim_by(s, punct),
{
    let t = trim_by(s, punct);
    lemma_trim_clean(s, punct);
    lemma_trim_start_skip(t, punct, 0);
    assert(t.skip(0) =~= t);
    lemma_trim_end_take(t, punct, t.len() as int);
    assert(t.take(t.len() as int) =~= t);
}

/// `seqs_of` distributes over `push`.
pub proof fn lemma_seqs_of_push(v: Seq<Vec<char>>, x: Vec<char>)
    ensures
        seqs_of(v.push(x)) == seqs_of(v).push(x@),
{
    assert(seqs_of(v.push(x)) =~= seqs_of(v).push(x@));
}

/// `strs_of` distributes over `push`.
pub proof fn lemma_strs_of_push(v: Seq<String>, x: String)
    ensures
        strs_of(v.push(x)) == strs_of(v).push(x@),
{
    assert(strs_of(v.push(x)) =~= strs_of(v).push(x@));
}

// ---------------------------------------------------------------------
// Code
// ---------------------------------------------------------------------

/// Appends one character to a string (`String::push`).
#[verifier::external_body]
pub(crate) fn push_char(s: &mut String, c: char)
    ensures
        final(s)@ == old(s)@.push(c),
{
    s.push(c);
}

/// The characters of a string, in order.
pub fn chars_of(s: &str) -> (res: Vec<char>)
    ensures
        res@ == s@,
{
    let mut res: Vec<char> = Vec::new();
    for c in it: s.chars()
        invariant
            res@ == it.seq().take(it.index() as int),
            it.seq() == s@,
    {
        res.push(c);
    }
    res
}

/// The string made of the characters `s[lo..hi]`.
pub fn string_of_range(s: &Vec<char>, lo: usize, hi: usize) -> (res: String)
    requires
        lo <= hi <= s.len(),
    ensures
        res@ == s@.subrange(lo as int, hi as int),
{
    let mut res = String::new();
    let mut i = lo;
    while i < hi
        invariant
            lo <= i <= hi <= s.len(),
            res@ == s@.subrange(lo as int, i as int),
        decreases hi - i,
    {
        push_char(&mut res, s[i]);
        assert(s@.subrange(lo as int, i + 1) =~= s@.subrange(lo as int, i as int).push(s@[i as int]));
        i = i + 1;
    }
    res
}

/// The string made of the characters of `s`.
pub fn string_of(s: &Vec<char>) -> (res: String)
    ensures
        res@ == s@,
{
    let res = string_of_range(s, 0, s.len());
    assert(s@.subrange(0, s@.len() as int) =~= s@);
    res
}

/// The characters `s[lo..hi]`.
pub fn chars_range(s: &Vec<char>, lo: usize, hi: usize) -> (res: Vec<char>)
    requires
        lo <= hi <= s.len(),
    ensures
        res@ == s@.subrange(lo as int, hi as int),
{
    let mut res: Vec<char> = Vec::new();
    let mut i = lo;
    while i < hi
        invariant
            lo <= i <= hi <= s.len(),
            res@ == s@.subrange(lo as int, i as int),
        decreases hi - i,
    {
        res.push(s[i]);
        assert(s@.subrange(lo as int, i + 1) =~= s@.subrange(lo as int, i as int).push(s@[i as int]));
        i = i + 1;
    }
    res
}

/// `a` followed by `b`.
pub fn concat(a: &str, b: &str) -> (res: String)
    ensures
        res@ == a@ + b@,
{
    let mut res = String::new();
    append(&mut res, a);
    append(&mut res, b);
    assert(res@ =~= a@ + b@);
    res
}

/// Appends the characters of `t` to `s`.
pub fn append(s: &mut String, t: &str)
    ensures
        final(s)@ == old(s)@ + t@,
{
    let cs = chars_of(t);
    let mut i: usize = 0;
    while i < cs.len()
        invariant
            i <= cs.len(),
            cs@ == t@,
            s@ == old(s)@ + t@.take(i as int),
        decreases cs.len() - i,
    {
        push_char(s, cs[i]);
        assert(t@.take(i + 1) =~= t@.take(i as int).push(t@[i as int]));
        i = i + 1;
    }
    assert(t@.take(cs.len() as int) =~= t@);
}

/// The same text, as a new string.
pub fn copy_str(s: &str) -> (res: String)
    ensures
        res@ == s@,
{
    let mut res = String::new();
    append(&mut res, s);
    assert(res@ =~= s@);
    res
}

/// Whether two texts are equal.
pub fn same_text(a: &str, b: &str) -> (res: bool)
    ensures
        res == (a@ == b@),
{
    let x = chars_of(a);
    let y = chars_of(b);
    if x.len() != y.len() {
        return false;
    }
    let mut i: usize = 0;
    while i < x.len()
        invariant
            i <= x.len() == y.len(),
            x@ == a@,
            y@ == b@,
            forall|k: int| 0 <= k < i ==> x@[k] == y@[k],
        decreases x.len() - i,
    {
        if x[i] != y[i] {
            assert(x@[i as int] != y@[i as int]);
            return false;
        }
        i = i + 1;
    }
    assert(x@ =~= y@);
    true
}

/// `char::is_whitespace`.
pub fn is_whitespace(c: char) -> (b: bool)
    ensures
        b == is_ws(c),
{
    let u = c as u32;
    (9 <= u && u <= 13) || u == 32 || u == 0x85 || u == 0xA0 || u == 0x1680 || (0x2000 <= u && u
        <= 0x200A) || u == 0x2028 || u == 0x2029 || u == 0x202F || u == 0x205F || u == 0x3000
}

fn strips_exec(c: char, punct: bool) -> (b: bool)
    ensures
        b == strips(c, punct),
{
    if punct {
        c == '{' || c == '}' || c == ';'
    } else {
        is_whitespace(c)
    }
}

/// `s` without the characters at either end that `strips`.
pub fn trim_chars_by(s: &Vec<char>, punct: bool) -> (res: Vec<char>)
    ensures
        res@ == trim_by(s@, punct),
{
    let n = s.len();
    let mut lo: usize = 0;
    while lo < n && strips_exec(s[lo], punct)
        invariant
            lo <= n == s.len(),
            forall|i: int| 0 <= i < lo ==> strips(#[trigger] s@[i], punct),
        decreases n - lo,
    {
        lo = lo + 1;
    }
    proof {
        lemma_trim_start_skip(s@, punct, lo as int);
    }
    let mut hi: usize = n;
    while hi > lo && strips_exec(s[hi - 1], punct)
        invariant
            lo <= hi <= n == s.len(),
            forall|i: int| hi <= i < n ==> strips(#[trigger] s@[i], punct),
        decreases hi - lo,
    {
        hi = hi - 1;
    }
    let ghost t = s@.skip(lo as int);
    proof {
        assert forall|i: int| hi - lo <= i < t.len() implies strips(#[trigger] t[i], punct) by {
            assert(t[i] == s@[i + lo]);
        }
        if hi > lo {
            assert(t[hi - lo - 1] == s@[hi - 1]);
        }
        lemma_trim_end_take(t, punct, hi - lo);
        assert(t.take(hi - lo) =~= s@.subrange(lo as int, hi as int));
    }
    chars_range(s, lo, hi)
}

/// `str::trim` on characters.
pub fn trim_chars(s: &Vec<char>) -> (res: Vec<char>)
    ensures
        res@ == trim(s@),
{
    trim_chars_by(s, false)
}

/// `str::trim` on a string.
pub fn trim_str(s: &str) -> (res: String)
    ensures
        res@ == trim(s@),
{
    let cs = chars_of(s);
    let t = trim_chars(&cs);
    string_of(&t)
}

/// `str::split_whitespace`.
pub fn split_words(s: &Vec<char>) -> (res: Vec<Vec<char>>)
    ensures
        seqs_of(res@) == words(s@),
{
    let n = s.len();
    let mut out: Vec<Vec<char>> = Vec::new();
    let mut cur: Vec<char> = Vec::new();
    let mut i: usize = 0;
    assert(s@.skip(0) =~= s@);
    assert(seqs_of(out@) =~= seq![]);
    assert(cur@ =~= seq![]);
    assert(seqs_of(out@) + words(s@) =~= words(s@));
    while i < n
        invariant
            i <= n == s.len(),
            seqs_of(out@) + words_from(s@.skip(i as int), cur@) == words(s@),
        decreases n - i,
    {
        let ghost rest = s@.skip(i as int);
        assert(rest[0] == s@[i as int]);
        assert(rest.drop_first() =~= s@.skip(i + 1));
        if is_whitespace(s[i]) {
            if cur.len() > 0 {
                proof {
                    lemma_seqs_of_push(out@, cur);
                    assert(seqs_of(out@.push(cur)) + words_from(s@.skip(i + 1), seq![])
                        =~= seqs_of(out@) + (flush(cur@) + words_from(s@.skip(i + 1), seq![])));
                }
                out.push(cur);
            } else {
                assert(seqs_of(out@) + words_from(s@.skip(i + 1), seq![])
                    =~= seqs_of(out@) + (flush(cur@) + words_from(s@.skip(i + 1), seq![])));
            }
            cur = Vec::new();
            assert(cur@ =~= seq![]);
        } else {
            cur.push(s[i]);
        }
        i = i + 1;
    }
    assert(s@.skip(n as int).len() == 0);
    if cur.len() > 0 {
        proof {
            lemma_seqs_of_push(out@, cur);
        }
        out.push(cur);
    } else {
        assert(seqs_of(out@) + flush(cur@) =~= seqs_of(out@));
    }
    out
}

/// `str::lines`.
pub fn split_lines(s: &Vec<char>) -> (res: Vec<Vec<char>>)
    ensures
        seqs_of(res@) == lines(s@),
{
    let n = s.len();
    let mut out: Vec<Vec<char>> = Vec::new();
    let mut cur: Vec<char> = Vec::new();
    let mut i: usize = 0;
    assert(s@.skip(0) =~= s@);
    assert(seqs_of(out@) =~= seq![]);
    assert(cur@ =~= seq![]);
    assert(seqs_of(out@) + lines(s@) =~= lines(s@));
    while i < n
        invariant
            i <= n == s.len(),
            seqs_of(out@) + lines_from(s@.skip(i as int), cur@) == lines(s@),
        decreases n - i,
    {
        let ghost rest = s@.skip(i as int);
        assert(rest[0] == s@[i as int]);
        assert(rest.drop_first() =~= s@.skip(i + 1));
        if s[i] == '\n' {
            let mut line = cur;
            if line.len() > 0 && line[line.len() - 1] == '\r' {
                line.pop();
            }
            assert(line@ == strip_cr(cur@));
            proof {
                lemma_seqs_of_push(out@, line);
                assert(seqs_of(out@.push(line)) + lines_from(s@.skip(i + 1), seq![])
                    =~= seqs_of(out@) + (seq![strip_cr(cur@)] + lines_from(s@.skip(i + 1), seq![])));
            }
            out.push(line);
            cur = Vec::new();
            assert(cur@ =~= seq![]);
        } else {
            cur.push(s[i]);
        }
        i = i + 1;
    }
    assert(s@.skip(n as int).len() == 0);
    if cur.len() > 0 {
        proof {
            lemma_seqs_of_push(out@, cur);
        }
        out.push(cur);
    } else {
        assert(seqs_of(out@) + flush(cur@) =~= seqs_of(out@));
    }
    out
}

/// Does `needle` occur in `hay` at `i`?
fn occurs_at_exec(hay: &Vec<char>, needle: &Vec<char>, i: usize) -> (b: bool)
    ensures
        b == occurs_at(hay@, needle@, i as int),
{
    if needle.len() > hay.len() || i > hay.len() - needle.len() {
        return false;
    }
    let mut j: usize = 0;
    while j < needle.len()
        invariant
            i + needle.len() <= hay.len(),
            j <= needle.len(),
            forall|k: int| 0 <= k < j ==> hay@[i + k] == needle@[k],
        decreases needle.len() - j,
    {
        if hay[i + j] != needle[j] {
            assert(hay@.subrange(i as int, i + needle.len())[j as int] != needle@[j as int]);
            return false;
        }
        j = j + 1;
    }
    assert(hay@.subrange(i as int, i + needle.len()) =~= needle@);
    true
}

/// `str::contains` on characters.
pub fn contains_chars(hay: &Vec<char>, needle: &Vec<char>) -> (b: bool)
    ensures
        b == contains(hay@, needle@),
{
    if needle.len() > hay.len() {
        return false;
    }
    let last = hay.len() - needle.len();
    let mut i: usize = 0;
    while i < last
        invariant
            i <= last,
            last + needle.len() == hay.len(),
            forall|k: int| 0 <= k < i ==> !occurs_at(hay@, needle@, k),
        decreases last - i,
    {
        if occurs_at_exec(hay, needle, i) {
            return true;
        }
        i = i + 1;
    }
    if occurs_at_exec(hay, needle, last) {
        return true;
    }
    assert forall|k: int| !occurs_at(hay@, needle@, k) by {
        if 0 <= k < last {
        } else if k == last {
        }
    }
    false
}

/// `str::starts_with` on characters.
pub fn starts_with_chars(s: &Vec<char>, prefix: &Vec<char>) -> (b: bool)
    ensures
        b == starts_with(s@, prefix@),
{
    occurs_at_exec(s, prefix, 0)
}

/// `str::find` of one character.
pub fn find_char_exec(s: &Vec<char>, c: char) -> (res: Option<usize>)
    ensures
        match find_char(s@, c) {
            Some(i) => res == Some(i as usize),
            None => res is None,
        },
{
    let mut i: usize = 0;
    while i < s.len()
        invariant
            i <= s.len(),
            forall|k: int| 0 <= k < i ==> s@[k] != c,
        decreases s.len() - i,
    {
        if s[i] == c {
            proof {
                lemma_find_char_first(s@, c, i as int);
            }
            return Some(i);
        }
        i = i + 1;
    }
    proof {
        lemma_find_char_none(s@, c);
    }
    None
}

proof fn lemma_find_char_first(s: Seq<char>, c: char, i: int)
    requires
        0 <= i < s.len(),
        s[i] == c,
        forall|k: int| 0 <= k < i ==> s[k] != c,
    ensures
        find_char(s, c) == Some(i),
    decreases i,
{
    if i > 0 {
        let t = s.drop_first();
        assert forall|k: int| 0 <= k < i - 1 implies t[k] != c by {
            assert(t[k] == s[k + 1]);
        }
        lemma_find_char_first(t, c, i - 1);
    }
}

proof fn lemma_find_char_none(s: Seq<char>, c: char)
    requires
        forall|k: int| 0 <= k < s.len() ==> s[k] != c,
    ensures
        find_char(s, c) is None,
    decreases s.len(),
{
    if s.len() > 0 {
        let t = s.drop_first();
        assert forall|k: int| 0 <= k < t.len() implies t[k] != c by {
            assert(t[k] == s[k + 1]);
        }
        lemma_find_char_none(t, c);
    }
}

/// A `find_char` result lies inside the text and points at the character.
pub proof fn lemma_find_char_valid(s: Seq<char>, c: char)
    ensures
        find_char(s, c) matches Some(i) ==> 0 <= i < s.len() && s[i] == c && forall|k: int|
            0 <= k < i ==> s[k] != c,
        find_char(s, c) is None ==> forall|k: int| 0 <= k < s.len() ==> s[k] != c,
    decreases s.len(),
{
    if s.len() > 0 && s[0] != c {
        let t = s.drop_first();
        lemma_find_char_valid(t, c);
        assert forall|k: int| 0 < k < s.len() implies s[k] == t[k - 1] by {}
    }
}

/// `[&str]::join`: the parts with `sep` between neighbours.
pub fn join_strings(parts: &Vec<String>, sep: &str) -> (res: String)
    ensures
        res@ == join(strs_of(parts@), sep@),
{
    let mut res = String::new();
    let ghost views = strs_of(parts@);
    let mut i: usize = 0;
    while i < parts.len()
        invariant
            i <= parts.len(),
            views == strs_of(parts@),
            res@ == join(views.take(i as int), sep@),
        decreases parts.len() - i,
    {
        assert(views.take(i + 1).drop_last() =~= views.take(i as int));
        if i > 0 {
            append(&mut res, sep);
        } else {
            assert(views.take(0) =~= seq![]);
        }
        append(&mut res, parts[i].as_str());
        proof {
            if i == 0 {
                assert(res@ =~= views.take(1)[0]);
            }
        }
        i = i + 1;
    }
    assert(views.take(parts.len() as int) =~= views);
    res
}

} // verus!
