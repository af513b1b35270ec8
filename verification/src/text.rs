//! Searching, trimming and splitting of text, and the numerals that are written into it.
use vstd::prelude::*;
use vstd::string::*;

verus! {

/// `p` stands in `s` at position `i`.
pub open spec fn occurs_at(s: Seq<char>, p: Seq<char>, i: int) -> bool {
    &&& 0 <= i
    &&& i + p.len() <= s.len()
    &&& s.subrange(i, i + p.len()) == p
}

/// `s` begins with `p`.
pub open spec fn begins_with(s: Seq<char>, p: Seq<char>) -> bool {
    occurs_at(s, p, 0)
}

/// `s` ends in `p`.
pub open spec fn ends_in(s: Seq<char>, p: Seq<char>) -> bool {
    occurs_at(s, p, s.len() - p.len())
}

/// `p` stands somewhere in `s`.
pub open spec fn has_text(s: Seq<char>, p: Seq<char>) -> bool {
    exists|i: int| occurs_at(s, p, i)
}

/// The characters of `s`, in order.
pub fn chars_of(s: &str) -> (res: Vec<char>)
    ensures
        res@ == s@,
{
    let mut res: Vec<char> = Vec::new();
    for c in iter: s.chars()
        invariant
            iter.seq() == s@,
            res@ == s@.take(iter.index()),
    {
        res.push(c);
        assert(s@.take(iter.index() + 1) =~= s@.take(iter.index()).push(c));
    }
    assert(s@.take(s@.len() as int) =~= s@);
    res
}

/// The text made of the characters `from..to` of `s`.
pub fn text_of(s: &[char], from: usize, to: usize) -> (res: String)
    requires
        from <= to <= s@.len(),
    ensures
        res@ == s@.subrange(from as int, to as int),
{
    let mut res = String::new();
    let mut i: usize = from;
    while i < to
        invariant
            from <= i <= to <= s@.len(),
            res@ == s@.subrange(from as int, i as int),
        decreases to - i,
    {
        res.push(s[i]);
        i = i + 1;
        assert(s@.subrange(from as int, i as int) =~= s@.subrange(from as int, i - 1).push(
            s@[i - 1],
        ));
    }
    res
}

/// Whether `p` stands in `s` at position `i`.
fn matches_at(s: &[char], p: &[char], i: usize) -> (res: bool)
    requires
        i + p@.len() <= s@.len(),
    ensures
        res == occurs_at(s@, p@, i as int),
{
    let len: usize = s.len();
    let mut k: usize = 0;
    while k < p.len()
        invariant
            k <= p@.len(),
            i + p@.len() <= s@.len(),
            len == s@.len(),
            forall|j: int| 0 <= j < k ==> s@[i + j] == #[trigger] p@[j],
        decreases p@.len() - k,
    {
        if s[i + k] != p[k] {
            assert(s@.subrange(i as int, i + p@.len())[k as int] != p@[k as int]);
            return false;
        }
        k = k + 1;
    }
    assert(s@.subrange(i as int, i + p@.len()) =~= p@);
    true
}

/// Whether `s` begins with `p`.
pub fn starts_with(s: &[char], p: &str) -> (res: bool)
    ensures
        res == begins_with(s@, p@),
{
    let pat = chars_of(p);
    pat.len() <= s.len() && matches_at(s, pat.as_slice(), 0)
}

/// Whether `s` ends in `p`.
pub fn ends_with(s: &[char], p: &str) -> (res: bool)
    ensures
        res == ends_in(s@, p@),
{
    let pat = chars_of(p);
    pat.len() <= s.len() && matches_at(s, pat.as_slice(), s.len() - pat.len())
}

/// Whether `p` stands somewhere in `s`.
pub fn contains(s: &[char], p: &str) -> (res: bool)
    ensures
        res == has_text(s@, p@),
{
    let pat = chars_of(p);
    if pat.len() > s.len() {
        return false;
    }
    let last: usize = s.len() - pat.len();
    let mut i: usize = 0;
    while i < last
        invariant
            i <= last,
            pat@ == p@,
            last == s@.len() - pat@.len(),
            forall|j: int| 0 <= j < i ==> !occurs_at(s@, p@, j),
        decreases last - i,
    {
        if matches_at(s, pat.as_slice(), i) {
            return true;
        }
        i = i + 1;
    }
    matches_at(s, pat.as_slice(), last)
}

/// Whether two texts are the same.
pub fn same_text(a: &str, b: &str) -> (res: bool)
    ensures
        res == (a@ == b@),
{
    let x = chars_of(a);
    let y = chars_of(b);
    if x.len() != y.len() {
        return false;
    }
    let res = matches_at(x.as_slice(), y.as_slice(), 0);
    assert(x@.subrange(0, x@.len() as int) =~= x@);
    res
}

/// A text with a character in it that `s` lacks does not stand in `s`.
pub proof fn lemma_lacks(s: Seq<char>, p: Seq<char>, k: int)
    requires
        0 <= k < p.len(),
        forall|i: int| 0 <= i < s.len() ==> s[i] != p[k],
    ensures
        !has_text(s, p),
{
    if has_text(s, p) {
        let i = choose|i: int| occurs_at(s, p, i);
        assert(s.subrange(i, i + p.len())[k] == p[k]);
        assert(s[i + k] == p[k]);
    }
}

/// What a text ends in, it ends in with another text before it.
pub proof fn lemma_ends_behind(p: Seq<char>, s: Seq<char>, end: Seq<char>)
    ensures
        ends_in(s, end) ==> ends_in(p + s, end),
{
    if ends_in(s, end) {
        let i = s.len() - end.len();
        assert((p + s).subrange(p.len() + i, (p + s).len() as int) =~= s.subrange(i, s.len() as int));
    }
}

/// The position of the first `c` in `s`, or the length of `s` where there is none.
pub open spec fn first_index(s: Seq<char>, c: char) -> int
    decreases s.len(),
{
    if s.len() == 0 || s[0] == c {
        0
    } else {
        1 + first_index(s.drop_first(), c)
    }
}

/// `first_index` is in range, hits a `c` unless it is the length, and passes over none.
pub proof fn lemma_first_index(s: Seq<char>, c: char)
    ensures
        0 <= first_index(s, c) <= s.len(),
        first_index(s, c) < s.len() ==> s[first_index(s, c)] == c,
        forall|j: int| 0 <= j < first_index(s, c) ==> s[j] != c,
    decreases s.len(),
{
    if s.len() > 0 && s[0] != c {
        let t = s.drop_first();
        lemma_first_index(t, c);
        assert forall|j: int| 0 <= j < first_index(s, c) implies s[j] != c by {
            if j > 0 {
                assert(t[j - 1] == s[j]);
            }
        }
    }
}

/// A position that hits `c` first is the one that `first_index` gives.
pub proof fn lemma_first_index_is(s: Seq<char>, c: char, i: int)
    requires
        0 <= i <= s.len(),
        i < s.len() ==> s[i] == c,
        forall|j: int| 0 <= j < i ==> s[j] != c,
    ensures
        first_index(s, c) == i,
{
    lemma_first_index(s, c);
    let k = first_index(s, c);
    if k < i {
        assert(s[k] != c);
    } else if i < k {
        assert(s[i] != c);
    }
}

/// The position of the first `c` at or behind `from` in `s`, or the length of `s`.
pub fn find_char(s: &[char], from: usize, c: char) -> (res: usize)
    requires
        from <= s@.len(),
    ensures
        from <= res <= s@.len(),
        res == from + first_index(s@.skip(from as int), c),
{
    let mut i: usize = from;
    while i < s.len() && s[i] != c
        invariant
            from <= i <= s@.len(),
            forall|j: int| from <= j < i ==> s@[j] != c,
        decreases s@.len() - i,
    {
        i = i + 1;
    }
    proof {
        let t = s@.skip(from as int);
        assert forall|j: int| 0 <= j < i - from implies t[j] != c by {
            assert(t[j] == s@[from + j]);
        }
        lemma_first_index_is(t, c, i - from);
    }
    i
}

/// What stands before and behind the first `c` in `s`.
pub open spec fn split_once(s: Seq<char>, c: char) -> Option<(Seq<char>, Seq<char>)> {
    let i = first_index(s, c);
    if i < s.len() {
        Some((s.take(i), s.skip(i + 1)))
    } else {
        None
    }
}

/// What stands behind the last `c` in `s`: all of `s` where there is none.
pub open spec fn after_last(s: Seq<char>, c: char) -> Seq<char>
    decreases s.len(),
{
    if s.len() == 0 || s.last() == c {
        Seq::empty()
    } else {
        after_last(s.drop_last(), c).push(s.last())
    }
}

/// What stands behind the last `c` is a suffix without `c`, right behind a `c` or the whole.
pub proof fn lemma_after_last(s: Seq<char>, c: char, i: int)
    requires
        0 <= i <= s.len(),
        i > 0 ==> s[i - 1] == c,
        forall|j: int| i <= j < s.len() ==> s[j] != c,
    ensures
        after_last(s, c) == s.skip(i),
    decreases s.len(),
{
    if i == s.len() {
        assert(s.skip(i) =~= Seq::empty());
    } else {
        lemma_after_last(s.drop_last(), c, i);
        assert(s.skip(i) =~= s.drop_last().skip(i).push(s.last()));
    }
}

/// What stands behind the last `c` is the end of `s`, holds no `c`, and stands right behind a `c`
/// unless it is the whole.
pub proof fn lemma_after_last_is(s: Seq<char>, c: char)
    ensures
        after_last(s, c).len() <= s.len(),
        after_last(s, c) == s.skip(s.len() - after_last(s, c).len()),
        after_last(s, c).len() < s.len() ==> s[s.len() - after_last(s, c).len() - 1] == c,
        forall|i: int| 0 <= i < after_last(s, c).len() ==> #[trigger] after_last(s, c)[i] != c,
    decreases s.len(),
{
    if s.len() > 0 && s.last() != c {
        lemma_after_last_is(s.drop_last(), c);
        let rest = after_last(s.drop_last(), c);
        assert(s.skip(s.len() - rest.len() - 1) =~= rest.push(s.last()));
    } else {
        assert(s.skip(s.len() as int) =~= Seq::empty());
    }
}

/// What stands behind the last `c` is made of characters of `s`.
pub proof fn lemma_after_last_in(s: Seq<char>, c: char, x: char)
    requires
        !s.contains(x),
    ensures
        !after_last(s, c).contains(x),
    decreases s.len(),
{
    if s.len() > 0 && s.last() != c {
        let t = s.drop_last();
        assert(forall|i: int| 0 <= i < s.len() ==> s[i] != x);
        assert(forall|i: int| 0 <= i < t.len() ==> t[i] == s[i]);
        lemma_after_last_in(t, c, x);
        let a = after_last(t, c);
        assert forall|i: int| 0 <= i < a.push(s.last()).len() implies a.push(s.last())[i] != x by {
            if i < a.len() {
                assert(a.contains(a[i]));
            }
        }
    }
}

/// The text behind the last `c` in `s`.
pub fn text_after_last(s: &[char], c: char) -> (res: String)
    ensures
        res@ == after_last(s@, c),
{
    let mut i: usize = s.len();
    while i > 0 && s[i - 1] != c
        invariant
            0 <= i <= s@.len(),
            forall|j: int| i <= j < s@.len() ==> s@[j] != c,
        decreases i,
    {
        i = i - 1;
    }
    proof {
        lemma_after_last(s@, c, i as int);
        assert(s@.subrange(i as int, s@.len() as int) =~= s@.skip(i as int));
    }
    text_of(s, i, s.len())
}

/// `c` has the Unicode property `White_Space`.
pub open spec fn white_space(c: char) -> bool {
    let n = c as u32;
    ||| 0x9 <= n <= 0xD
    ||| n == 0x20
    ||| n == 0x85
    ||| n == 0xA0
    ||| n == 0x1680
    ||| 0x2000 <= n <= 0x200A
    ||| n == 0x2028
    ||| n == 0x2029
    ||| n == 0x202F
    ||| n == 0x205F
    ||| n == 0x3000
}

/// Whether `c` has the Unicode property `White_Space`.
pub fn is_white_space(c: char) -> (res: bool)
    ensures
        res == white_space(c),
{
    let n: u32 = c as u32;
    (0x9 <= n && n <= 0xD) || n == 0x20 || n == 0x85 || n == 0xA0 || n == 0x1680 || (0x2000 <= n
        && n <= 0x200A) || n == 0x2028 || n == 0x2029 || n == 0x202F || n == 0x205F || n == 0x3000
}

/// `s` without the longest run of characters at its end that satisfy `drop`.
pub open spec fn trim_end_where(s: Seq<char>, drop: spec_fn(char) -> bool) -> Seq<char>
    decreases s.len(),
{
    if s.len() > 0 && drop(s.last()) {
        trim_end_where(s.drop_last(), drop)
    } else {
        s
    }
}

/// `s` without the longest run of characters at its beginning that satisfy `drop`.
pub open spec fn trim_start_where(s: Seq<char>, drop: spec_fn(char) -> bool) -> Seq<char>
    decreases s.len(),
{
    if s.len() > 0 && drop(s[0]) {
        trim_start_where(s.drop_first(), drop)
    } else {
        s
    }
}

/// `s` without the white space at its two ends.
pub open spec fn trimmed(s: Seq<char>) -> Seq<char> {
    trim_end_where(trim_start_where(s, |c: char| white_space(c)), |c: char| white_space(c))
}

/// `c` ends a line.
pub open spec fn line_end(c: char) -> bool {
    c == '\n' || c == '\r'
}

/// `s` without the line ends behind its last other character.
pub open spec fn without_line_ends(s: Seq<char>) -> Seq<char> {
    trim_end_where(s, |c: char| line_end(c))
}

/// Line ends behind a text make no difference once they are trimmed.
pub proof fn line_ends_are_dropped(s: Seq<char>, ends: Seq<char>)
    requires
        forall|i: int| 0 <= i < ends.len() ==> line_end(#[trigger] ends[i]),
    ensures
        without_line_ends(s + ends) == without_line_ends(s),
    decreases ends.len(),
{
    if ends.len() == 0 {
        assert(s + ends =~= s);
    } else {
        assert((s + ends).last() == ends[ends.len() - 1]);
        assert((s + ends).drop_last() =~= s + ends.drop_last());
        assert forall|i: int| 0 <= i < ends.drop_last().len() implies line_end(
            #[trigger] ends.drop_last()[i],
        ) by {
            assert(line_end(ends[i]));
        }
        line_ends_are_dropped(s, ends.drop_last());
    }
}

/// Cutting `s` at `i` is trimming its end, where all behind `i` goes and what is before stays.
proof fn lemma_trim_end(s: Seq<char>, drop: spec_fn(char) -> bool, i: int)
    requires
        0 <= i <= s.len(),
        i > 0 ==> !drop(s[i - 1]),
        forall|j: int| i <= j < s.len() ==> drop(#[trigger] s[j]),
    ensures
        trim_end_where(s, drop) == s.take(i),
    decreases s.len(),
{
    if i == s.len() {
        assert(s.take(i) =~= s);
    } else {
        lemma_trim_end(s.drop_last(), drop, i);
        assert(s.drop_last().take(i) =~= s.take(i));
    }
}

/// Cutting `s` before `i` is trimming its beginning, in the same way.
proof fn lemma_trim_start(s: Seq<char>, drop: spec_fn(char) -> bool, i: int)
    requires
        0 <= i <= s.len(),
        i < s.len() ==> !drop(s[i]),
        forall|j: int| 0 <= j < i ==> drop(#[trigger] s[j]),
    ensures
        trim_start_where(s, drop) == s.skip(i),
    decreases s.len(),
{
    if i == 0 {
        assert(s.skip(i) =~= s);
    } else {
        let t = s.drop_first();
        assert forall|j: int| 0 <= j < i - 1 implies drop(#[trigger] t[j]) by {
            assert(t[j] == s[j + 1]);
        }
        lemma_trim_start(t, drop, i - 1);
        assert(t.skip(i - 1) =~= s.skip(i));
    }
}

/// `s` without the white space at its two ends.
pub fn trim(s: &str) -> (res: String)
    ensures
        res@ == trimmed(s@),
{
    let cs = chars_of(s);
    let mut from: usize = 0;
    while from < cs.len() && is_white_space(cs[from])
        invariant
            from <= cs@.len(),
            forall|j: int| 0 <= j < from ==> white_space(#[trigger] cs@[j]),
        decreases cs@.len() - from,
    {
        from = from + 1;
    }
    let mut to: usize = cs.len();
    while to > from && is_white_space(cs[to - 1])
        invariant
            from <= to <= cs@.len(),
            forall|j: int| to <= j < cs@.len() ==> white_space(#[trigger] cs@[j]),
        decreases to - from,
    {
        to = to - 1;
    }
    proof {
        let drop = |c: char| white_space(c);
        lemma_trim_start(s@, drop, from as int);
        let t = s@.skip(from as int);
        assert forall|j: int| to - from <= j < t.len() implies drop(#[trigger] t[j]) by {
            assert(t[j] == cs@[from + j]);
        }
        lemma_trim_end(t, drop, to - from);
        assert(t.take(to - from) =~= s@.subrange(from as int, to as int));
    }
    text_of(cs.as_slice(), from, to)
}

/// `s` without the line ends behind its last other character.
pub fn trim_line_ends(s: &str) -> (res: String)
    ensures
        res@ == without_line_ends(s@),
{
    let cs = chars_of(s);
    let mut to: usize = cs.len();
    while to > 0 && (cs[to - 1] == '\n' || cs[to - 1] == '\r')
        invariant
            0 <= to <= cs@.len(),
            forall|j: int| to <= j < cs@.len() ==> line_end(#[trigger] cs@[j]),
        decreases to,
    {
        to = to - 1;
    }
    proof {
        lemma_trim_end(s@, |c: char| line_end(c), to as int);
        assert(s@.take(to as int) =~= s@.subrange(0, to as int));
    }
    text_of(cs.as_slice(), 0, to)
}

/// The first line of `s`, which is not empty: what stands before the first line feed,
/// without the carriage return of a `"\r\n"`.
pub open spec fn first_line(s: Seq<char>) -> Seq<char> {
    let i = first_index(s, '\n');
    if 0 < i < s.len() && s[i - 1] == '\r' {
        s.take(i - 1)
    } else {
        s.take(i)
    }
}

/// The lines of `s`, without their line endings. A last line need not have one.
pub open spec fn lines_of(s: Seq<char>) -> Seq<Seq<char>>
    decreases s.len(),
{
    if s.len() == 0 {
        Seq::empty()
    } else {
        let i = first_index(s, '\n');
        if 0 <= i < s.len() {
            seq![first_line(s)] + lines_of(s.skip(i + 1))
        } else {
            seq![s]
        }
    }
}

/// No line holds a line feed.
pub proof fn lines_are_single(s: Seq<char>)
    ensures
        forall|k: int| 0 <= k < lines_of(s).len() ==> !(#[trigger] lines_of(s)[k]).contains('\n'),
    decreases s.len(),
{
    lemma_first_index(s, '\n');
    let i = first_index(s, '\n');
    if s.len() > 0 && i < s.len() {
        let rest = lines_of(s.skip(i + 1));
        lines_are_single(s.skip(i + 1));
        assert forall|k: int| 0 <= k < lines_of(s).len() implies !(
        #[trigger] lines_of(s)[k]).contains('\n') by {
            if k > 0 {
                assert(lines_of(s)[k] == rest[k - 1]);
            }
        }
    }
}

/// The texts that a list of strings holds.
pub open spec fn texts(v: Seq<String>) -> Seq<Seq<char>> {
    v.map_values(|s: String| s@)
}

/// The text that an optional string holds.
pub open spec fn text_in(s: Option<String>) -> Option<Seq<char>> {
    match s {
        Some(t) => Some(t@),
        None => None,
    }
}

/// Where the line that begins at `from` ends, without its line ending, and where the next begins.
fn next_line(s: &[char], from: usize) -> (res: (usize, usize))
    requires
        from < s@.len(),
    ensures
        from <= res.0 <= s@.len(),
        from < res.1 <= s@.len(),
        lines_of(s@.skip(from as int)) == seq![s@.subrange(from as int, res.0 as int)] + lines_of(
            s@.skip(res.1 as int),
        ),
{
    let i = find_char(s, from, '\n');
    let ghost t = s@.skip(from as int);
    if i < s.len() {
        let to: usize = if i > from && s[i - 1] == '\r' { i - 1 } else { i };
        assert(t.skip(i - from + 1) =~= s@.skip(i + 1));
        assert(t.take(to - from) =~= s@.subrange(from as int, to as int));
        (to, i + 1)
    } else {
        assert(t =~= s@.subrange(from as int, i as int));
        assert(s@.skip(i as int) =~= Seq::empty());
        assert(seq![t] + lines_of(s@.skip(i as int)) =~= seq![t]);
        (i, i)
    }
}

/// The first of `lines` that begins with `prefix`.
pub open spec fn first_with_prefix(lines: Seq<Seq<char>>, prefix: Seq<char>) -> Option<Seq<char>>
    decreases lines.len(),
{
    if lines.len() == 0 {
        None
    } else if begins_with(lines[0], prefix) {
        Some(lines[0])
    } else {
        first_with_prefix(lines.drop_first(), prefix)
    }
}

/// The first line of `s` that begins with `prefix`.
pub fn find_line(s: &str, prefix: &str) -> (res: Option<String>)
    ensures
        text_in(res) == first_with_prefix(lines_of(s@), prefix@),
{
    let cs = chars_of(s);
    let mut from: usize = 0;
    assert(s@.skip(0) =~= s@);
    while from < cs.len()
        invariant
            from <= cs@.len(),
            cs@ == s@,
            first_with_prefix(lines_of(s@), prefix@) == first_with_prefix(
                lines_of(s@.skip(from as int)),
                prefix@,
            ),
        decreases cs@.len() - from,
    {
        let (to, next) = next_line(cs.as_slice(), from);
        let line = text_of(cs.as_slice(), from, to);
        let ghost rest = lines_of(s@.skip(next as int));
        assert((seq![line@] + rest).drop_first() =~= rest);
        if starts_with(chars_of(line.as_str()).as_slice(), prefix) {
            return Some(line);
        }
        from = next;
    }
    assert(s@.skip(from as int) =~= Seq::empty());
    None
}

/// `s` with each `from` in it replaced by `to`, from left to right.
pub open spec fn replaced(s: Seq<char>, from: Seq<char>, to: Seq<char>) -> Seq<char>
    decreases s.len(),
{
    if s.len() == 0 {
        Seq::empty()
    } else if from.len() > 0 && begins_with(s, from) {
        to + replaced(s.skip(from.len() as int), from, to)
    } else {
        seq![s[0]] + replaced(s.drop_first(), from, to)
    }
}

/// `s` with each `from` in it, which must not be empty, replaced by `to`, from left to right.
pub fn replace(s: &str, from: &str, to: &str) -> (res: String)
    requires
        from@.len() > 0,
    ensures
        res@ == replaced(s@, from@, to@),
{
    let cs = chars_of(s);
    let pat = chars_of(from);
    let mut res = String::new();
    let mut i: usize = 0;
    assert(s@.skip(0) =~= s@);
    assert(Seq::<char>::empty() + replaced(s@, from@, to@) =~= replaced(s@, from@, to@));
    while i < cs.len()
        invariant
            i <= cs@.len(),
            cs@ == s@,
            pat@ == from@,
            pat@.len() > 0,
            replaced(s@, from@, to@) == res@ + replaced(s@.skip(i as int), from@, to@),
        decreases cs@.len() - i,
    {
        let ghost t = s@.skip(i as int);
        let ghost before = res@;
        if pat.len() <= cs.len() - i && matches_at(cs.as_slice(), pat.as_slice(), i) {
            assert(t.subrange(0, pat@.len() as int) =~= s@.subrange(i as int, i + pat@.len()));
            res.append(to);
            i = i + pat.len();
            assert(t.skip(pat@.len() as int) =~= s@.skip(i as int));
            assert(before + (to@ + replaced(s@.skip(i as int), from@, to@)) =~= res@ + replaced(
                s@.skip(i as int),
                from@,
                to@,
            ));
        } else {
            assert(!begins_with(t, from@)) by {
                if begins_with(t, from@) {
                    assert(t.subrange(0, pat@.len() as int) =~= s@.subrange(
                        i as int,
                        i + pat@.len(),
                    ));
                }
            }
            res.push(cs[i]);
            i = i + 1;
            assert(t.drop_first() =~= s@.skip(i as int));
            assert(before + (seq![t[0]] + replaced(s@.skip(i as int), from@, to@)) =~= res@
                + replaced(s@.skip(i as int), from@, to@));
        }
    }
    assert(s@.skip(i as int) =~= Seq::empty());
    assert(res@ + Seq::<char>::empty() =~= res@);
    res
}

/// The digit for `d` in a base of at most 16.
pub open spec fn digit(d: nat) -> char {
    if d < 10 {
        (0x30 + d) as char
    } else {
        (0x57 + d) as char
    }
}

/// `n` written in `base`, with lower-case digits and no leading zero.
pub open spec fn numeral(n: nat, base: nat) -> Seq<char>
    decreases n,
{
    if n < base || base < 2 {
        seq![digit(n)]
    } else {
        proof {
            assert(n / base < n) by (nonlinear_arith)
                requires
                    n >= base,
                    base >= 2,
            ;
        }
        numeral(n / base, base).push(digit(n % base))
    }
}

/// A numeral is not empty, and made of digits.
pub proof fn lemma_numeral_digits(n: nat, base: nat)
    requires
        2 <= base <= 16,
    ensures
        numeral(n, base).len() > 0,
        forall|i: int|
            0 <= i < numeral(n, base).len() ==> {
                let c = #[trigger] numeral(n, base)[i];
                '0' <= c <= '9' || 'a' <= c <= 'f'
            },
    decreases n,
{
    if n >= base {
        assert(n / base < n) by (nonlinear_arith)
            requires
                n >= base,
                base >= 2,
        ;
        assert(0 <= n % base < base) by (nonlinear_arith)
            requires
                base >= 2,
        ;
        lemma_numeral_digits(n / base, base);
        let lead = numeral(n / base, base);
        assert forall|i: int| 0 <= i < numeral(n, base).len() implies ({
            let c = #[trigger] numeral(n, base)[i];
            '0' <= c <= '9' || 'a' <= c <= 'f'
        }) by {
            if i < lead.len() {
                assert(numeral(n, base)[i] == lead[i]);
            }
        }
    }
}

/// Different numbers have different numerals.
pub proof fn lemma_numeral_injective(m: nat, n: nat, base: nat)
    requires
        2 <= base <= 16,
        numeral(m, base) == numeral(n, base),
    ensures
        m == n,
    decreases m,
{
    let (a, b) = (numeral(m, base).last(), numeral(n, base).last());
    assert(a == b);
    if m >= base {
        lemma_numeral_digits(m / base, base);
    }
    if n >= base {
        lemma_numeral_digits(n / base, base);
    }
    assert(0 <= m % base < base && 0 <= n % base < base) by (nonlinear_arith)
        requires
            base >= 2,
    ;
    if m < base && n < base {
        assert(a == digit(m) && b == digit(n));
    } else if m >= base && n >= base {
        assert(a == digit(m % base) && b == digit(n % base));
        assert(m / base < m) by (nonlinear_arith)
            requires
                m >= base,
                base >= 2,
        ;
        assert(numeral(m / base, base) =~= numeral(m, base).drop_last());
        assert(numeral(n / base, base) =~= numeral(n, base).drop_last());
        lemma_numeral_injective(m / base, n / base, base);
        assert(m == n) by (nonlinear_arith)
            requires
                m / base == n / base,
                m % base == n % base,
                base >= 2,
        ;
    }
}

/// The digit for `d`.
fn digit_char(d: u8) -> (res: char)
    requires
        d < 16,
    ensures
        res == digit(d as nat),
{
    if d < 10 {
        (0x30 + d) as char
    } else {
        (0x57 + d) as char
    }
}

/// Writes `n` in `base` behind what `out` holds.
fn push_numeral(out: &mut String, n: u128, base: u128)
    requires
        2 <= base <= 16,
    ensures
        final(out)@ == old(out)@ + numeral(n as nat, base as nat),
    decreases n,
{
    if n < base {
        out.push(digit_char(n as u8));
        assert(out@ =~= old(out)@ + numeral(n as nat, base as nat));
    } else {
        assert(n / base < n) by (nonlinear_arith)
            requires
                n >= base,
                base >= 2,
        ;
        push_numeral(out, n / base, base);
        assert(0 <= n % base < base) by (nonlinear_arith)
            requires
                base >= 2,
        ;
        out.push(digit_char((n % base) as u8));
        assert(out@ =~= old(out)@ + numeral(n as nat, base as nat));
    }
}

/// `n` as a decimal numeral.
pub fn decimal(n: u64) -> (res: String)
    ensures
        res@ == numeral(n as nat, 10),
{
    let mut out = String::new();
    push_numeral(&mut out, n as u128, 10);
    assert(Seq::<char>::empty() + numeral(n as nat, 10) =~= numeral(n as nat, 10));
    out
}

/// `n` as a hexadecimal numeral with lower-case digits.
pub fn hexadecimal(n: u128) -> (res: String)
    ensures
        res@ == numeral(n as nat, 16),
{
    let mut out = String::new();
    push_numeral(&mut out, n, 16);
    assert(Seq::<char>::empty() + numeral(n as nat, 16) =~= numeral(n as nat, 16));
    out
}

/// A text begins with another exactly if the rest can be put behind that.
proof fn lemma_begins(s: Seq<char>, p: Seq<char>)
    ensures
        begins_with(s, p) <==> exists|t: Seq<char>| s == #[trigger] (p + t),
{
    if begins_with(s, p) {
        assert(s =~= p + s.skip(p.len() as int));
    }
    if exists|t: Seq<char>| s == #[trigger] (p + t) {
        assert(s.subrange(0, p.len() as int) =~= p);
    }
}

/// A text ends in another exactly if the rest can be put before that.
proof fn lemma_ends(s: Seq<char>, p: Seq<char>)
    ensures
        ends_in(s, p) <==> exists|t: Seq<char>| s == #[trigger] (t + p),
{
    if ends_in(s, p) {
        let i = s.len() - p.len();
        assert(s =~= s.take(i) + p) by {
            assert(s =~= s.take(i) + s.subrange(i, i + p.len()));
        }
    }
    if exists|t: Seq<char>| s == #[trigger] (t + p) {
        let t = choose|t: Seq<char>| s == #[trigger] (t + p);
        assert(s.subrange(t.len() as int, s.len() as int) =~= p);
    }
}

/// A text stands in another where that is it with something on both sides.
proof fn lemma_occurs(s: Seq<char>, p: Seq<char>, i: int)
    ensures
        occurs_at(s, p, i) <==> exists|a: Seq<char>, b: Seq<char>|
            a.len() == i && s == #[trigger] (a + p + b),
{
    if occurs_at(s, p, i) {
        let (a, b) = (s.take(i), s.skip(i + p.len()));
        assert(s =~= a + p + b) by {
            assert(s =~= a + s.subrange(i, i + p.len()) + b);
        }
        assert(a.len() == i);
    }
    if exists|a: Seq<char>, b: Seq<char>| a.len() == i && s == #[trigger] (a + p + b) {
        let (a, b) = choose|a: Seq<char>, b: Seq<char>|
            a.len() == i && s == #[trigger] (a + p + b);
        assert(s.subrange(i, i + p.len()) =~= p);
    }
}

/// A text holds another exactly if it is that with something on both sides.
proof fn lemma_has(s: Seq<char>, p: Seq<char>)
    ensures
        has_text(s, p) <==> exists|a: Seq<char>, b: Seq<char>| s == #[trigger] (a + p + b),
{
    if has_text(s, p) {
        let i = choose|i: int| occurs_at(s, p, i);
        lemma_occurs(s, p, i);
    }
    if exists|a: Seq<char>, b: Seq<char>| s == #[trigger] (a + p + b) {
        let (a, b) = choose|a: Seq<char>, b: Seq<char>| s == #[trigger] (a + p + b);
        lemma_occurs(s, p, a.len() as int);
        assert(a.len() == a.len() as int && s == a + p + b);
        assert(occurs_at(s, p, a.len() as int));
    }
}

/// A text begins with another exactly if the rest can be put behind that, ends in it exactly if
/// the rest can be put before it, and holds it exactly if it is that with something on both
/// sides.
pub proof fn search_is_exact(s: Seq<char>, p: Seq<char>, i: int)
    ensures
        begins_with(s, p) <==> exists|t: Seq<char>| s == #[trigger] (p + t),
        ends_in(s, p) <==> exists|t: Seq<char>| s == #[trigger] (t + p),
        has_text(s, p) <==> exists|a: Seq<char>, b: Seq<char>| s == #[trigger] (a + p + b),
        occurs_at(s, p, i) <==> exists|a: Seq<char>, b: Seq<char>|
            a.len() == i && s == #[trigger] (a + p + b),
{
    lemma_begins(s, p);
    lemma_ends(s, p);
    lemma_has(s, p);
    lemma_occurs(s, p, i);
}

/// A text is split at its first `c`: what stands before that holds no `c`, and what stands
/// behind it may hold any. A text without `c` is not split.
pub proof fn first_splits(a: Seq<char>, c: char, b: Seq<char>)
    requires
        !a.contains(c),
    ensures
        split_once(a + seq![c] + b, c) == Some((a, b)),
        split_once(a, c) is None,
{
    let s = a + seq![c] + b;
    assert(forall|j: int| 0 <= j < a.len() ==> a.contains(#[trigger] a[j]));
    lemma_first_index_is(s, c, a.len() as int);
    assert(s.take(a.len() as int) =~= a);
    assert(s.skip(a.len() as int + 1) =~= b);
    lemma_first_index_is(a, c, a.len() as int);
}

/// Behind the last `c` stands what holds no `c`, whatever stands before; without a `c` it is
/// all.
pub proof fn last_splits(a: Seq<char>, c: char, e: Seq<char>)
    requires
        !e.contains(c),
    ensures
        after_last(a + seq![c] + e, c) == e,
        after_last(e, c) == e,
{
    let s = a + seq![c] + e;
    assert(forall|j: int| 0 <= j < e.len() ==> e.contains(#[trigger] e[j]));
    lemma_after_last(s, c, a.len() as int + 1);
    assert(s.skip(a.len() as int + 1) =~= e);
    lemma_after_last(e, c, 0);
    assert(e.skip(0) =~= e);
}

/// The white space of Unicode, character by character.
pub proof fn white_space_of_unicode(c: char)
    ensures
        white_space(c) <==> (
            c == '\u{9}'
            || c == '\u{a}'
            || c == '\u{b}'
            || c == '\u{c}'
            || c == '\u{d}'
            || c == '\u{20}'
            || c == '\u{85}'
            || c == '\u{a0}'
            || c == '\u{1680}'
            || c == '\u{2000}'
            || c == '\u{2001}'
            || c == '\u{2002}'
            || c == '\u{2003}'
            || c == '\u{2004}'
            || c == '\u{2005}'
            || c == '\u{2006}'
            || c == '\u{2007}'
            || c == '\u{2008}'
            || c == '\u{2009}'
            || c == '\u{200a}'
            || c == '\u{2028}'
            || c == '\u{2029}'
            || c == '\u{202f}'
            || c == '\u{205f}'
            || c == '\u{3000}'
        ),
{
}

/// White space around a text is trimmed, and nothing else: what is left begins and ends with
/// other characters, and may hold any between them.
pub proof fn trimming_leaves_the_middle(a: Seq<char>, t: Seq<char>, b: Seq<char>)
    requires
        forall|i: int| 0 <= i < a.len() ==> white_space(#[trigger] a[i]),
        forall|i: int| 0 <= i < b.len() ==> white_space(#[trigger] b[i]),
        t.len() > 0 ==> !white_space(t[0]) && !white_space(t.last()),
    ensures
        trimmed(a + t + b) == t,
{
    let s = a + t + b;
    let drop = |c: char| white_space(c);
    if t.len() == 0 {
        assert forall|j: int| 0 <= j < s.len() implies drop(#[trigger] s[j]) by {
            if j < a.len() {
                assert(s[j] == a[j]);
            } else {
                assert(s[j] == b[j - a.len()]);
            }
        }
        lemma_trim_start(s, drop, s.len() as int);
        assert(s.skip(s.len() as int) =~= t);
    } else {
        assert forall|j: int| 0 <= j < a.len() implies drop(#[trigger] s[j]) by {
            assert(s[j] == a[j]);
        }
        assert(s[a.len() as int] == t[0]);
        lemma_trim_start(s, drop, a.len() as int);
        let u = s.skip(a.len() as int);
        assert(u =~= t + b);
        assert(u[t.len() - 1] == t.last());
        assert forall|j: int| t.len() <= j < u.len() implies drop(#[trigger] u[j]) by {
            assert(u[j] == b[j - t.len()]);
        }
        lemma_trim_end(u, drop, t.len() as int);
        assert(u.take(t.len() as int) =~= t);
    }
}

/// Line feeds and carriage returns behind a text are trimmed, and nothing else.
pub proof fn line_ends_behind_go(t: Seq<char>, ends: Seq<char>)
    requires
        t.len() > 0 ==> t.last() != '\n' && t.last() != '\r',
        forall|i: int| 0 <= i < ends.len() ==> (#[trigger] ends[i] == '\n' || ends[i] == '\r'),
    ensures
        without_line_ends(t + ends) == t,
{
    let s = t + ends;
    let drop = |c: char| line_end(c);
    assert forall|j: int| t.len() <= j < s.len() implies drop(#[trigger] s[j]) by {
        assert(s[j] == ends[j - t.len()]);
    }
    lemma_trim_end(s, drop, t.len() as int);
    assert(s.take(t.len() as int) =~= t);
}

/// A line ends at a line feed, with or without a carriage return before it, or at the end of
/// the text. It is kept whole, however long it is, and the lines behind it are those of the rest.
pub proof fn lines_end_at_line_feeds(line: Seq<char>, rest: Seq<char>)
    requires
        !line.contains('\n'),
    ensures
        lines_of(line + "\r\n"@ + rest) == seq![line] + lines_of(rest),
        line.len() == 0 || line.last() != '\r' ==> lines_of(line + "\n"@ + rest) == seq![line]
            + lines_of(rest),
        line.len() > 0 ==> lines_of(line) == seq![line],
        lines_of(Seq::<char>::empty()) == Seq::<Seq<char>>::empty(),
{
    reveal_strlit("\n");
    reveal_strlit("\r\n");
    assert(forall|j: int| 0 <= j < line.len() ==> line.contains(#[trigger] line[j]));
    let n = line.len() as int;
    let s = line + "\r\n"@ + rest;
    assert(s[n] == '\r' && s[n + 1] == '\n');
    lemma_first_index_is(s, '\n', n + 1);
    assert(s.take(n) =~= line);
    assert(s.skip(n + 2) =~= rest);
    let s = line + "\n"@ + rest;
    assert(s[n] == '\n');
    lemma_first_index_is(s, '\n', n);
    assert(s.take(n) =~= line);
    assert(s.skip(n + 1) =~= rest);
    lemma_first_index_is(line, '\n', n);
}

/// Lines that are written one behind the other, each with a line feed behind it, are read back
/// unchanged.
pub proof fn written_lines_are_read_back(lines: Seq<Seq<char>>)
    requires
        forall|k: int|
            0 <= k < lines.len() ==> !(#[trigger] lines[k]).contains('\n') && (lines[k].len() == 0
                || lines[k].last() != '\r'),
    ensures
        lines_of(lines.map_values(|line: Seq<char>| line + "\n"@).flatten()) == lines,
    decreases lines.len(),
{
    let written = lines.map_values(|line: Seq<char>| line + "\n"@);
    if lines.len() == 0 {
        assert(written.flatten() =~= Seq::empty());
        assert(lines_of(written.flatten()) =~= lines);
    } else {
        let rest = lines.drop_first();
        assert forall|k: int| 0 <= k < rest.len() implies !(#[trigger] rest[k]).contains('\n') && (
        rest[k].len() == 0 || rest[k].last() != '\r') by {
            assert(rest[k] == lines[k + 1]);
        }
        written_lines_are_read_back(rest);
        let more = rest.map_values(|line: Seq<char>| line + "\n"@);
        assert(written.drop_first() =~= more);
        assert(written.flatten() == (lines[0] + "\n"@) + more.flatten());
        assert((lines[0] + "\n"@) + more.flatten() =~= lines[0] + "\n"@ + more.flatten());
        lines_end_at_line_feeds(lines[0], more.flatten());
        assert(seq![lines[0]] + rest =~= lines);
    }
}

/// The line that is found by a prefix is the first that begins with it, whole; none is found
/// exactly if no line begins with it.
pub proof fn first_line_is_found(lines: Seq<Seq<char>>, prefix: Seq<char>)
    ensures
        first_with_prefix(lines, prefix) matches Some(line) ==> exists|k: int|
            0 <= k < lines.len() && #[trigger] lines[k] == line && begins_with(line, prefix) && forall|
                j: int,
            |
                0 <= j < k ==> !begins_with(#[trigger] lines[j], prefix),
        first_with_prefix(lines, prefix) is None <==> forall|j: int|
            0 <= j < lines.len() ==> !begins_with(#[trigger] lines[j], prefix),
    decreases lines.len(),
{
    if lines.len() > 0 && !begins_with(lines[0], prefix) {
        let rest = lines.drop_first();
        first_line_is_found(rest, prefix);
        assert(forall|j: int| 0 <= j < rest.len() ==> #[trigger] rest[j] == lines[j + 1]);
        assert(forall|j: int| 1 <= j < lines.len() ==> #[trigger] lines[j] == rest[j - 1]);
        if let Some(line) = first_with_prefix(rest, prefix) {
            let k = choose|k: int|
                0 <= k < rest.len() && #[trigger] rest[k] == line && begins_with(line, prefix)
                    && forall|j: int| 0 <= j < k ==> !begins_with(#[trigger] rest[j], prefix);
            assert(lines[k + 1] == line);
            assert forall|j: int| 0 <= j < k + 1 implies !begins_with(#[trigger] lines[j], prefix) by {
                if j > 0 {
                    assert(!begins_with(rest[j - 1], prefix));
                }
            }
        }
    } else if lines.len() > 0 {
        assert(lines[0] == first_with_prefix(lines, prefix)->0);
    }
}

/// The first `from` in a text is replaced, then those in what stands behind it; a text without
/// it stays as it is.
pub proof fn each_is_replaced(a: Seq<char>, from: Seq<char>, b: Seq<char>, to: Seq<char>)
    requires
        from.len() > 0,
        forall|i: int| 0 <= i < a.len() ==> !occurs_at(a + from + b, from, i),
    ensures
        replaced(a + from + b, from, to) == a + to + replaced(b, from, to),
        !has_text(b, from) ==> replaced(b, from, to) == b,
    decreases a.len() + b.len(),
{
    let s = a + from + b;
    if !has_text(b, from) {
        lemma_nothing_replaced(b, from, to);
    }
    if a.len() == 0 {
        assert(s.subrange(0, from.len() as int) =~= from);
        assert(s.skip(from.len() as int) =~= b);
        assert(a + to + replaced(b, from, to) =~= to + replaced(b, from, to));
    } else {
        let rest = a.drop_first();
        let t = rest + from + b;
        assert(s.drop_first() =~= t);
        assert forall|i: int| 0 <= i < rest.len() implies !occurs_at(t, from, i) by {
            if occurs_at(t, from, i) {
                assert(t.subrange(i, i + from.len()) =~= s.subrange(i + 1, i + 1 + from.len()));
                assert(occurs_at(s, from, i + 1));
            }
        }
        each_is_replaced(rest, from, b, to);
        assert(!occurs_at(s, from, 0));
        assert(seq![s[0]] + (rest + to + replaced(b, from, to)) =~= a + to + replaced(b, from, to));
    }
}

/// Where there is nothing to replace, nothing is replaced.
proof fn lemma_nothing_replaced(s: Seq<char>, from: Seq<char>, to: Seq<char>)
    requires
        !has_text(s, from),
    ensures
        replaced(s, from, to) == s,
    decreases s.len(),
{
    if s.len() > 0 {
        let t = s.drop_first();
        if has_text(t, from) {
            let i = choose|i: int| occurs_at(t, from, i);
            assert(t.subrange(i, i + from.len()) =~= s.subrange(i + 1, i + 1 + from.len()));
            assert(occurs_at(s, from, i + 1));
        }
        lemma_nothing_replaced(t, from, to);
        assert(!occurs_at(s, from, 0));
        assert(seq![s[0]] + t =~= s);
    }
}

/// The last digit of a numeral counts ones, and what stands before it counts as many times the
/// base; a number below the base is one digit.
pub proof fn digits_count(q: nat, d: nat, base: nat)
    requires
        2 <= base <= 16,
        d < base,
    ensures
        numeral(d, base) == seq!["0123456789abcdef"@[d as int]],
        q > 0 ==> numeral(q * base + d, base) == numeral(q, base) + seq![
            "0123456789abcdef"@[d as int],
        ],
{
    reveal_strlit("0123456789abcdef");
    assert(digit(d) == "0123456789abcdef"@[d as int]);
    if q > 0 {
        let n = q * base + d;
        assert(n >= base && n / base == q && n % base == d) by (nonlinear_arith)
            requires
                n == q * base + d,
                q > 0,
                d < base,
                base >= 2,
        ;
        assert(numeral(n, base) =~= numeral(q, base) + seq![digit(d)]);
    }
}

/// What a list of strings, or an optional string, holds are the texts of the strings, one for
/// one.
pub proof fn texts_are_kept(v: Seq<String>, s: String)
    ensures
        texts(v).len() == v.len(),
        forall|i: int| 0 <= i < v.len() ==> #[trigger] texts(v)[i] == v[i]@,
        text_in(Some(s)) == Some(s@),
        text_in(None) is None,
{
}

} // verus!
