//! The list of clipboard entries: its rows, and the way back from a row to its entry.
//!
//! An entry is one line of `cliphist list`: an id, a tab and the content. A row begins with
//! the same id and a tab, so that the id of the selected row names the entry.
use crate::label;
use crate::outside;
use crate::text;
use vstd::prelude::*;
use vstd::string::*;
use vstd::utf8::*;

verus! {

/// `line` is an HTML copy of a sticker, which is left out of the list.
pub open spec fn is_sticker(line: Seq<char>) -> bool {
    text::has_text(line, "<html"@) && text::has_text(line, "[表情]"@)
}

/// The id and the content of the entry on a line; none where the line gets no row.
pub open spec fn entry_on(line: Seq<char>) -> Option<(Seq<char>, Seq<char>)> {
    if is_sticker(line) {
        None
    } else {
        text::split_once(line, '\t')
    }
}

/// The id on a line of the list, whether or not the line gets a row.
pub open spec fn id_on(line: Seq<char>) -> Option<Seq<char>> {
    match text::split_once(line, '\t') {
        Some((id, _)) => Some(id),
        None => None,
    }
}

/// The number of a row, filled up with a space to two characters.
pub open spec fn padded(n: nat) -> Seq<char> {
    let digits = text::numeral(n, 10);
    if digits.len() < 2 {
        digits + " "@
    } else {
        digits
    }
}

/// The row with number `n` of the entry `id` that is shown as `shown`.
pub open spec fn row_of(id: Seq<char>, n: nat, shown: Seq<char>) -> Seq<char> {
    id + "\t\x1b[90m"@ + padded(n) + " \x1b[0m"@ + shown + "\n"@
}

/// How the content of an entry is shown.
pub open spec fn content_shown(content: Seq<char>) -> Seq<char> {
    label::shown_as(content, outside::lowercase(content))
}

/// The row with number `n` for a line, if the line gets one.
pub open spec fn row_for(line: Seq<char>, n: nat) -> Option<Seq<char>> {
    match entry_on(line) {
        Some((id, content)) => Some(row_of(id, n, content_shown(content))),
        None => None,
    }
}

/// The rows for the lines of a list, in order, numbered from 1.
pub open spec fn rows_of(lines: Seq<Seq<char>>) -> Seq<Seq<char>>
    decreases lines.len(),
{
    if lines.len() == 0 {
        Seq::empty()
    } else {
        let rows = rows_of(lines.drop_last());
        match row_for(lines.last(), rows.len() + 1) {
            Some(row) => rows.push(row),
            None => rows,
        }
    }
}

/// The entries on the lines of a list, in order.
pub open spec fn entries_of(lines: Seq<Seq<char>>) -> Seq<(Seq<char>, Seq<char>)>
    decreases lines.len(),
{
    if lines.len() == 0 {
        Seq::empty()
    } else {
        let entries = entries_of(lines.drop_last());
        match entry_on(lines.last()) {
            Some(entry) => entries.push(entry),
            None => entries,
        }
    }
}

/// The id and the content of the entry on a line; none where the line gets no row.
pub fn list_entry(line: &str) -> (res: Option<(String, String)>)
    ensures
        match res {
            Some((id, content)) => entry_on(line@) == Some((id@, content@)),
            None => entry_on(line@) is None,
        },
{
    let cs = text::chars_of(line);
    let s = cs.as_slice();
    if text::contains(s, "<html") && text::contains(s, "[表情]") {
        return None;
    }
    let tab = text::find_char(s, 0, '\t');
    assert(line@.skip(0) =~= line@);
    if tab == s.len() {
        return None;
    }
    assert(line@.subrange(0, tab as int) =~= line@.take(tab as int));
    assert(line@.subrange(tab + 1, line@.len() as int) =~= line@.skip(tab + 1));
    Some((text::text_of(s, 0, tab), text::text_of(s, tab + 1, s.len())))
}

/// The row with number `n` of the entry `id` that is shown as `shown`.
pub fn list_row(id: &str, n: u64, shown: &str) -> (res: String)
    ensures
        res@ == row_of(id@, n as nat, shown@),
{
    let mut number = text::decimal(n);
    if number.as_str().unicode_len() < 2 {
        number.append(" ");
    }
    let mut row = String::from_str(id);
    row.append("\t\x1b[90m");
    row.append(number.as_str());
    row.append(" \x1b[0m");
    row.append(shown);
    row.append("\n");
    row
}

/// A list in the making: it takes the lines one by one and gives the rows for them.
pub struct Listing {
    number: u64,
    lines: Ghost<Seq<Seq<char>>>,
}

impl View for Listing {
    type V = Seq<Seq<char>>;

    /// The lines that were taken so far.
    closed spec fn view(&self) -> Seq<Seq<char>> {
        self.lines@
    }
}

impl Listing {
    /// The number of the next row counts the entries that were on the lines.
    #[verifier::type_invariant]
    closed spec fn numbered(self) -> bool {
        self.number == entries_of(self.lines@).len() + 1
    }

    /// A list that has taken no line.
    pub fn new() -> (res: Self)
        ensures
            res@ == Seq::<Seq<char>>::empty(),
    {
        Listing { number: 1, lines: Ghost(Seq::empty()) }
    }

    /// The number that the next row will have.
    pub fn next_number(&self) -> (res: u64)
        ensures
            res == entries_of(self@).len() + 1,
    {
        proof {
            use_type_invariant(self);
        }
        self.number
    }

    /// Takes one more line, and gives the row for it, if it gets one.
    pub fn push(&mut self, line: &str) -> (res: Option<String>)
        requires
            entries_of(old(self)@).len() + 1 < u64::MAX,
        ensures
            final(self)@ == old(self)@.push(line@),
            text::text_in(res) == row_for(line@, entries_of(old(self)@).len() + 1),
            entry_on(line@) matches Some((id, content)) ==> is_ascii_chars(content) ==> text::text_in(
                res,
            ) == Some(
                row_of(
                    id,
                    entries_of(old(self)@).len() + 1,
                    label::shown_as(content, outside::ascii_lowercase(content)),
                ),
            ),
            rows_of(final(self)@) == match res {
                Some(row) => rows_of(old(self)@).push(row@),
                None => rows_of(old(self)@),
            },
    {
        proof {
            use_type_invariant(&*self);
            rows_follow_entries(self.lines@);
        }
        let number: u64 = self.number;
        let ghost lines = self.lines@.push(line@);
        assert(lines.drop_last() =~= self.lines@);
        match list_entry(line) {
            Some((id, content)) => {
                let shown = label::format_content(content.as_str());
                let row = list_row(id.as_str(), number, shown.as_str());
                *self = Listing { number: number + 1, lines: Ghost(lines) };
                Some(row)
            },
            None => {
                *self = Listing { number, lines: Ghost(lines) };
                None
            },
        }
    }
}

/// Every row of a list stands for one entry, in the order of the lines, and the number that it
/// shows counts the rows from 1 without a gap.
pub proof fn rows_follow_entries(lines: Seq<Seq<char>>)
    ensures
        rows_of(lines).len() == entries_of(lines).len(),
        forall|k: int|
            #![trigger rows_of(lines)[k]]
            0 <= k < rows_of(lines).len() ==> rows_of(lines)[k] == row_of(
                entries_of(lines)[k].0,
                (k + 1) as nat,
                content_shown(entries_of(lines)[k].1),
            ),
    decreases lines.len(),
{
    if lines.len() > 0 {
        rows_follow_entries(lines.drop_last());
        let rows = rows_of(lines.drop_last());
        let entries = entries_of(lines.drop_last());
        assert forall|k: int| #![trigger rows_of(lines)[k]] 0 <= k < rows_of(lines).len() implies
            rows_of(lines)[k] == row_of(
            entries_of(lines)[k].0,
            (k + 1) as nat,
            content_shown(entries_of(lines)[k].1),
        ) by {
            if k < rows.len() {
                assert(rows_of(lines)[k] == rows[k]);
                assert(entries_of(lines)[k] == entries[k]);
            }
        }
    }
}

/// The first field of a row, up to the tab, is the id of its entry.
pub proof fn row_begins_with_id(line: Seq<char>, n: nat)
    ensures
        row_for(line, n) matches Some(row) ==> id_on(row) is Some && id_on(row) == id_on(line),
{
    if entry_on(line) is Some {
        let (id, content) = entry_on(line)->0;
        let row = row_of(id, n, content_shown(content));
        text::lemma_first_index(line, '\t');
        reveal_strlit("\t\x1b[90m");
        assert(forall|j: int| 0 <= j < id.len() ==> row[j] == id[j]);
        assert(row[id.len() as int] == "\t\x1b[90m"@[0]);
        text::lemma_first_index_is(row, '\t', id.len() as int);
        assert(row.take(id.len() as int) =~= id);
    }
}

/// A row takes one line: its only line feed is at its end.
pub proof fn row_takes_one_line(line: Seq<char>, n: nat)
    requires
        !line.contains('\n'),
    ensures
        row_for(line, n) matches Some(row) ==> row.last() == '\n' && !row.drop_last().contains('\n'),
{
    if entry_on(line) is Some {
        let (id, content) = entry_on(line)->0;
        let shown = content_shown(content);
        let row = row_of(id, n, shown);
        assert(forall|j: int| 0 <= j < line.len() ==> line.contains(#[trigger] line[j]));
        text::lemma_first_index(line, '\t');
        assert(!content.contains('\n'));
        assert(forall|j: int| 0 <= j < id.len() ==> #[trigger] id[j] == line[j]);
        label::shown_on_one_line(content, outside::lowercase(content));
        text::lemma_numeral_digits(n, 10);
        reveal_strlit("\t\x1b[90m");
        reveal_strlit(" ");
        reveal_strlit(" \x1b[0m");
        reveal_strlit("\n");
        let p = padded(n);
        assert(forall|j: int| 0 <= j < p.len() ==> #[trigger] p[j] != '\n');
        assert(forall|j: int| 0 <= j < shown.len() ==> shown.contains(#[trigger] shown[j]));
        assert(forall|j: int| 0 <= j < row.len() - 1 ==> row.drop_last()[j] == row[j]);
    }
}

/// What is sent to `cliphist decode` to get the content of an entry.
pub fn decode_request(id: &str) -> (res: String)
    ensures
        res@ == text::trimmed(id@) + "\t\n"@,
{
    let mut req = text::trim(id);
    req.append("\t\n");
    req
}

/// What the line of an entry begins with.
pub open spec fn entry_prefix(id: Seq<char>) -> Seq<char> {
    text::trimmed(id) + "\t"@
}

/// The line of the entry `id` in a list.
pub open spec fn entry_line(lines: Seq<Seq<char>>, id: Seq<char>) -> Option<Seq<char>> {
    text::first_with_prefix(lines, entry_prefix(id))
}

/// The line of the entry `id` in the text of a list.
pub fn find_entry(list: &str, id: &str) -> (res: Option<String>)
    ensures
        text::text_in(res) == entry_line(text::lines_of(list@), id@),
{
    let mut prefix = text::trim(id);
    prefix.append("\t");
    text::find_line(list, prefix.as_str())
}

/// What is sent to `cliphist delete` to remove the entry `id`, given what `cliphist list` has
/// printed; nothing where the list does not hold the entry.
pub fn delete_request(list: &[u8], id: &str) -> (res: Option<String>)
    ensures
        text::text_in(res) == match entry_line(
            text::lines_of(outside::lossy_text(list@)),
            id@,
        ) {
            Some(line) => Some(line + "\n"@),
            None => None,
        },
        valid_utf8(list@) ==> text::text_in(res) == match entry_line(
            text::lines_of(decode_utf8(list@)),
            id@,
        ) {
            Some(line) => Some(line + "\n"@),
            None => None,
        },
{
    match find_entry(outside::read_lossy(list).as_str(), id) {
        Some(mut line) => {
            line.append("\n");
            Some(line)
        },
        None => None,
    }
}

/// A line begins with an id and a tab exactly if that is the id before its first tab.
proof fn lemma_prefix_is_id(line: Seq<char>, id: Seq<char>)
    requires
        forall|j: int| 0 <= j < id.len() ==> id[j] != '\t',
    ensures
        text::begins_with(line, id + "\t"@) <==> id_on(line) == Some(id),
{
    reveal_strlit("\t");
    let prefix = id + "\t"@;
    text::lemma_first_index(line, '\t');
    if text::begins_with(line, prefix) {
        let head = line.subrange(0, prefix.len() as int);
        assert(forall|j: int| 0 <= j < prefix.len() ==> line[j] == head[j]);
        text::lemma_first_index_is(line, '\t', id.len() as int);
        assert(line.take(id.len() as int) =~= id);
    }
    if id_on(line) == Some(id) {
        assert(line.subrange(0, prefix.len() as int) =~= prefix);
    }
}

/// The line that is found for an id is a line of the list and has that id, if the id, without
/// white space around it, holds no tab.
pub proof fn found_entry_has_id(lines: Seq<Seq<char>>, id: Seq<char>)
    requires
        !text::trimmed(id).contains('\t'),
    ensures
        entry_line(lines, id) matches Some(line) ==> lines.contains(line) && id_on(line) == Some(
            text::trimmed(id),
        ),
    decreases lines.len(),
{
    if lines.len() > 0 {
        let t = text::trimmed(id);
        assert(forall|j: int| 0 <= j < t.len() ==> t[j] != '\t');
        lemma_prefix_is_id(lines[0], t);
        found_entry_has_id(lines.drop_first(), id);
        if !text::begins_with(lines[0], entry_prefix(id)) {
            if let Some(line) = entry_line(lines, id) {
                let k = choose|k: int|
                    0 <= k < lines.drop_first().len() && lines.drop_first()[k] == line;
                assert(lines[k + 1] == line);
            }
        } else {
            assert(lines.contains(lines[0]));
        }
    }
}

/// The id on a line, which its row repeats, leads back to that line, if no earlier line has
/// the same id and the id has no white space around it.
pub proof fn id_leads_to_its_line(lines: Seq<Seq<char>>, k: int, id: Seq<char>)
    requires
        0 <= k < lines.len(),
        id_on(lines[k]) == Some(id),
        text::trimmed(id) == id,
        forall|j: int| 0 <= j < k ==> id_on(#[trigger] lines[j]) != Some(id),
    ensures
        entry_line(lines, id) == Some(lines[k]),
    decreases k,
{
    text::lemma_first_index(lines[k], '\t');
    lemma_prefix_is_id(lines[0], id);
    if k > 0 {
        let rest = lines.drop_first();
        assert forall|j: int| 0 <= j < k - 1 implies id_on(#[trigger] rest[j]) != Some(id) by {
            assert(rest[j] == lines[j + 1]);
        }
        id_leads_to_its_line(rest, k - 1, id);
    }
}

/// An id that is a number, as `cliphist` gives them, has no white space around it and holds no
/// tab: it names its entry as it stands.
pub proof fn number_names_its_entry(n: nat)
    ensures
        text::trimmed(text::numeral(n, 10)) == text::numeral(n, 10),
        !text::numeral(n, 10).contains('\t'),
        entry_prefix(text::numeral(n, 10)) == text::numeral(n, 10) + "\t"@,
{
    let id = text::numeral(n, 10);
    text::lemma_numeral_digits(n, 10);
    assert(!text::white_space(id[0]));
    assert(!text::white_space(id.last()));
}

/// A line of an id, a tab and a content gets a row of that id, a tab, the number in grey, with a
/// space behind a single digit, the content as it is labelled, and a line feed; the content may
/// hold further tabs. HTML of a sticker gets no row, and nor does a line without a tab.
pub proof fn rows_are_written(id: Seq<char>, content: Seq<char>, n: nat)
    requires
        !id.contains('\t'),
    ensures
        ({
            let line = id + seq!['\t'] + content;
            let sticker = text::has_text(line, "<html"@) && text::has_text(line, "[表情]"@);
            let shown = label::shown_as(content, outside::lowercase(content));
            &&& id_on(line) == Some(id)
            &&& sticker ==> entry_on(line) is None && row_for(line, n) is None
            &&& !sticker ==> entry_on(line) == Some((id, content))
            &&& !sticker && n < 10 ==> row_for(line, n) == Some(
                id + "\t\x1b[90m"@ + seq!["0123456789"@[n as int], ' '] + " \x1b[0m"@ + shown + "\n"@,
            )
            &&& !sticker && n >= 10 ==> row_for(line, n) == Some(
                id + "\t\x1b[90m"@ + text::numeral(n, 10) + " \x1b[0m"@ + shown + "\n"@,
            )
        }),
        id_on(id) is None,
        entry_on(id) is None,
        row_for(id, n) is None,
{
    text::first_splits(id, '\t', content);
    row_is_laid_out(id, n, label::shown_as(content, outside::lowercase(content)));
}

/// The entries of a list are those of its first lines and then those of its others; a line holds
/// one entry or none.
pub proof fn entries_add_up(a: Seq<Seq<char>>, b: Seq<Seq<char>>, line: Seq<char>)
    ensures
        entries_of(a + b) == entries_of(a) + entries_of(b),
        entries_of(seq![line]) == (match entry_on(line) {
            Some(entry) => seq![entry],
            None => Seq::empty(),
        }),
        entries_of(Seq::<Seq<char>>::empty()) == Seq::<(Seq<char>, Seq<char>)>::empty(),
    decreases b.len(),
{
    assert(seq![line].drop_last() =~= Seq::<Seq<char>>::empty());
    assert(entries_of(seq![line].drop_last()) =~= Seq::empty());
    assert(entries_of(seq![line]) =~= (match entry_on(line) {
        Some(entry) => seq![entry],
        None => Seq::empty(),
    }));
    if b.len() == 0 {
        assert(a + b =~= a);
        assert(entries_of(a) + entries_of(b) =~= entries_of(a));
    } else {
        entries_add_up(a, b.drop_last(), line);
        assert((a + b).drop_last() =~= a + b.drop_last());
        assert((a + b).last() == b.last());
        assert(entries_of(a + b) =~= entries_of(a) + entries_of(b));
    }
}

/// The line that is found for an id is the first that begins with the id, without white space
/// around it, and a tab; none is found exactly if no line begins so.
pub proof fn first_entry_is_found(lines: Seq<Seq<char>>, id: Seq<char>)
    ensures
        entry_line(lines, id) matches Some(line) ==> exists|k: int|
            0 <= k < lines.len() && #[trigger] lines[k] == line && text::begins_with(
                line,
                text::trimmed(id) + "\t"@,
            ) && forall|j: int|
                0 <= j < k ==> !text::begins_with(#[trigger] lines[j], text::trimmed(id) + "\t"@),
        entry_line(lines, id) is None <==> forall|j: int|
            0 <= j < lines.len() ==> !text::begins_with(
                #[trigger] lines[j],
                text::trimmed(id) + "\t"@,
            ),
{
    text::first_line_is_found(lines, text::trimmed(id) + "\t"@);
}

/// An entry of a list, as it is printed line by line, is found by its id, which may have white
/// space around it: the whole line of it, however long, is what is to be deleted.
pub proof fn printed_entry_is_found(
    lines: Seq<Seq<char>>,
    k: int,
    id: Seq<char>,
    content: Seq<char>,
    asked: Seq<char>,
)
    requires
        0 <= k < lines.len(),
        lines[k] == id + seq!['\t'] + content,
        !id.contains('\t'),
        text::trimmed(asked) == id,
        forall|j: int| 0 <= j < k ==> !text::begins_with(#[trigger] lines[j], id + "\t"@),
        forall|j: int|
            0 <= j < lines.len() ==> !(#[trigger] lines[j]).contains('\n') && (lines[j].len() == 0
                || lines[j].last() != '\r'),
    ensures
        entry_line(
            text::lines_of(lines.map_values(|line: Seq<char>| line + "\n"@).flatten()),
            asked,
        ) == Some(id + seq!['\t'] + content),
{
    reveal_strlit("\t");
    text::written_lines_are_read_back(lines);
    let prefix = id + "\t"@;
    text::first_line_is_found(lines, prefix);
    assert(lines[k].subrange(0, prefix.len() as int) =~= prefix);
    assert(text::begins_with(lines[k], prefix));
    let line = entry_line(lines, asked)->0;
    let m = choose|m: int|
        0 <= m < lines.len() && #[trigger] lines[m] == line && text::begins_with(line, prefix)
            && forall|j: int| 0 <= j < m ==> !text::begins_with(#[trigger] lines[j], prefix);
    assert(m == k);
}

/// A row, whatever is shown in it.
pub proof fn row_is_laid_out(id: Seq<char>, n: nat, shown: Seq<char>)
    ensures
        n < 10 ==> row_of(id, n, shown) == id + "\t\x1b[90m"@ + seq!["0123456789"@[n as int], ' ']
            + " \x1b[0m"@ + shown + "\n"@,
        n >= 10 ==> row_of(id, n, shown) == id + "\t\x1b[90m"@ + text::numeral(n, 10)
            + " \x1b[0m"@ + shown + "\n"@,
{
    reveal_strlit("0123456789");
    reveal_strlit("0123456789abcdef");
    reveal_strlit(" ");
    if n < 10 {
        text::digits_count(0, n, 10);
        assert(padded(n) =~= seq!["0123456789"@[n as int], ' ']);
    } else {
        text::digits_count(n / 10, n % 10, 10);
        text::lemma_numeral_digits(n / 10, 10);
        assert(n == (n / 10) * 10 + n % 10);
        assert(text::numeral(n, 10).len() >= 2);
    }
}

} // verus!
