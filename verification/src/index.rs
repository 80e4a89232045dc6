//! The index: the text that bundles the names and URLs of several uploaded
//! files into one paste.
//!
//! ```text
//! 2 files
//! -------
//!
//! 1. a.txt: http://example.com/a
//! 2. b.txt: http://example.com/b
//! ```

use vstd::prelude::*;
use linked_hash_map::LinkedHashMap;
use crate::error::{Error, ErrorView};
use crate::number::{decimal, decimal_chars};
use crate::ordered::{
    collected, distinct_keys, entries_of, lemma_collected_distinct, map_entries, map_insert,
    map_len, new_map, pair_views,
};
use crate::text::{
    append_chars, chars_of, is_blank, is_blank_chars, split, split_chars, string_of, views,
};
use crate::url::{is_url, url_of, Url};

verus! {

/// The entries of an index: name and URL of each file, in upload order.
pub type Entries = Seq<(Seq<char>, Seq<char>)>;

/// What holds of the entries of every index: there is at least one, no name
/// occurs twice, and every URL is in normal form.
pub open spec fn well_formed(entries: Entries) -> bool {
    &&& entries.len() >= 1
    &&& distinct_keys(entries)
    &&& forall|i: int| 0 <= i < entries.len() ==> is_url((#[trigger] entries[i]).1)
}

/// The line of the entry with the given number.
pub open spec fn entry_line(number: nat, name: Seq<char>, url: Seq<char>) -> Seq<char> {
    decimal(number) + seq!['.', ' '] + name + seq![':', ' '] + url
}

/// The lines of the entries, numbered from one, each closed by a line break.
pub open spec fn index_body(entries: Entries) -> Seq<char>
    decreases entries.len(),
{
    if entries.len() == 0 {
        Seq::<char>::empty()
    } else {
        index_body(entries.drop_last()) + entry_line(
            entries.len(),
            entries.last().0,
            entries.last().1,
        ).push('\n')
    }
}

/// The first line of an index of `n` entries.
pub open spec fn index_header(n: nat) -> Seq<char> {
    decimal(n) + seq![' ', 'f', 'i', 'l', 'e', 's']
}

/// As many dashes as the header of an index of `n` entries has characters.
pub open spec fn index_rule(n: nat) -> Seq<char> {
    Seq::new(index_header(n).len(), |i: int| '-')
}

/// The text of an index: the header, a rule of dashes of the header's
/// length, an empty line, and one line for each entry.
pub open spec fn index_text(entries: Entries) -> Seq<char> {
    index_header(entries.len()) + seq!['\n'] + index_rule(entries.len()) + seq!['\n', '\n']
        + index_body(entries)
}

/// The lines among `lines` that are not blank, in their order.
pub open spec fn nonblank(lines: Seq<Seq<char>>) -> Seq<Seq<char>>
    decreases lines.len(),
{
    if lines.len() == 0 {
        lines
    } else if is_blank(lines.last()) {
        nonblank(lines.drop_last())
    } else {
        nonblank(lines.drop_last()).push(lines.last())
    }
}

/// Name and URL text of an entry line: the second of its words, which must
/// end with a colon that is no part of the name, and the third. Words are
/// what single blanks separate. `None` for a line without these two.
pub open spec fn row_of(line: Seq<char>) -> Option<(Seq<char>, Seq<char>)> {
    let words = split(line, ' ');
    if words.len() >= 3 && words[1].len() > 0 && words[1].last() == ':' {
        Some((words[1].drop_last(), words[2]))
    } else {
        None
    }
}

/// The name in an entry line.
pub open spec fn row_name(line: Seq<char>) -> Seq<char> {
    let pair = row_of(line)->0;
    pair.0
}

/// The URL text in an entry line.
pub open spec fn row_url(line: Seq<char>) -> Seq<char> {
    let pair = row_of(line)->0;
    pair.1
}

/// The entry lines of a text: its lines from the fourth on that are not
/// blank.
pub open spec fn rows_of(text: Seq<char>) -> Seq<Seq<char>> {
    let lines = split(text, '\n');
    if lines.len() >= 4 {
        nonblank(lines.subrange(3, lines.len() as int))
    } else {
        Seq::<Seq<char>>::empty()
    }
}

/// `text` has the shape of an index: at least four lines, at least one entry
/// line, and a name and a URL text in every entry line. Neither the count in
/// the header nor the length of the rule is looked at.
pub open spec fn has_index_shape(text: Seq<char>) -> bool {
    &&& split(text, '\n').len() >= 4
    &&& rows_of(text).len() >= 1
    &&& forall|i: int| 0 <= i < rows_of(text).len() ==> row_of(#[trigger] rows_of(text)[i]) is Some
}

/// Every URL text of the entry lines stands for a URL.
pub open spec fn has_good_urls(rows: Seq<Seq<char>>) -> bool {
    forall|i: int| 0 <= i < rows.len() ==> url_of(row_url(#[trigger] rows[i])) is Some
}

/// Name and normal form of the URL of each entry line.
pub open spec fn pairs_of(rows: Seq<Seq<char>>) -> Entries {
    Seq::new(rows.len(), |i: int| (row_name(rows[i]), url_of(row_url(rows[i]))->0.text))
}

/// What reading a text as an index gives.
pub enum Reading {
    /// The text is an index with these entries.
    Index(Entries),
    /// The text has not the shape of an index.
    NoIndex,
    /// The text has the shape of an index, and one of its URL texts stands
    /// for no URL.
    BadUrl,
}

/// Reads `text` as an index. Entry lines that name the same file count once,
/// with the URL and at the place of the last of them.
pub open spec fn read_index(text: Seq<char>) -> Reading {
    if !has_index_shape(text) {
        Reading::NoIndex
    } else if !has_good_urls(rows_of(text)) {
        Reading::BadUrl
    } else {
        Reading::Index(collected(pairs_of(rows_of(text))))
    }
}

/// `s` can stand as one word on one line: it holds neither a blank character
/// `' '` nor a line break.
pub open spec fn is_word(s: Seq<char>) -> bool {
    !s.contains(' ') && !s.contains('\n')
}

/// The entry lines of the entries, numbered from one, without line breaks.
pub open spec fn entry_lines(entries: Entries) -> Seq<Seq<char>> {
    Seq::new(entries.len(), |i: int| entry_line((i + 1) as nat, entries[i].0, entries[i].1))
}

/// Lines none of which is blank are all kept.
pub proof fn lemma_nonblank_keeps(lines: Seq<Seq<char>>)
    requires
        forall|i: int| 0 <= i < lines.len() ==> !is_blank(#[trigger] lines[i]),
    ensures
        nonblank(lines) == lines,
    decreases lines.len(),
{
    if lines.len() > 0 {
        let init = lines.drop_last();
        assert forall|i: int| 0 <= i < init.len() implies !is_blank(#[trigger] init[i]) by {
            assert(init[i] == lines[i]);
        }
        lemma_nonblank_keeps(init);
        assert(!is_blank(lines[lines.len() - 1]));
        assert(init.push(lines.last()) =~= lines);
    }
}

/// A text of words is a word, and so is the decimal form of a number.
proof fn lemma_entry_words(number: nat, name: Seq<char>, url: Seq<char>)
    requires
        is_word(name),
        is_word(url),
    ensures
        is_word(decimal(number).push('.')),
        is_word(name.push(':')),
        !entry_line(number, name, url).contains('\n'),
        !is_blank(entry_line(number, name, url)),
        entry_line(number, name, url) == decimal(number).push('.') + seq![' '] + name.push(':')
            + seq![' '] + url,
{
    crate::number::lemma_decimal_digits(number);
    let d = decimal(number);
    let first = d.push('.');
    assert forall|i: int| 0 <= i < first.len() implies first[i] != ' ' && first[i] != '\n' by {
        if i < d.len() {
            assert(crate::number::is_digit(d[i]));
        }
    }
    let second = name.push(':');
    assert forall|i: int| 0 <= i < second.len() implies second[i] != ' ' && second[i] != '\n' by {
        if i < name.len() {
            assert(name.contains(name[i]));
        }
    }
    let line = entry_line(number, name, url);
    assert(line =~= first + seq![' '] + second + seq![' '] + url);
    assert forall|i: int| 0 <= i < line.len() implies line[i] != '\n' by {
        if i < first.len() {
            assert(line[i] == first[i]);
        } else if i == first.len() {
        } else if i < first.len() + 1 + second.len() {
            assert(line[i] == second[i - first.len() - 1]);
        } else if i == first.len() + 1 + second.len() {
        } else {
            let k = i - first.len() - second.len() - 2;
            assert(line[i] == url[k]);
            assert(url.contains(url[k]));
        }
    }
    assert(line[0] == d[0]);
    assert(crate::number::is_digit(d[0]));
    assert(!crate::text::is_space(line[0]));
}

/// An entry line gives its name and its URL back.
pub proof fn lemma_row_of_entry_line(number: nat, name: Seq<char>, url: Seq<char>)
    requires
        is_word(name),
        is_word(url),
    ensures
        row_of(entry_line(number, name, url)) == Some((name, url)),
{
    lemma_entry_words(number, name, url);
    let first = decimal(number).push('.');
    let second = name.push(':');
    crate::text::lemma_split_plain(first, ' ');
    crate::text::lemma_split_close(first, ' ');
    crate::text::lemma_split_extend(first.push(' '), second, ' ');
    assert(Seq::<char>::empty() + second =~= second);
    let two = first.push(' ') + second;
    assert(split(two, ' ') =~= seq![first, second]);
    crate::text::lemma_split_close(two, ' ');
    crate::text::lemma_split_extend(two.push(' '), url, ' ');
    assert(Seq::<char>::empty() + url =~= url);
    let line = two.push(' ') + url;
    assert(split(line, ' ') =~= seq![first, second, url]);
    assert(line =~= entry_line(number, name, url));
    assert(second.drop_last() =~= name);
}

/// The lines of a text that ends with a line break, followed by the body of
/// an index, are the lines of the text, with the entry lines in place of the
/// empty last one, and an empty line after them.
proof fn lemma_body_lines(head: Seq<char>, entries: Entries)
    requires
        split(head, '\n').last().len() == 0,
        forall|i: int|
            0 <= i < entries.len() ==> is_word((#[trigger] entries[i]).0) && is_word(entries[i].1),
    ensures
        split(head + index_body(entries), '\n') == split(head, '\n').drop_last() + entry_lines(
            entries,
        ) + seq![Seq::<char>::empty()],
    decreases entries.len(),
{
    crate::text::lemma_split_nonempty(head, '\n');
    let lines = split(head, '\n');
    if entries.len() == 0 {
        assert(head + index_body(entries) =~= head);
        assert(lines.drop_last() + entry_lines(entries) + seq![Seq::<char>::empty()] =~= lines);
    } else {
        let init = entries.drop_last();
        let last = entries.last();
        assert forall|i: int| 0 <= i < init.len() implies is_word((#[trigger] init[i]).0)
            && is_word(init[i].1) by {
            assert(init[i] == entries[i]);
        }
        lemma_body_lines(head, init);
        let line = entry_line(entries.len(), last.0, last.1);
        assert(entries[entries.len() - 1] == last);
        lemma_entry_words(entries.len(), last.0, last.1);
        let before = head + index_body(init);
        crate::text::lemma_split_line(before, line, '\n');
        assert(head + index_body(entries) =~= before + line.push('\n'));
        assert(entry_lines(entries) =~= entry_lines(init).push(line));
        assert(split(before, '\n').drop_last().push(line).push(Seq::<char>::empty())
            =~= lines.drop_last() + entry_lines(entries) + seq![Seq::<char>::empty()]);
    }
}

/// Reading the text of an index gives the entries of the index back, in
/// their order. This holds of every index whose names and URLs are words:
/// a blank or a line break in one of them moves or cuts what is read.
pub proof fn lemma_index_round_trip(entries: Entries)
    requires
        well_formed(entries),
        forall|i: int|
            0 <= i < entries.len() ==> is_word((#[trigger] entries[i]).0) && is_word(entries[i].1),
    ensures
        read_index(index_text(entries)) == Reading::Index(entries),
{
    let n = entries.len();
    let header = index_header(n);
    let rule = index_rule(n);
    let empty = Seq::<char>::empty();
    // the first three lines
    crate::number::lemma_decimal_digits(n);
    assert forall|i: int| 0 <= i < header.len() implies header[i] != '\n' by {
        if i < decimal(n).len() {
            assert(crate::number::is_digit(decimal(n)[i]));
        }
    }
    crate::text::lemma_split_plain(header, '\n');
    crate::text::lemma_split_close(header, '\n');
    crate::text::lemma_split_extend(header.push('\n'), rule, '\n');
    assert(empty + rule =~= rule);
    let two = header.push('\n') + rule;
    assert(split(two, '\n') =~= seq![header, rule]);
    crate::text::lemma_split_close(two, '\n');
    crate::text::lemma_split_close(two.push('\n'), '\n');
    let head = two.push('\n').push('\n');
    assert(split(head, '\n') =~= seq![header, rule, empty, empty]);
    assert(head =~= header + seq!['\n'] + rule + seq!['\n', '\n']);
    // the entry lines after them
    lemma_body_lines(head, entries);
    let text = index_text(entries);
    assert(text =~= head + index_body(entries));
    let lines = split(text, '\n');
    let shown = entry_lines(entries);
    assert(lines =~= seq![header, rule, empty] + shown + seq![empty]);
    assert(lines.len() == n + 4);
    let tail = lines.subrange(3, lines.len() as int);
    assert(tail =~= shown.push(empty));
    assert(tail.drop_last() =~= shown);
    assert(is_blank(empty));
    assert forall|i: int| 0 <= i < shown.len() implies !is_blank(#[trigger] shown[i]) by {
        lemma_entry_words((i + 1) as nat, entries[i].0, entries[i].1);
    }
    lemma_nonblank_keeps(shown);
    assert(nonblank(tail) == shown);
    assert(rows_of(text) == shown);
    // what each entry line holds
    assert forall|i: int| 0 <= i < shown.len() implies row_of(#[trigger] shown[i]) == Some(
        (entries[i].0, entries[i].1),
    ) by {
        lemma_row_of_entry_line((i + 1) as nat, entries[i].0, entries[i].1);
    }
    assert(has_index_shape(text));
    assert forall|i: int| 0 <= i < shown.len() implies url_of(row_url(#[trigger] shown[i]))
        is Some && url_of(row_url(shown[i]))->0.text == entries[i].1 by {
        assert(row_of(shown[i]) == Some((entries[i].0, entries[i].1)));
        crate::url::lemma_normal_form_stands_for_itself(entries[i].1);
    }
    assert(has_good_urls(shown));
    assert(pairs_of(shown) =~= entries) by {
        assert forall|i: int| 0 <= i < shown.len() implies pairs_of(shown)[i] == entries[i] by {
            assert(row_of(shown[i]) == Some((entries[i].0, entries[i].1)));
        }
    }
    crate::ordered::lemma_collected_keeps_distinct_pairs(entries);
}

/// A text of fewer than four lines is no index; nor is a text without any
/// entry line, or with an entry line whose second word does not end with a
/// colon, or that has no third word.
pub proof fn lemma_malformed_is_no_index(text: Seq<char>)
    requires
        split(text, '\n').len() < 4 || rows_of(text).len() == 0 || exists|i: int|
            0 <= i < rows_of(text).len() && {
                let words = split(#[trigger] rows_of(text)[i], ' ');
                words.len() < 3 || words[1].len() == 0 || words[1].last() != ':'
            },
    ensures
        read_index(text) == Reading::NoIndex,
{
}

/// Each name with the text of the URL at the same place, as far as both
/// lists go.
pub open spec fn paired(names: Seq<String>, urls: Seq<Url>) -> Entries {
    Seq::new(
        if names.len() <= urls.len() {
            names.len()
        } else {
            urls.len()
        },
        |i: int| (names[i]@, urls[i]@.text),
    )
}

/// The names and URLs of the files of one paste, in upload order.
pub struct Index {
    files: LinkedHashMap<String, String>,
}

impl View for Index {
    type V = Entries;

    closed spec fn view(&self) -> Entries {
        entries_of(self.files)
    }
}

/// Reads name and URL text from an entry line.
pub fn parse_row(line: &Vec<char>) -> (r: Option<(Vec<char>, Vec<char>)>)
    ensures
        match r {
            Some(pair) => row_of(line@) == Some((pair.0@, pair.1@)),
            None => row_of(line@) is None,
        },
{
    let mut words = split_chars(line, ' ');
    assert(views(words@).len() == words.len());
    if words.len() < 3 {
        return None;
    }
    assert(views(words@)[1] == words@[1]@);
    assert(views(words@)[2] == words@[2]@);
    let url = words.remove(2);
    let mut name = words.remove(1);
    if name.len() == 0 {
        return None;
    }
    let last = name.pop();
    match last {
        Some(c) => {
            if c == ':' {
                Some((name, url))
            } else {
                None
            }
        },
        None => None,
    }
}

impl Index {
    #[verifier::type_invariant]
    spec fn sound(self) -> bool {
        well_formed(entries_of(self.files))
    }

    /// States what holds of every index.
    pub fn well_formed(&self)
        ensures
            well_formed(self@),
    {
        proof {
            use_type_invariant(self);
        }
    }

    /// The index of the given files: each name with the URL at the same
    /// place, in the given order, as far as both lists go. A name that comes
    /// again replaces the earlier entry and stands at the later place. `None`
    /// where there is no pair.
    pub fn from_pairs(names: &Vec<String>, urls: &Vec<Url>) -> (r: Option<Index>)
        ensures
            match r {
                Some(index) => paired(names@, urls@).len() > 0 && index@ == collected(
                    paired(names@, urls@),
                ),
                None => paired(names@, urls@).len() == 0,
            },
    {
        let n = if names.len() <= urls.len() {
            names.len()
        } else {
            urls.len()
        };
        if n == 0 {
            return None;
        }
        let ghost pairs = paired(names@, urls@);
        let mut files = new_map();
        let mut i: usize = 0;
        assert(pairs.take(0) =~= Seq::<(Seq<char>, Seq<char>)>::empty());
        while i < n
            invariant
                i <= n,
                n <= names.len(),
                n <= urls.len(),
                n == pairs.len(),
                pairs == paired(names@, urls@),
                entries_of(files) == collected(pairs.take(i as int)),
                forall|j: int| 0 <= j < i ==> is_url((#[trigger] pairs[j]).1),
            decreases n - i,
        {
            urls[i].normal();
            proof {
                assert(pairs.take(i + 1).drop_last() =~= pairs.take(i as int));
                assert(pairs.take(i + 1).last() == pairs[i as int]);
            }
            map_insert(&mut files, names[i].clone(), urls[i].as_str().to_owned());
            i += 1;
        }
        proof {
            assert(pairs.take(i as int) =~= pairs);
            lemma_collected_distinct(pairs);
            let entries = collected(pairs);
            assert forall|k: int| 0 <= k < entries.len() implies is_url(
                (#[trigger] entries[k]).1,
            ) by {
                assert(pairs.contains(entries[k]));
                let j = choose|j: int| 0 <= j < pairs.len() && pairs[j] == entries[k];
                assert(is_url(pairs[j].1));
            }
        }
        Some(Index { files })
    }

    /// The number of entries.
    pub fn len(&self) -> (n: usize)
        ensures
            n == self@.len(),
            n >= 1,
    {
        proof {
            use_type_invariant(self);
        }
        map_len(&self.files)
    }

    /// The entries, in upload order.
    pub fn entries(&self) -> (v: Vec<(String, Url)>)
        ensures
            v@.len() == self@.len(),
            forall|i: int|
                0 <= i < v@.len() ==> (#[trigger] v@[i]).0@ == self@[i].0 && v@[i].1@.text
                    == self@[i].1 && url_of(self@[i].1) == Some(v@[i].1@),
    {
        proof {
            use_type_invariant(self);
        }
        let pairs = map_entries(&self.files);
        assert(pair_views(pairs@).len() == pairs.len());
        let mut v: Vec<(String, Url)> = Vec::new();
        let mut i: usize = 0;
        while i < pairs.len()
            invariant
                i <= pairs.len(),
                v@.len() == i,
                pair_views(pairs@) == self@,
                well_formed(self@),
                forall|j: int|
                    0 <= j < i ==> (#[trigger] v@[j]).0@ == self@[j].0 && v@[j].1@.text
                        == self@[j].1 && url_of(self@[j].1) == Some(v@[j].1@),
            decreases pairs.len() - i,
        {
            assert(pair_views(pairs@)[i as int] == (pairs@[i as int].0@, pairs@[i as int].1@));
            assert(is_url(self@[i as int].1));
            match Url::parse(pairs[i].1.as_str()) {
                Ok(url) => {
                    v.push((pairs[i].0.clone(), url));
                },
                Err(_) => {
                    assert(false);
                },
            }
            i += 1;
        }
        v
    }

    /// The text of this index.
    pub fn to_string(&self) -> (s: String)
        ensures
            s@ == index_text(self@),
    {
        let pairs = map_entries(&self.files);
        assert(pair_views(pairs@).len() == pairs.len());
        let n = pairs.len();
        let mut text = decimal_chars(n);
        text.push(' ');
        text.push('f');
        text.push('i');
        text.push('l');
        text.push('e');
        text.push('s');
        assert(text@ =~= index_header(n as nat));
        let width = text.len();
        text.push('\n');
        let mut k: usize = 0;
        while k < width
            invariant
                k <= width == index_header(n as nat).len(),
                text@ == index_header(n as nat) + seq!['\n'] + Seq::new(k as nat, |i: int| '-'),
            decreases width - k,
        {
            text.push('-');
            assert(Seq::new((k + 1) as nat, |i: int| '-') =~= Seq::new(k as nat, |i: int| '-').push(
                '-',
            ));
            k += 1;
        }
        text.push('\n');
        text.push('\n');
        let ghost head = index_header(n as nat) + seq!['\n'] + index_rule(n as nat) + seq![
            '\n',
            '\n',
        ];
        assert(text@ =~= head);
        let ghost entries = pair_views(pairs@);
        let mut i: usize = 0;
        assert(entries.take(0) =~= Seq::<(Seq<char>, Seq<char>)>::empty());
        while i < n
            invariant
                i <= n == pairs.len(),
                entries == pair_views(pairs@),
                text@ == head + index_body(entries.take(i as int)),
            decreases n - i,
        {
            let number = decimal_chars(i + 1);
            let name = chars_of(pairs[i].0.as_str());
            let url = chars_of(pairs[i].1.as_str());
            let ghost before = text@;
            append_chars(&mut text, &number);
            text.push('.');
            text.push(' ');
            append_chars(&mut text, &name);
            text.push(':');
            text.push(' ');
            append_chars(&mut text, &url);
            text.push('\n');
            proof {
                let upto = entries.take(i + 1);
                assert(upto.drop_last() =~= entries.take(i as int));
                assert(upto.last() == (pairs@[i as int].0@, pairs@[i as int].1@));
                assert(text@ =~= before + entry_line((i + 1) as nat, name@, url@).push('\n'));
                assert(text@ =~= head + index_body(upto));
            }
            i += 1;
        }
        assert(entries.take(i as int) =~= entries);
        string_of(&text)
    }

    /// Reads an index from its text. A text that has not the shape of an
    /// index gives `InvalidIndex`; one that has it and holds a URL text that
    /// stands for no URL gives `InvalidUrl`.
    pub fn parse(string: &str) -> (r: Result<Index, Error>)
        ensures
            match read_index(string@) {
                Reading::Index(entries) => r matches Ok(index) && index@ == entries,
                Reading::NoIndex => r matches Err(e) && e@ is InvalidIndex,
                Reading::BadUrl => r matches Err(e) && e@ is InvalidUrl,
            },
    {
        let chars = chars_of(string);
        let lines = split_chars(&chars, '\n');
        assert(views(lines@).len() == lines.len());
        if lines.len() < 4 {
            return Err(Error::InvalidIndex);
        }
        // the entry lines
        let ghost tail = views(lines@).subrange(3, lines.len() as int);
        let mut rows: Vec<Vec<char>> = Vec::new();
        let mut i: usize = 3;
        assert(tail.take(0) =~= Seq::<Seq<char>>::empty());
        while i < lines.len()
            invariant
                3 <= i <= lines.len(),
                tail == views(lines@).subrange(3, lines.len() as int),
                views(rows@) == nonblank(tail.take(i - 3)),
            decreases lines.len() - i,
        {
            proof {
                assert(tail.take(i - 3 + 1).drop_last() =~= tail.take(i - 3));
                assert(tail.take(i - 3 + 1).last() == lines@[i as int]@);
            }
            if !is_blank_chars(&lines[i]) {
                let ghost before = views(rows@);
                rows.push(slice_all(&lines[i]));
                assert(views(rows@) =~= before.push(lines@[i as int]@));
            }
            i += 1;
        }
        assert(tail.take(i - 3) =~= tail);
        assert(views(rows@) == rows_of(string@));
        assert(views(rows@).len() == rows.len());
        if rows.len() == 0 {
            return Err(Error::InvalidIndex);
        }
        // name and URL text of each
        let mut names: Vec<String> = Vec::new();
        let mut texts: Vec<String> = Vec::new();
        let mut j: usize = 0;
        while j < rows.len()
            invariant
                j <= rows.len(),
                views(rows@) == rows_of(string@),
                views(rows@).len() == rows.len(),
                names.len() == j,
                texts.len() == j,
                forall|k: int|
                    0 <= k < j ==> row_of(#[trigger] rows_of(string@)[k]) == Some(
                        (names@[k]@, texts@[k]@),
                    ),
            decreases rows.len() - j,
        {
            assert(views(rows@)[j as int] == rows@[j as int]@);
            match parse_row(&rows[j]) {
                Some(pair) => {
                    names.push(string_of(&pair.0));
                    texts.push(string_of(&pair.1));
                },
                None => {
                    assert(row_of(rows_of(string@)[j as int]) is None);
                    return Err(Error::InvalidIndex);
                },
            }
            j += 1;
        }
        assert(has_index_shape(string@));
        // the URL that each text stands for
        let ghost shown = rows_of(string@);
        let mut urls: Vec<Url> = Vec::new();
        let mut k: usize = 0;
        while k < texts.len()
            invariant
                k <= texts.len() == names.len() == shown.len(),
                shown == rows_of(string@),
                urls.len() == k,
                forall|m: int|
                    0 <= m < shown.len() ==> row_of(#[trigger] shown[m]) == Some(
                        (names@[m]@, texts@[m]@),
                    ),
                forall|m: int|
                    0 <= m < k ==> url_of(texts@[m]@) == Some((#[trigger] urls@[m])@) && is_url(
                        urls@[m]@.text,
                    ),
            decreases texts.len() - k,
        {
            match Url::parse(texts[k].as_str()) {
                Ok(url) => {
                    urls.push(url);
                },
                Err(e) => {
                    assert(url_of(row_url(shown[k as int])) is None);
                    return Err(e);
                },
            }
            k += 1;
        }
        assert(has_good_urls(shown)) by {
            assert forall|m: int| 0 <= m < shown.len() implies url_of(
                row_url(#[trigger] shown[m]),
            ) is Some by {
                assert(url_of(texts@[m]@) == Some(urls@[m]@));
            }
        }
        let ghost pairs = pairs_of(shown);
        assert(pairs =~= paired(names@, urls@)) by {
            assert forall|m: int| 0 <= m < shown.len() implies pairs[m] == (
                names@[m]@,
                urls@[m]@.text,
            ) by {
                assert(row_of(shown[m]) == Some((names@[m]@, texts@[m]@)));
                assert(url_of(texts@[m]@) == Some(urls@[m]@));
            }
        }
        match Index::from_pairs(&names, &urls) {
            Some(index) => Ok(index),
            None => Err(Error::InvalidIndex),
        }
    }
}

/// A copy of the characters of `v`.
fn slice_all(v: &Vec<char>) -> (r: Vec<char>)
    ensures
        r@ == v@,
{
    let r = crate::text::slice_of(v, 0, v.len());
    assert(v@.subrange(0, v.len() as int) =~= v@);
    r
}

} // verus!
