//! What is done to the files before an upload: blank files are left out and
//! files that share a name are told apart.

use vstd::prelude::*;
use crate::error::{Error, ErrorView};
use crate::number::{counter_chars, decimal, lemma_decimal_injective};
use crate::paste::{paste_views, PasteFile, PasteFileView};
use crate::text::{
    append_chars, chars_of, is_blank, is_blank_chars, last_dot, last_dot_of, slice_of, string_of,
    string_views,
};

verus! {

/// `name` with the counter `k` put in: after an underscore, and before the
/// extension where the name has one. The extension is what follows the last
/// dot, the dot included.
pub open spec fn numbered(name: Seq<char>, k: nat) -> Seq<char> {
    let dot = last_dot(name);
    if dot < 0 {
        name + seq!['_'] + decimal(k)
    } else {
        name.subrange(0, dot) + seq!['_'] + decimal(k) + name.subrange(dot, name.len() as int)
    }
}

/// `candidate` is the name of a file of the list, or a name that was given
/// to one of the files before.
pub open spec fn is_taken(names: Seq<Seq<char>>, given: Seq<Seq<char>>, candidate: Seq<char>) -> bool {
    names.contains(candidate) || given.contains(candidate)
}

/// `k` is the first counter, from one on, with which `name` is not taken.
pub open spec fn is_first_free(
    names: Seq<Seq<char>>,
    given: Seq<Seq<char>>,
    name: Seq<char>,
    k: nat,
) -> bool {
    &&& k >= 1
    &&& !is_taken(names, given, numbered(name, k))
    &&& forall|j: nat| 1 <= j < k ==> is_taken(names, given, #[trigger] numbered(name, j))
}

/// The first counter, from one on, with which `name` is not taken.
pub open spec fn first_free(names: Seq<Seq<char>>, given: Seq<Seq<char>>, name: Seq<char>) -> nat {
    choose|k: nat| is_first_free(names, given, name, k)
}

/// The name under which the file at place `i` is uploaded, where `given`
/// are the names of the files before it: its own name if no earlier file
/// has it, else its own name with the first counter that gives a name which
/// no file of the list has and no earlier file was given.
pub open spec fn upload_name(names: Seq<Seq<char>>, given: Seq<Seq<char>>, i: int) -> Seq<char> {
    if names.take(i).contains(names[i]) {
        numbered(names[i], first_free(names, given, names[i]))
    } else {
        names[i]
    }
}

/// The names under which the first `n` files are uploaded.
pub open spec fn upload_names(names: Seq<Seq<char>>, n: nat) -> Seq<Seq<char>>
    decreases n,
{
    if n == 0 {
        Seq::<Seq<char>>::empty()
    } else {
        let given = upload_names(names, (n - 1) as nat);
        given.push(upload_name(names, given, n - 1))
    }
}

/// The names of the files, in their order.
pub open spec fn paste_names(files: Seq<PasteFileView>) -> Seq<Seq<char>> {
    Seq::new(files.len(), |i: int| files[i].name)
}

/// No two of the texts are the same.
pub open spec fn all_distinct(texts: Seq<Seq<char>>) -> bool {
    forall|i: int, j: int| 0 <= i < j < texts.len() ==> texts[i] != texts[j]
}

/// The files as they are uploaded: each with its upload name and its own
/// content.
pub open spec fn renamed(files: Seq<PasteFileView>) -> Seq<PasteFileView> {
    Seq::new(
        files.len(),
        |i: int|
            PasteFileView {
                name: upload_names(paste_names(files), files.len())[i],
                data: files[i].data,
            },
    )
}

/// The files that are not blank, in their order.
pub open spec fn with_content(files: Seq<PasteFileView>) -> Seq<PasteFileView>
    decreases files.len(),
{
    if files.len() == 0 {
        files
    } else if is_blank(files.last().data) {
        with_content(files.drop_last())
    } else {
        with_content(files.drop_last()).push(files.last())
    }
}

/// What there is to paste, as it was gathered.
#[derive(Debug)]
pub enum PasteInput {
    /// The message given on the command line.
    Message(String),
    /// The files named on the command line, each with the name of the file
    /// and what was read from it.
    Files(Vec<PasteFile>),
    /// What was read from the standard input.
    Stdin(String),
}

/// A [`PasteInput`] with texts in place of strings.
pub enum PasteInputView {
    Message(Seq<char>),
    Files(Seq<PasteFileView>),
    Stdin(Seq<char>),
}

impl View for PasteInput {
    type V = PasteInputView;

    open spec fn view(&self) -> PasteInputView {
        match *self {
            PasteInput::Message(m) => PasteInputView::Message(m@),
            PasteInput::Files(files) => PasteInputView::Files(paste_views(files@)),
            PasteInput::Stdin(s) => PasteInputView::Stdin(s@),
        }
    }
}

/// The files to upload for an input. A message is the one file `message`,
/// the standard input the one file `stdin`; of files, the blank ones are
/// left out and the others get their upload names. An input that leaves
/// nothing but blank content is refused.
pub open spec fn files_to_paste(input: PasteInputView) -> Result<Seq<PasteFileView>, ErrorView> {
    match input {
        PasteInputView::Message(m) => if is_blank(m) {
            Err(ErrorView::NoFiles)
        } else {
            Ok(seq![PasteFileView { name: "message"@, data: m }])
        },
        PasteInputView::Files(files) => if with_content(files).len() == 0 {
            Err(ErrorView::NoFiles)
        } else {
            Ok(renamed(with_content(files)))
        },
        PasteInputView::Stdin(s) => if is_blank(s) {
            Err(ErrorView::NoFiles)
        } else {
            Ok(seq![PasteFileView { name: "stdin"@, data: s }])
        },
    }
}

/// The counter stands in a name at one place and with one length only:
/// two counters that give one name are one counter.
pub proof fn lemma_numbered_injective(name: Seq<char>, a: nat, b: nat)
    requires
        numbered(name, a) == numbered(name, b),
    ensures
        a == b,
{
    lemma_last_dot_within(name);
    let dot = last_dot(name);
    let head = if dot < 0 {
        name
    } else {
        name.subrange(0, dot)
    };
    let tail = if dot < 0 {
        Seq::<char>::empty()
    } else {
        name.subrange(dot, name.len() as int)
    };
    let na = numbered(name, a);
    let nb = numbered(name, b);
    assert(na =~= head + seq!['_'] + decimal(a) + tail);
    assert(nb =~= head + seq!['_'] + decimal(b) + tail);
    assert(decimal(a).len() == decimal(b).len());
    let from: int = head.len() as int + 1;
    assert(na.subrange(from, from + decimal(a).len() as int) =~= decimal(a));
    assert(nb.subrange(from, from + decimal(b).len() as int) =~= decimal(b));
    lemma_decimal_injective(a, b);
}

proof fn lemma_last_dot_within(name: Seq<char>)
    ensures
        -1 <= last_dot(name) < name.len(),
    decreases name.len(),
{
    if name.len() > 0 && name.last() != '.' {
        lemma_last_dot_within(name.drop_last());
    }
}

/// Among more counters than there are texts, one gives a name that is none
/// of the texts.
pub proof fn lemma_some_counter_free(name: Seq<char>, texts: Seq<Seq<char>>, lo: nat, hi: nat)
    requires
        hi + 1 - lo > texts.len(),
    ensures
        exists|k: nat| lo <= k <= hi && !texts.contains(#[trigger] numbered(name, k)),
    decreases texts.len(),
{
    if !texts.contains(numbered(name, hi)) {
        assert(lo <= hi <= hi && !texts.contains(numbered(name, hi)));
    } else {
        let j = choose|j: int| 0 <= j < texts.len() && texts[j] == numbered(name, hi);
        let rest = texts.remove(j);
        lemma_some_counter_free(name, rest, lo, (hi - 1) as nat);
        let k = choose|k: nat| lo <= k <= hi - 1 && !rest.contains(#[trigger] numbered(name, k));
        if texts.contains(numbered(name, k)) {
            let m = choose|m: int| 0 <= m < texts.len() && texts[m] == numbered(name, k);
            if m == j {
                lemma_numbered_injective(name, k, hi);
            } else if m < j {
                assert(rest[m] == texts[m]);
            } else {
                assert(rest[m - 1] == texts[m]);
            }
        }
        assert(lo <= k <= hi && !texts.contains(numbered(name, k)));
    }
}

/// There is one first free counter at most.
pub proof fn lemma_first_free_is_one(
    names: Seq<Seq<char>>,
    given: Seq<Seq<char>>,
    name: Seq<char>,
    k: nat,
)
    requires
        is_first_free(names, given, name, k),
    ensures
        first_free(names, given, name) == k,
{
    let c = first_free(names, given, name);
    assert(is_first_free(names, given, name, c));
    if c < k {
        assert(is_taken(names, given, numbered(name, c)));
    } else if k < c {
        assert(is_taken(names, given, numbered(name, k)));
    }
}

/// Where some counter is free, there is a first free counter.
proof fn lemma_least_free(names: Seq<Seq<char>>, given: Seq<Seq<char>>, name: Seq<char>, f: nat)
    requires
        f >= 1,
        !is_taken(names, given, numbered(name, f)),
    ensures
        exists|k: nat| is_first_free(names, given, name, k),
    decreases f,
{
    if forall|j: nat| 1 <= j < f ==> is_taken(names, given, #[trigger] numbered(name, j)) {
        assert(is_first_free(names, given, name, f));
    } else {
        let j = choose|j: nat| 1 <= j < f && !is_taken(names, given, #[trigger] numbered(name, j));
        lemma_least_free(names, given, name, j);
    }
}

/// There is always a first free counter: the names that are taken are
/// fewer than the counters.
pub proof fn lemma_first_free_exists(names: Seq<Seq<char>>, given: Seq<Seq<char>>, name: Seq<char>)
    ensures
        is_first_free(names, given, name, first_free(names, given, name)),
{
    lemma_some_counter_free(name, names + given, 1, (names.len() + given.len() + 1) as nat);
    lemma_taken_is_contained(names, given);
    let f = choose|f: nat|
        1 <= f <= names.len() + given.len() + 1 && !(names + given).contains(
            #[trigger] numbered(name, f),
        );
    lemma_least_free(names, given, name, f);
}

/// What holds of the names given to the first `n` files: no two are the
/// same, and each is the file's own name, which no earlier file has, or a
/// name that no file of the list has.
pub open spec fn told_apart(names: Seq<Seq<char>>, given: Seq<Seq<char>>) -> bool {
    &&& given.len() <= names.len()
    &&& all_distinct(given)
    &&& forall|j: int|
        0 <= j < given.len() ==> (#[trigger] given[j] == names[j] && !names.take(j).contains(
            names[j],
        )) || !names.contains(given[j])
}

/// The upload names of the files of any list are pairwise distinct: an
/// index of the uploads has an entry for every file.
pub proof fn lemma_upload_names_distinct(names: Seq<Seq<char>>, n: nat)
    requires
        n <= names.len(),
    ensures
        upload_names(names, n).len() == n,
        told_apart(names, upload_names(names, n)),
        all_distinct(upload_names(names, n)),
    decreases n,
{
    if n > 0 {
        let i = (n - 1) as int;
        lemma_upload_names_distinct(names, (n - 1) as nat);
        let earlier = upload_names(names, (n - 1) as nat);
        let new = upload_name(names, earlier, i);
        let now = upload_names(names, n);
        assert(now == earlier.push(new));
        assert(names.contains(names[i]));
        if names.take(i).contains(names[i]) {
            lemma_first_free_exists(names, earlier, names[i]);
            assert(!is_taken(names, earlier, new));
        }
        assert forall|a: int, b: int| 0 <= a < b < now.len() implies now[a] != now[b] by {
            if b == i {
                assert(now[a] == earlier[a]);
                if names.take(i).contains(names[i]) {
                    assert(!earlier.contains(new));
                } else {
                    if earlier[a] == names[a] {
                        assert(names.take(i)[a] == names[a]);
                    }
                }
            } else {
                assert(now[a] == earlier[a] && now[b] == earlier[b]);
            }
        }
        assert forall|j: int| 0 <= j < now.len() implies (#[trigger] now[j] == names[j]
            && !names.take(j).contains(names[j])) || !names.contains(now[j]) by {
            if j < i {
                assert(now[j] == earlier[j]);
            }
        }
    }
}

/// The first file of a name keeps the name.
pub proof fn lemma_first_keeps_name(names: Seq<Seq<char>>, i: int)
    requires
        0 <= i < names.len(),
        forall|j: int| 0 <= j < i ==> names[j] != names[i],
    ensures
        upload_names(names, names.len())[i] == names[i],
{
    lemma_upload_names_grow(names, (i + 1) as nat, names.len());
    let given = upload_names(names, i as nat);
    assert(upload_names(names, (i + 1) as nat) == given.push(upload_name(names, given, i)));
    assert(!names.take(i).contains(names[i]));
}

/// The names of the first files are the same whatever comes after them.
pub proof fn lemma_upload_names_grow(names: Seq<Seq<char>>, m: nat, n: nat)
    requires
        m <= n,
    ensures
        upload_names(names, m).len() == m,
        upload_names(names, n).len() == n,
        forall|j: int| 0 <= j < m ==> upload_names(names, n)[j] == upload_names(names, m)[j],
    decreases n,
{
    if n == 0 {
    } else if m == n {
        lemma_upload_names_grow(names, (n - 1) as nat, (n - 1) as nat);
    } else {
        lemma_upload_names_grow(names, m, (n - 1) as nat);
    }
}

/// `name` with the counter `k` put in before its extension.
pub fn numbered_name(name: &str, k: u128) -> (r: String)
    ensures
        r@ == numbered(name@, k as nat),
{
    let chars = chars_of(name);
    let dot = last_dot_of(&chars);
    let number = counter_chars(k);
    if dot == 0 {
        let mut out = slice_of(&chars, 0, chars.len());
        assert(out@ =~= chars@);
        out.push('_');
        append_chars(&mut out, &number);
        assert(out@ =~= numbered(name@, k as nat));
        string_of(&out)
    } else {
        let mut out = slice_of(&chars, 0, dot - 1);
        out.push('_');
        append_chars(&mut out, &number);
        let tail = slice_of(&chars, dot - 1, chars.len());
        append_chars(&mut out, &tail);
        assert(out@ =~= numbered(name@, k as nat));
        string_of(&out)
    }
}

/// Whether one of the first `upto` texts of the list is `text`.
pub fn holds_text(list: &Vec<String>, upto: usize, text: &String) -> (r: bool)
    requires
        upto <= list.len(),
    ensures
        r == string_views(list@).take(upto as int).contains(text@),
{
    let ghost texts = string_views(list@).take(upto as int);
    let mut j: usize = 0;
    while j < upto
        invariant
            j <= upto <= list.len(),
            texts == string_views(list@).take(upto as int),
            forall|m: int| 0 <= m < j ==> texts[m] != text@,
        decreases upto - j,
    {
        assert(texts[j as int] == list@[j as int]@);
        if list[j] == *text {
            return true;
        }
        j += 1;
    }
    false
}

/// Gives every file its upload name, so that no two files share a name. A
/// file whose name no earlier file has keeps it. Any other gets a counter
/// put in before the extension: the first, from one on, that gives a name
/// which no file of the list has and which was given to no file before.
/// The contents and the order stay.
pub fn handle_duplicate_file_names(pastes: &mut Vec<PasteFile>)
    ensures
        paste_views(final(pastes)@) == renamed(paste_views(old(pastes)@)),
        all_distinct(paste_names(paste_views(final(pastes)@))),
{
    let ghost before = paste_views(pastes@);
    let ghost names = paste_names(before);
    let n = pastes.len();
    let mut own: Vec<String> = Vec::new();
    let mut c: usize = 0;
    while c < n
        invariant
            c <= n == pastes.len(),
            before == paste_views(pastes@),
            names == paste_names(before),
            own.len() == c,
            forall|j: int| 0 <= j < c ==> (#[trigger] own@[j])@ == names[j],
        decreases n - c,
    {
        own.push(pastes[c].name.clone());
        c += 1;
    }
    assert(string_views(own@) =~= names);
    let mut given: Vec<String> = Vec::new();
    let mut out: Vec<PasteFile> = Vec::new();
    let mut i: usize = 0;
    assert(string_views(given@) =~= upload_names(names, 0));
    while i < n
        invariant
            i <= n == pastes.len(),
            before == paste_views(pastes@),
            names == paste_names(before),
            names.len() == n,
            string_views(own@) == names,
            own.len() == n,
            given.len() == i,
            out.len() == i,
            string_views(given@) == upload_names(names, i as nat),
            forall|j: int|
                0 <= j < i ==> (#[trigger] out@[j])@ == (PasteFileView {
                    name: given@[j]@,
                    data: before[j].data,
                }),
            all_distinct(string_views(given@)),
            forall|j: int|
                0 <= j < i ==> (#[trigger] string_views(given@)[j] == names[j] && !names.take(
                    j,
                ).contains(names[j])) || !names.contains(string_views(given@)[j]),
        decreases n - i,
    {
        let ghost earlier = string_views(given@);
        assert(string_views(own@)[i as int] == own@[i as int]@);
        assert(names.take(n as int) =~= names);
        let name = if !holds_text(&own, i, &own[i]) {
            own[i].clone()
        } else {
            let mut k: u128 = 1;
            let mut candidate = numbered_name(own[i].as_str(), k);
            proof {
                assert(earlier.take(i as int) =~= earlier);
                lemma_some_counter_free(names[i as int], names + earlier, 1, (n + i + 1) as nat);
                lemma_taken_is_contained(names, earlier);
            }
            while holds_text(&own, n, &candidate) || holds_text(&given, i, &candidate)
                invariant
                    i < n,
                    own.len() == n,
                    given.len() == i,
                    names.len() == n,
                    string_views(own@) == names,
                    earlier == string_views(given@),
                    1 <= k <= n + i + 1,
                    candidate@ == numbered(names[i as int], k as nat),
                    own@[i as int]@ == names[i as int],
                    forall|j: nat|
                        1 <= j < k ==> is_taken(
                            names,
                            earlier,
                            #[trigger] numbered(names[i as int], j),
                        ),
                    forall|t: Seq<char>|
                        is_taken(names, earlier, t) <==> #[trigger] (names + earlier).contains(t),
                    exists|f: nat|
                        1 <= f <= n + i + 1 && !(names + earlier).contains(
                            #[trigger] numbered(names[i as int], f),
                        ),
                decreases n + i + 1 - k,
            {
                proof {
                    assert(names.take(n as int) =~= names);
                    assert(earlier.take(i as int) =~= earlier);
                    assert(is_taken(names, earlier, candidate@));
                    let f = choose|f: nat|
                        1 <= f <= n + i + 1 && !(names + earlier).contains(
                            #[trigger] numbered(names[i as int], f),
                        );
                    assert(!is_taken(names, earlier, numbered(names[i as int], f)));
                    assert(f > k);
                }
                k += 1;
                candidate = numbered_name(own[i].as_str(), k);
            }
            proof {
                assert(names.take(n as int) =~= names);
                assert(earlier.take(i as int) =~= earlier);
                assert(is_first_free(names, earlier, names[i as int], k as nat));
                lemma_first_free_is_one(names, earlier, names[i as int], k as nat);
            }
            candidate
        };
        proof {
            assert(name@ == upload_name(names, earlier, i as int));
            assert(upload_names(names, (i + 1) as nat) == earlier.push(name@));
        }
        given.push(name.clone());
        out.push(PasteFile { name, data: pastes[i].data.clone() });
        proof {
            let now = string_views(given@);
            let new = now[i as int];
            assert(now =~= earlier.push(new));
            assert(names.contains(names[i as int]));
            assert forall|a: int, b: int| 0 <= a < b < now.len() implies now[a] != now[b] by {
                if b == i {
                    assert(now[a] == earlier[a]);
                    if names.take(i as int).contains(names[i as int]) {
                        assert(!earlier.contains(new));
                    } else {
                        if earlier[a] == names[a] {
                            assert(names.take(i as int)[a] == names[a]);
                        }
                    }
                } else {
                    assert(now[a] == earlier[a] && now[b] == earlier[b]);
                }
            }
            assert forall|j: int| 0 <= j < i + 1 implies (#[trigger] now[j] == names[j]
                && !names.take(j).contains(names[j])) || !names.contains(now[j]) by {
                if j < i {
                    assert(now[j] == earlier[j]);
                }
            }
        }
        i += 1;
    }
    *pastes = out;
    proof {
        lemma_upload_names_grow(names, n as nat, n as nat);
        assert(paste_views(pastes@) =~= renamed(before));
        assert(paste_names(paste_views(pastes@)) =~= string_views(given@));
    }
}

proof fn lemma_taken_is_contained(names: Seq<Seq<char>>, given: Seq<Seq<char>>)
    ensures
        forall|t: Seq<char>| is_taken(names, given, t) <==> #[trigger] (names + given).contains(t),
{
    let all = names + given;
    assert forall|t: Seq<char>| is_taken(names, given, t) <==> #[trigger] all.contains(t) by {
        if names.contains(t) {
            let j = choose|j: int| 0 <= j < names.len() && names[j] == t;
            assert(all[j] == t);
        }
        if given.contains(t) {
            let j = choose|j: int| 0 <= j < given.len() && given[j] == t;
            assert(all[names.len() + j] == t);
        }
        if all.contains(t) {
            let j = choose|j: int| 0 <= j < all.len() && all[j] == t;
            if j < names.len() {
                assert(names[j] == t);
            } else {
                assert(given[j - names.len()] == t);
            }
        }
    }
}

/// The files among `files` that are not blank.
pub fn keep_with_content(files: Vec<PasteFile>) -> (kept: Vec<PasteFile>)
    ensures
        paste_views(kept@) == with_content(paste_views(files@)),
{
    let ghost all = paste_views(files@);
    let mut kept: Vec<PasteFile> = Vec::new();
    let mut i: usize = 0;
    assert(all.take(0) =~= Seq::<PasteFileView>::empty());
    assert(paste_views(kept@) =~= Seq::<PasteFileView>::empty());
    while i < files.len()
        invariant
            i <= files.len(),
            all == paste_views(files@),
            paste_views(kept@) == with_content(all.take(i as int)),
        decreases files.len() - i,
    {
        proof {
            assert(all.take(i + 1).drop_last() =~= all.take(i as int));
            assert(all.take(i + 1).last() == files@[i as int]@);
        }
        let data = chars_of(files[i].data.as_str());
        if !is_blank_chars(&data) {
            let ghost before = paste_views(kept@);
            kept.push(files[i].clone());
            assert(paste_views(kept@) =~= before.push(files@[i as int]@));
        }
        i += 1;
    }
    assert(all.take(i as int) =~= all);
    kept
}

/// Whether the text holds nothing but blanks.
pub fn is_blank_text(s: &str) -> (b: bool)
    ensures
        b == is_blank(s@),
{
    let chars = chars_of(s);
    is_blank_chars(&chars)
}

/// The files to upload for what was gathered.
pub fn to_paste(input: PasteInput) -> (r: Result<Vec<PasteFile>, Error>)
    ensures
        match files_to_paste(input@) {
            Ok(files) => r matches Ok(v) && paste_views(v@) == files,
            Err(error) => r matches Err(e) && e@ == error,
        },
        r matches Ok(v) ==> v.len() >= 1 && all_distinct(paste_names(paste_views(v@))),
{
    match input {
        PasteInput::Message(m) => {
            if is_blank_text(m.as_str()) {
                return Err(Error::NoFiles);
            }
            let mut v: Vec<PasteFile> = Vec::new();
            v.push(PasteFile { name: "message".to_owned(), data: m });
            assert(paste_views(v@) =~= seq![PasteFileView { name: "message"@, data: m@ }]);
            Ok(v)
        },
        PasteInput::Files(files) => {
            let mut kept = keep_with_content(files);
            if kept.len() == 0 {
                return Err(Error::NoFiles);
            }
            handle_duplicate_file_names(&mut kept);
            Ok(kept)
        },
        PasteInput::Stdin(s) => {
            if is_blank_text(s.as_str()) {
                return Err(Error::NoFiles);
            }
            let mut v: Vec<PasteFile> = Vec::new();
            v.push(PasteFile { name: "stdin".to_owned(), data: s });
            assert(paste_views(v@) =~= seq![PasteFileView { name: "stdin"@, data: s@ }]);
            Ok(v)
        },
    }
}

} // verus!
