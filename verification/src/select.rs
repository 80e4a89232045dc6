//! The choice of files on download: which of the files of a paste the user
//! wants, by name, by position, all of them, or the only one there is.

use vstd::prelude::*;
use crate::bins::Arguments;
use crate::error::{Error, ErrorView};
use crate::number::{decimal, decimal_chars};
use crate::paste::{remote_views, RemoteFileView, RemotePasteFile};
use crate::range::FlexibleRange;
use crate::text::{lowercase, string_of, string_views};

verus! {

/// The place of the file that a name asks for: the last of the files whose
/// name, in lower case, is `key`.
pub open spec fn find_last(files: Seq<RemoteFileView>, key: Seq<char>) -> Option<int>
    decreases files.len(),
{
    if files.len() == 0 {
        None
    } else if lowercase(files.last().name) == key {
        Some(files.len() - 1)
    } else {
        find_last(files.drop_last(), key)
    }
}

/// The places that the names ask for. Names are compared without regard to
/// case.
pub open spec fn wanted_names(files: Seq<RemoteFileView>, names: Seq<Seq<char>>) -> Seq<
    Option<int>,
> {
    Seq::new(names.len(), |i: int| find_last(files, lowercase(names[i])))
}

/// The places that the positions ask for, counted from zero; none for a
/// position past the end.
pub open spec fn wanted_positions(files: Seq<RemoteFileView>, positions: Seq<usize>) -> Seq<
    Option<int>,
> {
    Seq::new(
        positions.len(),
        |i: int|
            if positions[i] < files.len() {
                Some(positions[i] as int)
            } else {
                None
            },
    )
}

/// The files at the wanted places, in the order of the requests. A file
/// that is asked for again is given again. A request without a place fails;
/// the number of the first request that fails is the error.
pub open spec fn pick(files: Seq<RemoteFileView>, wanted: Seq<Option<int>>) -> Result<
    Seq<RemoteFileView>,
    int,
>
    decreases wanted.len(),
{
    if wanted.len() == 0 {
        Ok(Seq::<RemoteFileView>::empty())
    } else {
        match pick(files, wanted.drop_last()) {
            Err(i) => Err(i),
            Ok(got) => match wanted.last() {
                None => Err(wanted.len() - 1),
                Some(k) => Ok(got.push(files[k])),
            },
        }
    }
}

/// The names of the files, in their order.
pub open spec fn names_of(files: Seq<RemoteFileView>) -> Seq<Seq<char>> {
    Seq::new(files.len(), |i: int| files[i].name)
}

/// The positions that a range yields, if there is a range.
pub open spec fn range_view(range: Option<FlexibleRange>) -> Option<Seq<usize>> {
    match range {
        Some(r) => Some(r@),
        None => None,
    }
}

/// The files that the user wants.
///
/// A paste of one file, or of none, is returned as it is. Otherwise names
/// come first, then a range, then the wish for all files; with none of
/// these the choice is ambiguous.
pub open spec fn selection(
    files: Seq<RemoteFileView>,
    names: Seq<Seq<char>>,
    range: Option<Seq<usize>>,
    all: bool,
) -> Result<Seq<RemoteFileView>, ErrorView> {
    if files.len() <= 1 {
        Ok(files)
    } else if names.len() > 0 {
        match pick(files, wanted_names(files, names)) {
            Ok(got) => Ok(got),
            Err(i) => Err(ErrorView::FileNotFound(names[i])),
        }
    } else if range is Some {
        match pick(files, wanted_positions(files, range->0)) {
            Ok(got) => Ok(got),
            Err(i) => Err(ErrorView::FileNotFound(decimal(range->0[i] as nat))),
        }
    } else if all {
        Ok(files)
    } else {
        Err(ErrorView::AmbiguousSelection(names_of(files)))
    }
}

/// The failure of an earlier request is the failure of the whole list.
pub proof fn lemma_pick_error_stays(files: Seq<RemoteFileView>, wanted: Seq<Option<int>>, k: int)
    requires
        0 <= k <= wanted.len(),
        pick(files, wanted.take(k)) is Err,
    ensures
        pick(files, wanted) == pick(files, wanted.take(k)),
    decreases wanted.len() - k,
{
    if k == wanted.len() {
        assert(wanted.take(k) =~= wanted);
    } else {
        assert(wanted.take(k + 1).drop_last() =~= wanted.take(k));
        lemma_pick_error_stays(files, wanted, k + 1);
    }
}

/// The number of a failed request is the number of one of the requests.
pub proof fn lemma_pick_error_in_range(files: Seq<RemoteFileView>, wanted: Seq<Option<int>>)
    ensures
        pick(files, wanted) matches Err(i) ==> 0 <= i < wanted.len(),
        pick(files, wanted) matches Ok(got) ==> got.len() == wanted.len(),
    decreases wanted.len(),
{
    if wanted.len() > 0 {
        lemma_pick_error_in_range(files, wanted.drop_last());
    }
}

/// A file is found by its own name, whatever the case, unless a later file
/// has the same name in lower case.
pub proof fn lemma_found_by_own_name(files: Seq<RemoteFileView>, i: int)
    requires
        0 <= i < files.len(),
        forall|j: int| i < j < files.len() ==> lowercase(files[j].name) != lowercase(files[i].name),
    ensures
        find_last(files, lowercase(files[i].name)) == Some(i),
    decreases files.len(),
{
    if i < files.len() - 1 {
        let init = files.drop_last();
        assert(lowercase(files[files.len() - 1].name) != lowercase(files[i].name));
        assert forall|j: int| i < j < init.len() implies lowercase(init[j].name) != lowercase(
            init[i].name,
        ) by {
            assert(init[j] == files[j] && init[i] == files[i]);
        }
        assert(init[i] == files[i]);
        lemma_found_by_own_name(init, i);
    }
}

/// Of a paste of several files, one name chooses the file that it finds,
/// and nothing else: a range or the wish for all files is not looked at.
pub proof fn lemma_one_name_chooses_one_file(
    files: Seq<RemoteFileView>,
    name: Seq<char>,
    i: int,
    range: Option<Seq<usize>>,
    all: bool,
)
    requires
        files.len() > 1,
        find_last(files, lowercase(name)) == Some(i),
    ensures
        selection(files, seq![name], range, all) == Ok::<Seq<RemoteFileView>, ErrorView>(
            seq![files[i]],
        ),
{
    let wanted = wanted_names(files, seq![name]);
    assert(wanted =~= seq![Some(i)]);
    assert(wanted.drop_last() =~= Seq::<Option<int>>::empty());
    assert(pick(files, wanted.drop_last()) == Ok::<Seq<RemoteFileView>, int>(
        Seq::<RemoteFileView>::empty(),
    ));
    assert(Seq::<RemoteFileView>::empty().push(files[i]) =~= seq![files[i]]);
}

/// Of a paste of several files and a request without names, range or the
/// wish for all files, the failure names every file of the paste, in the
/// order of the paste, and the message shows each of the names.
pub proof fn lemma_no_selector_names_every_file(files: Seq<RemoteFileView>, i: int)
    requires
        files.len() > 1,
        0 <= i < files.len(),
    ensures
        selection(files, Seq::empty(), None, false) == Err::<Seq<RemoteFileView>, ErrorView>(
            ErrorView::AmbiguousSelection(names_of(files)),
        ),
        crate::error::occurs_in(
            files[i].name,
            crate::error::error_text(ErrorView::AmbiguousSelection(names_of(files))),
        ),
{
    crate::error::lemma_ambiguity_names_every_file(names_of(files), i);
}

/// Where names are given, they decide: neither a range nor the wish for all
/// files changes what is chosen.
pub proof fn lemma_names_take_priority(
    files: Seq<RemoteFileView>,
    names: Seq<Seq<char>>,
    range: Option<Seq<usize>>,
    all: bool,
    other_range: Option<Seq<usize>>,
    other_all: bool,
)
    requires
        names.len() > 0,
    ensures
        selection(files, names, range, all) == selection(files, names, other_range, other_all),
{
}

/// A paste of a single file is returned whatever the selector says.
pub proof fn lemma_single_file_needs_no_selector(
    files: Seq<RemoteFileView>,
    names: Seq<Seq<char>>,
    range: Option<Seq<usize>>,
    all: bool,
)
    requires
        files.len() == 1,
    ensures
        selection(files, names, range, all) == Ok::<Seq<RemoteFileView>, ErrorView>(files),
{
}

/// Where every request has a place, there is a file for each request, and
/// the files come in the order of the requests.
pub proof fn lemma_pick_in_request_order(files: Seq<RemoteFileView>, wanted: Seq<Option<int>>)
    requires
        pick(files, wanted) is Ok,
    ensures
        pick(files, wanted)->Ok_0.len() == wanted.len(),
        forall|i: int|
            0 <= i < wanted.len() ==> (#[trigger] wanted[i]) is Some && pick(
                files,
                wanted,
            )->Ok_0[i] == files[wanted[i]->0],
    decreases wanted.len(),
{
    if wanted.len() > 0 {
        lemma_pick_in_request_order(files, wanted.drop_last());
        assert forall|i: int| 0 <= i < wanted.len() implies (#[trigger] wanted[i]) is Some
            && pick(files, wanted)->Ok_0[i] == files[wanted[i]->0] by {
            if i < wanted.len() - 1 {
                assert(wanted.drop_last()[i] == wanted[i]);
            }
        }
    }
}

/// The place of the last of `lowered` that equals `key`.
fn find_name(lowered: &Vec<String>, key: &String, Ghost(files): Ghost<Seq<RemoteFileView>>) -> (r:
    Option<usize>)
    requires
        lowered.len() == files.len(),
        forall|i: int| 0 <= i < files.len() ==> (#[trigger] lowered@[i])@ == lowercase(files[i].name),
    ensures
        match r {
            Some(k) => find_last(files, key@) == Some(k as int) && k < files.len(),
            None => find_last(files, key@) is None,
        },
{
    let mut k: usize = lowered.len();
    assert(files.take(k as int) =~= files);
    while k > 0
        invariant
            k <= lowered.len() == files.len(),
            forall|i: int|
                0 <= i < files.len() ==> (#[trigger] lowered@[i])@ == lowercase(files[i].name),
            find_last(files, key@) == find_last(files.take(k as int), key@),
        decreases k,
    {
        proof {
            assert(files.take(k as int).drop_last() =~= files.take(k - 1));
            assert(files.take(k as int).last() == files[k - 1]);
        }
        if lowered[k - 1] == *key {
            return Some(k - 1);
        }
        k -= 1;
    }
    return None;
}

/// The files that the names ask for.
fn select_names(files: &Vec<RemotePasteFile>, names: &Vec<String>) -> (r: Result<
    Vec<RemotePasteFile>,
    Error,
>)
    ensures
        match pick(remote_views(files@), wanted_names(remote_views(files@), string_views(names@))) {
            Ok(got) => r matches Ok(v) && remote_views(v@) == got,
            Err(i) => r matches Err(e) && e@ == ErrorView::FileNotFound(string_views(names@)[i]),
        },
{
    let ghost shown = remote_views(files@);
    let ghost wanted = wanted_names(shown, string_views(names@));
    proof {
        lemma_pick_error_in_range(shown, wanted);
    }
    let mut lowered: Vec<String> = Vec::new();
    let mut n: usize = 0;
    while n < files.len()
        invariant
            n <= files.len(),
            lowered.len() == n,
            forall|i: int| 0 <= i < n ==> (#[trigger] lowered@[i])@ == lowercase(files@[i].name@),
        decreases files.len() - n,
    {
        lowered.push(files[n].name.as_str().to_lowercase());
        n += 1;
    }
    let mut got: Vec<RemotePasteFile> = Vec::new();
    let mut i: usize = 0;
    assert(wanted.take(0) =~= Seq::<Option<int>>::empty());
    assert(remote_views(got@) =~= Seq::<RemoteFileView>::empty());
    while i < names.len()
        invariant
            i <= names.len(),
            shown == remote_views(files@),
            wanted == wanted_names(shown, string_views(names@)),
            lowered.len() == files.len(),
            forall|j: int|
                0 <= j < files.len() ==> (#[trigger] lowered@[j])@ == lowercase(shown[j].name),
            pick(shown, wanted.take(i as int)) == Ok::<Seq<RemoteFileView>, int>(
                remote_views(got@),
            ),
        decreases names.len() - i,
    {
        let key = names[i].as_str().to_lowercase();
        let found = find_name(&lowered, &key, Ghost(shown));
        proof {
            assert(wanted.take(i + 1).drop_last() =~= wanted.take(i as int));
            assert(wanted.take(i + 1).last() == wanted[i as int]);
            assert(wanted[i as int] == find_last(shown, key@));
        }
        let k = match found {
            Some(k) => k,
            None => {
                proof {
                    lemma_pick_error_stays(shown, wanted, i + 1);
                }
                return Err(Error::FileNotFound(names[i].clone()));
            },
        };
        let ghost before = remote_views(got@);
        got.push(files[k].clone());
        assert(remote_views(got@) =~= before.push(shown[k as int]));
        i += 1;
    }
    assert(wanted.take(i as int) =~= wanted);
    Ok(got)
}

/// The files at the positions that the range yields.
fn select_positions(files: &Vec<RemotePasteFile>, range: &FlexibleRange) -> (r: Result<
    Vec<RemotePasteFile>,
    Error,
>)
    ensures
        match pick(remote_views(files@), wanted_positions(remote_views(files@), range@)) {
            Ok(got) => r matches Ok(v) && remote_views(v@) == got,
            Err(i) => r matches Err(e) && e@ == ErrorView::FileNotFound(
                decimal(range@[i] as nat),
            ),
        },
{
    let ghost shown = remote_views(files@);
    let ghost all = range@;
    let ghost wanted = wanted_positions(shown, all);
    proof {
        lemma_pick_error_in_range(shown, wanted);
    }
    let mut rest = range.clone();
    let mut got: Vec<RemotePasteFile> = Vec::new();
    let ghost mut done: int = 0;
    assert(wanted.take(0) =~= Seq::<Option<int>>::empty());
    assert(remote_views(got@) =~= Seq::<RemoteFileView>::empty());
    assert(all.skip(0) =~= all);
    let mut next = rest.next();
    while next.is_some()
        invariant
            shown == remote_views(files@),
            wanted == wanted_positions(shown, all),
            all == range@,
            0 <= done <= all.len(),
            next matches Some(p) ==> done < all.len() && all[done] == p && rest@ == all.skip(
                done + 1,
            ),
            next is None ==> done == all.len(),
            pick(shown, wanted.take(done)) == Ok::<Seq<RemoteFileView>, int>(remote_views(got@)),
        decreases all.len() - done,
    {
        let p = next.unwrap();
        proof {
            assert(wanted.take(done + 1).drop_last() =~= wanted.take(done));
            assert(wanted.take(done + 1).last() == wanted[done]);
        }
        if p >= files.len() {
            proof {
                lemma_pick_error_stays(shown, wanted, done + 1);
            }
            return Err(Error::FileNotFound(string_of(&decimal_chars(p))));
        }
        let ghost before = remote_views(got@);
        got.push(files[p].clone());
        proof {
            assert(remote_views(got@) =~= before.push(shown[p as int]));
        }
        next = rest.next();
        proof {
            if all.skip(done + 1).len() > 0 {
                assert(all.skip(done + 1)[0] == all[done + 1]);
                assert(all.skip(done + 1).drop_first() =~= all.skip(done + 2));
            }
            done = done + 1;
        }
    }
    assert(wanted.take(done) =~= wanted);
    Ok(got)
}

/// The names of the files, in their order.
pub fn file_names(files: &Vec<RemotePasteFile>) -> (names: Vec<String>)
    ensures
        string_views(names@) == names_of(remote_views(files@)),
{
    let mut names: Vec<String> = Vec::new();
    let mut i: usize = 0;
    while i < files.len()
        invariant
            i <= files.len(),
            names.len() == i,
            forall|j: int| 0 <= j < i ==> (#[trigger] names@[j])@ == files@[j].name@,
        decreases files.len() - i,
    {
        names.push(files[i].name.clone());
        i += 1;
    }
    assert(string_views(names@) =~= names_of(remote_views(files@)));
    names
}

/// Chooses among the files of a paste those that the request asks for.
pub fn select(files: Vec<RemotePasteFile>, arguments: &Arguments) -> (r: Result<
    Vec<RemotePasteFile>,
    Error,
>)
    ensures
        match selection(
            remote_views(files@),
            string_views(arguments.files@),
            range_view(arguments.range),
            arguments.all,
        ) {
            Ok(chosen) => r matches Ok(v) && remote_views(v@) == chosen,
            Err(error) => r matches Err(e) && e@ == error,
        },
{
    if files.len() <= 1 {
        return Ok(files);
    }
    if arguments.files.len() > 0 {
        return select_names(&files, &arguments.files);
    }
    match &arguments.range {
        Some(range) => {
            return select_positions(&files, range);
        },
        None => {},
    }
    if arguments.all {
        return Ok(files);
    }
    Err(Error::AmbiguousSelection(file_names(&files)))
}

} // verus!
