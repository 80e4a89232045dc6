//! Character-level text handling shared by the formats of this crate:
//! conversion between strings and character vectors, blank trimming and
//! splitting at a separator. Every contract is stated over `Seq<char>`.

use vstd::prelude::*;

verus! {

/// `String::push` appends one character to the end of the string.
pub assume_specification[ String::push ](s: &mut String, c: char)
    ensures
        final(s)@ == old(s)@.push(c),
;

/// The lower-case form of a text, as `str::to_lowercase` gives it.
pub uninterp spec fn lowercase(s: Seq<char>) -> Seq<char>;

/// `str::to_lowercase` returns the lower-case equivalent of the text as a new
/// string; the text alone decides it.
pub assume_specification[ str::to_lowercase ](s: &str) -> (r: String)
    ensures
        r@ == lowercase(s@),
;

/// The characters with the Unicode property `White_Space`.
pub open spec fn is_space(c: char) -> bool {
    let n = c as u32;
    ||| 0x09 <= n <= 0x0D
    ||| n == 0x20
    ||| n == 0x85
    ||| n == 0xA0
    ||| n == 0x1680
    ||| 0x2000 <= n <= 0x200A
    ||| n == 0x2028
    ||| n == 0x2029
    ||| n == 0x202F
    ||| n == 0x205F
    ||| n == 0x3000
}

/// `s` holds nothing but blanks (the empty text included).
pub open spec fn is_blank(s: Seq<char>) -> bool {
    forall|i: int| 0 <= i < s.len() ==> is_space(#[trigger] s[i])
}

/// `s` without its leading blanks.
pub open spec fn trim_start(s: Seq<char>) -> Seq<char>
    decreases s.len(),
{
    if s.len() > 0 && is_space(s.first()) {
        trim_start(s.drop_first())
    } else {
        s
    }
}

/// `s` without its trailing blanks.
pub open spec fn trim_end(s: Seq<char>) -> Seq<char>
    decreases s.len(),
{
    if s.len() > 0 && is_space(s.last()) {
        trim_end(s.drop_last())
    } else {
        s
    }
}

/// `s` without its leading and trailing blanks.
pub open spec fn trim(s: Seq<char>) -> Seq<char> {
    trim_end(trim_start(s))
}

/// The pieces of `s` between occurrences of `sep`, in order. A text without
/// `sep` is one piece; `n` occurrences give `n + 1` pieces, some of which may
/// be empty.
pub open spec fn split(s: Seq<char>, sep: char) -> Seq<Seq<char>>
    decreases s.len(),
{
    if s.len() == 0 {
        seq![Seq::<char>::empty()]
    } else {
        let init = split(s.drop_last(), sep);
        if s.last() == sep {
            init.push(Seq::<char>::empty())
        } else {
            init.drop_last().push(init.last().push(s.last()))
        }
    }
}

/// The views of a vector of character vectors.
pub open spec fn views(parts: Seq<Vec<char>>) -> Seq<Seq<char>> {
    Seq::new(parts.len(), |i: int| parts[i]@)
}

/// The views of a vector of strings.
pub open spec fn string_views(parts: Seq<String>) -> Seq<Seq<char>> {
    Seq::new(parts.len(), |i: int| parts[i]@)
}

/// The texts of `parts` one after another, `sep` between neighbours.
pub open spec fn join(parts: Seq<Seq<char>>, sep: Seq<char>) -> Seq<char>
    decreases parts.len(),
{
    if parts.len() == 0 {
        Seq::<char>::empty()
    } else if parts.len() == 1 {
        parts[0]
    } else {
        join(parts.drop_last(), sep) + sep + parts.last()
    }
}

/// The place of the last dot in `name`, or `-1` where it has none.
pub open spec fn last_dot(name: Seq<char>) -> int
    decreases name.len(),
{
    if name.len() == 0 {
        -1
    } else if name.last() == '.' {
        name.len() - 1
    } else {
        last_dot(name.drop_last())
    }
}

/// The part of `name` before its last dot; all of it where it has none.
pub open spec fn stem(name: Seq<char>) -> Seq<char> {
    if last_dot(name) < 0 {
        name
    } else {
        name.subrange(0, last_dot(name))
    }
}

/// A split always yields at least one piece.
pub proof fn lemma_split_nonempty(s: Seq<char>, sep: char)
    ensures
        split(s, sep).len() >= 1,
    decreases s.len(),
{
    if s.len() > 0 {
        lemma_split_nonempty(s.drop_last(), sep);
    }
}

/// A text without the separator is its own single piece.
pub proof fn lemma_split_plain(s: Seq<char>, sep: char)
    requires
        !s.contains(sep),
    ensures
        split(s, sep) == seq![s],
    decreases s.len(),
{
    if s.len() > 0 {
        let init = s.drop_last();
        assert forall|i: int| 0 <= i < init.len() implies init[i] != sep by {
            assert(init[i] == s[i]);
            assert(s.contains(s[i]));
        }
        assert(!init.contains(sep));
        lemma_split_plain(init, sep);
        assert(s.contains(s.last()));
        assert(seq![init].drop_last().push(seq![init].last().push(s.last())) =~= seq![s]) by {
            assert(init.push(s.last()) =~= s);
        }
    } else {
        assert(s =~= Seq::<char>::empty());
    }
}

/// Appending a text without the separator extends the last piece.
pub proof fn lemma_split_extend(a: Seq<char>, b: Seq<char>, sep: char)
    requires
        !b.contains(sep),
    ensures
        split(a + b, sep) == split(a, sep).drop_last().push(split(a, sep).last() + b),
    decreases b.len(),
{
    lemma_split_nonempty(a, sep);
    let pa = split(a, sep);
    if b.len() == 0 {
        assert(a + b =~= a);
        assert(pa.last() + b =~= pa.last());
        assert(pa.drop_last().push(pa.last()) =~= pa);
    } else {
        let b0 = b.drop_last();
        assert forall|i: int| 0 <= i < b0.len() implies b0[i] != sep by {
            assert(b0[i] == b[i]);
            assert(b.contains(b[i]));
        }
        assert(!b0.contains(sep));
        lemma_split_extend(a, b0, sep);
        assert(b.contains(b.last()));
        assert((a + b).drop_last() =~= a + b0);
        assert((a + b).last() == b.last());
        let init = split(a + b0, sep);
        assert(init.drop_last() =~= pa.drop_last());
        assert(init.last().push(b.last()) =~= pa.last() + b);
    }
}

/// A separator at the end of a text opens a new, empty piece.
pub proof fn lemma_split_close(a: Seq<char>, sep: char)
    ensures
        split(a.push(sep), sep) == split(a, sep).push(Seq::<char>::empty()),
{
    assert(a.push(sep).drop_last() =~= a);
}

/// A line that ends with the separator, added to a text that ends with one,
/// adds the line as a piece of its own before the final empty piece.
pub proof fn lemma_split_line(a: Seq<char>, line: Seq<char>, sep: char)
    requires
        !line.contains(sep),
        split(a, sep).last().len() == 0,
    ensures
        split(a + line.push(sep), sep) == split(a, sep).drop_last().push(line).push(
            Seq::<char>::empty(),
        ),
{
    lemma_split_nonempty(a, sep);
    lemma_split_extend(a, line, sep);
    lemma_split_close(a + line, sep);
    assert(a + line.push(sep) =~= (a + line).push(sep));
    assert(split(a, sep).last() + line =~= line);
}

/// A text that starts and ends with a character that is no blank, or is
/// empty, is left alone by `trim`.
pub proof fn lemma_trim_tight(s: Seq<char>)
    requires
        s.len() > 0 ==> !is_space(s.first()) && !is_space(s.last()),
    ensures
        trim(s) == s,
{
}

/// A blank text trims to the empty text, and only a blank one does.
pub proof fn lemma_trim_blank(s: Seq<char>)
    ensures
        is_blank(s) <==> trim(s).len() == 0,
{
    lemma_trim_start_blank(s);
    lemma_trim_end_keeps(trim_start(s));
}

proof fn lemma_trim_start_blank(s: Seq<char>)
    ensures
        is_blank(s) <==> trim_start(s).len() == 0,
        trim_start(s).len() > 0 ==> !is_space(trim_start(s).first()),
    decreases s.len(),
{
    if s.len() > 0 && is_space(s.first()) {
        let rest = s.drop_first();
        lemma_trim_start_blank(rest);
        if is_blank(rest) {
            assert forall|i: int| 0 <= i < s.len() implies is_space(#[trigger] s[i]) by {
                if i > 0 {
                    assert(s[i] == rest[i - 1]);
                }
            }
        }
        if is_blank(s) {
            assert forall|i: int| 0 <= i < rest.len() implies is_space(#[trigger] rest[i]) by {
                assert(rest[i] == s[i + 1]);
            }
        }
    } else if s.len() > 0 {
        assert(!is_space(s[0]));
    }
}

proof fn lemma_trim_end_keeps(s: Seq<char>)
    requires
        s.len() > 0 ==> !is_space(s.first()),
    ensures
        s.len() > 0 ==> trim_end(s).len() > 0,
        s.len() == 0 ==> trim_end(s).len() == 0,
    decreases s.len(),
{
    if s.len() > 0 && is_space(s.last()) {
        assert(s.len() > 1);
        assert(s.drop_last().first() == s.first());
        lemma_trim_end_keeps(s.drop_last());
    }
}

/// Whether `c` is a blank.
pub fn is_whitespace(c: char) -> (b: bool)
    ensures
        b == is_space(c),
{
    let n: u32 = c as u32;
    (0x09 <= n && n <= 0x0D) || n == 0x20 || n == 0x85 || n == 0xA0 || n == 0x1680 || (0x2000 <= n
        && n <= 0x200A) || n == 0x2028 || n == 0x2029 || n == 0x202F || n == 0x205F || n == 0x3000
}

/// The characters of `s`, in order.
pub fn chars_of(s: &str) -> (v: Vec<char>)
    ensures
        v@ == s@,
{
    let mut v: Vec<char> = Vec::new();
    for c in it: s.chars()
        invariant
            v@ == it.seq().take(it.index()),
            it.seq() == s@,
    {
        v.push(c);
    }
    v
}

/// The string made of the characters of `v`, in order.
pub fn string_of(v: &Vec<char>) -> (s: String)
    ensures
        s@ == v@,
{
    let mut s = String::new();
    let mut i: usize = 0;
    while i < v.len()
        invariant
            i <= v.len(),
            s@ == v@.take(i as int),
        decreases v.len() - i,
    {
        s.push(v[i]);
        i += 1;
    }
    s
}

/// The characters of `v` from position `from` up to, not including, `to`.
pub(crate) fn slice_of(v: &Vec<char>, from: usize, to: usize) -> (r: Vec<char>)
    requires
        from <= to <= v.len(),
    ensures
        r@ == v@.subrange(from as int, to as int),
{
    let mut r: Vec<char> = Vec::new();
    let mut i: usize = from;
    while i < to
        invariant
            from <= i <= to <= v.len(),
            r@ == v@.subrange(from as int, i as int),
        decreases to - i,
    {
        r.push(v[i]);
        i += 1;
    }
    r
}

/// Whether `v` holds nothing but blanks.
pub fn is_blank_chars(v: &Vec<char>) -> (b: bool)
    ensures
        b == is_blank(v@),
{
    let mut i: usize = 0;
    while i < v.len()
        invariant
            i <= v.len(),
            forall|j: int| 0 <= j < i ==> is_space(#[trigger] v@[j]),
        decreases v.len() - i,
    {
        if !is_whitespace(v[i]) {
            return false;
        }
        i += 1;
    }
    true
}

/// `v` without its leading and trailing blanks.
pub fn trim_chars(v: &Vec<char>) -> (r: Vec<char>)
    ensures
        r@ == trim(v@),
{
    let n = v.len();
    let mut i: usize = 0;
    assert(v@.subrange(0, n as int) =~= v@);
    while i < n && is_whitespace(v[i])
        invariant
            i <= n == v.len(),
            trim_start(v@) == trim_start(v@.subrange(i as int, n as int)),
        decreases n - i,
    {
        assert(v@.subrange(i as int, n as int).drop_first() =~= v@.subrange(i + 1, n as int));
        i += 1;
    }
    let mut j: usize = n;
    while j > i && is_whitespace(v[j - 1])
        invariant
            i <= j <= n == v.len(),
            trim_end(v@.subrange(i as int, n as int)) == trim_end(v@.subrange(i as int, j as int)),
        decreases j,
    {
        assert(v@.subrange(i as int, j as int).drop_last() =~= v@.subrange(i as int, j - 1));
        j -= 1;
    }
    slice_of(v, i, j)
}

/// The pieces of `v` between occurrences of `sep`.
pub fn split_chars(v: &Vec<char>, sep: char) -> (parts: Vec<Vec<char>>)
    ensures
        views(parts@) == split(v@, sep),
{
    let mut parts: Vec<Vec<char>> = Vec::new();
    let mut piece: Vec<char> = Vec::new();
    let mut i: usize = 0;
    while i < v.len()
        invariant
            i <= v.len(),
            views(parts@).push(piece@) == split(v@.take(i as int), sep),
        decreases v.len() - i,
    {
        let c = v[i];
        proof {
            assert(v@.take(i + 1).drop_last() =~= v@.take(i as int));
            assert(v@.take(i + 1).last() == c);
        }
        if c == sep {
            let ghost before = views(parts@);
            parts.push(piece);
            piece = Vec::new();
            assert(views(parts@) =~= before.push(parts@.last()@));
        } else {
            let ghost before = piece@;
            piece.push(c);
            assert(views(parts@).push(before).drop_last() =~= views(parts@));
        }
        i += 1;
    }
    assert(v@.take(i as int) =~= v@);
    let ghost before = views(parts@);
    parts.push(piece);
    assert(views(parts@) =~= before.push(parts@.last()@));
    parts
}

/// Whether the two character vectors hold the same text.
pub fn same_chars(a: &Vec<char>, b: &Vec<char>) -> (r: bool)
    ensures
        r == (a@ == b@),
{
    if a.len() != b.len() {
        return false;
    }
    let mut i: usize = 0;
    while i < a.len()
        invariant
            i <= a.len() == b.len(),
            forall|j: int| 0 <= j < i ==> a@[j] == b@[j],
        decreases a.len() - i,
    {
        if a[i] != b[i] {
            return false;
        }
        i += 1;
    }
    assert(a@ =~= b@);
    true
}

/// Appends the characters of `tail` to `v`.
pub fn append_chars(v: &mut Vec<char>, tail: &Vec<char>)
    ensures
        final(v)@ == old(v)@ + tail@,
{
    let mut i: usize = 0;
    while i < tail.len()
        invariant
            i <= tail.len(),
            v@ == old(v)@ + tail@.take(i as int),
        decreases tail.len() - i,
    {
        v.push(tail[i]);
        assert(tail@.take(i + 1) =~= tail@.take(i as int).push(tail@[i as int]));
        i += 1;
    }
    assert(tail@.take(i as int) =~= tail@);
}

/// The texts of `parts` one after another, `sep` between neighbours.
pub fn join_strings(parts: &Vec<String>, sep: &str) -> (s: String)
    ensures
        s@ == join(string_views(parts@), sep@),
{
    let ghost texts = string_views(parts@);
    let mut s = String::new();
    let mut i: usize = 0;
    assert(texts.take(0) =~= Seq::<Seq<char>>::empty());
    while i < parts.len()
        invariant
            i <= parts.len(),
            texts == string_views(parts@),
            s@ == join(texts.take(i as int), sep@),
        decreases parts.len() - i,
    {
        proof {
            assert(texts.take(i + 1).drop_last() =~= texts.take(i as int));
            assert(texts.take(i + 1).last() == parts@[i as int]@);
        }
        if i > 0 {
            s.append(sep);
        }
        s.append(parts[i].as_str());
        proof {
            if i == 0 {
                assert(s@ =~= parts@[0]@);
                assert(texts.take(1)[0] == parts@[0]@);
            }
        }
        i += 1;
    }
    assert(texts.take(i as int) =~= texts);
    s
}

/// One more than the place of the last dot in `v`; zero where it has none.
pub fn last_dot_of(v: &Vec<char>) -> (dot: usize)
    ensures
        dot == last_dot(v@) + 1,
        dot <= v.len(),
{
    let mut dot: usize = v.len();
    assert(v@.take(dot as int) =~= v@);
    while dot > 0 && v[dot - 1] != '.'
        invariant
            dot <= v.len(),
            last_dot(v@) == last_dot(v@.take(dot as int)),
        decreases dot,
    {
        assert(v@.take(dot as int).drop_last() =~= v@.take(dot - 1));
        dot -= 1;
    }
    if dot > 0 {
        assert(v@.take(dot as int).last() == '.');
    }
    dot
}

/// Whether `v` begins with the characters of `prefix`.
pub fn starts_with(v: &Vec<char>, prefix: &Vec<char>) -> (r: bool)
    ensures
        r == (prefix@.len() <= v@.len() && v@.take(prefix@.len() as int) == prefix@),
{
    if prefix.len() > v.len() {
        return false;
    }
    let mut i: usize = 0;
    while i < prefix.len()
        invariant
            i <= prefix.len() <= v.len(),
            forall|j: int| 0 <= j < i ==> v@[j] == prefix@[j],
        decreases prefix.len() - i,
    {
        if v[i] != prefix[i] {
            assert(v@.take(prefix@.len() as int)[i as int] != prefix@[i as int]);
            return false;
        }
        i += 1;
    }
    assert(v@.take(prefix@.len() as int) =~= prefix@);
    true
}

} // verus!
