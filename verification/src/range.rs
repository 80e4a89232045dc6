//! Selection sets such as `1-3,7,9-5`: a list of segments, each a single
//! position or two bounds joined by a dash, read once and consumed position by
//! position.

use vstd::prelude::*;
use crate::number::{
    decimal, is_digit, lemma_decimal_digits, lemma_decimal_round_trip, number_error_text, number_of,
    parse_number, NumberError,
};
use crate::text::{
    chars_of, is_space, lemma_split_close, lemma_split_extend, lemma_split_plain, lemma_trim_tight,
    split, split_chars, trim, trim_chars, views,
};

verus! {

/// Why a text is not a selection set.
#[derive(Clone, Copy, Debug, PartialEq, Eq, Structural)]
pub enum RangeError {
    /// A segment without a dash is empty.
    EmptyPart,
    /// A segment with one dash lacks a bound.
    IncompletePart,
    /// A segment holds two or more dashes.
    TooManyDashes,
    /// A bound is not a position.
    InvalidNumber(NumberError),
}

/// One segment of a selection set, by its bounds as written.
///
/// With `lower <= upper` it counts up from `lower` to `upper`, both included.
/// With `lower > upper` it counts down from `lower` and stops before `upper`.
#[derive(Clone, Copy, Debug, PartialEq, Eq, Structural)]
pub struct Segment {
    pub lower: usize,
    pub upper: usize,
}

/// A selection set: segments in the order in which they were written.
#[derive(Debug)]
pub struct FlexibleRange {
    pub ranges: Vec<Segment>,
}

/// The positions of one segment, in the order in which they are yielded.
pub open spec fn positions(seg: Segment) -> Seq<usize> {
    if seg.lower > seg.upper {
        Seq::new((seg.lower - seg.upper) as nat, |i: int| (seg.lower - i) as usize)
    } else {
        Seq::new((seg.upper - seg.lower + 1) as nat, |i: int| (seg.lower + i) as usize)
    }
}

/// The positions of a list of segments: those of the first, then those of
/// the second, and so on.
pub open spec fn all_positions(segs: Seq<Segment>) -> Seq<usize>
    decreases segs.len(),
{
    if segs.len() == 0 {
        Seq::<usize>::empty()
    } else {
        positions(segs.first()) + all_positions(segs.drop_first())
    }
}

/// The segment that a trimmed piece between commas denotes.
pub open spec fn segment_of(part: Seq<char>) -> Result<Segment, RangeError> {
    let bounds = split(part, '-');
    if bounds.len() == 1 {
        let text = trim(bounds[0]);
        if text.len() == 0 {
            Err(RangeError::EmptyPart)
        } else {
            match number_of(text) {
                Ok(n) => Ok(Segment { lower: n, upper: n }),
                Err(e) => Err(RangeError::InvalidNumber(e)),
            }
        }
    } else if bounds.len() == 2 {
        let lower = trim(bounds[0]);
        let upper = trim(bounds[1]);
        if lower.len() == 0 || upper.len() == 0 {
            Err(RangeError::IncompletePart)
        } else {
            match number_of(lower) {
                Err(e) => Err(RangeError::InvalidNumber(e)),
                Ok(l) => match number_of(upper) {
                    Err(e) => Err(RangeError::InvalidNumber(e)),
                    Ok(u) => Ok(Segment { lower: l, upper: u }),
                },
            }
        }
    } else {
        Err(RangeError::TooManyDashes)
    }
}

/// The segments that the pieces between commas denote, or the error of the
/// first piece that denotes none.
pub open spec fn segments_of(parts: Seq<Seq<char>>) -> Result<Seq<Segment>, RangeError>
    decreases parts.len(),
{
    if parts.len() == 0 {
        Ok(Seq::<Segment>::empty())
    } else {
        match segments_of(parts.drop_last()) {
            Err(e) => Err(e),
            Ok(segs) => match segment_of(trim(parts.last())) {
                Err(e) => Err(e),
                Ok(seg) => Ok(segs.push(seg)),
            },
        }
    }
}

/// The selection set that `text` denotes.
pub open spec fn range_of(text: Seq<char>) -> Result<Seq<Segment>, RangeError> {
    segments_of(split(text, ','))
}

/// What a user is told about a text that is no selection set.
pub open spec fn range_error_text(e: RangeError) -> Seq<char> {
    match e {
        RangeError::EmptyPart => "empty part in range"@,
        RangeError::IncompletePart => "incomplete part in range"@,
        RangeError::TooManyDashes => "too many dashes in range"@,
        RangeError::InvalidNumber(n) => number_error_text(n),
    }
}

/// The error of the first bad piece is the error of the whole list.
pub proof fn lemma_segments_error_stays(parts: Seq<Seq<char>>, k: int)
    requires
        0 <= k <= parts.len(),
        segments_of(parts.take(k)) is Err,
    ensures
        segments_of(parts) == segments_of(parts.take(k)),
    decreases parts.len() - k,
{
    if k == parts.len() {
        assert(parts.take(k) =~= parts);
    } else {
        assert(parts.take(k + 1).drop_last() =~= parts.take(k));
        lemma_segments_error_stays(parts, k + 1);
    }
}

/// A segment always holds at least one position, and its first position is
/// its lower bound as written.
pub proof fn lemma_positions_first(seg: Segment)
    ensures
        positions(seg).len() >= 1,
        positions(seg)[0] == seg.lower,
{
}

/// The decimal form of a position holds no comma, no dash and no blank.
pub proof fn lemma_decimal_plain(n: nat)
    ensures
        !decimal(n).contains(','),
        !decimal(n).contains('-'),
        trim(decimal(n)) == decimal(n),
        decimal(n).len() >= 1,
{
    lemma_decimal_digits(n);
    let s = decimal(n);
    assert forall|i: int| 0 <= i < s.len() implies s[i] != ',' && s[i] != '-' && !is_space(
        #[trigger] s[i],
    ) by {
        assert(is_digit(s[i]));
    }
    lemma_trim_tight(s);
}

/// Two positions in decimal form around a dash denote the one segment with
/// these bounds. Where the first is not above the second, the segment counts
/// up from the first to the second, both included; otherwise it counts down
/// from the first and stops just before the second, one position short of the
/// other direction.
pub proof fn lemma_bounds_round_trip(a: usize, b: usize)
    ensures
        range_of(decimal(a as nat) + seq!['-'] + decimal(b as nat)) == Ok::<
            Seq<Segment>,
            RangeError,
        >(seq![Segment { lower: a, upper: b }]),
        a <= b ==> all_positions(seq![Segment { lower: a, upper: b }]) == Seq::new(
            (b - a + 1) as nat,
            |i: int| (a + i) as usize,
        ),
        a > b ==> all_positions(seq![Segment { lower: a, upper: b }]) == Seq::new(
            (a - b) as nat,
            |i: int| (a - i) as usize,
        ),
{
    let da = decimal(a as nat);
    let db = decimal(b as nat);
    let seg = Segment { lower: a, upper: b };
    let text = da + seq!['-'] + db;
    lemma_decimal_plain(a as nat);
    lemma_decimal_plain(b as nat);
    lemma_decimal_digits(a as nat);
    lemma_decimal_digits(b as nat);
    lemma_decimal_round_trip(a as nat);
    lemma_decimal_round_trip(b as nat);
    // the text is one piece between commas, and trimming leaves it alone
    assert forall|i: int| 0 <= i < text.len() implies text[i] != ',' by {
        if i < da.len() {
            assert(is_digit(da[i]));
        } else if i > da.len() {
            assert(text[i] == db[i - da.len() - 1]);
            assert(is_digit(db[i - da.len() - 1]));
        }
    }
    assert(!text.contains(','));
    lemma_split_plain(text, ',');
    assert(is_digit(da[0]) && text.first() == da[0]);
    assert(is_digit(db.last()) && text.last() == db.last());
    lemma_trim_tight(text);
    // the two bounds are its pieces around the dash
    lemma_split_plain(da, '-');
    lemma_split_close(da, '-');
    assert(da.push('-') =~= da + seq!['-']);
    lemma_split_extend(da + seq!['-'], db, '-');
    let pieces = split(text, '-');
    assert(pieces =~= seq![da, db]) by {
        assert(Seq::<char>::empty() + db =~= db);
    }
    assert(segment_of(text) == Ok::<Segment, RangeError>(seg));
    // one piece, one segment
    let parts = seq![text];
    assert(parts.drop_last() =~= Seq::<Seq<char>>::empty());
    assert(segments_of(parts.drop_last()) == Ok::<Seq<Segment>, RangeError>(
        Seq::<Segment>::empty(),
    ));
    assert(Seq::<Segment>::empty().push(seg) =~= seq![seg]);
    // its positions
    assert(seq![seg].drop_first() =~= Seq::<Segment>::empty());
    assert(all_positions(Seq::<Segment>::empty()) =~= Seq::<usize>::empty());
    assert(seq![seg].first() == seg);
    assert(all_positions(seq![seg]) =~= positions(seg));
}

/// A position in decimal form alone denotes the set of that one position.
pub proof fn lemma_single_round_trip(a: usize)
    ensures
        range_of(decimal(a as nat)) == Ok::<Seq<Segment>, RangeError>(
            seq![Segment { lower: a, upper: a }],
        ),
        all_positions(seq![Segment { lower: a, upper: a }]) == seq![a],
{
    let da = decimal(a as nat);
    let seg = Segment { lower: a, upper: a };
    lemma_decimal_plain(a as nat);
    lemma_decimal_round_trip(a as nat);
    lemma_split_plain(da, ',');
    lemma_split_plain(da, '-');
    assert(segment_of(da) == Ok::<Segment, RangeError>(seg));
    let parts = seq![da];
    assert(parts.drop_last() =~= Seq::<Seq<char>>::empty());
    assert(segments_of(parts.drop_last()) == Ok::<Seq<Segment>, RangeError>(
        Seq::<Segment>::empty(),
    ));
    assert(Seq::<Segment>::empty().push(seg) =~= seq![seg]);
    assert(seq![seg].drop_first() =~= Seq::<Segment>::empty());
    assert(all_positions(Seq::<Segment>::empty()) =~= Seq::<usize>::empty());
    assert(seq![seg].first() == seg);
    assert(all_positions(seq![seg]) =~= positions(seg));
    assert(positions(seg) =~= seq![a]);
}

impl View for FlexibleRange {
    type V = Seq<usize>;

    /// The positions still to be yielded, in order.
    open spec fn view(&self) -> Seq<usize> {
        all_positions(self.ranges@)
    }
}

impl RangeError {
    /// What a user is told about this error.
    pub fn message(&self) -> (s: String)
        ensures
            s@ == range_error_text(*self),
    {
        match self {
            RangeError::EmptyPart => "empty part in range".to_owned(),
            RangeError::IncompletePart => "incomplete part in range".to_owned(),
            RangeError::TooManyDashes => "too many dashes in range".to_owned(),
            RangeError::InvalidNumber(n) => n.message(),
        }
    }
}

/// Reads one segment from a trimmed piece.
pub fn parse_segment(part: &Vec<char>) -> (r: Result<Segment, RangeError>)
    ensures
        r == segment_of(part@),
{
    let bounds = split_chars(part, '-');
    assert(views(bounds@).len() == bounds.len());
    if bounds.len() == 1 {
        let text = trim_chars(&bounds[0]);
        assert(views(bounds@)[0] == bounds@[0]@);
        if text.len() == 0 {
            return Err(RangeError::EmptyPart);
        }
        match parse_number(&text) {
            Ok(n) => Ok(Segment { lower: n, upper: n }),
            Err(e) => Err(RangeError::InvalidNumber(e)),
        }
    } else if bounds.len() == 2 {
        let lower = trim_chars(&bounds[0]);
        let upper = trim_chars(&bounds[1]);
        assert(views(bounds@)[0] == bounds@[0]@);
        assert(views(bounds@)[1] == bounds@[1]@);
        if lower.len() == 0 || upper.len() == 0 {
            return Err(RangeError::IncompletePart);
        }
        let l = match parse_number(&lower) {
            Ok(l) => l,
            Err(e) => {
                return Err(RangeError::InvalidNumber(e));
            },
        };
        match parse_number(&upper) {
            Ok(u) => Ok(Segment { lower: l, upper: u }),
            Err(e) => Err(RangeError::InvalidNumber(e)),
        }
    } else {
        Err(RangeError::TooManyDashes)
    }
}

impl FlexibleRange {
    /// Reads a selection set: segments separated by commas, blanks around a
    /// segment or a bound ignored.
    pub fn parse(string: &str) -> (r: Result<FlexibleRange, RangeError>)
        ensures
            match r {
                Ok(range) => range_of(string@) == Ok::<Seq<Segment>, RangeError>(range.ranges@),
                Err(e) => range_of(string@) == Err::<Seq<Segment>, RangeError>(e),
            },
    {
        let chars = chars_of(string);
        let parts = split_chars(&chars, ',');
        let mut ranges: Vec<Segment> = Vec::new();
        let mut i: usize = 0;
        assert(views(parts@).take(0) =~= Seq::<Seq<char>>::empty());
        while i < parts.len()
            invariant
                i <= parts.len(),
                views(parts@) == split(string@, ','),
                segments_of(views(parts@).take(i as int)) == Ok::<Seq<Segment>, RangeError>(
                    ranges@,
                ),
            decreases parts.len() - i,
        {
            let part = trim_chars(&parts[i]);
            proof {
                assert(views(parts@).take(i + 1).drop_last() =~= views(parts@).take(i as int));
                assert(views(parts@).take(i + 1).last() == parts@[i as int]@);
            }
            match parse_segment(&part) {
                Ok(seg) => {
                    ranges.push(seg);
                },
                Err(e) => {
                    proof {
                        lemma_segments_error_stays(views(parts@), i + 1);
                    }
                    return Err(e);
                },
            }
            i += 1;
        }
        assert(views(parts@).take(i as int) =~= views(parts@));
        Ok(FlexibleRange { ranges })
    }

    /// Yields the next position and removes it from the set; `None` once
    /// every segment is used up.
    pub fn next(&mut self) -> (r: Option<usize>)
        ensures
            old(self)@.len() == 0 ==> r is None && final(self)@ == old(self)@,
            old(self)@.len() > 0 ==> r == Some(old(self)@[0]) && final(self)@ == old(
                self,
            )@.drop_first(),
    {
        if self.ranges.len() == 0 {
            return None;
        }
        let seg = self.ranges[0];
        let ghost rest = self.ranges@.drop_first();
        proof {
            lemma_positions_first(seg);
        }
        if seg.lower == seg.upper || (seg.lower > seg.upper && seg.lower - 1 == seg.upper) {
            self.ranges.remove(0);
            assert(self.ranges@ =~= rest);
            assert(positions(seg) =~= seq![seg.lower]);
            assert((positions(seg) + all_positions(rest)).drop_first() =~= all_positions(rest));
        } else {
            let shorter = if seg.lower > seg.upper {
                Segment { lower: seg.lower - 1, upper: seg.upper }
            } else {
                Segment { lower: seg.lower + 1, upper: seg.upper }
            };
            self.ranges.set(0, shorter);
            assert(self.ranges@.drop_first() =~= rest);
            assert(positions(shorter) =~= positions(seg).drop_first());
            assert((positions(seg) + all_positions(rest)).drop_first() =~= positions(
                seg,
            ).drop_first() + all_positions(rest));
        }
        Some(seg.lower)
    }

}

impl Clone for FlexibleRange {
    fn clone(&self) -> (r: FlexibleRange)
        ensures
            r.ranges@ == self.ranges@,
    {
        let mut ranges: Vec<Segment> = Vec::new();
        let mut i: usize = 0;
        while i < self.ranges.len()
            invariant
                i <= self.ranges.len(),
                ranges@ == self.ranges@.take(i as int),
            decreases self.ranges.len() - i,
        {
            ranges.push(self.ranges[i]);
            i += 1;
        }
        assert(self.ranges@.take(i as int) =~= self.ranges@);
        FlexibleRange { ranges }
    }
}

} // verus!
