use vstd::prelude::*;
use crate::errors::KakError;
use crate::text::{decimal, decimal_text, decimal_value, first_index, parse_decimal, split_once};

verus! {

/// A position in the document grid: a 0-based row and column.
#[derive(Clone, Copy, Debug, PartialEq, Eq, Structural, Ord)]
pub struct AnchorPosition {
    pub row: usize,
    pub col: usize,
}

impl AnchorPosition {
    /// Lexicographic order on (row, col).
    pub open spec fn lex_le(self, other: AnchorPosition) -> bool {
        self.row < other.row || (self.row == other.row && self.col <= other.col)
    }

    pub open spec fn lex_lt(self, other: AnchorPosition) -> bool {
        self.row < other.row || (self.row == other.row && self.col < other.col)
    }

    pub open spec fn lex_min(self, other: AnchorPosition) -> AnchorPosition {
        if self.lex_le(other) {
            self
        } else {
            other
        }
    }

    pub open spec fn lex_max(self, other: AnchorPosition) -> AnchorPosition {
        if self.lex_le(other) {
            other
        } else {
            self
        }
    }

    /// True when `self` comes at or before `other` in document order.
    pub fn at_or_before(&self, other: &AnchorPosition) -> (r: bool)
        ensures
            r == self.lex_le(*other),
    {
        self.row < other.row || (self.row == other.row && self.col <= other.col)
    }

    /// True when `self` comes strictly before `other` in document order.
    pub fn before(&self, other: &AnchorPosition) -> (r: bool)
        ensures
            r == self.lex_lt(*other),
    {
        self.row < other.row || (self.row == other.row && self.col < other.col)
    }

    fn min_pos(self, other: AnchorPosition) -> (r: AnchorPosition)
        ensures
            r == self.lex_min(other),
    {
        if self.at_or_before(&other) {
            self
        } else {
            other
        }
    }

    fn max_pos(self, other: AnchorPosition) -> (r: AnchorPosition)
        ensures
            r == self.lex_max(other),
    {
        if self.at_or_before(&other) {
            other
        } else {
            self
        }
    }
}

impl AnchorPosition {
    pub open spec fn order(self, other: AnchorPosition) -> core::cmp::Ordering {
        if self.lex_lt(other) {
            core::cmp::Ordering::Less
        } else if self == other {
            core::cmp::Ordering::Equal
        } else {
            core::cmp::Ordering::Greater
        }
    }
}

impl PartialOrd for AnchorPosition {
    fn partial_cmp(&self, other: &AnchorPosition) -> (r: Option<core::cmp::Ordering>) {
        if self.before(other) {
            Some(core::cmp::Ordering::Less)
        } else if self.row == other.row && self.col == other.col {
            Some(core::cmp::Ordering::Equal)
        } else {
            Some(core::cmp::Ordering::Greater)
        }
    }
}

impl vstd::std_specs::cmp::PartialOrdSpecImpl for AnchorPosition {
    open spec fn obeys_partial_cmp_spec() -> bool {
        true
    }

    open spec fn partial_cmp_spec(&self, other: &AnchorPosition) -> Option<core::cmp::Ordering> {
        Some(self.order(*other))
    }
}

/// The column one before `col`, stopping at zero.
pub open spec fn col_before(col: usize) -> usize {
    if col == 0 {
        0
    } else {
        (col - 1) as usize
    }
}

/// The column one after `col`, stopping at the largest column.
pub open spec fn col_after(col: usize) -> usize {
    if col == usize::MAX {
        usize::MAX
    } else {
        (col + 1) as usize
    }
}

/// The result of removing one range from another: nothing, one piece, or two.
#[derive(PartialEq, Eq, Debug)]
pub enum MaybeSplit<T> {
    Nothing,
    Just(T),
    JustTwo(T, T),
}

/// A range between two positions. Either field may hold the anchor or the
/// cursor, so `left` need not come before `right`.
#[derive(Clone, Copy, Debug, PartialEq, Eq, Structural, Ord)]
pub struct SelectionDesc {
    pub left: AnchorPosition,
    pub right: AnchorPosition,
}

impl SelectionDesc {
    /// `left` comes at or before `right`.
    pub open spec fn is_sorted(self) -> bool {
        self.left.lex_le(self.right)
    }

    /// The same range with its endpoints in document order.
    pub open spec fn sorted(self) -> SelectionDesc {
        SelectionDesc { left: self.left.lex_min(self.right), right: self.left.lex_max(self.right) }
    }

    pub open spec fn reversed(self) -> SelectionDesc {
        SelectionDesc { left: self.right, right: self.left }
    }

    /// The degenerate range that holds a single position.
    pub open spec fn point(p: AnchorPosition) -> SelectionDesc {
        SelectionDesc { left: p, right: p }
    }

    pub open spec fn spans(self, other: SelectionDesc) -> bool {
        let a = self.sorted();
        let b = other.sorted();
        a.left.lex_le(b.left) && b.right.lex_le(a.right)
    }

    pub open spec fn spans_position(self, p: AnchorPosition) -> bool {
        self.spans(SelectionDesc::point(p))
    }

    /// The two ranges share at least one position.
    pub open spec fn overlaps(self, other: SelectionDesc) -> bool {
        let a = self.sorted();
        let b = other.sorted();
        a.left.lex_max(b.left).lex_le(a.right.lex_min(b.right))
    }

    /// On one row, the earlier range ends in the column right before the later one starts.
    pub open spec fn adjacent(self, other: SelectionDesc) -> bool {
        let a = self.sorted();
        let b = other.sorted();
        (a.right.row == b.left.row && a.right.col + 1 == b.left.col) || (b.right.row == a.left.row
            && b.right.col + 1 == a.left.col)
    }

    /// The smallest sorted range that holds both ranges.
    pub open spec fn bounding(self, other: SelectionDesc) -> SelectionDesc {
        let a = self.sorted();
        let b = other.sorted();
        SelectionDesc { left: a.left.lex_min(b.left), right: a.right.lex_max(b.right) }
    }

    /// The positions common to both ranges, as a sorted range.
    pub open spec fn intersection(self, other: SelectionDesc) -> Option<SelectionDesc> {
        let a = self.sorted();
        let b = other.sorted();
        if self.overlaps(other) {
            Some(SelectionDesc { left: a.left.lex_max(b.left), right: a.right.lex_min(b.right) })
        } else {
            None
        }
    }

    /// The union of two ranges that overlap or touch on one row.
    pub open spec fn union_of(self, other: SelectionDesc) -> Option<SelectionDesc> {
        if self.overlaps(other) || self.adjacent(other) {
            Some(self.bounding(other))
        } else {
            None
        }
    }

    /// What remains of `self` once `other` is taken out, case by case.
    pub open spec fn difference(self, other: SelectionDesc) -> MaybeSplit<SelectionDesc> {
        let s = self.sorted();
        let b = other.sorted();
        let cut_left = SelectionDesc {
            left: s.left,
            right: AnchorPosition { row: b.left.row, col: col_before(b.left.col) },
        };
        let cut_right = SelectionDesc {
            left: AnchorPosition { row: b.right.row, col: col_after(b.right.col) },
            right: s.right,
        };
        if b.spans_position(s.left) && b.spans_position(s.right) {
            MaybeSplit::Nothing
        } else if !b.spans_position(s.left) && !b.spans_position(s.right) && s.spans(b) {
            MaybeSplit::JustTwo(cut_left, cut_right)
        } else if b.spans_position(s.left) {
            MaybeSplit::Just(cut_right)
        } else if b.spans_position(s.right) {
            MaybeSplit::Just(cut_left)
        } else {
            MaybeSplit::Just(s)
        }
    }

    /// Number of rows touched by the range.
    pub open spec fn rows(self) -> int {
        self.sorted().right.row - self.sorted().left.row + 1
    }

    /// The range with its endpoints in document order.
    pub fn sort(&self) -> (r: SelectionDesc)
        ensures
            r == self.sorted(),
            r.is_sorted(),
            r.sorted() == r,
    {
        if self.left.before(&self.right) {
            SelectionDesc { left: self.left, right: self.right }
        } else {
            SelectionDesc { left: self.right, right: self.left }
        }
    }

    /// The same range with its two fields swapped.
    pub fn rev(&self) -> (r: SelectionDesc)
        ensures
            r == self.reversed(),
    {
        SelectionDesc { left: self.right, right: self.left }
    }

    /// Gets the number of rows this selection spans.
    ///
    /// The newline at the end of a line does not count as an extra row.
    pub fn row_span(&self) -> (r: usize)
        requires
            self.rows() <= usize::MAX,
        ensures
            r == self.rows(),
            r >= 1,
    {
        let s = self.sort();
        s.right.row - s.left.row + 1
    }

    /// The degenerate range that holds a single position.
    pub fn from_position(p: &AnchorPosition) -> (r: SelectionDesc)
        ensures
            r == SelectionDesc::point(*p),
    {
        SelectionDesc { left: *p, right: *p }
    }

    /// Whether `other` lies within `self`, whichever way each is oriented.
    pub fn contains(&self, other: &SelectionDesc) -> (r: bool)
        ensures
            r == self.spans(*other),
    {
        let a = self.sort();
        let b = other.sort();
        a.left.at_or_before(&b.left) && b.right.at_or_before(&a.right)
    }

    /// Whether the position `p` lies within `self`.
    pub fn contains_position(&self, p: &AnchorPosition) -> (r: bool)
        ensures
            r == self.spans_position(*p),
    {
        self.contains(&SelectionDesc::from_position(p))
    }

    /// Gets the smallest selection that encompasses both selections.
    pub fn bounding_selection(&self, other: &SelectionDesc) -> (r: SelectionDesc)
        ensures
            r == self.bounding(*other),
            r.is_sorted(),
    {
        let a = self.sort();
        let b = other.sort();
        SelectionDesc { left: a.left.min_pos(b.left), right: a.right.max_pos(b.right) }
    }

    /// The two operands, sorted, earlier one first.
    fn ordered_pair(&self, other: &SelectionDesc) -> (r: (SelectionDesc, SelectionDesc))
        ensures
            (r.0 == self.sorted() && r.1 == other.sorted()) || (r.0 == other.sorted() && r.1
                == self.sorted()),
            r.0.left.lex_le(r.1.left),
    {
        let x = self.sort();
        let y = other.sort();
        if x.left.at_or_before(&y.left) {
            (x, y)
        } else {
            (y, x)
        }
    }

    /// The overlap of two selections, sorted, or `None` where they share no position.
    pub fn intersect(&self, other: &SelectionDesc) -> (r: Option<SelectionDesc>)
        ensures
            r == self.intersection(*other),
            r is Some <==> self.overlaps(*other),
    {
        let (a, b) = self.ordered_pair(other);
        let a_left_in_b = b.contains_position(&a.left);
        let a_right_in_b = b.contains_position(&a.right);
        let b_in_a = a.contains(&b);
        if !a_left_in_b && !a_right_in_b && !b_in_a {
            None
        } else if a_left_in_b && a_right_in_b {
            Some(a)
        } else if !a_left_in_b && !a_right_in_b {
            Some(b)
        } else if a_left_in_b {
            Some(SelectionDesc { left: a.left, right: b.right })
        } else {
            Some(SelectionDesc { left: b.left, right: a.right })
        }
    }

    /// The union of two selections that overlap, or that end and start in
    /// neighbouring columns of one row; `None` otherwise.
    pub fn partial_union(&self, other: &SelectionDesc) -> (r: Option<SelectionDesc>)
        ensures
            r == self.union_of(*other),
    {
        let (a, b) = self.ordered_pair(other);
        let a_left_in_b = b.contains_position(&a.left);
        let a_right_in_b = b.contains_position(&a.right);
        let b_in_a = a.contains(&b);
        if !a_left_in_b && !a_right_in_b && !b_in_a {
            if a.right.row == b.left.row && b.left.col > 0 && a.right.col == b.left.col - 1 {
                Some(SelectionDesc { left: a.left, right: b.right })
            } else {
                None
            }
        } else if a_left_in_b && a_right_in_b {
            Some(b)
        } else if !a_left_in_b && !a_right_in_b {
            Some(a)
        } else if a_left_in_b {
            Some(SelectionDesc { left: b.left, right: a.right })
        } else {
            Some(SelectionDesc { left: a.left, right: b.right })
        }
    }

    /// Removes `b` from `self`, leaving nothing, one piece or two.
    ///
    /// Columns next to the removed range are computed with saturating arithmetic.
    pub fn subtract(&self, b: &SelectionDesc) -> (r: MaybeSplit<SelectionDesc>)
        ensures
            r == self.difference(*b),
    {
        let s = self.sort();
        let sb = b.sort();
        let left_in = sb.contains_position(&s.left);
        let right_in = sb.contains_position(&s.right);
        let cut_left = SelectionDesc {
            left: s.left,
            right: AnchorPosition { row: sb.left.row, col: sb.left.col.saturating_sub(1) },
        };
        let cut_right = SelectionDesc {
            left: AnchorPosition { row: sb.right.row, col: sb.right.col.saturating_add(1) },
            right: s.right,
        };
        if left_in && right_in {
            MaybeSplit::Nothing
        } else if !left_in && !right_in && s.contains(&sb) {
            MaybeSplit::JustTwo(cut_left, cut_right)
        } else if left_in {
            MaybeSplit::Just(cut_right)
        } else if right_in {
            MaybeSplit::Just(cut_left)
        } else {
            MaybeSplit::Just(s)
        }
    }
}

/// A selection's text together with its range.
#[derive(Debug, PartialEq, Eq)]
pub struct SelectionWithDesc {
    pub content: String,
    pub desc: SelectionDesc,
}

impl SelectionWithDesc {
    /// A copy with the same text and range.
    pub fn duplicate(&self) -> (r: SelectionWithDesc)
        ensures
            r == *self,
    {
        SelectionWithDesc { content: self.content.clone(), desc: self.desc }
    }
}

/// A selection together with the selections found inside it.
#[derive(Debug, PartialEq, Eq)]
pub struct SelectionWithSubselections {
    pub selection: SelectionWithDesc,
    pub subselections: Vec<SelectionWithDesc>,
}

impl SelectionDesc {
    /// Document order on selections: by `left`, then by `right`.
    pub open spec fn desc_le(self, other: SelectionDesc) -> bool {
        self.left.lex_lt(other.left) || (self.left == other.left && self.right.lex_le(other.right))
    }

    pub fn at_or_before(&self, other: &SelectionDesc) -> (r: bool)
        ensures
            r == self.desc_le(*other),
    {
        self.left.before(&other.left) || (self.left.row == other.left.row && self.left.col
            == other.left.col && self.right.at_or_before(&other.right))
    }

    pub open spec fn desc_order(self, other: SelectionDesc) -> core::cmp::Ordering {
        if self == other {
            core::cmp::Ordering::Equal
        } else if self.desc_le(other) {
            core::cmp::Ordering::Less
        } else {
            core::cmp::Ordering::Greater
        }
    }
}

impl PartialOrd for SelectionDesc {
    fn partial_cmp(&self, other: &SelectionDesc) -> (r: Option<core::cmp::Ordering>) {
        if self.left.row == other.left.row && self.left.col == other.left.col && self.right.row
            == other.right.row && self.right.col == other.right.col {
            Some(core::cmp::Ordering::Equal)
        } else if self.at_or_before(other) {
            Some(core::cmp::Ordering::Less)
        } else {
            Some(core::cmp::Ordering::Greater)
        }
    }
}

impl vstd::std_specs::cmp::PartialOrdSpecImpl for SelectionDesc {
    open spec fn obeys_partial_cmp_spec() -> bool {
        true
    }

    open spec fn partial_cmp_spec(&self, other: &SelectionDesc) -> Option<core::cmp::Ordering> {
        Some(self.desc_order(*other))
    }
}

/// The position written `row.col`, split at the first `.`.
pub open spec fn position_value(s: Seq<char>) -> Option<AnchorPosition> {
    let i = first_index(s, '.');
    if i < 0 {
        None
    } else {
        match (decimal_value(s.subrange(0, i)), decimal_value(s.subrange(i + 1, s.len() as int))) {
            (Some(row), Some(col)) => Some(AnchorPosition { row, col }),
            _ => None,
        }
    }
}

/// The selection written `row.col,row.col`, split at the first `,`.
pub open spec fn desc_value(s: Seq<char>) -> Option<SelectionDesc> {
    let i = first_index(s, ',');
    if i < 0 {
        None
    } else {
        match (position_value(s.subrange(0, i)), position_value(s.subrange(i + 1, s.len() as int))) {
            (Some(left), Some(right)) => Some(SelectionDesc { left, right }),
            _ => None,
        }
    }
}

pub open spec fn position_text(p: AnchorPosition) -> Seq<char> {
    decimal_text(p.row as nat) + seq!['.'] + decimal_text(p.col as nat)
}

pub open spec fn desc_text(d: SelectionDesc) -> Seq<char> {
    position_text(d.left) + seq![','] + position_text(d.right)
}

impl AnchorPosition {
    /// Parses `row.col`.
    pub fn from_str(s: &str) -> (r: Result<AnchorPosition, KakError>)
        ensures
            match r {
                Ok(p) => position_value(s@) == Some(p),
                Err(e) => position_value(s@) is None && e is Parse,
            },
    {
        match split_once(s, '.') {
            None => {
                let mut msg = String::from_str("Could not parse as position: ");
                msg.append(s);
                Err(KakError::Parse(msg))
            },
            Some((row_text, col_text)) => {
                match (parse_decimal(row_text), parse_decimal(col_text)) {
                    (Some(row), Some(col)) => Ok(AnchorPosition { row, col }),
                    _ => {
                        let mut msg = String::from_str("Could not parse as integer: ");
                        msg.append(s);
                        Err(KakError::Parse(msg))
                    },
                }
            },
        }
    }

    /// Writes the position as `row.col`.
    pub fn to_string(&self) -> (r: String)
        ensures
            r@ == position_text(*self),
    {
        let mut out = decimal(self.row);
        out.append(".");
        let col = decimal(self.col);
        out.append(col.as_str());
        proof {
            reveal_strlit(".");
        }
        out
    }
}

impl SelectionDesc {
    /// Parses `row.col,row.col`.
    pub fn from_str(s: &str) -> (r: Result<SelectionDesc, KakError>)
        ensures
            match r {
                Ok(d) => desc_value(s@) == Some(d),
                Err(e) => desc_value(s@) is None && e is Parse,
            },
    {
        match split_once(s, ',') {
            None => {
                let mut msg = String::from_str("Could not parse as position: ");
                msg.append(s);
                Err(KakError::Parse(msg))
            },
            Some((left_text, right_text)) => {
                let left = AnchorPosition::from_str(left_text)?;
                let right = AnchorPosition::from_str(right_text)?;
                Ok(SelectionDesc { left, right })
            },
        }
    }

    /// Writes the selection as `row.col,row.col`, the form the editor reads.
    pub fn to_string(&self) -> (r: String)
        ensures
            r@ == desc_text(*self),
    {
        let mut out = self.left.to_string();
        out.append(",");
        let right = self.right.to_string();
        out.append(right.as_str());
        proof {
            reveal_strlit(",");
        }
        out
    }
}

/// Sorting is idempotent, puts `left` at or before `right`, and does not depend
/// on which field held the anchor.
pub proof fn lemma_sort_normalizes(x: SelectionDesc)
    ensures
        x.sorted().sorted() == x.sorted(),
        x.sorted().left.lex_le(x.sorted().right),
        x.sorted() == x.reversed().sorted(),
{
}

/// Every selection contains itself.
pub proof fn lemma_contains_reflexive(x: SelectionDesc)
    ensures
        x.spans(x),
{
}

/// Between two sorted selections, containment both ways holds exactly when
/// they are equal.
pub proof fn lemma_contains_antisymmetric(a: SelectionDesc, b: SelectionDesc)
    requires
        a.is_sorted(),
        b.is_sorted(),
    ensures
        (a.spans(b) && b.spans(a)) <==> a == b,
{
}

/// Whatever `subtract` leaves, the bounding selection of the pieces together
/// with the removed range contains the range it was taken from.
pub proof fn lemma_subtract_covers(s: SelectionDesc, o: SelectionDesc)
    ensures
        match s.difference(o) {
            MaybeSplit::Nothing => o.spans(s),
            MaybeSplit::Just(p) => p.bounding(o).spans(s),
            MaybeSplit::JustTwo(p, q) => p.bounding(q).bounding(o).spans(s),
        },
{
}

/// Intersecting a selection with itself gives the sorted selection.
pub proof fn lemma_intersect_self(a: SelectionDesc)
    ensures
        a.intersection(a) == Some(a.sorted()),
{
}

} // verus!
