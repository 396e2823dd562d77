//! CSS grid: auto-flow, grid lines and placements, named template areas,
//! and the occupancy test of auto-placement.

use vstd::prelude::*;
use crate::strings::{chars_of, trim_chars, trim, split_ws, words, is_ws, ascii_lower, ascii_lower_seq,
    lower_chars, chars_are, seq_eq};
use crate::layout::table::grid_taken;

verus! {

/// Grid auto-flow direction: row or column order, optionally filling holes densely
#[derive(Debug, Clone, Copy, PartialEq, Eq, Structural)]
pub enum GridAutoFlow {
    Row,
    Column,
    RowDense,
    ColumnDense,
}

impl Default for GridAutoFlow {
    fn default() -> (r: Self)
        ensures
            r == GridAutoFlow::Row,
    {
        GridAutoFlow::Row
    }
}

impl GridAutoFlow {
    /// Check if flow is in row direction
    pub fn is_row(&self) -> (r: bool)
        ensures
            r == (*self is Row || *self is RowDense),
    {
        match self {
            GridAutoFlow::Row | GridAutoFlow::RowDense => true,
            _ => false,
        }
    }

    /// Check if flow is dense (backfill empty cells)
    pub fn is_dense(&self) -> (r: bool)
        ensures
            r == (*self is RowDense || *self is ColumnDense),
    {
        match self {
            GridAutoFlow::RowDense | GridAutoFlow::ColumnDense => true,
            _ => false,
        }
    }
}

/// Grid line definition (start or end)
#[derive(Debug, Clone, PartialEq, Eq, Default)]
pub struct GridLine {
    /// Line number (1-indexed, 0 = auto)
    pub line_number: i32,
    /// Named grid area (for grid-area property)
    pub area_name: Option<String>,
    /// Span count (for span N syntax)
    pub span: Option<i32>,
}

impl GridLine {
    /// Create an automatic grid line
    pub fn auto() -> (r: Self)
        ensures
            r.line_number == 0,
            r.area_name is None,
            r.span is None,
    {
        GridLine { line_number: 0, area_name: None, span: None }
    }

    /// Create a grid line with specific number
    pub fn numbered(n: i32) -> (r: Self)
        ensures
            r.line_number == n,
            r.area_name is None,
            r.span is None,
    {
        GridLine { line_number: n, area_name: None, span: None }
    }

    /// Create a spanning grid line
    pub fn span(n: i32) -> (r: Self)
        ensures
            r.line_number == 0,
            r.area_name is None,
            r.span == Some(n),
    {
        GridLine { line_number: 0, area_name: None, span: Some(n) }
    }

    /// Check if this is auto
    pub fn is_auto(&self) -> (r: bool)
        ensures
            r == (self.line_number == 0 && self.area_name is None && self.span is None),
    {
        self.line_number == 0 && self.area_name.is_none() && self.span.is_none()
    }
}

/// A grid line as plain values: line number, area name and span.
pub open spec fn line_view(g: GridLine) -> (i32, Option<Seq<char>>, Option<i32>) {
    (g.line_number, match g.area_name { Some(n) => Some(n@), None => None }, g.span)
}

/// The plain view of the automatic grid line.
pub open spec fn auto_line() -> (i32, Option<Seq<char>>, Option<i32>) {
    (0, None, None)
}

/// Grid item placement
#[derive(Debug, Clone, PartialEq, Eq, Default)]
pub struct GridPlacement {
    /// Column start line
    pub column_start: GridLine,
    /// Column end line
    pub column_end: GridLine,
    /// Row start line
    pub row_start: GridLine,
    /// Row end line
    pub row_end: GridLine,
}

/// The number of tracks between two lines: a span on either line, else the
/// distance of two positive line numbers (at least 1), else 1.
pub open spec fn track_span(start: GridLine, end: GridLine) -> i32 {
    if start.span is Some {
        start.span.unwrap()
    } else if end.span is Some {
        end.span.unwrap()
    } else if start.line_number > 0 && end.line_number > 0 {
        if end.line_number - start.line_number > 1 { (end.line_number - start.line_number) as i32 } else { 1 }
    } else {
        1
    }
}

fn line_span(start: &GridLine, end: &GridLine) -> (r: i32)
    ensures
        r == track_span(*start, *end),
{
    if let Some(s) = start.span {
        s
    } else if let Some(s) = end.span {
        s
    } else if start.line_number > 0 && end.line_number > 0 {
        let d = end.line_number - start.line_number;
        if d > 1 { d } else { 1 }
    } else {
        1
    }
}

impl GridPlacement {
    /// Create a placement for a named grid area
    pub fn from_area_name(name: &str) -> (r: Self)
        ensures
            r.column_start.line_number == 0,
            r.column_start.area_name matches Some(n) && n@ == name@,
            r.column_start.span is None,
            r.column_end.is_auto_spec(),
            r.row_start.is_auto_spec(),
            r.row_end.is_auto_spec(),
    {
        GridPlacement {
            column_start: GridLine { line_number: 0, area_name: Some(String::from_str(name)), span: None },
            column_end: GridLine::auto(),
            row_start: GridLine::auto(),
            row_end: GridLine::auto(),
        }
    }

    /// Check if this placement is fully automatic
    pub fn is_auto(&self) -> (r: bool)
        ensures
            r == (self.column_start.is_auto_spec() && self.column_end.is_auto_spec()
                && self.row_start.is_auto_spec() && self.row_end.is_auto_spec()),
    {
        self.column_start.is_auto() && self.column_end.is_auto() && self.row_start.is_auto() && self.row_end.is_auto()
    }

    /// Get the column span (number of tracks)
    pub fn column_span(&self) -> (r: i32)
        ensures
            r == track_span(self.column_start, self.column_end),
    {
        line_span(&self.column_start, &self.column_end)
    }

    /// Get the row span (number of tracks)
    pub fn row_span(&self) -> (r: i32)
        ensures
            r == track_span(self.row_start, self.row_end),
    {
        line_span(&self.row_start, &self.row_end)
    }
}

impl GridLine {
    /// The line is automatic.
    pub open spec fn is_auto_spec(&self) -> bool {
        self.line_number == 0 && self.area_name is None && self.span is None
    }
}

/// The rows of a `grid-template-areas` value: quotes and line breaks end
/// rows; each row is its white-space separated names; empty rows are left out.
pub open spec fn area_rows(s: Seq<char>) -> Seq<Seq<Seq<char>>>
    decreases s.len(),
{
    if s.len() == 0 {
        Seq::empty()
    } else {
        let k = row_len(s);
        let w = words(s.take(k as int));
        let rest = if k < s.len() { area_rows(s.skip(k + 1int)) } else { Seq::empty() };
        if w.len() == 0 { rest } else { seq![w] + rest }
    }
}

/// The characters before the first quote or line break.
pub open spec fn row_len(s: Seq<char>) -> nat
    decreases s.len(),
{
    if s.len() == 0 || s[0] == '"' || s[0] == '\n' { 0 } else { 1 + row_len(s.drop_first()) }
}

proof fn lemma_row_len(s: Seq<char>)
    ensures
        row_len(s) <= s.len(),
        forall|i: int| 0 <= i < row_len(s) ==> s[i] != '"' && s[i] != '\n',
        row_len(s) < s.len() ==> s[row_len(s) as int] == '"' || s[row_len(s) as int] == '\n',
    decreases s.len(),
{
    if s.len() > 0 && s[0] != '"' && s[0] != '\n' {
        lemma_row_len(s.drop_first());
        assert forall|i: int| 0 <= i < row_len(s) implies s[i] != '"' && s[i] != '\n' by {
            if i > 0 {
                assert(s[i] == s.drop_first()[i - 1]);
            }
        }
    }
}

/// An area's bounds: first row, first column, one past its last row, one
/// past its last column.
pub type AreaBounds = (usize, usize, usize, usize);

/// The cells of the rows in reading order: row, column, name.
pub open spec fn cells(rows: Seq<Seq<Seq<char>>>) -> Seq<(int, int, Seq<char>)>
    decreases rows.len(),
{
    if rows.len() == 0 {
        Seq::empty()
    } else {
        let r = rows.len() - 1;
        cells(rows.drop_last()) + Seq::new(rows.last().len(), |c: int| (r, c, rows.last()[c]))
    }
}

/// The bounds of the area `name` over a run of cells: where it first
/// occurs, and one past the largest row and column where it occurs. The
/// name `.` marks an empty cell.
pub open spec fn area_over(cs: Seq<(int, int, Seq<char>)>, name: Seq<char>) -> Option<(int, int, int, int)>
    decreases cs.len(),
{
    if cs.len() == 0 {
        None
    } else {
        let prev = area_over(cs.drop_last(), name);
        let (r, c, n) = cs.last();
        if n == name && n != "."@ {
            match prev {
                None => Some((r, c, r + 1, c + 1)),
                Some((a, b, e, f)) => Some((a, b, if e > r + 1 { e } else { r + 1 }, if f > c + 1 { f } else { c + 1 })),
            }
        } else {
            prev
        }
    }
}

/// The first entry under `name`.
pub open spec fn lookup_area(es: Seq<(String, AreaBounds)>, name: Seq<char>) -> Option<(int, int, int, int)>
    decreases es.len(),
{
    if es.len() == 0 {
        None
    } else if es[0].0@ == name {
        let b = es[0].1;
        Some((b.0 as int, b.1 as int, b.2 as int, b.3 as int))
    } else {
        lookup_area(es.drop_first(), name)
    }
}

/// Grid template areas definition
#[derive(Debug, Clone, PartialEq, Default)]
pub struct GridTemplateAreas {
    /// Named areas as rows of names (e.g., `[[header, header], [sidebar, main]]`)
    pub rows: Vec<Vec<String>>,
    /// Each area name with its bounds: row start, column start, row end,
    /// column end
    pub named_areas: Vec<(String, AreaBounds)>,
}

/// The rows as plain values.
pub open spec fn rows_view(rows: Seq<Vec<String>>) -> Seq<Seq<Seq<char>>> {
    Seq::new(rows.len(), |i: int| Seq::new(rows[i]@.len(), |j: int| rows[i]@[j]@))
}

proof fn lemma_lookup_push(es: Seq<(String, AreaBounds)>, e: (String, AreaBounds), name: Seq<char>)
    ensures
        lookup_area(es.push(e), name) == (if lookup_area(es, name) is Some { lookup_area(es, name) }
            else if e.0@ == name { Some((e.1.0 as int, e.1.1 as int, e.1.2 as int, e.1.3 as int)) } else { None }),
    decreases es.len(),
{
    if es.len() > 0 {
        assert(es.push(e).drop_first() =~= es.drop_first().push(e));
        assert(es.push(e)[0] == es[0]);
        lemma_lookup_push(es.drop_first(), e, name);
    } else {
        assert(es.push(e).drop_first() =~= Seq::<(String, AreaBounds)>::empty());
        assert(es.push(e)[0] == e);
        reveal_with_fuel(lookup_area, 2);
    }
}

proof fn lemma_lookup_at(es: Seq<(String, AreaBounds)>, i: int)
    requires
        0 <= i < es.len(),
        forall|j: int| 0 <= j < i ==> es[j].0@ != es[i].0@,
    ensures
        lookup_area(es, es[i].0@) == Some((es[i].1.0 as int, es[i].1.1 as int, es[i].1.2 as int, es[i].1.3 as int)),
    decreases i,
{
    if i > 0 {
        lemma_lookup_at(es.drop_first(), i - 1);
    }
}

proof fn lemma_lookup_update(es: Seq<(String, AreaBounds)>, i: int, b: AreaBounds, name: Seq<char>)
    requires
        0 <= i < es.len(),
        forall|j: int| 0 <= j < i ==> es[j].0@ != es[i].0@,
    ensures
        lookup_area(es.update(i, (es[i].0, b)), name) == (if name == es[i].0@ {
            Some((b.0 as int, b.1 as int, b.2 as int, b.3 as int)) } else { lookup_area(es, name) }),
    decreases i,
{
    let es2 = es.update(i, (es[i].0, b));
    if i > 0 {
        assert(es2.drop_first() =~= es.drop_first().update(i - 1, (es[i].0, b)));
        assert(es2[0] == es[0]);
        assert(es.drop_first()[i - 1] == es[i]);
        assert forall|j: int| 0 <= j < i - 1 implies (#[trigger] es.drop_first()[j]).0@ != es.drop_first()[i - 1].0@ by {
            assert(es.drop_first()[j] == es[j + 1]);
        }
        lemma_lookup_update(es.drop_first(), i - 1, b, name);
    } else {
        assert(es2.drop_first() =~= es.drop_first());
    }
}

impl GridTemplateAreas {
    /// Create from CSS grid-template-areas value: each quoted string (or
    /// line) is a row of white-space separated names.
    pub fn parse(value: &str) -> (r: Self)
        ensures
            rows_view(r.rows@) == area_rows(value@),
            forall|name: Seq<char>| #[trigger] lookup_area(r.named_areas@, name) == area_over(cells(area_rows(value@)), name),
    {
        let s = chars_of(value);
        let mut rows: Vec<Vec<String>> = Vec::new();
        let mut i: usize = 0;
        assert(s@.skip(0) =~= s@);
        while i < s.len()
            invariant
                s@ == value@,
                i <= s@.len(),
                rows_view(rows@) + area_rows(s@.skip(i as int)) == area_rows(s@),
            decreases s@.len() - i,
        {
            let ghost t = s@.skip(i as int);
            proof { lemma_row_len(t); }
            let mut j = i;
            let mut seg: Vec<char> = Vec::new();
            while j < s.len() && s[j] != '"' && s[j] != '\n'
                invariant
                    i <= j <= s@.len(),
                    t == s@.skip(i as int),
                    seg@ == s@.subrange(i as int, j as int),
                    forall|k: int| i <= k < j ==> s@[k] != '"' && s@[k] != '\n',
                decreases s@.len() - j,
            {
                seg.push(s[j]);
                j = j + 1;
            }
            proof {
                assert(row_len(t) == j - i) by {
                    lemma_row_len_exact(t, (j - i) as nat);
                }
                assert(t.take((j - i) as int) =~= seg@);
            }
            let ws = split_ws(&seg);
            let mut row: Vec<String> = Vec::new();
            let mut k: usize = 0;
            while k < ws.len()
                invariant
                    k <= ws@.len(),
                    row@.len() == k,
                    forall|m: int| 0 <= m < k ==> #[trigger] row@[m]@ == ws@[m]@,
                decreases ws@.len() - k,
            {
                let mut w = String::new();
                let mut m: usize = 0;
                while m < ws[k].len()
                    invariant
                        k < ws@.len(),
                        m <= ws@[k as int]@.len(),
                        w@ == ws@[k as int]@.take(m as int),
                    decreases ws@[k as int]@.len() - m,
                {
                    crate::strings::push_char(&mut w, ws[k][m]);
                    assert(ws@[k as int]@.take(m + 1) =~= ws@[k as int]@.take(m as int).push(ws@[k as int]@[m as int]));
                    m = m + 1;
                }
                assert(ws@[k as int]@.take(m as int) =~= ws@[k as int]@);
                row.push(w);
                k = k + 1;
            }
            let ghost rowv = Seq::new(row@.len(), |jj: int| row@[jj]@);
            proof {
                assert(rowv =~= words(seg@)) by {
                    assert(ws@.map_values(|w: Vec<char>| w@) == words(seg@));
                    assert forall|jj: int| 0 <= jj < rowv.len() implies rowv[jj] == words(seg@)[jj] by {
                        assert(ws@.map_values(|w: Vec<char>| w@)[jj] == ws@[jj]@);
                    }
                }
            }
            let ghost before = rows_view(rows@);
            if row.len() > 0 {
                rows.push(row);
                assert(rows_view(rows@) =~= before.push(rowv));
            }
            proof {
                let nxt = if j < s@.len() { s@.skip(j + 1) } else { s@.skip(s@.len() as int) };
                if j < s@.len() {
                    assert(t.skip((j - i) + 1) =~= s@.skip(j + 1));
                }
                assert(s@.skip(s@.len() as int) =~= Seq::<char>::empty());
                assert(area_rows(t) == (if rowv.len() == 0 { area_rows(nxt) } else { seq![rowv] + area_rows(nxt) }));
                if rowv.len() > 0 {
                    assert(before.push(rowv) + area_rows(nxt) =~= before + (seq![rowv] + area_rows(nxt)));
                }
            }
            if j < s.len() {
                i = j + 1;
            } else {
                i = j;
            }
        }
        assert(area_rows(s@.skip(i as int)) =~= Seq::<Seq<Seq<char>>>::empty()) by {
            assert(s@.skip(i as int).len() == 0);
        }
        assert(rows_view(rows@) + Seq::<Seq<Seq<char>>>::empty() =~= rows_view(rows@));
        let mut areas = GridTemplateAreas { rows, named_areas: Vec::new() };
        areas.build_named_areas();
        areas
    }
}

proof fn lemma_lookup_absent(es: Seq<(String, AreaBounds)>, name: Seq<char>)
    requires
        forall|j: int| 0 <= j < es.len() ==> (#[trigger] es[j]).0@ != name,
    ensures
        lookup_area(es, name) is None,
    decreases es.len(),
{
    if es.len() > 0 {
        assert forall|j: int| 0 <= j < es.drop_first().len() implies (#[trigger] es.drop_first()[j]).0@ != name by {
            assert(es.drop_first()[j] == es[j + 1]);
        }
        lemma_lookup_absent(es.drop_first(), name);
    }
}

/// The cells of rows `0..r` and of the first `c` columns of row `r`.
pub open spec fn cells_before(rv: Seq<Seq<Seq<char>>>, r: int, c: int) -> Seq<(int, int, Seq<char>)> {
    cells(rv.take(r)) + Seq::new(c as nat, |cc: int| (r, cc, rv[r][cc]))
}

impl GridTemplateAreas {
    /// Rebuilds the area table from the rows: each name but `.` gets the
    /// position where it first occurs and one past the largest row and
    /// column where it occurs.
    fn build_named_areas(&mut self)
        ensures
            final(self).rows == old(self).rows,
            forall|name: Seq<char>| #[trigger] lookup_area(final(self).named_areas@, name)
                == area_over(cells(rows_view(old(self).rows@)), name),
    {
        let ghost rv = rows_view(self.rows@);
        let mut named: Vec<(String, AreaBounds)> = Vec::new();
        let mut r: usize = 0;
        let nrows = self.rows.len();
        assert(cells(rv.take(0)) =~= Seq::<(int, int, Seq<char>)>::empty());
        while r < nrows
            invariant
                nrows == self.rows@.len(),
                rv == rows_view(self.rows@),
                self.rows == old(self).rows,
                r <= self.rows@.len(),
                forall|a: int, b: int| 0 <= a < b < named@.len() ==> named@[a].0@ != named@[b].0@,
                forall|name: Seq<char>| #[trigger] lookup_area(named@, name) == area_over(cells(rv.take(r as int)), name),
            decreases self.rows@.len() - r,
        {
            let row = &self.rows[r];
            let mut c: usize = 0;
            assert(cells_before(rv, r as int, 0) =~= cells(rv.take(r as int)));
            while c < row.len()
                invariant
                    rv == rows_view(self.rows@),
                    nrows == self.rows@.len(),
                    r < self.rows@.len(),
                    row == &self.rows@[r as int],
                    c <= row@.len(),
                    forall|a: int, b: int| 0 <= a < b < named@.len() ==> named@[a].0@ != named@[b].0@,
                    forall|name: Seq<char>| #[trigger] lookup_area(named@, name) == area_over(cells_before(rv, r as int, c as int), name),
                decreases row@.len() - c,
            {
                let ghost cs = cells_before(rv, r as int, c as int);
                let ghost x = (r as int, c as int, row@[c as int]@);
                assert(cells_before(rv, r as int, c + 1) =~= cs.push(x));
                assert(cs.push(x).drop_last() =~= cs);
                let nm = row[c].as_str();
                if !crate::strings::str_eq(nm, ".") {
                    let mut i: usize = 0;
                    let mut found = false;
                    while !found && i < named.len()
                        invariant
                            i <= named@.len(),
                            forall|j: int| 0 <= j < i ==> (#[trigger] named@[j]).0@ != nm@,
                            found ==> i < named@.len() && named@[i as int].0@ == nm@,
                        decreases named@.len() - i, if found { 0int } else { 1int },
                    {
                        if crate::strings::str_eq(named[i].0.as_str(), nm) {
                            found = true;
                        } else {
                            i = i + 1;
                        }
                    }
                    if found {
                        let (a, b, e, f) = named[i].1;
                        let e2 = if e > r + 1 { e } else { r + 1 };
                        let f2 = if f > c + 1 { f } else { c + 1 };
                        let key = named[i].0.clone();
                        let ghost old_named = named@;
                        proof {
                            lemma_lookup_at(old_named, i as int);
                        }
                        named.set(i, (key, (a, b, e2, f2)));
                        proof {
                            assert(named@ =~= old_named.update(i as int, (old_named[i as int].0, (a, b, e2, f2))));
                            assert forall|name: Seq<char>| #[trigger] lookup_area(named@, name) == area_over(cs.push(x), name) by {
                                lemma_lookup_update(old_named, i as int, (a, b, e2, f2), name);
                            }
                        }
                    } else {
                        let ghost old_named = named@;
                        proof { lemma_lookup_absent(old_named, nm@); }
                        named.push((String::from_str(nm), (r, c, r + 1, c + 1)));
                        proof {
                            assert forall|name: Seq<char>| #[trigger] lookup_area(named@, name) == area_over(cs.push(x), name) by {
                                lemma_lookup_push(old_named, named@.last(), name);
                                assert(old_named.push(named@.last()) =~= named@);
                            }
                        }
                    }
                } else {
                    proof {
                        assert forall|name: Seq<char>| #[trigger] lookup_area(named@, name) == area_over(cs.push(x), name) by {
                        }
                    }
                }
                c = c + 1;
            }
            proof {
                assert(rv.take(r + 1).drop_last() =~= rv.take(r as int));
                assert(rv[r as int].len() == row@.len());
                assert(cells(rv.take(r + 1)) =~= cells_before(rv, r as int, c as int));
            }
            r = r + 1;
        }
        assert(rv.take(self.rows@.len() as int) =~= rv);
        self.named_areas = named;
    }

    /// Get the number of columns: those of the first row
    pub fn column_count(&self) -> (r: usize)
        ensures
            r == (if self.rows@.len() > 0 { self.rows@[0]@.len() } else { 0 }),
    {
        if self.rows.len() > 0 { self.rows[0].len() } else { 0 }
    }

    /// Get the number of rows
    pub fn row_count(&self) -> (r: usize)
        ensures
            r == self.rows@.len(),
    {
        self.rows.len()
    }

    /// Get area bounds by name
    pub fn get_area(&self, name: &str) -> (r: Option<AreaBounds>)
        ensures
            match r {
                Some(b) => lookup_area(self.named_areas@, name@) == Some((b.0 as int, b.1 as int, b.2 as int, b.3 as int)),
                None => lookup_area(self.named_areas@, name@) is None,
            },
    {
        let mut i: usize = 0;
        assert(self.named_areas@.skip(0) =~= self.named_areas@);
        while i < self.named_areas.len()
            invariant
                i <= self.named_areas@.len(),
                lookup_area(self.named_areas@, name@) == lookup_area(self.named_areas@.skip(i as int), name@),
            decreases self.named_areas@.len() - i,
        {
            assert(self.named_areas@.skip(i as int).drop_first() =~= self.named_areas@.skip(i + 1));
            if crate::strings::str_eq(self.named_areas[i].0.as_str(), name) {
                return Some(self.named_areas[i].1);
            }
            i = i + 1;
        }
        None
    }
}

proof fn lemma_row_len_exact(t: Seq<char>, n: nat)
    requires
        n <= t.len(),
        forall|k: int| 0 <= k < n ==> t[k] != '"' && t[k] != '\n',
        n == t.len() || t[n as int] == '"' || t[n as int] == '\n',
    ensures
        row_len(t) == n,
    decreases n,
{
    if n > 0 {
        assert forall|k: int| 0 <= k < n - 1 implies t.drop_first()[k] != '"' && t.drop_first()[k] != '\n' by {
            assert(t.drop_first()[k] == t[k + 1]);
        }
        lemma_row_len_exact(t.drop_first(), (n - 1) as nat);
    }
}


/// The value of a run of ASCII digits.
pub open spec fn digits_value(d: Seq<char>) -> nat
    decreases d.len(),
{
    if d.len() == 0 { 0 } else { digits_value(d.drop_last()) * 10 + (d.last() as nat - 48) as nat }
}

/// Every character is an ASCII digit.
pub open spec fn all_digits(d: Seq<char>) -> bool {
    forall|i: int| 0 <= i < d.len() ==> '0' <= #[trigger] d[i] && d[i] <= '9'
}

/// What `str::parse::<i32>` gives: an optional sign and at least one ASCII
/// digit, with the value in range.
pub open spec fn parsed_i32(s: Seq<char>) -> Option<i32> {
    let neg = s.len() > 0 && s[0] == '-';
    let d = if s.len() > 0 && (s[0] == '-' || s[0] == '+') { s.drop_first() } else { s };
    let v: int = if neg { -(digits_value(d) as int) } else { digits_value(d) as int };
    if d.len() == 0 || !all_digits(d) || v < i32::MIN || v > i32::MAX { None } else { Some(v as i32) }
}

/// The digits value, capped at `2^32`.
proof fn lemma_cap_step(x: nat, dig: nat)
    requires
        dig < 10,
    ensures
        (if (if x < 0x1_0000_0000 { x } else { 0x1_0000_0000 }) * 10 + dig < 0x1_0000_0000 {
            (if x < 0x1_0000_0000 { x } else { 0x1_0000_0000 }) * 10 + dig } else { 0x1_0000_0000 })
        == (if x * 10 + dig < 0x1_0000_0000 { x * 10 + dig } else { 0x1_0000_0000 }),
{
    if x >= 0x1_0000_0000 {
        assert(x * 10 + dig >= 0x1_0000_0000) by (nonlinear_arith) requires x >= 0x1_0000_0000;
    }
}

/// Parses an `i32` as `str::parse` does.
pub fn parse_i32(s: &Vec<char>) -> (r: Option<i32>)
    ensures
        r == parsed_i32(s@),
{
    let n = s.len();
    let neg = n > 0 && s[0] == '-';
    let start: usize = if n > 0 && (s[0] == '-' || s[0] == '+') { 1 } else { 0 };
    let ghost d = if s@.len() > 0 && (s@[0] == '-' || s@[0] == '+') { s@.drop_first() } else { s@ };
    assert(d =~= s@.skip(start as int));
    if start == n {
        return None;
    }
    let mut v: u64 = 0;
    let mut i = start;
    while i < n
        invariant
            start <= i <= n,
            n == s@.len(),
            d == s@.skip(start as int),
            d == (if s@.len() > 0 && (s@[0] == '-' || s@[0] == '+') { s@.drop_first() } else { s@ }),
            neg == (s@.len() > 0 && s@[0] == '-'),
            forall|k: int| 0 <= k < i - start ==> '0' <= #[trigger] d[k] && d[k] <= '9',
            v == (if digits_value(d.take(i - start)) < 0x1_0000_0000 { digits_value(d.take(i - start)) } else { 0x1_0000_0000 }),
        decreases n - i,
    {
        let c = s[i];
        if c < '0' || c > '9' {
            assert(d[i - start] == c);
            assert(!all_digits(d));
            return None;
        }
        let dig: u64 = (c as u32 - 48) as u64;
        proof {
            assert(d.take(i - start + 1).drop_last() =~= d.take(i - start));
            assert(d.take(i - start + 1).last() == c);
            lemma_cap_step(digits_value(d.take(i - start)), dig as nat);
        }
        let w = v * 10 + dig;
        v = if w < 0x1_0000_0000 { w } else { 0x1_0000_0000 };
        i = i + 1;
    }
    assert(d.take(n - start) =~= d);
    if neg {
        if v > 0x8000_0000 { None } else { Some((0 - (v as i64)) as i32) }
    } else {
        if v > 0x7FFF_FFFF { None } else { Some(v as i32) }
    }
}

/// `s` holds `p` at some position.
pub open spec fn has_sub(s: Seq<char>, p: Seq<char>) -> bool {
    exists|i: int| 0 <= i && i + p.len() <= s.len() && #[trigger] s.subrange(i, i + p.len()) == p
}

/// Whether `s` holds the characters of `p` at some position.
pub fn contains_chars(s: &Vec<char>, p: &str) -> (r: bool)
    ensures
        r == has_sub(s@, p@),
{
    let pc = chars_of(p);
    let m = pc.len();
    let n = s.len();
    if m > n {
        return false;
    }
    let mut i: usize = 0;
    while i <= n - m
        invariant
            pc@ == p@,
            m == pc@.len(),
            n == s@.len(),
            m <= n,
            i <= n - m + 1,
            forall|k: int| 0 <= k < i ==> #[trigger] s@.subrange(k, k + m) != pc@,
        decreases n - i,
    {
        let mut j: usize = 0;
        while j < m && s[i + j] == pc[j]
            invariant
                j <= m,
                i + m <= n,
                n == s@.len(),
                m == pc@.len(),
                forall|k: int| 0 <= k < j ==> s@[i + k] == pc@[k],
            decreases m - j,
        {
            j = j + 1;
        }
        if j == m {
            assert(s@.subrange(i as int, i + m) =~= pc@);
            return true;
        }
        assert(s@.subrange(i as int, i + m)[j as int] != pc@[j as int]);
        i = i + 1;
    }
    assert forall|k: int| 0 <= k && k + p@.len() <= s@.len() implies #[trigger] s@.subrange(k, k + p@.len()) != p@ by {
        assert(k < i);
    }
    false
}

/// The auto-flow named in a value: `column` picks column order, `dense`
/// dense packing, letters compared without ASCII case. (Full Unicode
/// lowercasing maps no other character onto the letters of these words,
/// so comparing by ASCII case finds the same words.)
pub open spec fn auto_flow_of(s: Seq<char>) -> GridAutoFlow {
    let l = ascii_lower_seq(s);
    if has_sub(l, "column"@) {
        if has_sub(l, "dense"@) { GridAutoFlow::ColumnDense } else { GridAutoFlow::Column }
    } else {
        if has_sub(l, "dense"@) { GridAutoFlow::RowDense } else { GridAutoFlow::Row }
    }
}

/// Parse grid-auto-flow value
pub fn parse_grid_auto_flow(value: &str) -> (r: GridAutoFlow)
    ensures
        r == auto_flow_of(value@),
{
    let l = lower_chars(value);
    if contains_chars(&l, "column") {
        if contains_chars(&l, "dense") { GridAutoFlow::ColumnDense } else { GridAutoFlow::Column }
    } else {
        if contains_chars(&l, "dense") { GridAutoFlow::RowDense } else { GridAutoFlow::Row }
    }
}


/// The grid line that `parse_grid_line` makes of a trimmed value.
pub open spec fn grid_line_spec(r: GridLine, t: Seq<char>) -> bool {
    if t.len() >= 4 && t.take(4) == "span"@ {
        r.line_number == 0 && r.area_name is None
            && r.span == Some(match parsed_i32(trim(t.skip(4))) { Some(n) => n, None => 1i32 })
    } else if parsed_i32(t) matches Some(n) && n > 0 {
        r.line_number == parsed_i32(t).unwrap() && r.area_name is None && r.span is None
    } else if ascii_lower_seq(t) == "auto"@ {
        r.line_number == 0 && r.area_name is None && r.span is None
    } else {
        r.line_number == 0 && (r.area_name matches Some(n) && n@ == t) && r.span is None
    }
}

/// Parse a grid line value: `span N` (span 1 when N does not parse), a
/// positive line number, `auto` in any ASCII case, else an area name; the
/// value is trimmed first.
pub fn parse_grid_line(value: &str) -> (r: GridLine)
    ensures
        grid_line_spec(r, trim(value@)),
{
    let cs = chars_of(value);
    let t = trim_chars(&cs);
    proof { reveal_strlit("span"); }
    if t.len() >= 4 && t[0] == 's' && t[1] == 'p' && t[2] == 'a' && t[3] == 'n' {
        assert(t@.take(4) =~= "span"@);
        let rest = crate::strings::chars_from(&t, 4);
        let rt = trim_chars(&rest);
        return match parse_i32(&rt) {
            Some(n) => GridLine::span(n),
            None => GridLine::span(1),
        };
    }
    proof {
        if t@.len() >= 4 && t@.take(4) == "span"@ {
            assert(t@.take(4)[0] == t@[0] && t@.take(4)[1] == t@[1]);
            assert(t@.take(4)[2] == t@[2] && t@.take(4)[3] == t@[3]);
        }
    }
    if let Some(n) = parse_i32(&t) {
        if n > 0 {
            return GridLine::numbered(n);
        }
    }
    let l = crate::strings::ascii_lower_vec(&t);
    if chars_are(&l, "auto") {
        return GridLine::auto();
    }
    GridLine { line_number: 0, area_name: Some(crate::strings::string_of(&t)), span: None }
}

/// Whether an item of `col_span` columns and `row_span` rows fits with its
/// corner at (`row`, `col`): no cell it would cover is taken (cells
/// outside the grid are free).
pub fn can_fit(occupied: &Vec<Vec<bool>>, col: usize, row: usize, col_span: usize, row_span: usize) -> (r: bool)
    requires
        row + row_span <= usize::MAX,
        col + col_span <= usize::MAX,
    ensures
        r == (forall|rr: int, cc: int| row <= rr < row + row_span && col <= cc < col + col_span
            ==> !#[trigger] grid_taken(crate::layout::table::grid_view(occupied@), rr, cc)),
{
    let ghost g = crate::layout::table::grid_view(occupied@);
    let mut r = row;
    while r < row + row_span
        invariant
            row <= r <= row + row_span,
            row + row_span <= usize::MAX,
            col + col_span <= usize::MAX,
            g == crate::layout::table::grid_view(occupied@),
            forall|rr: int, cc: int| row <= rr < r && col <= cc < col + col_span ==> !#[trigger] grid_taken(g, rr, cc),
        decreases row + row_span - r,
    {
        if r < occupied.len() {
            let line = &occupied[r];
            let mut c = col;
            while c < col + col_span
                invariant
                    col <= c <= col + col_span,
                    col + col_span <= usize::MAX,
                    row <= r < row + row_span,
                    r < occupied@.len(),
                    line == &occupied@[r as int],
                    g == crate::layout::table::grid_view(occupied@),
                    forall|cc: int| col <= cc < c ==> !#[trigger] grid_taken(g, r as int, cc),
                decreases col + col_span - c,
            {
                assert(g[r as int] == line@);
                if c < line.len() && line[c] {
                    assert(grid_taken(g, r as int, c as int));
                    return false;
                }
                c = c + 1;
            }
        }
        r = r + 1;
    }
    true
}

} // verus!
