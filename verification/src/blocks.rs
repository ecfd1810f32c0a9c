//! Block classification: one pass over the children of the content region
//! turns each recognized child into a tagged block and drops everything
//! else.  Tables and lists are decoded here, so a block carries plain rows
//! and items, never markup.

use vstd::prelude::*;

use crate::dom::DomNode;
use crate::text::{has_space, trim, contains_space, str_eq, trim_str};

verus! {

/// The characters of each string of a sequence.
pub open spec fn strings_view(v: Seq<String>) -> Seq<Seq<char>> {
    v.map_values(|s: String| s@)
}

/// Spec-level picture of one cell of a decoded table row.
pub ghost struct CellModel {
    pub column: Seq<char>,
    pub text: Seq<char>,
}

/// Spec-level picture of one decoded table row.
pub ghost struct RowModel {
    pub cells: Seq<CellModel>,
}

/// The models of a sequence of decoded rows.
pub open spec fn rows_view(v: Seq<TableRow>) -> Seq<RowModel> {
    v.map_values(|r: TableRow| r@)
}

/// Spec-level picture of one classified block.
pub ghost enum BlockModel {
    Heading { text: Seq<char> },
    Paragraph { text: Seq<char> },
    FieldTable { rows: Seq<RowModel> },
    ItemList { items: Seq<Seq<char>> },
}

/// One cell of a decoded table row: the column it fell under, and its
/// trimmed text.
pub struct Cell {
    pub column: String,
    pub text: String,
}

impl View for Cell {
    type V = CellModel;

    open spec fn view(&self) -> CellModel {
        CellModel { column: self.column@, text: self.text@ }
    }
}

/// One decoded table row: its cells zipped positionally against the header
/// columns, so the columns present are always a prefix of the header's.
pub struct TableRow {
    pub cells: Vec<Cell>,
}

impl View for TableRow {
    type V = RowModel;

    open spec fn view(&self) -> RowModel {
        RowModel { cells: self.cells@.map_values(|c: Cell| c@) }
    }
}

/// One classified unit of page content, in document order.
pub enum Block {
    /// A declaration heading: admitted only without internal whitespace.
    Heading { text: String },
    /// A prose paragraph, captured verbatim.
    Paragraph { text: String },
    /// A table carrying the table-style marker, decoded into rows.
    FieldTable { rows: Vec<TableRow> },
    /// A list with at least one item child; blank items dropped, duplicates
    /// collapsed.
    ItemList { items: Vec<String> },
}

impl View for Block {
    type V = BlockModel;

    open spec fn view(&self) -> BlockModel {
        match self {
            Block::Heading { text } => BlockModel::Heading { text: text@ },
            Block::Paragraph { text } => BlockModel::Paragraph { text: text@ },
            Block::FieldTable { rows } => BlockModel::FieldTable { rows: rows_view(rows@) },
            Block::ItemList { items } => BlockModel::ItemList { items: strings_view(items@) },
        }
    }
}

/// The models of a sequence of blocks.
pub open spec fn blocks_view(v: Seq<Block>) -> Seq<BlockModel> {
    v.map_values(|b: Block| b@)
}

/// The first child bearing the given tag name, in document order.
pub open spec fn first_named(cs: Seq<DomNode>, tag: Seq<char>) -> Option<DomNode>
    decreases cs.len(),
{
    if cs.len() == 0 {
        None
    } else if cs[0].name@ == tag {
        Some(cs[0])
    } else {
        first_named(cs.drop_first(), tag)
    }
}

/// The trimmed texts of the children bearing the given tag name, in
/// document order.
pub open spec fn texts_of_named(cs: Seq<DomNode>, tag: Seq<char>) -> Seq<Seq<char>>
    decreases cs.len(),
{
    if cs.len() == 0 {
        Seq::empty()
    } else {
        let rest = texts_of_named(cs.drop_last(), tag);
        if cs.last().name@ == tag {
            rest.push(trim(cs.last().text@))
        } else {
            rest
        }
    }
}

/// The header columns of a table: the trimmed texts of the header cells of
/// every header row, left to right.
pub open spec fn header_cols_of(trs: Seq<DomNode>) -> Seq<Seq<char>>
    decreases trs.len(),
{
    if trs.len() == 0 {
        Seq::empty()
    } else {
        let rest = header_cols_of(trs.drop_last());
        if trs.last().name@ == "tr"@ {
            rest + texts_of_named(trs.last().children@, "th"@)
        } else {
            rest
        }
    }
}

/// The header columns of a table element: decoded from its first header
/// section, or empty when it has none.
pub open spec fn header_cols(table: DomNode) -> Seq<Seq<char>> {
    match first_named(table.children@, "thead"@) {
        Some(thead) => header_cols_of(thead.children@),
        None => Seq::empty(),
    }
}

/// One row: its data-cell texts zipped positionally against the header
/// columns.  A ragged row keeps only the cells a column exists for.
pub open spec fn row_of(tds: Seq<Seq<char>>, cols: Seq<Seq<char>>) -> RowModel {
    let n = if tds.len() <= cols.len() {
        tds.len()
    } else {
        cols.len()
    };
    RowModel { cells: Seq::new(n as nat, |i: int| CellModel { column: cols[i], text: tds[i] }) }
}

/// The decoded rows of a body section, one per table-row child.
pub open spec fn rows_of(trs: Seq<DomNode>, cols: Seq<Seq<char>>) -> Seq<RowModel>
    decreases trs.len(),
{
    if trs.len() == 0 {
        Seq::empty()
    } else {
        let rest = rows_of(trs.drop_last(), cols);
        if trs.last().name@ == "tr"@ {
            rest.push(row_of(texts_of_named(trs.last().children@, "td"@), cols))
        } else {
            rest
        }
    }
}

/// The decoded rows of a table element: from its first body section, with
/// the columns of its first header section; a missing section gives zero
/// columns or zero rows, never an error.
pub open spec fn table_rows(table: DomNode) -> Seq<RowModel> {
    match first_named(table.children@, "tbody"@) {
        Some(tbody) => rows_of(tbody.children@, header_cols(table)),
        None => Seq::empty(),
    }
}

/// Duplicates collapsed, first occurrence kept, order kept.
pub open spec fn dedup(s: Seq<Seq<char>>) -> Seq<Seq<char>>
    decreases s.len(),
{
    if s.len() == 0 {
        Seq::empty()
    } else {
        let rest = dedup(s.drop_last());
        if rest.contains(s.last()) {
            rest
        } else {
            rest.push(s.last())
        }
    }
}

/// The non-blank trimmed item texts of a list, duplicates collapsed.
pub open spec fn list_items(ul: DomNode) -> Seq<Seq<char>>
    decreases ul,
{
    dedup(nonblank(texts_of_named(ul.children@, "li"@)))
}

/// The non-empty texts of a sequence, in order.
pub open spec fn nonblank(ts: Seq<Seq<char>>) -> Seq<Seq<char>>
    decreases ts.len(),
{
    if ts.len() == 0 {
        Seq::empty()
    } else {
        let rest = nonblank(ts.drop_last());
        if ts.last().len() > 0 {
            rest.push(ts.last())
        } else {
            rest
        }
    }
}

/// The element has at least one list-item child.
pub open spec fn has_li_child(n: DomNode) -> bool {
    exists|i: int| 0 <= i < n.children@.len() && n.children@[i].name@ == "li"@
}

/// The blocks one child element contributes: one block when it is admitted,
/// none when it is skipped.
pub open spec fn classify_one(c: DomNode) -> Seq<BlockModel> {
    if c.name@ == "h4"@ {
        if has_space(c.text@) {
            Seq::empty()
        } else {
            seq![BlockModel::Heading { text: c.text@ }]
        }
    } else if c.name@ == "p"@ {
        seq![BlockModel::Paragraph { text: c.text@ }]
    } else if c.name@ == "table"@ {
        match c.class {
            Some(cl) => if cl@ == "table"@ {
                seq![BlockModel::FieldTable { rows: table_rows(c) }]
            } else {
                Seq::empty()
            },
            None => Seq::empty(),
        }
    } else if c.name@ == "ul"@ {
        if has_li_child(c) {
            seq![BlockModel::ItemList { items: list_items(c) }]
        } else {
            Seq::empty()
        }
    } else {
        Seq::empty()
    }
}

/// The classified blocks of a sequence of children, in document order.
pub open spec fn classify_seq(cs: Seq<DomNode>) -> Seq<BlockModel>
    decreases cs.len(),
{
    if cs.len() == 0 {
        Seq::empty()
    } else {
        classify_seq(cs.drop_last()) + classify_one(cs.last())
    }
}

/// The first child bearing the given tag name, in document order.
fn find_named<'a>(cs: &'a Vec<DomNode>, tag: &str) -> (r: Option<&'a DomNode>)
    ensures
        match r {
            Some(n) => first_named(cs@, tag@) == Some(*n),
            None => first_named(cs@, tag@) is None,
        },
{
    let mut i: usize = 0;
    proof {
        assert(cs@.skip(0) =~= cs@);
    }
    while i < cs.len()
        invariant
            i <= cs@.len(),
            first_named(cs@, tag@) == first_named(cs@.skip(i as int), tag@),
        decreases cs@.len() - i,
    {
        if str_eq(cs[i].name.as_str(), tag) {
            return Some(&cs[i]);
        }
        proof {
            assert(cs@.skip(i as int).drop_first() =~= cs@.skip(i + 1));
        }
        i += 1;
    }
    None
}

/// The trimmed texts of the children bearing the given tag name.
fn collect_named_texts(cs: &Vec<DomNode>, tag: &str) -> (r: Vec<String>)
    ensures
        strings_view(r@) == texts_of_named(cs@, tag@),
{
    let mut out: Vec<String> = Vec::new();
    let mut i: usize = 0;
    proof {
        assert(strings_view(out@) =~= texts_of_named(cs@.take(0), tag@));
    }
    while i < cs.len()
        invariant
            i <= cs@.len(),
            strings_view(out@) == texts_of_named(cs@.take(i as int), tag@),
        decreases cs@.len() - i,
    {
        if str_eq(cs[i].name.as_str(), tag) {
            let t: String = trim_str(cs[i].text.as_str());
            out.push(t);
        }
        proof {
            assert(cs@.take(i + 1).drop_last() =~= cs@.take(i as int));
            assert(cs@.take(i + 1).last() == cs@[i as int]);
            assert(strings_view(out@) =~= texts_of_named(cs@.take(i + 1), tag@));
        }
        i += 1;
    }
    proof {
        assert(cs@.take(cs@.len() as int) =~= cs@);
    }
    out
}

/// The header columns of a table element: from its first header section.
pub fn decode_header(table: &DomNode) -> (r: Vec<String>)
    ensures
        strings_view(r@) == header_cols(*table),
{
    let thead = match find_named(&table.children, "thead") {
        Some(n) => n,
        None => {
            proof {
                assert(strings_view(Seq::<String>::empty()) =~= Seq::<Seq<char>>::empty());
            }
            return Vec::new();
        },
    };
    let mut out: Vec<String> = Vec::new();
    let mut i: usize = 0;
    proof {
        assert(strings_view(out@) =~= header_cols_of(thead.children@.take(0)));
    }
    while i < thead.children.len()
        invariant
            i <= thead.children@.len(),
            first_named(table.children@, "thead"@) == Some(*thead),
            strings_view(out@) == header_cols_of(thead.children@.take(i as int)),
        decreases thead.children@.len() - i,
    {
        if str_eq(thead.children[i].name.as_str(), "tr") {
            let mut ths: Vec<String> = collect_named_texts(&thead.children[i].children, "th");
            let ghost before = out@;
            let mut k: usize = 0;
            proof {
                assert(strings_view(out@) =~= strings_view(before) + strings_view(ths@).take(0));
            }
            while k < ths.len()
                invariant
                    k <= ths@.len(),
                    strings_view(out@) == strings_view(before) + strings_view(ths@).take(
                        k as int,
                    ),
                decreases ths@.len() - k,
            {
                let c: String = ths[k].clone();
                let ghost prev = out@;
                out.push(c);
                proof {
                    assert(c@ == strings_view(ths@)[k as int]);
                    assert(strings_view(prev.push(c)) =~= strings_view(prev).push(c@));
                    assert(strings_view(ths@).take(k + 1) =~= strings_view(ths@).take(
                        k as int,
                    ).push(strings_view(ths@)[k as int]));
                    assert(strings_view(out@) =~= strings_view(before) + strings_view(
                        ths@,
                    ).take(k + 1));
                }
                k += 1;
            }
            proof {
                assert(strings_view(ths@).take(ths@.len() as int) =~= strings_view(ths@));
            }
        }
        proof {
            assert(thead.children@.take(i + 1).drop_last() =~= thead.children@.take(i as int));
            assert(thead.children@.take(i + 1).last() == thead.children@[i as int]);
        }
        i += 1;
    }
    proof {
        assert(thead.children@.take(thead.children@.len() as int) =~= thead.children@);
    }
    out
}

/// One row from its data-cell texts and the header columns, zipped
/// positionally.
fn decode_row(tds: Vec<String>, cols: &Vec<String>) -> (r: TableRow)
    ensures
        r@ == row_of(strings_view(tds@), strings_view(cols@)),
{
    let n: usize = if tds.len() <= cols.len() {
        tds.len()
    } else {
        cols.len()
    };
    let mut cells: Vec<Cell> = Vec::new();
    let mut i: usize = 0;
    while i < n
        invariant
            i <= n,
            n <= tds@.len(),
            n <= cols@.len(),
            cells@.len() == i,
            forall|j: int| 0 <= j < i ==> cells@[j]@ == (CellModel {
                column: cols@[j]@,
                text: tds@[j]@,
            }),
        decreases n - i,
    {
        let column: String = cols[i].clone();
        let text: String = tds[i].clone();
        cells.push(Cell { column, text });
        i += 1;
    }
    let r = TableRow { cells };
    proof {
        assert(r@.cells =~= row_of(strings_view(tds@), strings_view(cols@)).cells);
    }
    r
}

/// The decoded rows of a table element: its first body section's rows,
/// zipped against its first header section's columns.
pub fn decode_table(table: &DomNode) -> (r: Vec<TableRow>)
    ensures
        rows_view(r@) == table_rows(*table),
{
    let cols: Vec<String> = decode_header(table);
    let tbody = match find_named(&table.children, "tbody") {
        Some(n) => n,
        None => {
            proof {
                assert(rows_view(Seq::<TableRow>::empty()) =~= Seq::<RowModel>::empty());
            }
            return Vec::new();
        },
    };
    let mut out: Vec<TableRow> = Vec::new();
    let mut i: usize = 0;
    proof {
        assert(rows_view(out@) =~= rows_of(tbody.children@.take(0), header_cols(*table)));
    }
    while i < tbody.children.len()
        invariant
            i <= tbody.children@.len(),
            first_named(table.children@, "tbody"@) == Some(*tbody),
            strings_view(cols@) == header_cols(*table),
            rows_view(out@) == rows_of(tbody.children@.take(i as int), header_cols(*table)),
        decreases tbody.children@.len() - i,
    {
        if str_eq(tbody.children[i].name.as_str(), "tr") {
            let tds: Vec<String> = collect_named_texts(&tbody.children[i].children, "td");
            let row: TableRow = decode_row(tds, &cols);
            out.push(row);
        }
        proof {
            assert(tbody.children@.take(i + 1).drop_last() =~= tbody.children@.take(i as int));
            assert(tbody.children@.take(i + 1).last() == tbody.children@[i as int]);
            assert(rows_view(out@) =~= rows_of(
                tbody.children@.take(i + 1),
                header_cols(*table),
            ));
        }
        i += 1;
    }
    proof {
        assert(tbody.children@.take(tbody.children@.len() as int) =~= tbody.children@);
    }
    out
}

/// The collection already holds a string with these characters.
fn strings_contain(v: &Vec<String>, s: &String) -> (r: bool)
    ensures
        r == strings_view(v@).contains(s@),
{
    let mut i: usize = 0;
    while i < v.len()
        invariant
            i <= v@.len(),
            forall|j: int| 0 <= j < i ==> strings_view(v@)[j] != s@,
        decreases v@.len() - i,
    {
        if v[i] == *s {
            proof {
                assert(strings_view(v@)[i as int] == s@);
            }
            return true;
        }
        i += 1;
    }
    false
}

/// The non-blank trimmed item texts of a list element, duplicates
/// collapsed, first occurrences kept in order.
pub fn decode_list(ul: &DomNode) -> (r: Vec<String>)
    ensures
        strings_view(r@) == list_items(*ul),
{
    let raw: Vec<String> = collect_named_texts(&ul.children, "li");
    let mut kept: Vec<String> = Vec::new();
    let mut i: usize = 0;
    proof {
        assert(strings_view(kept@) =~= nonblank(strings_view(raw@).take(0)));
    }
    while i < raw.len()
        invariant
            i <= raw@.len(),
            strings_view(kept@) == nonblank(strings_view(raw@).take(i as int)),
        decreases raw@.len() - i,
    {
        if raw[i].as_str().unicode_len() > 0 {
            let t: String = raw[i].clone();
            kept.push(t);
        }
        proof {
            assert(strings_view(raw@).take(i + 1).drop_last() =~= strings_view(raw@).take(
                i as int,
            ));
            assert(strings_view(raw@).take(i + 1).last() == strings_view(raw@)[i as int]);
            assert(strings_view(kept@) =~= nonblank(strings_view(raw@).take(i + 1)));
        }
        i += 1;
    }
    proof {
        assert(strings_view(raw@).take(raw@.len() as int) =~= strings_view(raw@));
    }
    let mut out: Vec<String> = Vec::new();
    let mut k: usize = 0;
    proof {
        assert(strings_view(out@) =~= dedup(strings_view(kept@).take(0)));
    }
    while k < kept.len()
        invariant
            k <= kept@.len(),
            strings_view(out@) == dedup(strings_view(kept@).take(k as int)),
        decreases kept@.len() - k,
    {
        if !strings_contain(&out, &kept[k]) {
            let t: String = kept[k].clone();
            out.push(t);
        }
        proof {
            assert(strings_view(kept@).take(k + 1).drop_last() =~= strings_view(kept@).take(
                k as int,
            ));
            assert(strings_view(kept@).take(k + 1).last() == strings_view(kept@)[k as int]);
            assert(strings_view(out@) =~= dedup(strings_view(kept@).take(k + 1)));
        }
        k += 1;
    }
    proof {
        assert(strings_view(kept@).take(kept@.len() as int) =~= strings_view(kept@));
    }
    out
}

/// The element has at least one list-item child.
fn node_has_li(n: &DomNode) -> (r: bool)
    ensures
        r == has_li_child(*n),
{
    let mut i: usize = 0;
    while i < n.children.len()
        invariant
            i <= n.children@.len(),
            forall|j: int| 0 <= j < i ==> n.children@[j].name@ != "li"@,
        decreases n.children@.len() - i,
    {
        if str_eq(n.children[i].name.as_str(), "li") {
            return true;
        }
        i += 1;
    }
    false
}

/// Walks the children of the content region and classifies each one,
/// keeping document order; unrecognized or unqualified children are
/// dropped.
pub fn classify(region: &DomNode) -> (r: Vec<Block>)
    ensures
        blocks_view(r@) == classify_seq(region.children@),
{
    let mut out: Vec<Block> = Vec::new();
    let mut i: usize = 0;
    proof {
        assert(blocks_view(out@) =~= classify_seq(region.children@.take(0)));
    }
    while i < region.children.len()
        invariant
            i <= region.children@.len(),
            blocks_view(out@) == classify_seq(region.children@.take(i as int)),
        decreases region.children@.len() - i,
    {
        let c = &region.children[i];
        if str_eq(c.name.as_str(), "h4") {
            if !contains_space(c.text.as_str()) {
                out.push(Block::Heading { text: c.text.clone() });
            }
        } else if str_eq(c.name.as_str(), "p") {
            out.push(Block::Paragraph { text: c.text.clone() });
        } else if str_eq(c.name.as_str(), "table") {
            let admitted: bool = match &c.class {
                Some(cl) => str_eq(cl.as_str(), "table"),
                None => false,
            };
            if admitted {
                let rows: Vec<TableRow> = decode_table(c);
                out.push(Block::FieldTable { rows });
            }
        } else if str_eq(c.name.as_str(), "ul") {
            if node_has_li(c) {
                let items: Vec<String> = decode_list(c);
                out.push(Block::ItemList { items });
            }
        }
        proof {
            assert(region.children@.take(i + 1).drop_last() =~= region.children@.take(i as int));
            assert(region.children@.take(i + 1).last() == region.children@[i as int]);
            assert(blocks_view(out@) =~= classify_seq(region.children@.take(i + 1)));
        }
        i += 1;
    }
    proof {
        assert(region.children@.take(region.children@.len() as int) =~= region.children@);
    }
    out
}

/// A row's columns fit the header: no more cells than columns, and the
/// row's columns are, in order, a prefix of the header's.
pub open spec fn row_fits(row: RowModel, cols: Seq<Seq<char>>) -> bool {
    row.cells.len() <= cols.len() && forall|i: int|
        0 <= i < row.cells.len() ==> row.cells[i].column == cols[i]
}

proof fn lemma_rows_of_fit(trs: Seq<DomNode>, cols: Seq<Seq<char>>, k: int)
    requires
        0 <= k < rows_of(trs, cols).len(),
    ensures
        row_fits(rows_of(trs, cols)[k], cols),
    decreases trs.len(),
{
    if trs.len() > 0 {
        if trs.last().name@ == "tr"@ && k == rows_of(trs, cols).len() - 1 {
            let row = row_of(texts_of_named(trs.last().children@, "td"@), cols);
            assert(rows_of(trs, cols)[k] == row);
            assert(row_fits(row, cols));
        } else {
            lemma_rows_of_fit(trs.drop_last(), cols, k);
        }
    }
}

/// Every decoded row of an admitted table fits the table's header: the
/// ragged-row tolerance never invents a column, and keeps the header's
/// order.
pub proof fn lemma_rows_fit_header(table: DomNode)
    ensures
        forall|k: int| 0 <= k < table_rows(table).len() ==> row_fits(
            table_rows(table)[k],
            header_cols(table),
        ),
{
    match first_named(table.children@, "tbody"@) {
        Some(tbody) => {
            assert forall|k: int| 0 <= k < table_rows(table).len() implies row_fits(
                table_rows(table)[k],
                header_cols(table),
            ) by {
                lemma_rows_of_fit(tbody.children@, header_cols(table), k);
            }
        },
        None => {},
    }
}

} // verus!
