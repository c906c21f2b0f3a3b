//! From `.sson` text to tables and field definitions: the token loop that
//! groups rows under section paths, and the reading of column headers
//! (`name:type`, `name _:req,_:min=1`).

use vstd::prelude::*;
use crate::obj_adapter::{find_str, first_occurrence, lemma_first_occurrence_at};
use crate::sson_ast::{SsonMode, TypeCode, mode_named, type_code_named};
use crate::sson_error::SsonError;
use crate::sson_lexer::{Lexer, Token, TokenView, line_token, lines_of, scan_token};
use crate::text::{
    contains_char, find_char, first_index_of, has_prefix, lowercase_of, same_text, slice_string,
    split_char, split_on, starts_with, to_lowercase, trim, trim_of, views, TrimClass,
    lemma_first_index_of, lacks, lemma_first_index_at,
};

verus! {

// ---------------------------------------------------------------------------
// Tables
// ---------------------------------------------------------------------------

/// The rows found under one section path, with their column headers.
#[derive(Debug)]
pub struct Table {
    pub name: String,
    pub columns: Vec<String>,
    pub rows: Vec<Vec<String>>,
}

/// A table with its strings taken as character sequences.
pub struct TableView {
    pub name: Seq<char>,
    pub columns: Seq<Seq<char>>,
    pub rows: Seq<Seq<Seq<char>>>,
}

/// The character views of rows of cells.
pub open spec fn row_views(rows: Seq<Vec<String>>) -> Seq<Seq<Seq<char>>> {
    Seq::new(rows.len(), |i: int| views(rows[i]@))
}

impl View for Table {
    type V = TableView;

    open spec fn view(&self) -> TableView {
        TableView { name: self.name@, columns: views(self.columns@), rows: row_views(self.rows@) }
    }
}

/// The views of a sequence of tables.
pub open spec fn table_views(ts: Seq<Table>) -> Seq<TableView> {
    Seq::new(ts.len(), |i: int| ts[i]@)
}

/// The view of an optional table.
pub open spec fn opt_table_view(t: Option<Table>) -> Option<TableView> {
    match t {
        Some(t) => Some(t@),
        None => None,
    }
}

// ---------------------------------------------------------------------------
// The token loop
// ---------------------------------------------------------------------------

/// What the parser knows after some tokens: the mode, the finished tables,
/// the current section path and the table being filled.
pub struct DocState {
    pub mode: SsonMode,
    pub tables: Seq<TableView>,
    pub path: Seq<char>,
    pub current: Option<TableView>,
}

/// The tokens of a document, in order (`Eof` excluded).
pub open spec fn line_tokens(lines: Seq<Seq<char>>) -> Seq<TokenView>
    decreases lines.len(),
{
    if lines.len() == 0 {
        Seq::empty()
    } else {
        let r = line_tokens(lines.drop_last());
        match line_token(lines.last()) {
            Some(t) => r.push(t),
            None => r,
        }
    }
}

/// The cells of a row that are not `_:` properties.
pub open spec fn data_cells(cells: Seq<Seq<char>>) -> Seq<Seq<char>>
    decreases cells.len(),
{
    if cells.len() == 0 {
        Seq::empty()
    } else {
        let r = data_cells(cells.drop_last());
        if has_prefix(cells.last(), "_:"@) {
            r
        } else {
            r.push(cells.last())
        }
    }
}

/// A cell that looks like a column header: it holds `_` or names a type.
pub open spec fn header_like(c: Seq<char>) -> bool {
    c.contains('_') || type_code_named(lowercase_of(c)) is Some
}

/// Some cell of `cells` looks like a column header.
pub open spec fn any_header(cells: Seq<Seq<char>>) -> bool
    decreases cells.len(),
{
    cells.len() > 0 && (any_header(cells.drop_last()) || header_like(cells.last()))
}

/// `tables` with `current` added at the end when there is one.
pub open spec fn flush_table(tables: Seq<TableView>, current: Option<TableView>) -> Seq<
    TableView,
> {
    match current {
        Some(t) => tables.push(t),
        None => tables,
    }
}

/// A row of data cells: the first row of a table gives its columns, the
/// others are appended; a row outside any section is dropped.
pub open spec fn row_step(st: DocState, data: Seq<Seq<char>>) -> DocState {
    if st.current is Some && st.current->0.columns.len() == 0 && any_header(data) {
        DocState { current: Some(TableView { columns: data, ..st.current->0 }), ..st }
    } else {
        let cur = if st.current is None && st.path.len() > 0 {
            Some(TableView { name: st.path, columns: Seq::empty(), rows: Seq::empty() })
        } else {
            st.current
        };
        match cur {
            None => st,
            Some(t) => if t.columns.len() == 0 && data.len() > 0 {
                DocState { current: Some(TableView { columns: data, ..t }), ..st }
            } else {
                DocState { current: Some(TableView { rows: t.rows.push(data), ..t }), ..st }
            },
        }
    }
}

/// One token of the document.
pub open spec fn doc_step(st: DocState, tok: TokenView) -> DocState {
    match tok {
        TokenView::Separator => DocState {
            tables: flush_table(st.tables, st.current),
            current: None,
            path: Seq::empty(),
            ..st
        },
        TokenView::Section(p) => DocState {
            tables: flush_table(st.tables, st.current),
            current: None,
            path: p,
            ..st
        },
        TokenView::Subsection(c) => DocState {
            tables: flush_table(st.tables, st.current),
            current: None,
            path: if st.path.len() == 0 {
                c
            } else {
                st.path + "."@ + c
            },
            ..st
        },
        TokenView::KeyValue(k, v) => if k == "mode"@ {
            DocState { mode: mode_named(lowercase_of(v)), ..st }
        } else {
            st
        },
        TokenView::CsvLine(cells) => row_step(st, data_cells(cells)),
        _ => st,
    }
}

/// The state before any token.
pub open spec fn doc_start() -> DocState {
    DocState {
        mode: SsonMode::Generative,
        tables: Seq::empty(),
        path: Seq::empty(),
        current: None,
    }
}

/// The state after the tokens `toks`.
pub open spec fn doc_state(toks: Seq<TokenView>) -> DocState
    decreases toks.len(),
{
    if toks.len() == 0 {
        doc_start()
    } else {
        doc_step(doc_state(toks.drop_last()), toks.last())
    }
}

pub(crate) proof fn lemma_scan_token(lines: Seq<Seq<char>>, p: int)
    requires
        0 <= p <= lines.len(),
    ensures
        p <= scan_token(lines, p).1 <= lines.len(),
        scan_token(lines, p).0 is Eof ==> scan_token(lines, p).1 == lines.len() && line_tokens(
            lines,
        ) == line_tokens(lines.take(p)),
        !(scan_token(lines, p).0 is Eof) ==> scan_token(lines, p).1 > p && line_tokens(
            lines.take(scan_token(lines, p).1),
        ) == line_tokens(lines.take(p)).push(scan_token(lines, p).0),
    decreases lines.len() - p,
{
    if p == lines.len() {
        assert(lines.take(p) =~= lines);
    } else {
        assert(lines.take(p + 1).drop_last() =~= lines.take(p));
        assert(lines.take(p + 1).last() == lines[p]);
        match line_token(lines[p]) {
            Some(t) => {
                let l = trim_of(lines[p], TrimClass::White);
                assert(!(t is Eof));
            },
            None => {
                lemma_scan_token(lines, p + 1);
            },
        }
    }
}

// ---------------------------------------------------------------------------
// Column headers
// ---------------------------------------------------------------------------

/// Whether `s` contains `p` (non-empty) somewhere.
pub open spec fn contains_text(s: Seq<char>, p: Seq<char>) -> bool {
    first_occurrence(s, p) is Some
}

/// A column header split into its name and its type text: before and from
/// the first `_:`, or around the first `:`; a bare name has type `s`.
pub open spec fn field_def(raw: Seq<char>) -> (Seq<char>, Seq<char>) {
    match first_occurrence(raw, "_:"@) {
        Some(pos) => (
            trim_of(raw.take(pos), TrimClass::White),
            trim_of(raw.skip(pos), TrimClass::White),
        ),
        None => match first_index_of(raw, ':') {
            Some(pos) => (trim_of(raw.take(pos), TrimClass::White), raw.skip(pos + 1)),
            None => (trim_of(raw, TrimClass::White), "s"@),
        },
    }
}

/// `s` without every leading repetition of a non-empty `p`
/// (`str::trim_start_matches` with a string pattern).
pub open spec fn strip_prefixes(s: Seq<char>, p: Seq<char>) -> Seq<char>
    decreases s.len(),
{
    if p.len() > 0 && has_prefix(s, p) {
        strip_prefixes(s.skip(p.len() as int), p)
    } else {
        s
    }
}

/// The `_:` constraints among comma-separated pieces, `_:req` excepted,
/// each trimmed and without its `_:` marks.
pub open spec fn constraint_pieces(pieces: Seq<Seq<char>>) -> Seq<Seq<char>>
    decreases pieces.len(),
{
    if pieces.len() == 0 {
        Seq::empty()
    } else {
        let r = constraint_pieces(pieces.drop_last());
        let c = pieces.last();
        if has_prefix(c, "_:"@) && !has_prefix(c, "_:req"@) {
            r.push(strip_prefixes(trim_of(c, TrimClass::White), "_:"@))
        } else {
            r
        }
    }
}

/// The constraints written in a column header.
pub open spec fn constraint_list(raw: Seq<char>) -> Seq<Seq<char>> {
    constraint_pieces(split_on(raw, ','))
}

/// The name and the type text of a column header.
pub fn parse_field_def(raw: &str) -> (r: (String, String))
    ensures
        (r.0@, r.1@) == field_def(raw@),
{
    proof {
        reveal_strlit("_:");
    }
    let n = raw.unicode_len();
    match find_str(raw, "_:") {
        Some(pos) => {
            proof {
                lemma_first_occurrence_at(raw@, "_:"@);
            }
            let head = slice_string(raw, 0, pos);
            let tail = slice_string(raw, pos, n);
            proof {
                assert(head@ =~= raw@.take(pos as int));
                assert(tail@ =~= raw@.skip(pos as int));
            }
            (trim(head.as_str()), trim(tail.as_str()))
        },
        None => {
            proof {
                lemma_first_index_of(raw@, ':');
            }
            match find_char(raw, ':') {
                Some(pos) => {
                    let head = slice_string(raw, 0, pos);
                    let tail = slice_string(raw, pos + 1, n);
                    proof {
                        assert(head@ =~= raw@.take(pos as int));
                        assert(tail@ =~= raw@.skip(pos + 1));
                    }
                    (trim(head.as_str()), tail)
                },
                None => (trim(raw), String::from_str("s")),
            }
        },
    }
}

/// `s` without every leading repetition of a non-empty `p`.
pub fn trim_start_str(s: &str, p: &str) -> (r: String)
    requires
        p@.len() > 0,
    ensures
        r@ == strip_prefixes(s@, p@),
{
    let n = s.unicode_len();
    let m = p.unicode_len();
    let mut start: usize = 0;
    let mut rest = String::from_str(s);
    while starts_with(rest.as_str(), p)
        invariant
            n == s@.len(),
            m == p@.len(),
            m > 0,
            start <= n,
            rest@ == s@.skip(start as int),
            strip_prefixes(rest@, p@) == strip_prefixes(s@, p@),
        decreases n - start,
    {
        let ghost old_rest = rest@;
        start = start + m;
        rest = slice_string(s, start, n);
        proof {
            assert(rest@ =~= old_rest.skip(m as int));
        }
    }
    rest
}

/// The constraints of a column header: its `_:` pieces other than `_:req`,
/// trimmed and without the `_:` mark.
pub fn extract_constraints(raw: &str) -> (r: Vec<String>)
    ensures
        views(r@) == constraint_list(raw@),
{
    proof {
        reveal_strlit("_:");
    }
    let pieces = split_char(raw, ',');
    let mut out: Vec<String> = Vec::new();
    let mut i: usize = 0;
    while i < pieces.len()
        invariant
            i <= pieces@.len(),
            views(pieces@) == split_on(raw@, ','),
            views(out@) == constraint_pieces(views(pieces@).take(i as int)),
        decreases pieces@.len() - i,
    {
        proof {
            assert(views(pieces@).take(i + 1).drop_last() =~= views(pieces@).take(i as int));
            assert(views(pieces@).take(i + 1).last() == pieces@[i as int]@);
        }
        proof {
            reveal_strlit("_:");
        }
        let piece = pieces[i].as_str();
        if starts_with(piece, "_:") && !starts_with(piece, "_:req") {
            let t = trim(piece);
            let c = trim_start_str(t.as_str(), "_:");
            let ghost before = out@;
            out.push(c);
            proof {
                assert(views(out@) =~= views(before).push(c@));
            }
        }
        i += 1;
    }
    proof {
        assert(views(pieces@).take(pieces@.len() as int) =~= views(pieces@));
    }
    out
}

// ---------------------------------------------------------------------------
// Field definitions
// ---------------------------------------------------------------------------

/// A column of a table, read as a field of the flat dictionary.
pub struct FieldDef {
    pub path: String,
    pub type_code: TypeCode,
    pub required: bool,
    pub constraints: Vec<String>,
}

/// A field definition with its strings taken as character sequences.
pub struct FieldDefView {
    pub path: Seq<char>,
    pub type_code: TypeCode,
    pub required: bool,
    pub constraints: Seq<Seq<char>>,
}

impl View for FieldDef {
    type V = FieldDefView;

    open spec fn view(&self) -> FieldDefView {
        FieldDefView {
            path: self.path@,
            type_code: self.type_code,
            required: self.required,
            constraints: views(self.constraints@),
        }
    }
}

/// The views of a sequence of field definitions.
pub open spec fn field_views(fs: Seq<FieldDef>) -> Seq<FieldDefView> {
    Seq::new(fs.len(), |i: int| fs[i]@)
}

/// The field that column header `col` of table `table` defines: path
/// `table.name`, the type its type text names (`Str` when none), required
/// when the header mentions `:req`, and its constraints.
pub open spec fn field_of(table: Seq<char>, col: Seq<char>) -> FieldDefView {
    let (name, type_text) = field_def(col);
    FieldDefView {
        path: table + "."@ + name,
        type_code: match type_code_named(lowercase_of(type_text)) {
            Some(t) => t,
            None => TypeCode::Str,
        },
        required: contains_text(col, ":req"@) || contains_text(col, "_:req"@),
        constraints: constraint_list(col),
    }
}

/// The fields of the columns of one table, in column order.
pub open spec fn table_fields(t: TableView) -> Seq<FieldDefView> {
    Seq::new(t.columns.len(), |i: int| field_of(t.name, t.columns[i]))
}

/// The fields of all tables, table by table.
pub open spec fn fields_of(ts: Seq<TableView>) -> Seq<FieldDefView>
    decreases ts.len(),
{
    if ts.len() == 0 {
        Seq::empty()
    } else {
        fields_of(ts.drop_last()) + table_fields(ts.last())
    }
}

/// The field that column `col` of table `table` defines.
pub fn field_from_column(table: &str, col: &str) -> (f: FieldDef)
    ensures
        f@ == field_of(table@, col@),
{
    proof {
        reveal_strlit(":req");
        reveal_strlit("_:req");
    }
    let (name, type_text) = parse_field_def(col);
    let type_code = match TypeCode::from_short(type_text.as_str()) {
        Some(t) => t,
        None => TypeCode::Str,
    };
    let required = find_str(col, ":req").is_some() || find_str(col, "_:req").is_some();
    let mut path = String::from_str(table);
    path.append(".");
    path.append(name.as_str());
    let constraints = extract_constraints(col);
    FieldDef { path, type_code, required, constraints }
}

// ---------------------------------------------------------------------------
// The whole document
// ---------------------------------------------------------------------------

/// A parsed document: its mode, its tables and the fields their columns
/// define.
pub struct ParsedSson {
    pub mode: SsonMode,
    pub tables: Vec<Table>,
    pub fields: Vec<FieldDef>,
}

/// The tables of a document, the table still open at the end included.
pub open spec fn final_tables(st: DocState) -> Seq<TableView> {
    flush_table(st.tables, st.current)
}

struct DocBuilder {
    mode: SsonMode,
    tables: Vec<Table>,
    path: String,
    current: Option<Table>,
}

impl DocBuilder {
    spec fn view(&self) -> DocState {
        DocState {
            mode: self.mode,
            tables: table_views(self.tables@),
            path: self.path@,
            current: opt_table_view(self.current),
        }
    }

    fn flush(tables: &mut Vec<Table>, current: Option<Table>)
        ensures
            table_views(final(tables)@) == flush_table(table_views(old(tables)@), opt_table_view(current)),
    {
        match current {
            Some(t) => {
                let ghost before = tables@;
                tables.push(t);
                proof {
                    assert(table_views(tables@) =~= table_views(before).push(tables@.last()@));
                }
            },
            None => {},
        }
    }

    fn step(self, tok: Token) -> (b: Self)
        ensures
            b.view() == doc_step(self.view(), tok@),
    {
        let DocBuilder { mode, mut tables, path, current } = self;
        match tok {
            Token::Separator => {
                Self::flush(&mut tables, current);
                DocBuilder { mode, tables, path: String::new(), current: None }
            },
            Token::Section(p) => {
                Self::flush(&mut tables, current);
                DocBuilder { mode, tables, path: p, current: None }
            },
            Token::Subsection(child) => {
                Self::flush(&mut tables, current);
                let new_path = if path.as_str().unicode_len() == 0 {
                    child
                } else {
                    let mut np = path;
                    np.append(".");
                    np.append(child.as_str());
                    np
                };
                DocBuilder { mode, tables, path: new_path, current: None }
            },
            Token::KeyValue(key, val) => {
                if same_text(key.as_str(), "mode") {
                    let lower = to_lowercase(val.as_str());
                    let m = SsonMode::from_lowercase(lower.as_str());
                    DocBuilder { mode: m, tables, path, current }
                } else {
                    DocBuilder { mode, tables, path, current }
                }
            },
            Token::CsvLine(cells) => {
                let data = data_cells_of(&cells);
                let b = DocBuilder { mode, tables, path, current };
                b.row(data)
            },
            Token::Comment(_, _) => DocBuilder { mode, tables, path, current },
            Token::Eof => DocBuilder { mode, tables, path, current },
        }
    }

    fn row(self, data: Vec<String>) -> (b: Self)
        ensures
            b.view() == row_step(self.view(), views(data@)),
    {
        let DocBuilder { mode, tables, path, current } = self;
        match current {
            Some(t) => {
                if t.columns.len() == 0 && any_header_of(&data) {
                    let Table { name, columns: _, rows } = t;
                    let nt = Table { name, columns: data, rows };
                    return DocBuilder { mode, tables, path, current: Some(nt) };
                }
                let Table { name, columns, mut rows } = t;
                if columns.len() == 0 && data.len() > 0 {
                    let nt = Table { name, columns: data, rows };
                    DocBuilder { mode, tables, path, current: Some(nt) }
                } else {
                    let ghost before = rows@;
                    rows.push(data);
                    proof {
                        assert(row_views(rows@) =~= row_views(before).push(views(data@)));
                    }
                    let nt = Table { name, columns, rows };
                    DocBuilder { mode, tables, path, current: Some(nt) }
                }
            },
            None => {
                if path.as_str().unicode_len() > 0 {
                    let name = path.clone();
                    if data.len() > 0 {
                        let nt = Table { name, columns: data, rows: Vec::new() };
                        proof {
                            assert(row_views(nt.rows@) =~= Seq::<Seq<Seq<char>>>::empty());
                        }
                        DocBuilder { mode, tables, path, current: Some(nt) }
                    } else {
                        let mut rows: Vec<Vec<String>> = Vec::new();
                        rows.push(data);
                        let nt = Table { name, columns: Vec::new(), rows };
                        proof {
                            assert(views(nt.columns@) =~= Seq::<Seq<char>>::empty());
                            assert(row_views(nt.rows@) =~= Seq::<Seq<Seq<char>>>::empty().push(
                                views(data@),
                            ));
                        }
                        DocBuilder { mode, tables, path, current: Some(nt) }
                    }
                } else {
                    DocBuilder { mode, tables, path, current: None }
                }
            },
        }
    }
}

/// The cells of a row that are not `_:` properties.
pub(crate) fn data_cells_of(cells: &Vec<String>) -> (d: Vec<String>)
    ensures
        views(d@) == data_cells(views(cells@)),
{
    proof {
        reveal_strlit("_:");
    }
    let mut d: Vec<String> = Vec::new();
    let mut i: usize = 0;
    while i < cells.len()
        invariant
            i <= cells@.len(),
            views(d@) == data_cells(views(cells@).take(i as int)),
        decreases cells@.len() - i,
    {
        proof {
            assert(views(cells@).take(i + 1).drop_last() =~= views(cells@).take(i as int));
            assert(views(cells@).take(i + 1).last() == cells@[i as int]@);
        }
        if !starts_with(cells[i].as_str(), "_:") {
            let ghost before = d@;
            d.push(cells[i].clone());
            proof {
                assert(views(d@) =~= views(before).push(cells@[i as int]@));
            }
        }
        i += 1;
    }
    proof {
        assert(views(cells@).take(cells@.len() as int) =~= views(cells@));
    }
    d
}

/// Whether some cell looks like a column header.
pub(crate) fn any_header_of(cells: &Vec<String>) -> (r: bool)
    ensures
        r == any_header(views(cells@)),
{
    let mut found = false;
    let mut i: usize = 0;
    while i < cells.len()
        invariant
            i <= cells@.len(),
            found == any_header(views(cells@).take(i as int)),
        decreases cells@.len() - i,
    {
        proof {
            assert(views(cells@).take(i + 1).drop_last() =~= views(cells@).take(i as int));
            assert(views(cells@).take(i + 1).last() == cells@[i as int]@);
        }
        let c = cells[i].as_str();
        let h = contains_char(c, '_') || TypeCode::from_short(c).is_some();
        found = found || h;
        i += 1;
    }
    proof {
        assert(views(cells@).take(cells@.len() as int) =~= views(cells@));
    }
    found
}

/// The fields of all tables, table by table, column by column.
pub fn build_fields(tables: &Vec<Table>) -> (fs: Vec<FieldDef>)
    ensures
        field_views(fs@) == fields_of(table_views(tables@)),
{
    let mut fs: Vec<FieldDef> = Vec::new();
    let mut i: usize = 0;
    while i < tables.len()
        invariant
            i <= tables@.len(),
            field_views(fs@) == fields_of(table_views(tables@).take(i as int)),
        decreases tables@.len() - i,
    {
        let t = &tables[i];
        proof {
            assert(table_views(tables@).take(i + 1).drop_last() =~= table_views(tables@).take(
                i as int,
            ));
            assert(table_views(tables@).take(i + 1).last() == t@);
        }
        let ghost base = field_views(fs@);
        let mut j: usize = 0;
        while j < t.columns.len()
            invariant
                j <= t.columns@.len(),
                field_views(fs@) == base + table_fields(t@).take(j as int),
            decreases t.columns@.len() - j,
        {
            let f = field_from_column(t.name.as_str(), t.columns[j].as_str());
            let ghost before = fs@;
            fs.push(f);
            proof {
                assert(field_views(fs@) =~= field_views(before).push(f@));
                assert(table_fields(t@).take(j + 1) =~= table_fields(t@).take(j as int).push(
                    f@,
                ));
                assert(field_views(fs@) =~= base + table_fields(t@).take(j + 1));
            }
            j += 1;
        }
        proof {
            assert(table_fields(t@).take(t.columns@.len() as int) =~= table_fields(t@));
        }
        i += 1;
    }
    proof {
        assert(table_views(tables@).take(tables@.len() as int) =~= table_views(tables@));
    }
    fs
}

/// The cells of column `idx` over the rows of `table` that have one.
pub fn column_cells(table: &Table, idx: usize) -> (cells: Vec<String>)
    ensures
        views(cells@) == column_of(table@.rows, idx as int),
{
    let mut cells: Vec<String> = Vec::new();
    let mut i: usize = 0;
    while i < table.rows.len()
        invariant
            i <= table.rows@.len(),
            views(cells@) == column_of(table@.rows.take(i as int), idx as int),
        decreases table.rows@.len() - i,
    {
        proof {
            assert(table@.rows.take(i + 1).drop_last() =~= table@.rows.take(i as int));
            assert(table@.rows.take(i + 1).last() == views(table.rows@[i as int]@));
        }
        let row = &table.rows[i];
        if idx < row.len() {
            let ghost before = cells@;
            cells.push(row[idx].clone());
            proof {
                assert(views(cells@) =~= views(before).push(row@[idx as int]@));
            }
        }
        i += 1;
    }
    proof {
        assert(table@.rows.take(table.rows@.len() as int) =~= table@.rows);
    }
    cells
}

/// The cells at position `idx` of the rows that are long enough.
pub open spec fn column_of(rows: Seq<Seq<Seq<char>>>, idx: int) -> Seq<Seq<char>>
    decreases rows.len(),
{
    if rows.len() == 0 {
        Seq::empty()
    } else {
        let r = column_of(rows.drop_last(), idx);
        if 0 <= idx < rows.last().len() {
            r.push(rows.last()[idx])
        } else {
            r
        }
    }
}

/// Reads a `.sson` document: tokens are grouped into tables under their
/// section paths (the `mode` key sets the mode), then each column header
/// becomes a field definition.
pub fn parse_sson(input: &str) -> (r: Result<ParsedSson, SsonError>)
    ensures
        r matches Ok(doc) && ({
            let st = doc_state(line_tokens(lines_of(input@)));
            &&& doc.mode == st.mode
            &&& table_views(doc.tables@) == final_tables(st)
            &&& field_views(doc.fields@) == fields_of(final_tables(st))
        }),
{
    let mut lexer = Lexer::new(input);
    let mut b = DocBuilder {
        mode: SsonMode::Generative,
        tables: Vec::new(),
        path: String::new(),
        current: None,
    };
    proof {
        assert(table_views(b.tables@) =~= Seq::<TableView>::empty());
        assert(lines_of(input@).take(0) =~= Seq::<Seq<char>>::empty());
        assert(b.view() == doc_start());
    }
    loop
        invariant
            lexer.wf(),
            lexer.line_views() == lines_of(input@),
            0 <= lexer.position() <= lines_of(input@).len(),
            b.view() == doc_state(line_tokens(lines_of(input@).take(lexer.position()))),
        ensures
            b.view() == doc_state(line_tokens(lines_of(input@))),
        decreases lines_of(input@).len() - lexer.position(),
    {
        let ghost p = lexer.position();
        proof {
            lemma_scan_token(lines_of(input@), p);
        }
        let tok = match lexer.next_token() {
            Ok(t) => t,
            Err(e) => {
                return Err(e);
            },
        };
        match tok {
            Token::Eof => {
                proof {
                    assert(lines_of(input@).take(lexer.position()) =~= lines_of(input@));
                }
                break ;
            },
            _ => {},
        }
        let ghost toks = line_tokens(lines_of(input@).take(lexer.position()));
        proof {
            assert(toks.drop_last() =~= line_tokens(lines_of(input@).take(p)));
            assert(toks.last() == tok@);
        }
        b = b.step(tok);
    }
    let DocBuilder { mode, mut tables, path: _, current } = b;
    DocBuilder::flush(&mut tables, current);
    let fields = build_fields(&tables);
    Ok(ParsedSson { mode, tables, fields })
}


/// A separator closes the open table and leaves no section open, so rows
/// that follow it, before a new section header, are dropped.
pub proof fn lemma_rows_after_separator_dropped(st: DocState, cells: Seq<Seq<char>>)
    ensures
        doc_step(st, TokenView::Separator).current is None,
        doc_step(st, TokenView::Separator).tables == flush_table(st.tables, st.current),
        doc_step(doc_step(st, TokenView::Separator), TokenView::CsvLine(cells)) == doc_step(
            st,
            TokenView::Separator,
        ),
{
}

/// A header `n:t` without `_:`, whose name part holds no `:`, defines the
/// field `table.n` (name trimmed) with the type that `t`, read
/// case-insensitively, names; `Str` only when `t` names none.
pub proof fn lemma_column_type_after_colon(table: Seq<char>, n: Seq<char>, t: Seq<char>)
    requires
        lacks(n, ':'),
        !contains_text(n + seq![':'] + t, "_:"@),
    ensures
        field_of(table, n + seq![':'] + t).type_code == match type_code_named(lowercase_of(t)) {
            Some(c) => c,
            None => TypeCode::Str,
        },
        field_of(table, n + seq![':'] + t).path == table + "."@ + trim_of(n, TrimClass::White),
{
    let col = n + seq![':'] + t;
    assert forall|j: int| 0 <= j < n.len() implies col[j] != ':' by {
        assert(col[j] == n[j]);
    }
    lemma_first_index_at(col, ':', n.len() as int);
    assert(col.take(n.len() as int) =~= n);
    assert(col.skip(n.len() as int + 1) =~= t);
}


/// A section header `[p]` closes the open table, and the first row with
/// data cells after it opens the table `p` with those cells as columns.
pub proof fn lemma_section_opens_table(st: DocState, p: Seq<char>, cells: Seq<Seq<char>>)
    requires
        p.len() > 0,
        data_cells(cells).len() > 0,
    ensures
        doc_step(doc_step(st, TokenView::Section(p)), TokenView::CsvLine(cells)).current == Some(
            TableView { name: p, columns: data_cells(cells), rows: Seq::empty() },
        ),
        doc_step(doc_step(st, TokenView::Section(p)), TokenView::CsvLine(cells)).tables
            == flush_table(st.tables, st.current),
{
}

} // verus!
