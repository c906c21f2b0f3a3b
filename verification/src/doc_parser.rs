//! The document parser: from tokens to a flat dictionary. Sections open
//! tables (`[a.b]` absolute, `[.c]` relative to the last absolute path,
//! `[_META]` and other `_` sections none), `key = value` lines fill the
//! metadata (`mode` sets the mode), a header row defines the fields of a
//! table with their `_:` properties, and the other rows are data. At the
//! end every column of every table becomes a field holding its cells.

use vstd::prelude::*;
use crate::field_props::{parse_field_property, field_property_of, PropView, FieldPropertySpec};
use crate::obj_adapter::{find_str, first_occurrence, lemma_first_occurrence_at};
use crate::sson_ast::{SsonMode, TypeCode, mode_named, type_code_named};
use crate::sson_lexer::{lines_of, Lexer, Token, TokenView};
use crate::sson_parser::{
    any_header, any_header_of, column_cells, column_of, data_cells, data_cells_of, flush_table,
    lemma_scan_token, line_tokens,
    opt_table_view, strip_prefixes, table_views, trim_start_str, Table, TableView,
};
use crate::text::{
    find_char, first_index_of, has_prefix, join_strings, join_with, lemma_first_index_of,
    lowercase_of, same_text, slice_string, split_char, split_on, starts_with, to_lowercase, trim,
    trim_of, views, TrimClass,
};

verus! {

// ---------------------------------------------------------------------------
// Column headers
// ---------------------------------------------------------------------------

/// A header cell split into its name and the rest: before and from the
/// first `_:`, else around the first `:`, each trimmed.
pub open spec fn header_parts(raw: Seq<char>) -> (Seq<char>, Seq<char>) {
    let t = trim_of(raw, TrimClass::White);
    match first_occurrence(t, "_:"@) {
        Some(pos) => (trim_of(t.take(pos), TrimClass::White), trim_of(t.skip(pos), TrimClass::White)),
        None => match first_index_of(t, ':') {
            Some(pos) => (
                trim_of(t.take(pos), TrimClass::White),
                trim_of(t.skip(pos + 1), TrimClass::White),
            ),
            None => (t, Seq::empty()),
        },
    }
}

/// The type a header's rest names (after leading `_` and `:`), `Str` when
/// it names none.
pub open spec fn header_type(rest: Seq<char>) -> TypeCode {
    if rest.len() == 0 {
        TypeCode::Str
    } else {
        match type_code_named(lowercase_of(strip_prefixes(strip_prefixes(rest, "_"@), ":"@))) {
            Some(t) => t,
            None => TypeCode::Str,
        }
    }
}

/// The properties among comma-separated pieces: each trimmed piece that
/// starts with `_:` and spells a property after it.
pub open spec fn piece_props(pieces: Seq<Seq<char>>) -> Seq<PropView>
    decreases pieces.len(),
{
    if pieces.len() == 0 {
        Seq::empty()
    } else {
        let r = piece_props(pieces.drop_last());
        let p = trim_of(pieces.last(), TrimClass::White);
        if has_prefix(p, "_:"@) {
            match field_property_of(trim_of(p.skip(2), TrimClass::White)) {
                Some(v) => r.push(v),
                None => r,
            }
        } else {
            r
        }
    }
}

/// The properties written in a header's rest.
pub open spec fn header_props(rest: Seq<char>) -> Seq<PropView> {
    piece_props(split_on(rest, ','))
}

/// The views of a list of properties.
pub open spec fn prop_views(v: Seq<FieldPropertySpec>) -> Seq<PropView> {
    v.map_values(|p: FieldPropertySpec| p@)
}

fn header_split(raw: &str) -> (r: (String, String))
    ensures
        (r.0@, r.1@) == header_parts(raw@),
{
    proof {
        reveal_strlit("_:");
    }
    let t = trim(raw);
    let s = t.as_str();
    let n = s.unicode_len();
    match find_str(s, "_:") {
        Some(pos) => {
            proof {
                lemma_first_occurrence_at(s@, "_:"@);
            }
            let head = slice_string(s, 0, pos);
            let tail = slice_string(s, pos, n);
            proof {
                assert(head@ =~= s@.take(pos as int));
                assert(tail@ =~= s@.skip(pos as int));
            }
            (trim(head.as_str()), trim(tail.as_str()))
        },
        None => {
            proof {
                lemma_first_index_of(s@, ':');
            }
            match find_char(s, ':') {
                Some(pos) => {
                    let head = slice_string(s, 0, pos);
                    let tail = slice_string(s, pos + 1, n);
                    proof {
                        assert(head@ =~= s@.take(pos as int));
                        assert(tail@ =~= s@.skip(pos + 1));
                    }
                    (trim(head.as_str()), trim(tail.as_str()))
                },
                None => (t, String::new()),
            }
        },
    }
}

fn type_of_rest(rest: &str) -> (r: TypeCode)
    ensures
        r == header_type(rest@),
{
    proof {
        reveal_strlit("_");
        reveal_strlit(":");
    }
    if rest.unicode_len() == 0 {
        return TypeCode::Str;
    }
    let a = trim_start_str(rest, "_");
    let b = trim_start_str(a.as_str(), ":");
    match TypeCode::from_short(b.as_str()) {
        Some(t) => t,
        None => TypeCode::Str,
    }
}

fn props_of_rest(rest: &str) -> (r: Vec<FieldPropertySpec>)
    ensures
        prop_views(r@) == header_props(rest@),
{
    proof {
        reveal_strlit("_:");
    }
    let pieces = split_char(rest, ',');
    let mut out: Vec<FieldPropertySpec> = Vec::new();
    let mut i: usize = 0;
    while i < pieces.len()
        invariant
            i <= pieces@.len(),
            views(pieces@) == split_on(rest@, ','),
            prop_views(out@) == piece_props(split_on(rest@, ',').take(i as int)),
        decreases pieces@.len() - i,
    {
        proof {
            assert(split_on(rest@, ',').take(i + 1).drop_last() =~= split_on(rest@, ',').take(
                i as int,
            ));
            assert(split_on(rest@, ',').take(i + 1).last() == pieces@[i as int]@);
        }
        proof {
            reveal_strlit("_:");
        }
        let p = trim(pieces[i].as_str());
        if starts_with(p.as_str(), "_:") {
            let n = p.as_str().unicode_len();
            let after = slice_string(p.as_str(), 2, n);
            proof {
                assert(after@ =~= p@.skip(2));
            }
            match parse_field_property(after.as_str()) {
                Some(v) => {
                    let ghost before = out@;
                    out.push(v);
                    proof {
                        assert(prop_views(out@) =~= prop_views(before).push(v@));
                    }
                },
                None => {},
            }
        }
        i += 1;
    }
    proof {
        assert(split_on(rest@, ',').take(pieces@.len() as int) =~= split_on(rest@, ','));
    }
    out
}

/// Reads a header cell: its name, its type and its properties.
pub fn parse_header(raw: &str) -> (r: (String, TypeCode, Vec<FieldPropertySpec>))
    ensures
        r.0@ == header_parts(raw@).0,
        r.1 == header_type(header_parts(raw@).1),
        prop_views(r.2@) == header_props(header_parts(raw@).1),
{
    let (name, rest) = header_split(raw);
    let tc = type_of_rest(rest.as_str());
    let props = props_of_rest(rest.as_str());
    (name, tc, props)
}

// ---------------------------------------------------------------------------
// Field nodes
// ---------------------------------------------------------------------------

/// A field of the flat dictionary. Its values are the cells of its column,
/// as text.
#[derive(Debug)]
pub struct FieldNode {
    pub path: String,
    pub type_code: TypeCode,
    pub required: bool,
    pub default: Option<String>,
    pub constraints: Vec<FieldPropertySpec>,
    pub values: Vec<String>,
}

/// A field node with its strings taken as character sequences.
pub struct NodeView {
    pub path: Seq<char>,
    pub type_code: TypeCode,
    pub required: bool,
    pub default: Option<Seq<char>>,
    pub constraints: Seq<PropView>,
    pub values: Seq<Seq<char>>,
}

impl View for FieldNode {
    type V = NodeView;

    open spec fn view(&self) -> NodeView {
        NodeView {
            path: self.path@,
            type_code: self.type_code,
            required: self.required,
            default: match self.default {
                Some(d) => Some(d@),
                None => None,
            },
            constraints: prop_views(self.constraints@),
            values: views(self.values@),
        }
    }
}

/// The views of a list of nodes.
pub open spec fn node_views(v: Seq<FieldNode>) -> Seq<NodeView> {
    v.map_values(|n: FieldNode| n@)
}

/// A node with its properties applied in order: `req` makes it required,
/// `default=v` sets its default (the last one wins), the others become
/// constraints.
pub open spec fn apply_props(n: NodeView, props: Seq<PropView>) -> NodeView
    decreases props.len(),
{
    if props.len() == 0 {
        n
    } else {
        let m = apply_props(n, props.drop_last());
        match props.last() {
            PropView::Required => NodeView { required: true, ..m },
            PropView::Default(v) => NodeView { default: Some(v), ..m },
            p => NodeView { constraints: m.constraints.push(p), ..m },
        }
    }
}

/// The node for the column `col` of table `table`, with the given values.
pub open spec fn column_node(table: Seq<char>, col: Seq<char>, values: Seq<Seq<char>>) -> NodeView {
    let (name, rest) = header_parts(col);
    apply_props(
        NodeView {
            path: table + "."@ + name,
            type_code: header_type(rest),
            required: false,
            default: None,
            constraints: Seq::empty(),
            values,
        },
        header_props(rest),
    )
}

fn make_node(table: &str, col: &str, values: Vec<String>) -> (n: FieldNode)
    ensures
        n@ == column_node(table@, col@, views(values@)),
{
    proof {
        reveal_strlit(".");
    }
    let (name, tc, mut props) = parse_header(col);
    let mut path = String::from_str(table);
    path.append(".");
    path.append(name.as_str());
    let mut node = FieldNode {
        path,
        type_code: tc,
        required: false,
        default: None,
        constraints: Vec::new(),
        values,
    };
    let ghost all = prop_views(props@);
    let ghost base = node@;
    proof {
        assert(prop_views(node.constraints@) =~= Seq::<PropView>::empty());
        assert(all.take(0) =~= Seq::<PropView>::empty());
    }
    let mut k: usize = 0;
    let total = props.len();
    while props.len() > 0
        invariant
            k + props@.len() == total,
            total == all.len(),
            prop_views(props@) == all.skip(k as int),
            node@ == apply_props(base, all.take(k as int)),
        decreases props@.len(),
    {
        let ghost pv = props@;
        let p = props.remove(0);
        proof {
            assert(prop_views(pv)[0] == pv[0]@);
            assert(all.skip(k as int)[0] == all[k as int]);
            assert(p@ == all[k as int]);
            assert(all.take(k + 1).drop_last() =~= all.take(k as int));
            assert(props@ =~= pv.skip(1));
            assert forall|j: int| 0 <= j < props@.len() implies prop_views(props@)[j] == all.skip(
                k + 1,
            )[j] by {
                assert(prop_views(pv)[j + 1] == pv[j + 1]@);
                assert(all.skip(k as int)[j + 1] == all.skip(k + 1)[j]);
            }
            assert(prop_views(props@) =~= all.skip(k + 1));
        }
        match p {
            FieldPropertySpec::Required => {
                node.required = true;
            },
            FieldPropertySpec::Default(v) => {
                node.default = Some(v);
            },
            other => {
                let ghost before = node.constraints@;
                node.constraints.push(other);
                proof {
                    assert(prop_views(node.constraints@) =~= prop_views(before).push(other@));
                }
            },
        }
        k += 1;
    }
    proof {
        assert(all.take(k as int) =~= all);
    }
    node
}


// ---------------------------------------------------------------------------
// The token loop
// ---------------------------------------------------------------------------

/// The parts of `parts` that are not empty.
pub open spec fn nonempty(parts: Seq<Seq<char>>) -> Seq<Seq<char>>
    decreases parts.len(),
{
    if parts.len() == 0 {
        Seq::empty()
    } else if parts.last().len() == 0 {
        nonempty(parts.drop_last())
    } else {
        nonempty(parts.drop_last()).push(parts.last())
    }
}

/// The index of the first metadata entry with key `k`.
pub open spec fn key_index(m: Seq<(Seq<char>, Seq<char>)>, k: Seq<char>) -> Option<int>
    decreases m.len(),
{
    if m.len() == 0 {
        None
    } else {
        match key_index(m.drop_last(), k) {
            Some(i) => Some(i),
            None => if m.last().0 == k {
                Some(m.len() - 1)
            } else {
                None
            },
        }
    }
}

/// Metadata with `k` set to `v`: its entry replaced, or a new one added.
pub open spec fn meta_insert(m: Seq<(Seq<char>, Seq<char>)>, k: Seq<char>, v: Seq<char>) -> Seq<
    (Seq<char>, Seq<char>),
> {
    match key_index(m, k) {
        Some(i) => m.update(i, (k, v)),
        None => m.push((k, v)),
    }
}

/// What the parser holds after some tokens.
pub struct ParseState {
    pub meta: Seq<(Seq<char>, Seq<char>)>,
    pub mode: SsonMode,
    pub path: Seq<Seq<char>>,
    pub current: Option<TableView>,
    pub tables: Seq<TableView>,
    pub nodes: Seq<NodeView>,
}

/// An empty table named `name`.
pub open spec fn empty_table(name: Seq<char>) -> TableView {
    TableView { name, columns: Seq::empty(), rows: Seq::empty() }
}

/// The names of header cells.
pub open spec fn header_names(cells: Seq<Seq<char>>) -> Seq<Seq<char>> {
    cells.map_values(|c: Seq<char>| header_parts(c).0)
}

/// The nodes a header row defines for table `table`.
pub open spec fn header_nodes(table: Seq<char>, cells: Seq<Seq<char>>) -> Seq<NodeView> {
    cells.map_values(|c: Seq<char>| column_node(table, c, Seq::empty()))
}

/// A row of cells: the first header row of a table defines its fields and
/// columns; otherwise the first row gives the columns and later rows, less
/// their `_:` cells, are data. Outside a table a row is dropped.
pub open spec fn csv_step(st: ParseState, cells: Seq<Seq<char>>) -> ParseState {
    match st.current {
        Some(t) => if any_header(cells) && t.columns.len() == 0 {
            ParseState {
                nodes: st.nodes + header_nodes(t.name, cells),
                current: Some(TableView { columns: header_names(cells), ..t }),
                ..st
            }
        } else if t.columns.len() == 0 && cells.len() > 0 {
            ParseState { current: Some(TableView { columns: header_names(cells), ..t }), ..st }
        } else {
            ParseState { current: Some(TableView { rows: t.rows.push(data_cells(cells)), ..t }), ..st }
        },
        None => st,
    }
}

/// One token's effect.
pub open spec fn parse_step(st: ParseState, tok: TokenView) -> ParseState {
    match tok {
        TokenView::Separator => ParseState {
            tables: flush_table(st.tables, st.current),
            current: None,
            path: Seq::empty(),
            ..st
        },
        TokenView::Section(p) => if has_prefix(p, "_"@) {
            ParseState { tables: flush_table(st.tables, st.current), current: None, ..st }
        } else if has_prefix(p, "."@) {
            ParseState {
                tables: flush_table(st.tables, st.current),
                current: Some(empty_table(join_with(st.path + nonempty(split_on(p.skip(1), '.')), "."@))),
                ..st
            }
        } else {
            ParseState {
                tables: flush_table(st.tables, st.current),
                current: Some(empty_table(join_with(split_on(p, '.'), "."@))),
                path: split_on(p, '.'),
                ..st
            }
        },
        TokenView::Subsection(c) => ParseState {
            tables: flush_table(st.tables, st.current),
            current: Some(empty_table(join_with(st.path + nonempty(split_on(c, '.')), "."@))),
            ..st
        },
        TokenView::KeyValue(k, v) => if k == "mode"@ {
            ParseState { mode: mode_named(lowercase_of(v)), ..st }
        } else {
            ParseState { meta: meta_insert(st.meta, k, v), ..st }
        },
        TokenView::CsvLine(cells) => csv_step(st, cells),
        _ => st,
    }
}

/// The state before any token.
pub open spec fn parse_start() -> ParseState {
    ParseState {
        meta: Seq::empty(),
        mode: SsonMode::Generative,
        path: Seq::empty(),
        current: None,
        tables: Seq::empty(),
        nodes: Seq::empty(),
    }
}

/// The state after the tokens `toks`.
pub open spec fn parse_fold(toks: Seq<TokenView>) -> ParseState
    decreases toks.len(),
{
    if toks.len() == 0 {
        parse_start()
    } else {
        parse_step(parse_fold(toks.drop_last()), toks.last())
    }
}

/// The nodes for the columns of one table, each holding its cells.
pub open spec fn table_nodes(t: TableView) -> Seq<NodeView> {
    Seq::new(t.columns.len(), |i: int| column_node(t.name, t.columns[i], column_of(t.rows, i)))
}

/// The nodes for the columns of all tables, table by table.
pub open spec fn tables_nodes(ts: Seq<TableView>) -> Seq<NodeView>
    decreases ts.len(),
{
    if ts.len() == 0 {
        Seq::empty()
    } else {
        tables_nodes(ts.drop_last()) + table_nodes(ts.last())
    }
}

/// The views of a list of tokens.
pub open spec fn views_of_tokens(v: Seq<Token>) -> Seq<TokenView> {
    v.map_values(|t: Token| t@)
}

/// A parsed document.
#[derive(Debug)]
pub struct SsonDocument {
    pub meta: Vec<(String, String)>,
    pub mode: SsonMode,
    pub tables: Vec<Table>,
    pub nodes: Vec<FieldNode>,
}

/// The views of metadata entries.
pub open spec fn meta_views(m: Seq<(String, String)>) -> Seq<(Seq<char>, Seq<char>)> {
    m.map_values(|e: (String, String)| (e.0@, e.1@))
}

/// The document the tokens `toks` give: the last table is closed, and
/// every column of every table gives its cells to the node of its path (the
/// one its header row defined), or adds a node when there is none.
pub open spec fn document_of(toks: Seq<TokenView>, doc: SsonDocument) -> bool {
    let st = parse_fold(toks);
    let tables = flush_table(st.tables, st.current);
    &&& meta_views(doc.meta@) == st.meta
    &&& doc.mode == st.mode
    &&& table_views(doc.tables@) == tables
    &&& node_views(doc.nodes@) == attach_all(st.nodes, tables_nodes(tables))
}

/// The index of the first node with path `p`.
pub open spec fn path_pos(nodes: Seq<NodeView>, p: Seq<char>) -> Option<int>
    decreases nodes.len(),
{
    if nodes.len() == 0 {
        None
    } else {
        match path_pos(nodes.drop_last(), p) {
            Some(i) => Some(i),
            None => if nodes.last().path == p {
                Some(nodes.len() - 1)
            } else {
                None
            },
        }
    }
}

/// `nodes` with the column node `n` attached: the first node with its
/// path takes its values, or `n` is added when no node has that path.
pub open spec fn attach(nodes: Seq<NodeView>, n: NodeView) -> Seq<NodeView> {
    match path_pos(nodes, n.path) {
        Some(i) => nodes.update(i, NodeView { values: n.values, ..nodes[i] }),
        None => nodes.push(n),
    }
}

/// `nodes` with the column nodes `list` attached in order.
pub open spec fn attach_all(nodes: Seq<NodeView>, list: Seq<NodeView>) -> Seq<NodeView>
    decreases list.len(),
{
    if list.len() == 0 {
        nodes
    } else {
        attach(attach_all(nodes, list.drop_last()), list.last())
    }
}

proof fn lemma_attach_all_append(m: Seq<NodeView>, a: Seq<NodeView>, b: Seq<NodeView>)
    ensures
        attach_all(m, a + b) == attach_all(attach_all(m, a), b),
    decreases b.len(),
{
    if b.len() == 0 {
        assert(a + b =~= a);
    } else {
        lemma_attach_all_append(m, a, b.drop_last());
        assert((a + b).drop_last() =~= a + b.drop_last());
    }
}

proof fn lemma_path_pos_prefix(m: Seq<NodeView>, n: int)
    requires
        0 <= n <= m.len(),
    ensures
        forall|p: Seq<char>| #[trigger] path_pos(m.take(n), p) is Some ==> path_pos(m, p)
            == path_pos(m.take(n), p),
    decreases m.len() - n,
{
    if n < m.len() {
        lemma_path_pos_prefix(m, n + 1);
        assert(m.take(n + 1).drop_last() =~= m.take(n));
        assert forall|p: Seq<char>| #[trigger] path_pos(m.take(n), p) is Some implies path_pos(
            m,
            p,
        ) == path_pos(m.take(n), p) by {
            assert(path_pos(m.take(n + 1), p) == path_pos(m.take(n), p));
        }
    } else {
        assert(m.take(n) =~= m);
    }
}

fn attach_node(nodes: &mut Vec<FieldNode>, node: FieldNode)
    ensures
        node_views(final(nodes)@) == attach(node_views(old(nodes)@), node@),
{
    let ghost m = node_views(nodes@);
    let mut i: usize = 0;
    while i < nodes.len()
        invariant
            i <= nodes@.len(),
            m == node_views(nodes@),
            m == node_views(old(nodes)@),
            path_pos(m.take(i as int), node@.path) is None,
        decreases nodes@.len() - i,
    {
        proof {
            assert(m.take(i + 1).drop_last() =~= m.take(i as int));
        }
        if same_text(nodes[i].path.as_str(), node.path.as_str()) {
            proof {
                assert(path_pos(m.take(i + 1), node@.path) == Some(i as int));
                lemma_path_pos_prefix(m, i + 1);
            }
            let ghost nv = node@;
            let mut found = nodes.remove(i);
            found.values = node.values;
            let ghost fv = found@;
            nodes.insert(i, found);
            proof {
                assert(fv == NodeView { values: nv.values, ..m[i as int] });
                assert(node_views(nodes@) =~= m.update(i as int, fv));
            }
            return;
        }
        i += 1;
    }
    proof {
        assert(m.take(i as int) =~= m);
    }
    let ghost nv = node@;
    nodes.push(node);
    proof {
        assert(node_views(nodes@) =~= m.push(nv));
    }
}

struct DocParser {
    meta: Vec<(String, String)>,
    mode: SsonMode,
    path: Vec<String>,
    current: Option<Table>,
    tables: Vec<Table>,
    nodes: Vec<FieldNode>,
}

impl DocParser {
    spec fn view(&self) -> ParseState {
        ParseState {
            meta: meta_views(self.meta@),
            mode: self.mode,
            path: views(self.path@),
            current: opt_table_view(self.current),
            tables: table_views(self.tables@),
            nodes: node_views(self.nodes@),
        }
    }

    fn flush(&mut self)
        ensures
            final(self).view() == (ParseState {
                tables: flush_table(old(self).view().tables, old(self).view().current),
                current: None,
                ..old(self).view()
            }),
    {
        let cur = self.current.take();
        match cur {
            Some(t) => {
                let ghost before = self.tables@;
                self.tables.push(t);
                proof {
                    assert(table_views(self.tables@) =~= table_views(before).push(t@));
                }
            },
            None => {},
        }
    }

    fn set_meta(&mut self, k: String, v: String)
        ensures
            final(self).view() == (ParseState {
                meta: meta_insert(old(self).view().meta, k@, v@),
                ..old(self).view()
            }),
    {
        let ghost m = meta_views(self.meta@);
        let mut i: usize = 0;
        while i < self.meta.len()
            invariant
                i <= self.meta@.len(),
                m == meta_views(self.meta@),
                m == old(self).view().meta,
                key_index(m.take(i as int), k@) is None,
                self.mode == old(self).mode,
                self.path@ == old(self).path@,
                self.current == old(self).current,
                self.tables@ == old(self).tables@,
                self.nodes@ == old(self).nodes@,
            decreases self.meta@.len() - i,
        {
            proof {
                assert(m.take(i + 1).drop_last() =~= m.take(i as int));
            }
            if same_text(self.meta[i].0.as_str(), k.as_str()) {
                proof {
                    assert(key_index(m.take(i + 1), k@) == Some(i as int));
                    lemma_key_index_prefix(m, i + 1);
                }
                let ghost before = self.meta@;
                self.meta.set(i, (k, v));
                proof {
                    assert(meta_views(self.meta@) =~= m.update(i as int, (k@, v@)));
                }
                return;
            }
            i += 1;
        }
        proof {
            assert(m.take(i as int) =~= m);
        }
        let ghost before = self.meta@;
        self.meta.push((k, v));
        proof {
            assert(meta_views(self.meta@) =~= m.push((k@, v@)));
        }
    }

    fn open_table(&mut self, parts: &Vec<String>)
        ensures
            final(self).view() == (ParseState {
                current: Some(empty_table(join_with(views(parts@), "."@))),
                ..old(self).view()
            }),
    {
        proof {
            reveal_strlit(".");
        }
        let name = join_strings(parts, ".");
        let t = Table { name, columns: Vec::new(), rows: Vec::new() };
        proof {
            assert(t@.columns =~= Seq::<Seq<char>>::empty());
            assert(t@.rows =~= Seq::<Seq<Seq<char>>>::empty());
        }
        self.current = Some(t);
    }

    fn csv(&mut self, cells: Vec<String>)
        ensures
            final(self).view() == csv_step(old(self).view(), views(cells@)),
    {
        let cur = self.current.take();
        match cur {
            Some(t) => {
                let Table { name, columns, mut rows } = t;
                if columns.len() == 0 && any_header_of(&cells) {
                    let mut names: Vec<String> = Vec::new();
                    let mut i: usize = 0;
                    let ghost nodes0 = node_views(self.nodes@);
                    while i < cells.len()
                        invariant
                            i <= cells@.len(),
                            views(names@) == header_names(views(cells@)).take(i as int),
                            node_views(self.nodes@) == nodes0 + header_nodes(name@, views(cells@)).take(i as int),
                            self.meta@ == old(self).meta@,
                            self.mode == old(self).mode,
                            self.path@ == old(self).path@,
                            self.tables@ == old(self).tables@,
                            nodes0 == old(self).view().nodes,
                        decreases cells@.len() - i,
                    {
                        let (nm, _, _) = parse_header(cells[i].as_str());
                        let no_values: Vec<String> = Vec::new();
                        proof {
                            assert(views(no_values@) =~= Seq::<Seq<char>>::empty());
                        }
                        let node = make_node(name.as_str(), cells[i].as_str(), no_values);
                        let ghost nb = self.nodes@;
                        let ghost mb = names@;
                        names.push(nm);
                        self.nodes.push(node);
                        proof {
                            assert(node_views(self.nodes@) =~= node_views(nb).push(node@));
                            assert(views(names@) =~= views(mb).push(nm@));
                            assert(header_names(views(cells@)).take(i + 1) =~= header_names(
                                views(cells@),
                            ).take(i as int).push(nm@));
                            assert(header_nodes(name@, views(cells@)).take(i + 1) =~= header_nodes(
                                name@,
                                views(cells@),
                            ).take(i as int).push(node@));
                        }
                        i += 1;
                    }
                    proof {
                        assert(header_names(views(cells@)).take(i as int) =~= header_names(
                            views(cells@),
                        ));
                        assert(header_nodes(name@, views(cells@)).take(i as int) =~= header_nodes(
                            name@,
                            views(cells@),
                        ));
                    }
                    self.current = Some(Table { name, columns: names, rows });
                } else if columns.len() == 0 && cells.len() > 0 {
                    let mut names: Vec<String> = Vec::new();
                    let mut i: usize = 0;
                    while i < cells.len()
                        invariant
                            i <= cells@.len(),
                            views(names@) == header_names(views(cells@)).take(i as int),
                        decreases cells@.len() - i,
                    {
                        let (nm, _, _) = parse_header(cells[i].as_str());
                        let ghost mb = names@;
                        names.push(nm);
                        proof {
                            assert(views(names@) =~= views(mb).push(nm@));
                            assert(header_names(views(cells@)).take(i + 1) =~= header_names(
                                views(cells@),
                            ).take(i as int).push(nm@));
                        }
                        i += 1;
                    }
                    proof {
                        assert(header_names(views(cells@)).take(i as int) =~= header_names(
                            views(cells@),
                        ));
                    }
                    self.current = Some(Table { name, columns: names, rows });
                } else {
                    let data = data_cells_of(&cells);
                    let ghost rb = rows@;
                    rows.push(data);
                    proof {
                        assert(crate::sson_parser::row_views(rows@) =~= crate::sson_parser::row_views(rb).push(
                            views(data@),
                        ));
                    }
                    self.current = Some(Table { name, columns, rows });
                }
            },
            None => {},
        }
    }
}

proof fn lemma_key_index_prefix(m: Seq<(Seq<char>, Seq<char>)>, n: int)
    requires
        0 <= n <= m.len(),
    ensures
        forall|k: Seq<char>| #[trigger] key_index(m.take(n), k) is Some ==> key_index(m, k)
            == key_index(m.take(n), k),
    decreases m.len() - n,
{
    if n < m.len() {
        lemma_key_index_prefix(m, n + 1);
        assert(m.take(n + 1).drop_last() =~= m.take(n));
        assert forall|k: Seq<char>| #[trigger] key_index(m.take(n), k) is Some implies key_index(
            m,
            k,
        ) == key_index(m.take(n), k) by {
            assert(key_index(m.take(n + 1), k) == key_index(m.take(n), k));
        }
    } else {
        assert(m.take(n) =~= m);
    }
}


/// `base` followed by the non-empty `.`-separated parts of `s`.
fn extend_path(base: &Vec<String>, s: &str) -> (r: Vec<String>)
    ensures
        views(r@) == views(base@) + nonempty(split_on(s@, '.')),
{
    let mut r: Vec<String> = Vec::new();
    let mut i: usize = 0;
    while i < base.len()
        invariant
            i <= base@.len(),
            views(r@) == views(base@).take(i as int),
        decreases base@.len() - i,
    {
        let ghost b = r@;
        r.push(base[i].clone());
        proof {
            assert(views(r@) =~= views(b).push(base@[i as int]@));
            assert(views(r@) =~= views(base@).take(i + 1));
        }
        i += 1;
    }
    let parts = split_char(s, '.');
    let ghost start = views(r@);
    proof {
        assert(views(base@).take(i as int) =~= views(base@));
        assert(nonempty(views(parts@).take(0)) =~= Seq::<Seq<char>>::empty());
    }
    let mut j: usize = 0;
    while j < parts.len()
        invariant
            j <= parts@.len(),
            views(parts@) == split_on(s@, '.'),
            start == views(base@),
            views(r@) == start + nonempty(views(parts@).take(j as int)),
        decreases parts@.len() - j,
    {
        proof {
            assert(views(parts@).take(j + 1).drop_last() =~= views(parts@).take(j as int));
            assert(views(parts@).take(j + 1).last() == parts@[j as int]@);
        }
        if parts[j].as_str().unicode_len() > 0 {
            let ghost b = r@;
            r.push(parts[j].clone());
            proof {
                assert(views(r@) =~= views(b).push(parts@[j as int]@));
            }
        }
        j += 1;
    }
    proof {
        assert(views(parts@).take(j as int) =~= views(parts@));
    }
    r
}

impl DocParser {
    fn step(&mut self, tok: Token)
        ensures
            final(self).view() == parse_step(old(self).view(), tok@),
    {
        proof {
            reveal_strlit("_");
            reveal_strlit(".");
            reveal_strlit("mode");
        }
        match tok {
            Token::Separator => {
                self.flush();
                self.path = Vec::new();
                proof {
                    assert(views(self.path@) =~= Seq::<Seq<char>>::empty());
                }
            },
            Token::Section(p) => {
                self.flush();
                if starts_with(p.as_str(), "_") {
                } else if starts_with(p.as_str(), ".") {
                    let n = p.as_str().unicode_len();
                    let rest = slice_string(p.as_str(), 1, n);
                    proof {
                        assert(rest@ =~= p@.skip(1));
                    }
                    let parts = extend_path(&self.path, rest.as_str());
                    self.open_table(&parts);
                } else {
                    let parts = split_char(p.as_str(), '.');
                    self.open_table(&parts);
                    self.path = parts;
                }
            },
            Token::Subsection(c) => {
                self.flush();
                let parts = extend_path(&self.path, c.as_str());
                self.open_table(&parts);
            },
            Token::KeyValue(k, v) => {
                if same_text(k.as_str(), "mode") {
                    let lower = to_lowercase(v.as_str());
                    self.mode = SsonMode::from_lowercase(lower.as_str());
                } else {
                    self.set_meta(k, v);
                }
            },
            Token::CsvLine(cells) => {
                self.csv(cells);
            },
            Token::Comment(_, _) => {},
            Token::Eof => {},
        }
    }
}

/// Attaches the column nodes of the tables `tables` to `nodes`.
fn attach_columns(tables: &Vec<Table>, nodes: &mut Vec<FieldNode>)
    ensures
        node_views(final(nodes)@) == attach_all(
            node_views(old(nodes)@),
            tables_nodes(table_views(tables@)),
        ),
{
    let ghost m0 = node_views(nodes@);
    let mut t: usize = 0;
    proof {
        assert(table_views(tables@).take(0) =~= Seq::<TableView>::empty());
    }
    while t < tables.len()
        invariant
            t <= tables@.len(),
            m0 == node_views(old(nodes)@),
            node_views(nodes@) == attach_all(m0, tables_nodes(table_views(tables@).take(t as int))),
        decreases tables@.len() - t,
    {
        let table = &tables[t];
        let ghost done = tables_nodes(table_views(tables@).take(t as int));
        let mut c: usize = 0;
        proof {
            assert(table_nodes(table@).take(0) =~= Seq::<NodeView>::empty());
            assert(done + table_nodes(table@).take(0) =~= done);
        }
        while c < table.columns.len()
            invariant
                c <= table.columns@.len(),
                table == tables@[t as int],
                node_views(nodes@) == attach_all(m0, done + table_nodes(table@).take(c as int)),
            decreases table.columns@.len() - c,
        {
            let values = column_cells(table, c);
            let node = make_node(table.name.as_str(), table.columns[c].as_str(), values);
            let ghost nv = node@;
            let ghost prev = done + table_nodes(table@).take(c as int);
            attach_node(nodes, node);
            proof {
                assert(prev.push(nv) =~= done + table_nodes(table@).take(c + 1));
                assert(prev.push(nv).drop_last() =~= prev);
            }
            c += 1;
        }
        proof {
            assert(table_nodes(table@).take(c as int) =~= table_nodes(table@));
            assert(table_views(tables@).take(t + 1).drop_last() =~= table_views(tables@).take(
                t as int,
            ));
            assert(table_views(tables@).take(t + 1).last() == table@);
        }
        t += 1;
    }
    proof {
        assert(table_views(tables@).take(t as int) =~= table_views(tables@));
    }
}

/// Builds the document that a sequence of tokens describes.
pub fn parse_tokens(tokens: Vec<Token>) -> (doc: SsonDocument)
    ensures
        document_of(views_of_tokens(tokens@), doc),
{
    let mut p = DocParser {
        meta: Vec::new(),
        mode: SsonMode::Generative,
        path: Vec::new(),
        current: None,
        tables: Vec::new(),
        nodes: Vec::new(),
    };
    proof {
        assert(p.view() == parse_start()) by {
            assert(meta_views(p.meta@) =~= Seq::<(Seq<char>, Seq<char>)>::empty());
            assert(views(p.path@) =~= Seq::<Seq<char>>::empty());
            assert(table_views(p.tables@) =~= Seq::<TableView>::empty());
            assert(node_views(p.nodes@) =~= Seq::<NodeView>::empty());
        }
        assert(views_of_tokens(tokens@).take(0) =~= Seq::<TokenView>::empty());
    }
    let mut tokens = tokens;
    let ghost all = views_of_tokens(tokens@);
    let total = tokens.len();
    let mut i: usize = 0;
    while tokens.len() > 0
        invariant
            i + tokens@.len() == total,
            total == all.len(),
            views_of_tokens(tokens@) == all.skip(i as int),
            p.view() == parse_fold(all.take(i as int)),
        decreases tokens@.len(),
    {
        let ghost tv = tokens@;
        let tok = tokens.remove(0);
        proof {
            assert(views_of_tokens(tv)[0] == tv[0]@);
            assert(all.skip(i as int)[0] == all[i as int]);
            assert(all.take(i + 1).drop_last() =~= all.take(i as int));
            assert(all.take(i + 1).last() == tok@);
            assert forall|j: int| 0 <= j < tokens@.len() implies views_of_tokens(tokens@)[j]
                == all.skip(i + 1)[j] by {
                assert(views_of_tokens(tv)[j + 1] == tv[j + 1]@);
                assert(all.skip(i as int)[j + 1] == all.skip(i + 1)[j]);
            }
            assert(views_of_tokens(tokens@) =~= all.skip(i + 1));
        }
        p.step(tok);
        i += 1;
    }
    proof {
        assert(all.take(i as int) =~= all);
    }
    p.flush();
    let DocParser { meta, mode, path: _, current: _, tables, mut nodes } = p;
    attach_columns(&tables, &mut nodes);
    SsonDocument { meta, mode, tables, nodes }
}

/// Reads a document: its lines become tokens, and the tokens a document.
pub fn parse_document(input: &str) -> (doc: SsonDocument)
    ensures
        document_of(line_tokens(lines_of(input@)), doc),
{
    let mut lexer = Lexer::new(input);
    let mut tokens: Vec<Token> = Vec::new();
    proof {
        assert(lines_of(input@).take(0) =~= Seq::<Seq<char>>::empty());
        assert(views_of_tokens(tokens@) =~= Seq::<TokenView>::empty());
    }
    loop
        invariant
            lexer.wf(),
            lexer.line_views() == lines_of(input@),
            0 <= lexer.position() <= lines_of(input@).len(),
            views_of_tokens(tokens@) == line_tokens(lines_of(input@).take(lexer.position())),
        ensures
            views_of_tokens(tokens@) == line_tokens(lines_of(input@)),
        decreases lines_of(input@).len() - lexer.position(),
    {
        let ghost p = lexer.position();
        proof {
            lemma_scan_token(lines_of(input@), p);
        }
        let tok = match lexer.next_token() {
            Ok(t) => t,
            Err(_) => {
                proof {
                    assert(false);
                }
                break ;
            },
        };
        match tok {
            Token::Eof => {
                proof {
                    assert(lines_of(input@).take(lexer.position()) =~= lines_of(input@));
                }
                break ;
            },
            _ => {},
        }
        let ghost before = tokens@;
        tokens.push(tok);
        proof {
            assert(views_of_tokens(tokens@) =~= views_of_tokens(before).push(tok@));
        }
    }
    parse_tokens(tokens)
}
} // verus!
