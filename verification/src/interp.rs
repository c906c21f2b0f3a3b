//! The assignment language of the interpreter: one definition per line,
//! `type name = expression`, `#` comments, and reactive names that start
//! with an upper-case letter.

use vstd::prelude::*;
use crate::sson_lexer::lines_of;
use crate::text::{
    chars_of, char_in_class, find_char, first_index_of, in_class, slice_string, split_char,
    trail_count, trim, trim_of, uppercase, is_uppercase, views, TrimClass, lemma_first_index_of,
    lemma_split_len, lemma_trail_count, lemma_trail_count_exact, split_on, numeric, is_numeric,
    is_white, lacks, lemma_first_index_at, lemma_trim_ends_kept, lemma_lead_count_exact,
};

verus! {

/// Operators of expressions.
#[derive(Debug, Clone, Copy, PartialEq, Eq, Structural)]
pub enum Op {
    Mul,
    Add,
    Sub,
    Div,
    Eval,
    Assign,
}

/// A definition read from one line: the variable, whether it is reactive,
/// and the text of its expression.
#[derive(Debug, Clone)]
pub struct NodeDef {
    pub name: String,
    pub is_react: bool,
    pub expr: String,
}

/// A definition with its strings taken as character sequences.
pub struct NodeView {
    pub name: Seq<char>,
    pub is_react: bool,
    pub expr: Seq<char>,
}

impl View for NodeDef {
    type V = NodeView;

    open spec fn view(&self) -> NodeView {
        NodeView { name: self.name@, is_react: self.is_react, expr: self.expr@ }
    }
}

/// The views of a sequence of definitions.
pub open spec fn node_views(ns: Seq<NodeDef>) -> Seq<NodeView> {
    Seq::new(ns.len(), |i: int| ns[i]@)
}

/// What one line holds.
pub enum LineView {
    /// A blank line or a `#` comment.
    Skip,
    /// A definition.
    Assign(NodeView),
    /// Anything else.
    Invalid,
}

/// The last white-space separated word of `s`.
pub open spec fn last_word(s: Seq<char>) -> Seq<char> {
    s.skip(s.len() - trail_count(s, TrimClass::NonWhite))
}

/// The meaning of one raw line: blank or `#` lines are skipped; otherwise
/// the line must hold an `=` with something on both sides; the variable is
/// the last word before the `=`, reactive when its first letter is
/// upper-case, and the expression is what follows the `=`.
pub open spec fn line_meaning(raw: Seq<char>) -> LineView {
    let l = trim_of(raw, TrimClass::White);
    if l.len() == 0 || l[0] == '#' {
        LineView::Skip
    } else {
        match first_index_of(l, '=') {
            Some(p) => {
                let left = trim_of(l.take(p), TrimClass::White);
                let right = trim_of(l.skip(p + 1), TrimClass::White);
                if left.len() == 0 || right.len() == 0 {
                    LineView::Invalid
                } else {
                    let name = last_word(left);
                    LineView::Assign(
                        NodeView { name, is_react: uppercase(name[0]), expr: right },
                    )
                }
            },
            None => LineView::Invalid,
        }
    }
}

/// The message for an invalid (trimmed) line.
pub open spec fn invalid_message(l: Seq<char>) -> Seq<char> {
    "Sintassi non valida: '"@ + l + "'"@
}

/// The definitions of a program's lines, in order, or the message for its
/// first invalid line.
pub open spec fn program_meaning(lines: Seq<Seq<char>>) -> Result<Seq<NodeView>, Seq<char>>
    decreases lines.len(),
{
    if lines.len() == 0 {
        Ok(Seq::empty())
    } else {
        match program_meaning(lines.drop_last()) {
            Err(e) => Err(e),
            Ok(nodes) => match line_meaning(lines.last()) {
                LineView::Skip => Ok(nodes),
                LineView::Assign(n) => Ok(nodes.push(n)),
                LineView::Invalid => Err(invalid_message(trim_of(lines.last(), TrimClass::White))),
            },
        }
    }
}

proof fn lemma_trimmed_ends(s: Seq<char>)
    requires
        trim_of(s, TrimClass::White).len() > 0,
    ensures
        !is_white_end(trim_of(s, TrimClass::White)),
{
    let t = s.skip(crate::text::lead_count(s, TrimClass::White) as int);
    lemma_trail_count(t, TrimClass::White);
}

/// The last character of `s` is white space.
pub open spec fn is_white_end(s: Seq<char>) -> bool {
    s.len() > 0 && in_class(s.last(), TrimClass::White)
}

/// The last word of a trimmed, non-empty text.
fn last_word_of(s: &str) -> (w: String)
    ensures
        w@ == last_word(s@),
{
    let chars = chars_of(s);
    let n = chars.len();
    let mut k: usize = n;
    while k > 0 && char_in_class(chars[k - 1], TrimClass::NonWhite)
        invariant
            k <= n,
            n == s@.len(),
            chars@ == s@,
            forall|i: int| k <= i < n ==> in_class(#[trigger] s@[i], TrimClass::NonWhite),
        decreases k,
    {
        k -= 1;
    }
    proof {
        lemma_trail_count_exact(s@, TrimClass::NonWhite, (n - k) as int);
    }
    slice_string(s, k, n)
}

/// The meaning of one line.
pub fn parse_line(raw: &str) -> (r: Option<Option<NodeDef>>)
    ensures
        r matches Some(Some(n)) ==> line_meaning(raw@) == LineView::Assign(n@),
        r matches Some(None) ==> line_meaning(raw@) is Skip,
        r is None ==> line_meaning(raw@) is Invalid,
{
    let line = trim(raw);
    let l = line.as_str();
    let chars = chars_of(l);
    if chars.len() == 0 || chars[0] == '#' {
        return Some(None);
    }
    proof {
        lemma_first_index_of(l@, '=');
    }
    match find_char(l, '=') {
        Some(p) => {
            let n = chars.len();
            let head = slice_string(l, 0, p);
            let tail = slice_string(l, p + 1, n);
            proof {
                assert(head@ =~= l@.take(p as int));
                assert(tail@ =~= l@.skip(p + 1));
            }
            let left = trim(head.as_str());
            let right = trim(tail.as_str());
            if left.as_str().unicode_len() == 0 || right.as_str().unicode_len() == 0 {
                return None;
            }
            let name = last_word_of(left.as_str());
            proof {
                lemma_trimmed_ends(head@);
                let lv = left@;
                assert(!in_class(lv.last(), TrimClass::White));
                assert(in_class(lv.last(), TrimClass::NonWhite));
                assert(trail_count(lv, TrimClass::NonWhite) >= 1);
                lemma_trail_count(lv, TrimClass::NonWhite);
                assert(name@.len() > 0);
            }
            let first = name.as_str().get_char(0);
            let is_react = is_uppercase(first);
            Some(Some(NodeDef { name, is_react, expr: right }))
        },
        None => None,
    }
}

/// The definitions of a program, in order, or the message for its first
/// invalid line.
pub fn parse_program(code: &str) -> (r: Result<Vec<NodeDef>, String>)
    ensures
        r matches Ok(nodes) ==> program_meaning(lines_of(code@)) == Ok::<Seq<NodeView>, Seq<char>>(
            node_views(nodes@),
        ),
        r matches Err(e) ==> program_meaning(lines_of(code@)) == Err::<Seq<NodeView>, Seq<char>>(
            e@,
        ),
{
    let mut lines = split_char(code, '\n');
    proof {
        lemma_split_len(code@, '\n');
    }
    let k = lines.len();
    if k > 0 && lines[k - 1].as_str().unicode_len() == 0 {
        let ghost before = lines@;
        lines.pop();
        proof {
            assert(views(lines@) =~= views(before).drop_last());
        }
    }
    let ghost ls = views(lines@);
    let mut nodes: Vec<NodeDef> = Vec::new();
    let mut i: usize = 0;
    proof {
        assert(ls.take(0) =~= Seq::<Seq<char>>::empty());
        assert(node_views(nodes@) =~= Seq::<NodeView>::empty());
    }
    while i < lines.len()
        invariant
            ls == views(lines@),
            ls == lines_of(code@),
            i <= lines@.len(),
            program_meaning(ls.take(i as int)) == Ok::<Seq<NodeView>, Seq<char>>(
                node_views(nodes@),
            ),
        decreases lines@.len() - i,
    {
        proof {
            assert(ls.take(i + 1).drop_last() =~= ls.take(i as int));
            assert(ls.take(i + 1).last() == lines@[i as int]@);
        }
        match parse_line(lines[i].as_str()) {
            Some(Some(n)) => {
                let ghost before = nodes@;
                nodes.push(n);
                proof {
                    assert(node_views(nodes@) =~= node_views(before).push(nodes@.last()@));
                }
            },
            Some(None) => {},
            None => {
                let t = trim(lines[i].as_str());
                let mut msg = String::from_str("Sintassi non valida: '");
                msg.append(t.as_str());
                msg.append("'");
                proof {
                    assert(msg@ =~= invalid_message(trim_of(lines@[i as int]@, TrimClass::White)));
                    lemma_error_stays(ls, (i + 1) as int);
                }
                return Err(msg);
            },
        }
        i += 1;
    }
    proof {
        assert(ls.take(lines@.len() as int) =~= ls);
    }
    Ok(nodes)
}

proof fn lemma_error_stays(lines: Seq<Seq<char>>, k: int)
    requires
        0 <= k <= lines.len(),
        program_meaning(lines.take(k)) is Err,
    ensures
        program_meaning(lines) == program_meaning(lines.take(k)),
    decreases lines.len() - k,
{
    if k == lines.len() {
        assert(lines.take(k) =~= lines);
    } else {
        assert(lines.take(k + 1).drop_last() =~= lines.take(k));
        lemma_error_stays(lines, k + 1);
    }
}

/// Every `*`-separated factor of `expr` has a character after trimming.
pub open spec fn factors_nonempty(expr: Seq<char>) -> bool {
    forall|i: int|
        0 <= i < split_on(expr, '*').len() ==> trim_of(
            #[trigger] split_on(expr, '*')[i],
            TrimClass::White,
        ).len() > 0
}

/// The (input, dependent) pairs that factors `pieces` of the definition
/// of `name` give: each trimmed factor that does not start with a numeric
/// character is an input.
pub open spec fn factor_deps(pieces: Seq<Seq<char>>, name: Seq<char>) -> Seq<(Seq<char>, Seq<char>)>
    decreases pieces.len(),
{
    if pieces.len() == 0 {
        Seq::empty()
    } else {
        let r = factor_deps(pieces.drop_last(), name);
        let t = trim_of(pieces.last(), TrimClass::White);
        if t.len() > 0 && !numeric(t[0]) {
            r.push((t, name))
        } else {
            r
        }
    }
}

/// The (input, dependent) pairs of all reactive definitions, in order.
pub open spec fn react_deps(nodes: Seq<NodeView>) -> Seq<(Seq<char>, Seq<char>)>
    decreases nodes.len(),
{
    if nodes.len() == 0 {
        Seq::empty()
    } else {
        let n = nodes.last();
        react_deps(nodes.drop_last()) + if n.is_react {
            factor_deps(split_on(n.expr, '*'), n.name)
        } else {
            Seq::empty()
        }
    }
}

/// The views of (input, dependent) pairs.
pub open spec fn pair_views(v: Seq<(String, String)>) -> Seq<(Seq<char>, Seq<char>)> {
    Seq::new(v.len(), |i: int| (v[i].0@, v[i].1@))
}

/// The (input, dependent) pairs of the reactive definitions: which
/// variables each reactive variable must be recomputed after.
pub fn react_dependencies(nodes: &Vec<NodeDef>) -> (deps: Vec<(String, String)>)
    requires
        forall|i: int| 0 <= i < nodes@.len() && #[trigger] nodes@[i].is_react ==> factors_nonempty(
            nodes@[i].expr@,
        ),
    ensures
        pair_views(deps@) == react_deps(node_views(nodes@)),
{
    let mut deps: Vec<(String, String)> = Vec::new();
    let mut i: usize = 0;
    while i < nodes.len()
        invariant
            i <= nodes@.len(),
            forall|k: int| 0 <= k < nodes@.len() && #[trigger] nodes@[k].is_react ==> factors_nonempty(
                nodes@[k].expr@,
            ),
            pair_views(deps@) == react_deps(node_views(nodes@).take(i as int)),
        decreases nodes@.len() - i,
    {
        let node = &nodes[i];
        proof {
            assert(node_views(nodes@).take(i + 1).drop_last() =~= node_views(nodes@).take(i as int));
            assert(node_views(nodes@).take(i + 1).last() == node@);
        }
        let ghost base = pair_views(deps@);
        if node.is_react {
            let pieces = split_char(node.expr.as_str(), '*');
            let mut j: usize = 0;
            while j < pieces.len()
                invariant
                    j <= pieces@.len(),
                    views(pieces@) == split_on(node.expr@, '*'),
                    factors_nonempty(node.expr@),
                    pair_views(deps@) == base + factor_deps(views(pieces@).take(j as int), node.name@),
                decreases pieces@.len() - j,
            {
                proof {
                    assert(views(pieces@).take(j + 1).drop_last() =~= views(pieces@).take(j as int));
                    assert(views(pieces@).take(j + 1).last() == pieces@[j as int]@);
                    assert(trim_of(split_on(node.expr@, '*')[j as int], TrimClass::White).len() > 0);
                }
                let t = trim(pieces[j].as_str());
                let first = t.as_str().get_char(0);
                if !is_numeric(first) {
                    let ghost before = deps@;
                    deps.push((t, node.name.clone()));
                    proof {
                        assert(pair_views(deps@) =~= pair_views(before).push((t@, node.name@)));
                    }
                }
                j += 1;
            }
            proof {
                assert(views(pieces@).take(pieces@.len() as int) =~= views(pieces@));
            }
        } else {
            proof {
                assert(base + Seq::<(Seq<char>, Seq<char>)>::empty() =~= base);
            }
        }
        i += 1;
    }
    proof {
        assert(node_views(nodes@).take(nodes@.len() as int) =~= node_views(nodes@));
    }
    deps
}


/// A definition `t n = e` (a type word `t`, a name `n` without white space,
/// an expression `e` with no white space at its ends) defines `n` with the
/// expression `e`, and `n` is reactive exactly when its first character is
/// upper-case, whatever its other characters are.
pub proof fn lemma_reactive_by_first_letter(t: Seq<char>, n: Seq<char>, e: Seq<char>)
    requires
        t.len() > 0,
        !is_white(t[0]),
        t[0] != '#',
        lacks(t, '='),
        n.len() > 0,
        forall|i: int| 0 <= i < n.len() ==> !is_white(#[trigger] n[i]),
        lacks(n, '='),
        e.len() > 0,
        !is_white(e[0]),
        !is_white(e.last()),
    ensures
        line_meaning(t + seq![' '] + n + seq![' ', '=', ' '] + e) == LineView::Assign(
            NodeView { name: n, is_react: uppercase(n[0]), expr: e },
        ),
{
    let l = t + seq![' '] + n + seq![' ', '=', ' '] + e;
    let p: int = (t.len() + 1 + n.len() + 1) as int;
    assert(is_white(' ')) by {
        assert((' ' as u32) == 0x20);
    }
    assert(l[0] == t[0]);
    assert(l.last() == e.last());
    lemma_trim_ends_kept(l);
    assert forall|j: int| 0 <= j < p implies l[j] != '=' by {
        if j < t.len() {
            assert(l[j] == t[j]);
        } else if t.len() < j < t.len() + 1 + n.len() {
            assert(l[j] == n[j - t.len() - 1]);
        }
    }
    assert(l[p] == '=');
    lemma_first_index_at(l, '=', p);
    // The left side, trimmed, is `t n`.
    let left0 = l.take(p);
    let tn = t + seq![' '] + n;
    assert(left0 =~= tn + seq![' ']);
    lemma_lead_count_exact(left0, TrimClass::White, 0);
    assert(left0.skip(0) =~= left0);
    assert(left0[left0.len() - 2] == n.last());
    lemma_trail_count_exact(left0, TrimClass::White, 1);
    assert(left0.take(left0.len() - 1) =~= tn);
    // The right side, trimmed, is `e`.
    let right0 = l.skip(p + 1);
    assert(right0 =~= seq![' '] + e);
    assert(right0[1] == e[0]);
    lemma_lead_count_exact(right0, TrimClass::White, 1);
    assert(right0.skip(1) =~= e);
    lemma_trim_ends_kept(e);
    // The last word of `t n` is `n`.
    assert forall|i: int| tn.len() - n.len() <= i < tn.len() implies in_class(
        #[trigger] tn[i],
        TrimClass::NonWhite,
    ) by {
        assert(tn[i] == n[i - (tn.len() - n.len())]);
    }
    assert(tn[tn.len() - n.len() - 1] == ' ');
    lemma_trail_count_exact(tn, TrimClass::NonWhite, n.len() as int);
    assert(tn.skip(tn.len() - n.len()) =~= n);
    assert(trim_of(l, TrimClass::White) == l);
    assert(first_index_of(l, '=') == Some(p));
    assert(trim_of(l.take(p), TrimClass::White) == tn);
    assert(trim_of(l.skip(p + 1), TrimClass::White) == e);
    assert(last_word(tn) == n);
}

/// Some node of `nodes` named `name` is reactive.
pub open spec fn names_reactive(nodes: Seq<NodeView>, name: Seq<char>) -> bool {
    exists|j: int| 0 <= j < nodes.len() && nodes[j].is_react && nodes[j].name == name
}

/// Every dependency pair of a node list names as its dependent a reactive
/// node of the list; a node that is not reactive adds no pairs.
pub proof fn lemma_only_reactive_nodes_depend(nodes: Seq<NodeView>, extra: NodeView)
    ensures
        forall|i: int|
            0 <= i < react_deps(nodes).len() ==> names_reactive(nodes, (
            #[trigger] react_deps(nodes)[i]).1),
        !extra.is_react ==> react_deps(nodes.push(extra)) == react_deps(nodes),
    decreases nodes.len(),
{
    assert(nodes.push(extra).drop_last() =~= nodes);
    if !extra.is_react {
        assert(react_deps(nodes.push(extra)) =~= react_deps(nodes));
    }
    if nodes.len() > 0 {
        let init = nodes.drop_last();
        let n = nodes.last();
        lemma_only_reactive_nodes_depend(init, n);
        let fd = factor_deps(split_on(n.expr, '*'), n.name);
        lemma_factor_deps_name(split_on(n.expr, '*'), n.name);
        let tail = if n.is_react {
            fd
        } else {
            Seq::empty()
        };
        assert(react_deps(nodes) == react_deps(init) + tail);
        assert forall|i: int| 0 <= i < react_deps(nodes).len() implies names_reactive(
            nodes,
            (#[trigger] react_deps(nodes)[i]).1,
        ) by {
            if i < react_deps(init).len() {
                assert(react_deps(nodes)[i] == react_deps(init)[i]);
                assert(names_reactive(init, react_deps(init)[i].1));
                let j = choose|j: int|
                    0 <= j < init.len() && init[j].is_react && init[j].name == react_deps(
                        init,
                    )[i].1;
                assert(nodes[j] == init[j]);
            } else {
                assert(react_deps(nodes)[i] == tail[i - react_deps(init).len()]);
                assert(n.is_react);
                assert(fd[i - react_deps(init).len()].1 == n.name);
                assert(nodes[nodes.len() - 1] == n);
            }
        }
    }
}

proof fn lemma_factor_deps_name(pieces: Seq<Seq<char>>, name: Seq<char>)
    ensures
        forall|i: int| 0 <= i < factor_deps(pieces, name).len() ==> (
        #[trigger] factor_deps(pieces, name)[i]).1 == name,
    decreases pieces.len(),
{
    if pieces.len() > 0 {
        let r = factor_deps(pieces.drop_last(), name);
        lemma_factor_deps_name(pieces.drop_last(), name);
        assert forall|i: int| 0 <= i < factor_deps(pieces, name).len() implies (
        #[trigger] factor_deps(pieces, name)[i]).1 == name by {
            if i < r.len() {
                assert(factor_deps(pieces, name)[i] == r[i]);
            }
        }
    }
}


/// `input` is a factor of the reactive node `name` of `nodes`: a
/// `*`-separated piece of its expression, trimmed, not empty and not
/// starting with a digit.
pub open spec fn reactive_factor(nodes: Seq<NodeView>, input: Seq<char>, name: Seq<char>) -> bool {
    exists|j: int, k: int|
        0 <= j < nodes.len() && nodes[j].is_react && nodes[j].name == name && 0 <= k < split_on(
            nodes[j].expr,
            '*',
        ).len() && trim_of(#[trigger] split_on(nodes[j].expr, '*')[k], TrimClass::White) == input
            && input.len() > 0 && !numeric(input[0])
}

proof fn lemma_factor_deps_inputs(pieces: Seq<Seq<char>>, name: Seq<char>)
    ensures
        forall|i: int|
            0 <= i < factor_deps(pieces, name).len() ==> exists|k: int|
                0 <= k < pieces.len() && trim_of(#[trigger] pieces[k], TrimClass::White) == (
                #[trigger] factor_deps(pieces, name)[i]).0 && factor_deps(pieces, name)[i].0.len()
                    > 0 && !numeric(factor_deps(pieces, name)[i].0[0]),
    decreases pieces.len(),
{
    if pieces.len() > 0 {
        let init = pieces.drop_last();
        let r = factor_deps(init, name);
        lemma_factor_deps_inputs(init, name);
        assert forall|i: int| 0 <= i < factor_deps(pieces, name).len() implies exists|k: int|
            0 <= k < pieces.len() && trim_of(#[trigger] pieces[k], TrimClass::White) == (
            #[trigger] factor_deps(pieces, name)[i]).0 && factor_deps(pieces, name)[i].0.len() > 0
                && !numeric(factor_deps(pieces, name)[i].0[0]) by {
            if i < r.len() {
                assert(factor_deps(pieces, name)[i] == r[i]);
                let k = choose|k: int|
                    0 <= k < init.len() && trim_of(#[trigger] init[k], TrimClass::White) == (
                    #[trigger] r[i]).0 && r[i].0.len() > 0 && !numeric(r[i].0[0]);
                assert(pieces[k] == init[k]);
            } else {
                assert(pieces[pieces.len() - 1] == pieces.last());
            }
        }
    }
}

/// Every dependency pair `(input, name)` joins a reactive node `name` of
/// the list to a factor of its own expression.
pub proof fn lemma_dependency_inputs_are_factors(nodes: Seq<NodeView>)
    ensures
        forall|i: int|
            0 <= i < react_deps(nodes).len() ==> reactive_factor(
                nodes,
                (#[trigger] react_deps(nodes)[i]).0,
                react_deps(nodes)[i].1,
            ),
    decreases nodes.len(),
{
    if nodes.len() > 0 {
        let init = nodes.drop_last();
        let n = nodes.last();
        lemma_dependency_inputs_are_factors(init);
        let pieces = split_on(n.expr, '*');
        let fd = factor_deps(pieces, n.name);
        lemma_factor_deps_name(pieces, n.name);
        lemma_factor_deps_inputs(pieces, n.name);
        let tail = if n.is_react {
            fd
        } else {
            Seq::empty()
        };
        assert(react_deps(nodes) == react_deps(init) + tail);
        assert forall|i: int| 0 <= i < react_deps(nodes).len() implies reactive_factor(
            nodes,
            (#[trigger] react_deps(nodes)[i]).0,
            react_deps(nodes)[i].1,
        ) by {
            let d = react_deps(nodes)[i];
            if i < react_deps(init).len() {
                assert(d == react_deps(init)[i]);
                assert(reactive_factor(init, d.0, d.1));
                let (j, k) = choose|j: int, k: int|
                    0 <= j < init.len() && init[j].is_react && init[j].name == d.1 && 0 <= k
                        < split_on(init[j].expr, '*').len() && trim_of(
                        #[trigger] split_on(init[j].expr, '*')[k],
                        TrimClass::White,
                    ) == d.0 && d.0.len() > 0 && !numeric(d.0[0]);
                assert(nodes[j] == init[j]);
                assert(trim_of(split_on(nodes[j].expr, '*')[k], TrimClass::White) == d.0);
            } else {
                let m = i - react_deps(init).len();
                assert(d == tail[m]);
                assert(n.is_react);
                assert(fd[m].1 == n.name);
                let k = choose|k: int|
                    0 <= k < pieces.len() && trim_of(#[trigger] pieces[k], TrimClass::White) == (
                    #[trigger] fd[m]).0 && fd[m].0.len() > 0 && !numeric(fd[m].0[0]);
                let j = nodes.len() - 1;
                assert(nodes[j] == n);
                assert(trim_of(split_on(nodes[j].expr, '*')[k], TrimClass::White) == d.0);
            }
        }
    }
}

} // verus!
