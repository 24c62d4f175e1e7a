//! The concrete parse tree.
//!
//! A [`Node`] carries, per atom, the matched text, and per composite the
//! child nodes in match order; a capture additionally tags its child with a
//! name, and a template-attached sequence keeps its template beside its
//! children until rendering.

use vstd::prelude::*;
use crate::parser::expression::{repl_item_view, ReplItem, ReplItemV, ReplTemplate};

verus! {

broadcast use vstd::seq::group_seq_axioms, vstd::std_specs::vec::group_vec_axioms;

/// One node of the parse tree.
#[derive(Debug, PartialEq)]
pub enum Node {
    /// The text an atom matched.
    Val(String),
    /// The result of a rule reference, tagged with the rule's name.
    Rule(String, Box<Node>),
    /// The result of a named capture.
    Named(String, Box<Node>),
    /// The children of a sequence or repetition, in match order.
    List(Vec<Node>),
    /// A template kept beside the children it will be rendered against.
    Transf2(ReplTemplate, Vec<Node>),
}

/// Mathematical model of a parse-tree node.
#[verifier::ext_equal]
pub ghost enum NodeV {
    Val(Seq<char>),
    Rule(Seq<char>, Box<NodeV>),
    Named(Seq<char>, Box<NodeV>),
    List(Seq<NodeV>),
    Transf2(Seq<ReplItemV>, Seq<NodeV>),
}

/// The model of a node.
pub open spec fn node_view(n: Node) -> NodeV
    decreases n,
{
    match n {
        Node::Val(s) => NodeV::Val(s@),
        Node::Rule(name, b) => NodeV::Rule(name@, Box::new(node_view(*b))),
        Node::Named(name, b) => NodeV::Named(name@, Box::new(node_view(*b))),
        Node::List(children) => NodeV::List(nodes_view(children@)),
        Node::Transf2(t, children) => NodeV::Transf2(t@, nodes_view(children@)),
    }
}

/// The models of a list of nodes, in order.
pub open spec fn nodes_view(ns: Seq<Node>) -> Seq<NodeV>
    decreases ns,
{
    if ns.len() == 0 {
        Seq::empty()
    } else {
        nodes_view(ns.subrange(0, ns.len() - 1)).push(node_view(ns[ns.len() - 1]))
    }
}

/// The model of a list of nodes is pointwise the models of its elements.
pub broadcast proof fn lemma_nodes_view(ns: Seq<Node>)
    ensures
        (#[trigger] nodes_view(ns)).len() == ns.len(),
        forall|i: int| 0 <= i < ns.len() ==> nodes_view(ns)[i] == node_view(ns[i]),
    decreases ns.len(),
{
    if ns.len() > 0 {
        lemma_nodes_view(ns.subrange(0, ns.len() - 1));
    }
}

impl View for Node {
    type V = NodeV;

    open spec fn view(&self) -> NodeV {
        node_view(*self)
    }
}

/// The text a rendering produced.
#[derive(Debug, PartialEq)]
pub struct Replaced(pub String);

impl View for Replaced {
    type V = Seq<char>;

    open spec fn view(&self) -> Seq<char> {
        self.0@
    }
}

impl Replaced {
    /// The rendered text.
    pub fn str(&self) -> (r: &str)
        ensures
            r@ == self@,
    {
        self.0.as_str()
    }
}

/// What the built-in function hooks resolve to: `endl` is a newline and
/// `none` is the empty string.
pub open spec fn builtin_fn(nm: Seq<char>) -> Option<Seq<char>> {
    if nm == "endl"@ {
        Some("\n"@)
    } else if nm == "none"@ {
        Some(Seq::empty())
    } else {
        None
    }
}

/// Whether a node answers to the capture or rule name `nm`.
pub open spec fn child_has_name(n: NodeV, nm: Seq<char>) -> bool {
    ||| n matches NodeV::Named(m, _) && m == nm
    ||| n matches NodeV::Rule(m, _) && m == nm
}

/// The first index at or after `i` of a child answering to `nm`, or -1.
pub open spec fn named_idx(children: Seq<NodeV>, nm: Seq<char>, i: int) -> int
    decreases children.len() - i,
{
    if i < 0 || i >= children.len() {
        -1
    } else if child_has_name(children[i], nm) {
        i
    } else {
        named_idx(children, nm, i + 1)
    }
}

/// An empty resolved-function mapping: only the built-in hooks resolve.
pub open spec fn no_fns() -> Map<Seq<char>, Seq<char>> {
    Map::empty()
}

/// The text a node renders to, under a mapping giving what each external
/// function hook resolves to; `None` when a referenced position, capture or
/// function is missing.
pub open spec fn render_node_spec(n: NodeV, fns: Map<Seq<char>, Seq<char>>) -> Option<Seq<char>>
    decreases n, 1int, 0int,
{
    match n {
        NodeV::Val(s) => Some(s),
        NodeV::Rule(_, b) => render_node_spec(*b, fns),
        NodeV::Named(_, b) => render_node_spec(*b, fns),
        NodeV::List(children) => render_list_spec(children, fns),
        NodeV::Transf2(items, children) => if children.len() == 1 && children[0] matches
            NodeV::List(_) {
            match children[0] {
                NodeV::List(cs) => render_template_spec(items, cs, fns),
                _ => None,
            }
        } else {
            render_template_spec(items, children, fns)
        },
    }
}

/// The concatenation of the renderings of a list of nodes.
pub open spec fn render_list_spec(ns: Seq<NodeV>, fns: Map<Seq<char>, Seq<char>>) -> Option<
    Seq<char>,
>
    decreases ns, 0int, 0int,
{
    if ns.len() == 0 {
        Some(Seq::empty())
    } else {
        match render_node_spec(ns[0], fns) {
            None => None,
            Some(h) => match render_list_spec(ns.subrange(1, ns.len() as int), fns) {
                None => None,
                Some(rest) => Some(h + rest),
            },
        }
    }
}

/// The text a template renders to against its positional and named
/// children: text items verbatim, positions and names through the children,
/// function items through the built-in hooks or the resolved mapping.
pub open spec fn render_template_spec(
    items: Seq<ReplItemV>,
    children: Seq<NodeV>,
    fns: Map<Seq<char>, Seq<char>>,
) -> Option<Seq<char>>
    decreases children, 2int, items.len(),
{
    if items.len() == 0 {
        Some(Seq::empty())
    } else {
        let head: Option<Seq<char>> = match items[0] {
            ReplItemV::Text(t) => Some(t),
            ReplItemV::ByPos(k) => if 0 <= k < children.len() {
                render_node_spec(children[k], fns)
            } else {
                None
            },
            ReplItemV::ByName(nm) => {
                let k = named_idx(children, nm, 0);
                if 0 <= k < children.len() {
                    render_node_spec(children[k], fns)
                } else {
                    None
                }
            },
            ReplItemV::ByNameOpt(nm) => {
                let k = named_idx(children, nm, 0);
                if 0 <= k < children.len() {
                    render_node_spec(children[k], fns)
                } else {
                    Some(Seq::empty())
                }
            },
            ReplItemV::Function(nm) => match builtin_fn(nm) {
                Some(v) => Some(v),
                None => if fns.contains_key(nm) {
                    Some(fns[nm])
                } else {
                    None
                },
            },
        };
        match head {
            None => None,
            Some(h) => match render_template_spec(
                items.subrange(1, items.len() as int),
                children,
                fns,
            ) {
                None => None,
                Some(rest) => Some(h + rest),
            },
        }
    }
}

/// Prepending a node prepends its model.
pub proof fn lemma_nodes_view_insert0(ns: Seq<Node>, n: Node)
    ensures
        nodes_view(ns.insert(0, n)) == nodes_view(ns).insert(0, node_view(n)),
{
    lemma_nodes_view(ns.insert(0, n));
    lemma_nodes_view(ns);
    assert(nodes_view(ns.insert(0, n)) =~= nodes_view(ns).insert(0, node_view(n)));
}

/// Appending a node appends its model.
pub proof fn lemma_nodes_view_push(ns: Seq<Node>, n: Node)
    ensures
        nodes_view(ns.push(n)) == nodes_view(ns).push(node_view(n)),
{
    lemma_nodes_view(ns.push(n));
    lemma_nodes_view(ns);
    assert(nodes_view(ns.push(n)) =~= nodes_view(ns).push(node_view(n)));
}

/// Whether a node answers to the capture or rule name `nm`.
fn node_answers_to(n: &Node, nm: &str) -> (r: bool)
    ensures
        r == child_has_name(n@, nm@),
{
    match n {
        Node::Named(m, _) => crate::str_eq(m.as_str(), nm),
        Node::Rule(m, _) => crate::str_eq(m.as_str(), nm),
        _ => false,
    }
}

/// The first child answering to the name, if any.
fn find_named(children: &Vec<Node>, nm: &str) -> (r: Option<usize>)
    ensures
        match r {
            Some(j) => j < children@.len() && named_idx(nodes_view(children@), nm@, 0) == j as int,
            None => named_idx(nodes_view(children@), nm@, 0) == -1,
        },
{
    let ghost cs = nodes_view(children@);
    proof {
        lemma_nodes_view(children@);
    }
    let mut j: usize = 0;
    while j < children.len()
        invariant
            j <= children@.len(),
            cs == nodes_view(children@),
            cs.len() == children@.len(),
            forall|k: int| 0 <= k < children@.len() ==> cs[k] == node_view(children@[k]),
            named_idx(cs, nm@, 0) == named_idx(cs, nm@, j as int),
        decreases children@.len() - j,
    {
        if node_answers_to(&children[j], nm) {
            proof {
                assert(child_has_name(cs[j as int], nm@));
            }
            return Some(j);
        }
        proof {
            assert(!child_has_name(cs[j as int], nm@));
        }
        j += 1;
    }
    None
}

/// Renders one node: atoms give their matched text, composites concatenate
/// their children, and a kept template is rendered against its children.
pub fn replace_node(n: &Node, cb: Option<&crate::FnCallBack>) -> (r: Result<String, String>)
    ensures
        cb is None ==> match r {
            Ok(s) => render_node_spec(n@, no_fns()) == Some(s@),
            Err(_) => render_node_spec(n@, no_fns()) is None,
        },
        render_node_spec(n@, no_fns()) matches Some(s) ==> r matches Ok(out) && out@ == s,
    decreases n, 1int, 0int,
{
    match n {
        Node::Val(s) => Ok(String::from_str(s.as_str())),
        Node::Rule(_, b) => replace_node(b, cb),
        Node::Named(_, b) => replace_node(b, cb),
        Node::List(children) => {
            proof {
                assert(nodes_view(children@).subrange(0, nodes_view(children@).len() as int)
                    =~= nodes_view(children@));
                lemma_nodes_view(children@);
            }
            replace_list(children, 0, cb)
        },
        Node::Transf2(t, children) => {
            proof {
                assert(t@.subrange(0, t@.len() as int) =~= t@);
                lemma_nodes_view(children@);
            }
            if children.len() == 1 {
                match &children[0] {
                    Node::List(cs) => {
                        proof {
                            assert(nodes_view(children@)[0] == node_view(children@[0]));
                        }
                        replace_template(t, 0, cs, cb)
                    },
                    _ => {
                        proof {
                            assert(nodes_view(children@)[0] == node_view(children@[0]));
                        }
                        replace_template(t, 0, children, cb)
                    },
                }
            } else {
                replace_template(t, 0, children, cb)
            }
        },
    }
}

/// Renders `children[i..]` in order and concatenates the results.
pub fn replace_list(children: &Vec<Node>, i: usize, cb: Option<&crate::FnCallBack>) -> (r: Result<
    String,
    String,
>)
    requires
        i <= children@.len(),
    ensures
        cb is None ==> match r {
            Ok(s) => render_list_spec(
                nodes_view(children@).subrange(i as int, children@.len() as int),
                no_fns(),
            ) == Some(s@),
            Err(_) => render_list_spec(
                nodes_view(children@).subrange(i as int, children@.len() as int),
                no_fns(),
            ) is None,
        },
        render_list_spec(
            nodes_view(children@).subrange(i as int, children@.len() as int),
            no_fns(),
        ) matches Some(s) ==> r matches Ok(out) && out@ == s,
    decreases children, 0int, children@.len() - i,
{
    let ghost cs = nodes_view(children@);
    let ghost sub = cs.subrange(i as int, children@.len() as int);
    proof {
        lemma_nodes_view(children@);
    }
    if i == children.len() {
        let s = String::from_str("");
        proof {
            reveal_strlit("");
            assert(s@ =~= Seq::<char>::empty());
        }
        return Ok(s);
    }
    proof {
        assert(sub[0] == cs[i as int]);
        assert(sub.subrange(1, sub.len() as int) =~= cs.subrange(
            i + 1 as int,
            children@.len() as int,
        ));
    }
    match replace_node(&children[i], cb) {
        Err(e) => Err(e),
        Ok(h) => match replace_list(children, i + 1, cb) {
            Err(e) => Err(e),
            Ok(rest) => Ok(h.concat(rest.as_str())),
        },
    }
}

/// Renders the template items `t.0[i..]` against the children and
/// concatenates the results.
pub fn replace_template(
    t: &ReplTemplate,
    i: usize,
    children: &Vec<Node>,
    cb: Option<&crate::FnCallBack>,
) -> (r: Result<String, String>)
    requires
        i <= t.0@.len(),
    ensures
        cb is None ==> match r {
            Ok(s) => render_template_spec(
                t@.subrange(i as int, t@.len() as int),
                nodes_view(children@),
                no_fns(),
            ) == Some(s@),
            Err(_) => render_template_spec(
                t@.subrange(i as int, t@.len() as int),
                nodes_view(children@),
                no_fns(),
            ) is None,
        },
        render_template_spec(
            t@.subrange(i as int, t@.len() as int),
            nodes_view(children@),
            no_fns(),
        ) matches Some(s) ==> r matches Ok(out) && out@ == s,
    decreases children, 2int, t.0@.len() - i,
{
    let ghost cs = nodes_view(children@);
    let ghost sub = t@.subrange(i as int, t@.len() as int);
    proof {
        lemma_nodes_view(children@);
        assert(t@.len() == t.0@.len());
        if i < t.0@.len() {
            assert(sub[0] == t@[i as int]);
            assert(t@[i as int] == repl_item_view(t.0@[i as int]));
            assert(sub.subrange(1, sub.len() as int) =~= t@.subrange(
                i + 1 as int,
                t@.len() as int,
            ));
        }
    }
    if i == t.0.len() {
        let s = String::from_str("");
        proof {
            reveal_strlit("");
            assert(s@ =~= Seq::<char>::empty());
        }
        return Ok(s);
    }
    let head: Result<String, String> = match &t.0[i] {
        ReplItem::Text(txt) => Ok(String::from_str(txt.as_str())),
        ReplItem::ByPos(k) => {
            if *k < children.len() {
                replace_node(&children[*k], cb)
            } else {
                Err(String::from_str("missing positional child"))
            }
        },
        ReplItem::ByName(nm) => match find_named(children, nm.as_str()) {
            Some(j) => replace_node(&children[j], cb),
            None => Err(String::from_str("missing named child")),
        },
        ReplItem::ByNameOpt(nm) => match find_named(children, nm.as_str()) {
            Some(j) => replace_node(&children[j], cb),
            None => Ok(String::from_str("")),
        },
        ReplItem::Function(nm) => {
            if crate::str_eq(nm.as_str(), "endl") {
                Ok(String::from_str("\n"))
            } else if crate::str_eq(nm.as_str(), "none") {
                Ok(String::from_str(""))
            } else {
                match cb {
                    None => Err(String::from_str("unresolved function")),
                    Some(f) => match crate::call_hook(f, nm.as_str()) {
                        Some(s) => Ok(s),
                        None => Err(String::from_str("unresolved function")),
                    },
                }
            }
        },
    };
    proof {
        reveal_strlit("");
        reveal_strlit("\n");
        assert(!("endl"@ == "none"@)) by {
            reveal_strlit("endl");
            reveal_strlit("none");
            assert("endl"@[0] == 'e');
            assert("none"@[0] == 'n');
        }
    }
    match head {
        Err(e) => Err(e),
        Ok(h) => match replace_template(t, i + 1, children, cb) {
            Err(e) => Err(e),
            Ok(rest) => Ok(h.concat(rest.as_str())),
        },
    }
}

} // verus!
