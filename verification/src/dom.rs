//! A parsed HTML document as a tree of plain values.
//!
//! Parsing and CSS selection are done by `scraper`; the document is read
//! back as the sequence of its traversal events (each node opened, its
//! children, the node closed), from which the tree is rebuilt here. A node
//! is known by its id written out as text (the `Debug` form of its
//! `ego_tree::NodeId`, such as `NodeId(7)`), so that elements found by a
//! selector can be recognised in the tree.
use vstd::prelude::*;
use crate::text::{push_all, str_eq, string_views};

verus! {

#[verifier::external_type_specification]
#[verifier::external_body]
pub struct ExHtml(scraper::Html);


/// What a node is: an element with its name and attributes, a piece of
/// text, or anything else (the document, a comment, a doctype).
pub enum DomNode {
    Element(String, Vec<(String, String)>),
    Text(String),
    Other,
}

/// A node with its children, in document order.
pub struct DomTree {
    pub id: String,
    pub node: DomNode,
    pub children: Vec<DomTree>,
}

/// A node as values.
pub enum NodeModel {
    Element(Seq<char>, Seq<(String, String)>),
    Text(Seq<char>),
    Other,
}

pub open spec fn node_model(n: DomNode) -> NodeModel {
    match n {
        DomNode::Element(name, attrs) => NodeModel::Element(name@, attrs@),
        DomNode::Text(t) => NodeModel::Text(t@),
        DomNode::Other => NodeModel::Other,
    }
}

/// A traversal event as values.
pub enum EventModel {
    Open(Seq<char>, NodeModel),
    Close,
}

pub open spec fn event_model(e: DomEvent) -> EventModel {
    match e {
        DomEvent::Open(id, n) => EventModel::Open(id@, node_model(n)),
        DomEvent::Close => EventModel::Close,
    }
}

/// The events at positions `i..j`, as values.
pub open spec fn events_between(events: Seq<DomEvent>, i: int, j: int) -> Seq<EventModel> {
    events.subrange(i, j).map_values(|e: DomEvent| event_model(e))
}

/// One step of a traversal: a node is entered, or the last entered node
/// that is still open is left.
pub enum DomEvent {
    Open(String, DomNode),
    Close,
}

/// The traversal events of the document that `scraper` parses from `html`
/// (`Html::parse_document`, then `NodeRef::traverse` from the root), as
/// values: each node's id text and kind, or a closing edge.
pub uninterp spec fn html_events(html: Seq<char>) -> Seq<EventModel>;

/// The id texts of the elements that `selector` matches in the document
/// parsed from `html` (`Selector::parse`, then `Html::select`); none when
/// the selector does not parse.
pub uninterp spec fn html_select(html: Seq<char>, selector: Seq<char>) -> Seq<Seq<char>>;

/// As `html_select`, each element with the values of its attributes `a` and
/// `b` (`Element::attr`).
pub uninterp spec fn html_select_attrs(html: Seq<char>, selector: Seq<char>, a: Seq<char>, b: Seq<char>) -> Seq<(Seq<char>, Option<Seq<char>>, Option<Seq<char>>)>;

/// A parsed document with the text it was parsed from.
pub struct Page {
    source: String,
    doc: scraper::Html,
}

impl Page {
    /// The text the document was parsed from.
    pub closed spec fn source(&self) -> Seq<char> {
        self.source@
    }
}

/// The events as values.
pub open spec fn events_model(events: Seq<DomEvent>) -> Seq<EventModel> {
    events.map_values(|e: DomEvent| event_model(e))
}

/// An element found by a selector, with two attributes, as values.
pub open spec fn labelled_model(items: Seq<(String, Option<String>, Option<String>)>) -> Seq<
    (Seq<char>, Option<Seq<char>>, Option<Seq<char>>),
> {
    items.map_values(
        |x: (String, Option<String>, Option<String>)|
            (
                x.0@,
                match x.1 {
                    Some(v) => Some(v@),
                    None => None,
                },
                match x.2 {
                    Some(v) => Some(v@),
                    None => None,
                },
            ),
    )
}

/// `scraper::Html::parse_document`, kept with its text.
#[verifier::external_body]
pub(crate) fn parse_document(html: &str) -> (r: Page)
    ensures
        r.source() == html@,
{
    Page { source: html.to_string(), doc: scraper::Html::parse_document(html) }
}

/// `ego_tree::NodeRef::traverse` from the root of the document's tree, each
/// edge given as an event: the node's id text, and its kind with the
/// element's name (`Element::name`) and attributes (`Element::attrs`) or the
/// text. Claimed: the events are `html_events` of the page's text, and, as
/// `Traverse::next` walks the tree depth first (the root opened, each
/// child's subtree in turn, the root closed, then nothing more), they form
/// exactly one tree.
#[verifier::external_body]
pub(crate) fn traverse_events(page: &Page) -> (r: Vec<DomEvent>)
    ensures
        events_model(r@) == html_events(page.source()),
        tree_end(r@, 0) == Some(r@.len() as int),
{
    page.doc.tree.root().traverse().map(|edge| match edge {
        ego_tree::iter::Edge::Open(n) => DomEvent::Open(format!("{:?}", n.id()), match n.value() {
            scraper::Node::Text(t) => DomNode::Text(t.text.to_string()),
            scraper::Node::Element(e) => DomNode::Element(
                e.name().to_string(),
                e.attrs().map(|(k, v)| (k.to_string(), v.to_string())).collect(),
            ),
            _ => DomNode::Other,
        }),
        ego_tree::iter::Edge::Close(_) => DomEvent::Close,
    }).collect()
}

/// `scraper::Selector::parse`, then `Html::select`: the id texts of the
/// elements matched (none when the selector does not parse). Claimed: they
/// are `html_select` of the page's text and the selector.
#[verifier::external_body]
pub(crate) fn select_ids(page: &Page, selector: &str) -> (r: Vec<String>)
    ensures
        string_views(r@) == html_select(page.source(), selector@),
{
    match scraper::Selector::parse(selector) {
        Ok(s) => page.doc.select(&s).map(|e| format!("{:?}", e.id())).collect(),
        Err(_) => Vec::new(),
    }
}

/// `scraper::Selector::parse`, then `Html::select`, with two attributes of
/// each element matched (`Element::attr`). Claimed: they are
/// `html_select_attrs` of the page's text, the selector and the two names.
#[verifier::external_body]
pub(crate) fn select_with_attrs(page: &Page, selector: &str, a: &str, b: &str) -> (r: Vec<
    (String, Option<String>, Option<String>),
>)
    ensures
        labelled_model(r@) == html_select_attrs(page.source(), selector@, a@, b@),
{
    match scraper::Selector::parse(selector) {
        Ok(s) => page.doc.select(&s).map(
            |e| (format!("{:?}", e.id()), e.attr(a).map(|x| x.to_string()), e.attr(b).map(|x| x.to_string())),
        ).collect(),
        Err(_) => Vec::new(),
    }
}

// ─── The tree and its events ───

/// The events of a tree: the node opened, its children's events, the node closed.
pub open spec fn flatten(t: DomTree) -> Seq<EventModel>
    decreases t,
{
    seq![EventModel::Open(t.id@, node_model(t.node))] + flatten_all(t.children@) + seq![
        EventModel::Close,
    ]
}

/// The events of a sequence of trees, one after the other.
pub open spec fn flatten_all(ts: Seq<DomTree>) -> Seq<EventModel>
    decreases ts,
{
    if ts.len() == 0 {
        seq![]
    } else {
        flatten_all(ts.drop_last()) + flatten(ts.last())
    }
}

/// Where the tree whose events start at `i` ends (the position after its
/// closing event), or `None` when the events there do not form a tree. A
/// tree is an opening event, the trees of its children one after another,
/// and a closing event.
pub open spec fn tree_end(ev: Seq<DomEvent>, i: int) -> Option<int>
    decreases 2 * (ev.len() - i),
{
    if i < 0 || i >= ev.len() || ev[i] is Close {
        None
    } else {
        match children_end(ev, i + 1) {
            Some(j) => if j < ev.len() {
                Some(j + 1)
            } else {
                None
            },
            None => None,
        }
    }
}

/// Where the run of sibling trees starting at `j` ends: at the first event
/// that opens no tree (a closing event, or the end), or `None` when one of
/// them does not form a tree.
pub open spec fn children_end(ev: Seq<DomEvent>, j: int) -> Option<int>
    decreases 2 * (ev.len() - j) + 1,
{
    if j < 0 || j > ev.len() {
        None
    } else if j < ev.len() && ev[j] is Open {
        match tree_end(ev, j) {
            Some(k) => if j < k <= ev.len() {
                children_end(ev, k)
            } else {
                None
            },
            None => None,
        }
    } else {
        Some(j)
    }
}

/// Whether an id is among `ids`.
pub open spec fn has_id(ids: Seq<Seq<char>>, id: Seq<char>) -> bool {
    ids.contains(id)
}

/// Whether `id` is one of `ids`.
pub fn contains_id(ids: &Vec<String>, id: &String) -> (r: bool)
    ensures
        r == has_id(string_views(ids@), id@),
{
    let ghost v = string_views(ids@);
    let mut i: usize = 0;
    while i < ids.len()
        invariant
            i <= ids@.len(),
            v == string_views(ids@),
            forall|j: int| 0 <= j < i ==> v[j] != id@,
        decreases ids@.len() - i,
    {
        if ids[i] == *id {
            assert(v[i as int] == id@);
            return true;
        }
        i = i + 1;
    }
    proof {
        if v.contains(id@) {
            let j = choose|j: int| 0 <= j < v.len() && v[j] == id@;
            assert(v[j] != id@);
        }
    }
    false
}

fn copy_attrs(attrs: &Vec<(String, String)>) -> (r: Vec<(String, String)>)
    ensures
        r@ == attrs@,
{
    let mut r: Vec<(String, String)> = Vec::new();
    let mut i: usize = 0;
    while i < attrs.len()
        invariant
            i <= attrs@.len(),
            r@ == attrs@.take(i as int),
        decreases attrs@.len() - i,
    {
        let (k, v) = &attrs[i];
        r.push((k.clone(), v.clone()));
        i = i + 1;
        assert(r@ =~= attrs@.take(i as int));
    }
    assert(attrs@.take(attrs@.len() as int) =~= attrs@);
    r
}

/// A copy of a node.
pub fn copy_node(n: &DomNode) -> (r: DomNode)
    ensures
        node_model(r) == node_model(*n),
{
    match n {
        DomNode::Element(name, attrs) => DomNode::Element(name.clone(), copy_attrs(attrs)),
        DomNode::Text(t) => DomNode::Text(t.clone()),
        DomNode::Other => DomNode::Other,
    }
}

fn is_open(e: &DomEvent) -> (r: bool)
    ensures
        r == (*e is Open),
{
    match e {
        DomEvent::Open(..) => true,
        DomEvent::Close => false,
    }
}

/// The tree whose events start at position `i`, and the position after
/// them; `None` when the events there do not form a tree.
pub fn build_tree(events: &Vec<DomEvent>, i: usize) -> (r: Option<(DomTree, usize)>)
    ensures
        match r {
            Some((t, j)) => i < j <= events@.len() && tree_end(events@, i as int) == Some(
                j as int,
            ) && flatten(t) == events_between(events@, i as int, j as int),
            None => tree_end(events@, i as int) is None,
        },
    decreases events@.len() - i,
{
    if i >= events.len() {
        return None;
    }
    match &events[i] {
        DomEvent::Close => None,
        DomEvent::Open(id, node) => {
            let n = events.len();
            let mut children: Vec<DomTree> = Vec::new();
            let mut j: usize = i + 1;
            while j < n && is_open(&events[j])
                invariant
                    i < j <= n == events@.len(),
                    events@[i as int] is Open,
                    flatten_all(children@) == events_between(events@, i + 1, j as int),
                    children_end(events@, i + 1) == children_end(events@, j as int),
                decreases n - j,
            {
                match build_tree(events, j) {
                    None => {
                        return None;
                    },
                    Some((c, k)) => {
                        let ghost before = children@;
                        children.push(c);
                        proof {
                            assert(children@.drop_last() =~= before);
                            assert(events_between(events@, i + 1, k as int)
                                =~= events_between(events@, i + 1, j as int) + events_between(
                                events@,
                                j as int,
                                k as int,
                            ));
                        }
                        j = k;
                    },
                }
            }
            assert(children_end(events@, j as int) == Some(j as int));
            if j >= n {
                return None;
            }
            let t = DomTree { id: id.clone(), node: copy_node(node), children };
            proof {
                assert(events@[j as int] is Close);
                assert(events_between(events@, i as int, j + 1) =~= seq![
                    event_model(events@[i as int]),
                ] + events_between(events@, i + 1, j as int) + seq![event_model(events@[j as int])]);
            }
            Some((t, j + 1))
        },
    }
}

/// The document's tree, rebuilt from its traversal.
pub fn document_tree(page: &Page) -> (r: Option<DomTree>)
    ensures
        r matches Some(t) && flatten(t) == html_events(page.source()),
{
    let events = traverse_events(page);
    match build_tree(&events, 0) {
        Some((t, j)) => {
            assert(events@.subrange(0, j as int) =~= events@);
            assert(events_between(events@, 0, j as int) =~= events_model(events@));
            Some(t)
        },
        None => None,
    }
}

// ─── Reading the tree ───

/// The first node in document order (the tree's root first) with this id.
pub open spec fn find_node(t: DomTree, id: Seq<char>) -> Option<DomTree>
    decreases t,
{
    if t.id@ == id {
        Some(t)
    } else {
        find_node_all(t.children@, id)
    }
}

/// The first node with this id in a sequence of trees.
pub open spec fn find_node_all(ts: Seq<DomTree>, id: Seq<char>) -> Option<DomTree>
    decreases ts,
{
    if ts.len() == 0 {
        None
    } else {
        match find_node_all(ts.drop_last(), id) {
            Some(n) => Some(n),
            None => find_node(ts.last(), id),
        }
    }
}

/// The text of a tree: its text nodes joined in document order (what
/// `ElementRef::text` yields).
pub open spec fn text_of(t: DomTree) -> Seq<char>
    decreases t,
{
    match t.node {
        DomNode::Text(s) => s@ + text_of_all(t.children@),
        _ => text_of_all(t.children@),
    }
}

/// The text of a sequence of trees.
pub open spec fn text_of_all(ts: Seq<DomTree>) -> Seq<char>
    decreases ts,
{
    if ts.len() == 0 {
        seq![]
    } else {
        text_of_all(ts.drop_last()) + text_of(ts.last())
    }
}

/// The value of the first attribute with this name.
pub open spec fn attr_in(attrs: Seq<(String, String)>, name: Seq<char>) -> Option<Seq<char>>
    decreases attrs.len(),
{
    if attrs.len() == 0 {
        None
    } else if attrs[0].0@ == name {
        Some(attrs[0].1@)
    } else {
        attr_in(attrs.drop_first(), name)
    }
}

/// The value of an element's attribute; `None` for a node that is not an element.
pub open spec fn attr_of(n: DomNode, name: Seq<char>) -> Option<Seq<char>> {
    match n {
        DomNode::Element(_, attrs) => attr_in(attrs@, name),
        _ => None,
    }
}

/// The value of an element's attribute (`Element::attr`).
pub fn get_attr(n: &DomNode, name: &str) -> (r: Option<String>)
    ensures
        match r {
            Some(v) => attr_of(*n, name@) == Some(v@),
            None => attr_of(*n, name@) is None,
        },
{
    match n {
        DomNode::Element(_, attrs) => {
            let mut i: usize = 0;
            assert(attrs@.skip(0) =~= attrs@);
            while i < attrs.len()
                invariant
                    i <= attrs@.len(),
                    attr_of(*n, name@) == attr_in(attrs@, name@),
                    attr_in(attrs@, name@) == attr_in(attrs@.skip(i as int), name@),
                decreases attrs@.len() - i,
            {
                assert(attrs@.skip(i as int).drop_first() =~= attrs@.skip(i + 1));
                assert(attrs@.skip(i as int)[0] == attrs@[i as int]);
                if str_eq(attrs[i].0.as_str(), name) {
                    assert(attr_in(attrs@.skip(i as int), name@) == Some(attrs@[i as int].1@));
                    return Some(attrs[i].1.clone());
                }
                i = i + 1;
            }
            None
        },
        _ => None,
    }
}

/// The first node in document order with this id.
pub fn find_in_tree<'a>(t: &'a DomTree, id: &String) -> (r: Option<&'a DomTree>)
    ensures
        match r {
            Some(n) => find_node(*t, id@) == Some(*n),
            None => find_node(*t, id@) is None,
        },
    decreases t,
{
    if t.id == *id {
        return Some(t);
    }
    let mut i: usize = 0;
    while i < t.children.len()
        invariant
            i <= t.children@.len(),
            t.id@ != id@,
            find_node_all(t.children@.take(i as int), id@) is None,
        decreases t.children@.len() - i,
    {
        proof {
            assert(t.children@.take(i + 1).drop_last() =~= t.children@.take(i as int));
            assert(decreases_to!(t => t.children));
        }
        match find_in_tree(&t.children[i], id) {
            Some(n) => {
                proof {
                    assert(t.children@.take(i + 1).last() == t.children@[i as int]);
                    assert(find_node_all(t.children@.take(i + 1), id@) == Some(*n));
                    lemma_find_node_all_prefix(t.children@, i + 1, id@);
                    assert(find_node_all(t.children@, id@) == Some(*n));
                    assert(t.id@ != id@);
                    assert(find_node(*t, id@) == find_node_all(t.children@, id@));
                }
                return Some(n);
            },
            None => {},
        }
        i = i + 1;
    }
    assert(t.children@.take(t.children@.len() as int) =~= t.children@);
    None
}

/// Once a prefix holds the node, the whole sequence finds it there.
pub proof fn lemma_find_node_all_prefix(ts: Seq<DomTree>, k: int, id: Seq<char>)
    requires
        0 <= k <= ts.len(),
        find_node_all(ts.take(k), id) is Some,
    ensures
        find_node_all(ts, id) == find_node_all(ts.take(k), id),
    decreases ts.len() - k,
{
    if k < ts.len() {
        assert(ts.take(k + 1).drop_last() =~= ts.take(k));
        lemma_find_node_all_prefix(ts, k + 1, id);
    } else {
        assert(ts.take(k) =~= ts);
    }
}

/// Appends the text of a tree.
pub fn push_text_of(t: &DomTree, out: &mut Vec<char>)
    ensures
        final(out)@ == old(out)@ + text_of(*t),
    decreases t,
{
    let ghost start = out@;
    match &t.node {
        DomNode::Text(s) => {
            let c = crate::text::str_to_chars(s.as_str());
            push_all(out, c.as_slice());
        },
        _ => {},
    }
    let ghost mid = out@;
    let mut i: usize = 0;
    while i < t.children.len()
        invariant
            i <= t.children@.len(),
            out@ == mid + text_of_all(t.children@.take(i as int)),
        decreases t.children@.len() - i,
    {
        proof {
            assert(t.children@.take(i + 1).drop_last() =~= t.children@.take(i as int));
            assert(decreases_to!(t => t.children));
        }
        push_text_of(&t.children[i], out);
        i = i + 1;
        proof {
            assert(t.children@.take(i as int).last() == t.children@[i - 1]);
        }
    }
    assert(t.children@.take(t.children@.len() as int) =~= t.children@);
}

} // verus!
