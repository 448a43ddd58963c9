use vstd::prelude::*;
use crate::number::{double_holds, double_of, float_bits, number_view, NumberView};

verus! {

/// The value of an entry. A float is held as the 64 bits of its double.
pub enum LiteralView {
    Null,
    Bool(bool),
    Integer(i64),
    Float(u64),
    String(Seq<char>),
}

/// An entry of a node: a value with an optional type annotation, and with a
/// name where it is a property.
pub struct EntryView {
    pub name: Option<Seq<char>>,
    pub ty: Option<Seq<char>>,
    pub value: LiteralView,
}

/// A node: its name, its optional type annotation, its entries in order and
/// its optional block of children.
pub struct NodeView {
    pub name: Seq<char>,
    pub ty: Option<Seq<char>>,
    pub entries: Seq<EntryView>,
    pub children: Option<Seq<NodeView>>,
}

/// A scalar taken from a JSON value. A float stays in the number it came
/// from, and is the double that the number gives.
#[derive(Debug, Clone, Copy, PartialEq)]
pub enum Literal<'a> {
    Null,
    Bool(bool),
    Integer(i64),
    Float(&'a serde_json::Number),
    String(&'a str),
}

impl<'a> Literal<'a> {
    /// A float literal holds a number that is a double, or a whole number
    /// beyond the signed 64-bit range that a double holds exactly.
    pub open spec fn wf(&self) -> bool {
        self matches Literal::Float(n) ==> match number_view(**n) {
            NumberView::Float(_) => true,
            NumberView::Integer(i) => double_holds(i),
        }
    }
}

impl<'a> View for Literal<'a> {
    type V = LiteralView;

    open spec fn view(&self) -> LiteralView {
        match self {
            Literal::Null => LiteralView::Null,
            Literal::Bool(b) => LiteralView::Bool(*b),
            Literal::Integer(i) => LiteralView::Integer(*i),
            Literal::Float(n) => LiteralView::Float(float_bits(number_view(**n))),
            Literal::String(s) => LiteralView::String(s@),
        }
    }
}

/// `kdl::KdlEntry`, an argument or a property of a node.
#[verifier::external_type_specification]
#[verifier::external_body]
pub struct ExKdlEntry(kdl::KdlEntry);

/// `kdl::KdlNode`.
#[verifier::external_type_specification]
#[verifier::external_body]
pub struct ExKdlNode(kdl::KdlNode);

/// `kdl::KdlDocument`, a list of nodes: a whole document, or the children of
/// a node.
#[verifier::external_type_specification]
#[verifier::external_body]
pub struct ExKdlDocument(kdl::KdlDocument);

/// What a `kdl::KdlEntry` holds: the text of its name and of its type,
/// where it has them, and its value (a number of any base as the integer, a
/// raw string as the string).
pub uninterp spec fn entry_view(e: kdl::KdlEntry) -> EntryView;

/// What a `kdl::KdlNode` holds: the text of its name and of its type, the
/// views of its entries in order, and the nodes of its children.
pub uninterp spec fn node_view(n: kdl::KdlNode) -> NodeView;

/// The nodes that a `kdl::KdlDocument` holds, in order.
pub uninterp spec fn document_view(d: kdl::KdlDocument) -> Seq<NodeView>;

/// Whether an entry is in the form in which `kdl` makes one: no text before
/// or after it, no spelling chosen for its value, its name or its type, and
/// a value that is null, a boolean, a string with escapes, or a number in
/// decimal form. The text of such an entry depends on its view alone.
pub uninterp spec fn entry_plain(e: kdl::KdlEntry) -> bool;

/// Whether a node is in the form in which `kdl` makes one: no text before or
/// after it or before its children, no spelling chosen for its name or its
/// type, and entries and children that are plain too.
pub uninterp spec fn node_plain(n: kdl::KdlNode) -> bool;

/// Whether a document is in the form in which `kdl` makes one: no text
/// before or after its nodes, and nodes that are plain.
pub uninterp spec fn document_plain(d: kdl::KdlDocument) -> bool;

/// The text that `kdl` writes for a plain document that holds `nodes`.
pub uninterp spec fn rendered(nodes: Seq<NodeView>) -> Seq<char>;

/// The position of the last entry named `key`.
pub open spec fn last_index_of(entries: Seq<EntryView>, key: Seq<char>) -> Option<int>
    decreases entries.len(),
{
    if entries.len() == 0 {
        None
    } else if entries.last().name == Some(key) {
        Some(entries.len() - 1)
    } else {
        last_index_of(entries.drop_last(), key)
    }
}

/// `e` under the name `key`.
pub open spec fn named(key: Seq<char>, e: EntryView) -> EntryView {
    EntryView { name: Some(key), ty: e.ty, value: e.value }
}

/// `entries` after `e` was inserted as the property `key`: it takes the
/// place of the last entry of that name, or comes last where there is none.
pub open spec fn insert_spec(entries: Seq<EntryView>, key: Seq<char>, e: EntryView) -> Seq<
    EntryView,
> {
    match last_index_of(entries, key) {
        Some(i) => entries.update(i, named(key, e)),
        None => entries.push(named(key, e)),
    }
}

/// `KdlEntry::new`, on the `KdlValue` that the literal stands for (for a
/// float, the double that `serde_json::Number::as_f64` gives, which for a
/// whole number is the nearest double): a plain argument with that value and
/// no type.
#[verifier::external_body]
pub(crate) fn new_entry(value: &Literal) -> (e: kdl::KdlEntry)
    ensures
        entry_view(e) == (EntryView { name: None, ty: None, value: value@ }),
        value matches Literal::Float(n) ==> (number_view(**n) matches NumberView::Integer(i)
            ==> entry_view(e).value == LiteralView::Float(double_of(i))),
        entry_plain(e),
{
    kdl::KdlEntry::new(
        match value {
            Literal::Null => kdl::KdlValue::Null,
            Literal::Bool(b) => kdl::KdlValue::Bool(*b),
            Literal::Integer(i) => kdl::KdlValue::Base10(*i),
            Literal::Float(n) => kdl::KdlValue::Base10Float(n.as_f64().unwrap()),
            Literal::String(s) => kdl::KdlValue::String(s.to_string()),
        },
    )
}

/// `KdlEntry::set_ty`: the entry gets the type `ty`, spelled by default, and
/// is otherwise unchanged.
#[verifier::external_body]
pub(crate) fn entry_set_ty(e: &mut kdl::KdlEntry, ty: &str)
    ensures
        entry_view(*final(e)) == (EntryView {
            name: entry_view(*old(e)).name,
            ty: Some(ty@),
            value: entry_view(*old(e)).value,
        }),
        entry_plain(*old(e)) ==> entry_plain(*final(e)),
{
    e.set_ty(ty)
}

/// `KdlNode::new`: a plain node of that name, with no type, entries or
/// children.
#[verifier::external_body]
pub(crate) fn new_node(name: &str) -> (n: kdl::KdlNode)
    ensures
        node_view(n) == (NodeView { name: name@, ty: None, entries: Seq::empty(), children: None }),
        node_plain(n),
{
    kdl::KdlNode::new(name)
}

/// `KdlNode::push`: the entry comes last.
#[verifier::external_body]
pub(crate) fn node_push(n: &mut kdl::KdlNode, e: kdl::KdlEntry)
    ensures
        node_view(*final(n)) == (NodeView {
            name: node_view(*old(n)).name,
            ty: node_view(*old(n)).ty,
            entries: node_view(*old(n)).entries.push(entry_view(e)),
            children: node_view(*old(n)).children,
        }),
        node_plain(*old(n)) && entry_plain(e) ==> node_plain(*final(n)),
{
    n.push(e)
}

/// `KdlNode::insert` under a string key, for an entry without a name: the
/// entry gets the name `key` and takes the place of the last entry of that
/// name, which is returned, or comes last where there is none.
#[verifier::external_body]
pub(crate) fn node_insert(n: &mut kdl::KdlNode, key: &str, e: kdl::KdlEntry) -> (previous: Option<
    kdl::KdlEntry,
>)
    requires
        entry_view(e).name is None,
    ensures
        node_view(*final(n)) == (NodeView {
            name: node_view(*old(n)).name,
            ty: node_view(*old(n)).ty,
            entries: insert_spec(node_view(*old(n)).entries, key@, entry_view(e)),
            children: node_view(*old(n)).children,
        }),
        node_plain(*old(n)) && entry_plain(e) ==> node_plain(*final(n)),
        match previous {
            Some(p) => last_index_of(node_view(*old(n)).entries, key@) matches Some(i)
                && entry_view(p) == node_view(*old(n)).entries[i],
            None => last_index_of(node_view(*old(n)).entries, key@) is None,
        },
{
    n.insert(key, e)
}

/// `KdlNode::set_children`: the node gets the document as its block of
/// children.
#[verifier::external_body]
pub(crate) fn node_set_children(n: &mut kdl::KdlNode, children: kdl::KdlDocument)
    ensures
        node_view(*final(n)) == (NodeView {
            name: node_view(*old(n)).name,
            ty: node_view(*old(n)).ty,
            entries: node_view(*old(n)).entries,
            children: Some(document_view(children)),
        }),
        node_plain(*old(n)) && document_plain(children) ==> node_plain(*final(n)),
{
    n.set_children(children)
}

/// `KdlNode::set_ty`: the node gets the type `ty`, spelled by default.
#[verifier::external_body]
pub(crate) fn node_set_ty(n: &mut kdl::KdlNode, ty: &str)
    ensures
        node_view(*final(n)) == (NodeView {
            name: node_view(*old(n)).name,
            ty: Some(ty@),
            entries: node_view(*old(n)).entries,
            children: node_view(*old(n)).children,
        }),
        node_plain(*old(n)) ==> node_plain(*final(n)),
{
    n.set_ty(ty)
}

/// `KdlDocument::new`: a plain document with no nodes.
#[verifier::external_body]
pub(crate) fn new_document() -> (d: kdl::KdlDocument)
    ensures
        document_view(d) == Seq::<NodeView>::empty(),
        document_plain(d),
{
    kdl::KdlDocument::new()
}

/// `KdlDocument::nodes_mut`, and a push on the vector it gives: the node
/// comes last.
#[verifier::external_body]
pub(crate) fn document_push(d: &mut kdl::KdlDocument, n: kdl::KdlNode)
    ensures
        document_view(*final(d)) == document_view(*old(d)).push(node_view(n)),
        document_plain(*old(d)) && node_plain(n) ==> document_plain(*final(d)),
{
    d.nodes_mut().push(n)
}

/// `to_string` on a `KdlDocument`, which writes it as its `Display` does:
/// for a plain document, the text is a function of its nodes.
#[verifier::external_body]
pub(crate) fn document_text(d: &kdl::KdlDocument) -> (text: String)
    ensures
        document_plain(*d) ==> text@ == rendered(document_view(*d)),
{
    d.to_string()
}

} // verus!
