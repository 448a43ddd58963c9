use vstd::prelude::*;
use crate::document::{
    document_plain, document_push, document_view, insert_spec, new_document, new_node,
    node_insert, node_plain, node_push, node_set_children, node_set_ty, node_view, EntryView,
    NodeView,
};
use crate::entry::{entry_spec, entry_to_kdl};
use crate::error::SchemaError;
use crate::json::{array_view, lemma_lookup_decreases, lookup, object_view, Json, JsonView};

verus! {

/// The entries that a list of arguments gives, in order: those of the items
/// that describe an entry. The other items are passed over.
pub open spec fn positional(args: Seq<JsonView>) -> Seq<EntryView>
    decreases args.len(),
{
    if args.len() == 0 {
        Seq::empty()
    } else {
        let before = positional(args.drop_last());
        match entry_spec(args.last()) {
            Ok(e) => before.push(e),
            Err(_) => before,
        }
    }
}

/// `entries` after the properties were inserted one by one, in order, each
/// under its key. A property whose value describes no entry is passed over.
pub open spec fn keyed(entries: Seq<EntryView>, props: Seq<(Seq<char>, JsonView)>) -> Seq<EntryView>
    decreases props.len(),
{
    if props.len() == 0 {
        entries
    } else {
        let before = keyed(entries, props.drop_last());
        match entry_spec(props.last().1) {
            Ok(e) => insert_spec(before, props.last().0, e),
            Err(_) => before,
        }
    }
}

/// The name of a node: the string under `name`.
pub open spec fn name_of(obj: JsonView) -> Result<Seq<char>, SchemaError> {
    match lookup(obj, "name"@) {
        Some(JsonView::String(name)) => Ok(name),
        _ => Err(SchemaError::MissingName),
    }
}

/// The arguments of a node: the items of the array under `arguments`, none
/// where the member is absent.
pub open spec fn arguments_of(obj: JsonView) -> Result<Seq<JsonView>, SchemaError> {
    match lookup(obj, "arguments"@) {
        None => Ok(Seq::empty()),
        Some(JsonView::Array(items)) => Ok(items),
        Some(_) => Err(SchemaError::BadArguments),
    }
}

/// The properties of a node: the pairs of the object under `properties`,
/// none where the member is absent.
pub open spec fn properties_of(obj: JsonView) -> Result<Seq<(Seq<char>, JsonView)>, SchemaError> {
    match lookup(obj, "properties"@) {
        None => Ok(Seq::empty()),
        Some(JsonView::Object(pairs)) => Ok(pairs),
        Some(_) => Err(SchemaError::BadProperties),
    }
}

/// The type annotation of a node: the string under `type`; none where the
/// member is absent or null.
pub open spec fn node_type_of(obj: JsonView) -> Result<Option<Seq<char>>, SchemaError> {
    match lookup(obj, "type"@) {
        None => Ok(None),
        Some(JsonView::Null) => Ok(None),
        Some(JsonView::String(ty)) => Ok(Some(ty)),
        Some(_) => Err(SchemaError::BadNodeType),
    }
}

/// The node that a JSON value describes. The members are checked in the
/// order name, arguments, properties, children, type, and the first that is
/// wrong gives the error.
pub open spec fn node_spec(obj: JsonView) -> Result<NodeView, SchemaError>
    decreases obj, 1nat,
{
    match name_of(obj) {
        Err(e) => Err(e),
        Ok(name) => match arguments_of(obj) {
            Err(e) => Err(e),
            Ok(args) => match properties_of(obj) {
                Err(e) => Err(e),
                Ok(props) => match children_spec(obj) {
                    Err(e) => Err(e),
                    Ok(children) => match node_type_of(obj) {
                        Err(e) => Err(e),
                        Ok(ty) => Ok(
                            NodeView {
                                name,
                                ty,
                                entries: keyed(positional(args), props),
                                children,
                            },
                        ),
                    },
                },
            },
        },
    }
}

/// The block of children of a node: the document that the member under
/// `children` describes; none where the member is absent.
pub open spec fn children_spec(obj: JsonView) -> Result<Option<Seq<NodeView>>, SchemaError>
    decreases obj, 0nat,
{
    match lookup(obj, "children"@) {
        None => Ok(None),
        Some(children) => {
            proof {
                lemma_lookup_decreases(obj, "children"@);
            }
            match document_spec(children) {
                Ok(nodes) => Ok(Some(nodes)),
                Err(e) => Err(e),
            }
        },
    }
}

/// The document that a JSON value describes: the nodes that the items of an
/// array describe.
pub open spec fn document_spec(root: JsonView) -> Result<Seq<NodeView>, SchemaError>
    decreases root, 0nat,
{
    match root {
        JsonView::Array(items) => nodes_spec(items),
        _ => Err(SchemaError::RootNotArray),
    }
}

/// The nodes that a list of JSON values describes, in order, or the error of
/// the first value that describes none.
pub open spec fn nodes_spec(items: Seq<JsonView>) -> Result<Seq<NodeView>, SchemaError>
    decreases items, 0nat,
{
    if items.len() == 0 {
        Ok(Seq::empty())
    } else {
        proof {
            vstd::seq::axiom_seq_subrange_decreases(items, 0, items.len() - 1);
        }
        match nodes_spec(items.drop_last()) {
            Err(e) => Err(e),
            Ok(nodes) => match node_spec(items.last()) {
                Ok(node) => Ok(nodes.push(node)),
                Err(e) => Err(e),
            },
        }
    }
}

/// An error among the first `k` items is the error of the whole list.
pub proof fn lemma_nodes_spec_prefix_error(items: Seq<JsonView>, k: int)
    requires
        0 <= k <= items.len(),
        nodes_spec(items.take(k)) is Err,
    ensures
        nodes_spec(items) == nodes_spec(items.take(k)),
    decreases items.len() - k,
{
    if k == items.len() {
        assert(items.take(k) == items);
    } else {
        assert(items.drop_last().take(k) == items.take(k));
        lemma_nodes_spec_prefix_error(items.drop_last(), k);
    }
}

/// Builds the node that a JSON value describes.
pub fn build_node(obj: &Json) -> (r: Result<kdl::KdlNode, SchemaError>)
    ensures
        match r {
            Ok(n) => node_spec(obj@) == Ok::<NodeView, SchemaError>(node_view(n)) && node_plain(n),
            Err(e) => node_spec(obj@) == Err::<NodeView, SchemaError>(e),
        },
    decreases obj@,
{
    let name = match obj.get("name") {
        Some(Json::String(name)) => name.as_str(),
        _ => {
            return Err(SchemaError::MissingName);
        },
    };
    let mut node = new_node(name);
    if let Some(arguments) = obj.get("arguments") {
        let items = match arguments.as_array() {
            Some(items) => items,
            None => {
                return Err(SchemaError::BadArguments);
            },
        };
        let ghost args = array_view(items@);
        let mut i: usize = 0;
        while i < items.len()
            invariant
                i <= items.len(),
                args == array_view(items@),
                node_view(node) == (NodeView {
                    name: name@,
                    ty: None,
                    entries: positional(args.take(i as int)),
                    children: None,
                }),
                node_plain(node),
            decreases items.len() - i,
        {
            proof {
                assert(args.take(i + 1).drop_last() == args.take(i as int));
                assert(args.take(i + 1).last() == items@[i as int]@);
            }
            match entry_to_kdl(&items[i]) {
                Ok(entry) => {
                    node_push(&mut node, entry);
                },
                Err(_) => {},
            }
            i += 1;
        }
        proof {
            assert(args.take(items.len() as int) == args);
        }
    }
    let ghost positionals = positional(arguments_of(obj@)->Ok_0);
    assert(node_view(node).entries == positionals);
    if let Some(properties) = obj.get("properties") {
        let pairs = match properties.as_object() {
            Some(pairs) => pairs,
            None => {
                return Err(SchemaError::BadProperties);
            },
        };
        let ghost props = object_view(pairs@);
        let mut i: usize = 0;
        while i < pairs.len()
            invariant
                i <= pairs.len(),
                props == object_view(pairs@),
                node_view(node) == (NodeView {
                    name: name@,
                    ty: None,
                    entries: keyed(positionals, props.take(i as int)),
                    children: None,
                }),
                node_plain(node),
            decreases pairs.len() - i,
        {
            proof {
                assert(props.take(i + 1).drop_last() == props.take(i as int));
                assert(props.take(i + 1).last() == (pairs@[i as int].0@, pairs@[i as int].1@));
            }
            match entry_to_kdl(&pairs[i].1) {
                Ok(entry) => {
                    let _ = node_insert(&mut node, pairs[i].0.as_str(), entry);
                },
                Err(_) => {},
            }
            i += 1;
        }
        proof {
            assert(props.take(pairs.len() as int) == props);
        }
    }
    if let Some(children) = obj.get("children") {
        proof {
            lemma_lookup_decreases(obj@, "children"@);
        }
        match json_to_kdl(children) {
            Ok(document) => {
                node_set_children(&mut node, document);
            },
            Err(e) => {
                return Err(e);
            },
        }
    }
    if let Some(ty) = obj.get("type") {
        if !ty.is_null() {
            match ty.as_str() {
                Some(ty) => {
                    node_set_ty(&mut node, ty);
                },
                None => {
                    return Err(SchemaError::BadNodeType);
                },
            }
        }
    }
    Ok(node)
}

/// Builds the document that a JSON value describes: one node for each item
/// of the array, in order. Where an item describes no node there is no
/// document.
pub fn json_to_kdl(root: &Json) -> (r: Result<kdl::KdlDocument, SchemaError>)
    ensures
        match r {
            Ok(d) => document_spec(root@) == Ok::<Seq<NodeView>, SchemaError>(document_view(d))
                && document_plain(d),
            Err(e) => document_spec(root@) == Err::<Seq<NodeView>, SchemaError>(e),
        },
    decreases root@,
{
    let items = match root.as_array() {
        Some(items) => items,
        None => {
            return Err(SchemaError::RootNotArray);
        },
    };
    let ghost values = array_view(items@);
    let mut document = new_document();
    let mut i: usize = 0;
    while i < items.len()
        invariant
            i <= items.len(),
            values == array_view(items@),
            root@ == JsonView::Array(values),
            nodes_spec(values.take(i as int)) == Ok::<Seq<NodeView>, SchemaError>(
                document_view(document),
            ),
            document_plain(document),
        decreases items.len() - i,
    {
        proof {
            assert(values.take(i + 1).drop_last() == values.take(i as int));
            assert(values.take(i + 1).last() == items@[i as int]@);
            assert(values[i as int] == items@[i as int]@);
        }
        match build_node(&items[i]) {
            Ok(node) => {
                document_push(&mut document, node);
            },
            Err(e) => {
                proof {
                    lemma_nodes_spec_prefix_error(values, i + 1);
                }
                return Err(e);
            },
        }
        i += 1;
    }
    proof {
        assert(values.take(items.len() as int) == values);
    }
    Ok(document)
}

} // verus!
