use vstd::prelude::*;
use crate::convert::text_spec;
use crate::document::{insert_spec, last_index_of, named, EntryView, LiteralView, NodeView};
use crate::entry::{classify_spec, entry_spec, ClassifiedView};
use crate::error::{ClassifyError, SchemaError};
use crate::json::{distinct_keys, lemma_lookup_unique_keys, lookup, unique_keys, Json, JsonView};
use crate::node::{
    arguments_of, children_spec, document_spec, keyed, name_of, node_spec, node_type_of,
    nodes_spec, positional, properties_of,
};
use crate::number::{double_holds, double_of, NumberView};

verus! {

/// A value with a string under `name`, and with every other member of the
/// right shape, describes a node, and the node has exactly that name.
pub proof fn lemma_node_keeps_name(obj: JsonView, name: Seq<char>)
    requires
        lookup(obj, "name"@) == Some(JsonView::String(name)),
        arguments_of(obj) is Ok,
        properties_of(obj) is Ok,
        children_spec(obj) is Ok,
        node_type_of(obj) is Ok,
    ensures
        node_spec(obj) matches Ok(node) && node.name == name,
{
}

/// A value without a string under `name` describes no node.
pub proof fn lemma_node_needs_name(obj: JsonView)
    requires
        !(lookup(obj, "name"@) matches Some(JsonView::String(_))),
    ensures
        node_spec(obj) == Err::<NodeView, SchemaError>(SchemaError::MissingName),
{
}

/// A number that is a double is classified as a float with the same bits.
/// A whole number within the signed 64-bit range is classified as that
/// integer; one beyond it that a double holds exactly, as the float of that
/// double; any other is refused.
pub proof fn lemma_number_kinds(n: NumberView)
    ensures
        n matches NumberView::Float(bits) ==> classify_spec(JsonView::Number(n)) == Ok::<
            ClassifiedView,
            ClassifyError,
        >(ClassifiedView { literal: LiteralView::Float(bits), ty: None }),
        n matches NumberView::Integer(i) ==> classify_spec(JsonView::Number(n)) == (if i64::MIN <= i
            <= i64::MAX {
            Ok::<ClassifiedView, ClassifyError>(
                ClassifiedView { literal: LiteralView::Integer(i as i64), ty: None },
            )
        } else if double_holds(i) {
            Ok::<ClassifiedView, ClassifyError>(
                ClassifiedView { literal: LiteralView::Float(double_of(i)), ty: None },
            )
        } else {
            Err::<ClassifiedView, ClassifyError>(ClassifyError::NumericRange)
        }),
{
}

/// A number is refused only where it is a whole number that fits neither in
/// 64 signed bits nor exactly in a double.
pub proof fn lemma_number_refused(n: NumberView)
    ensures
        classify_spec(JsonView::Number(n)) is Err <==> (n matches NumberView::Integer(i) && !(
        i64::MIN <= i <= i64::MAX) && !double_holds(i)),
{
}

/// The entries of a list of arguments have no name.
pub proof fn lemma_positional_unnamed(args: Seq<JsonView>)
    ensures
        forall|i: int| 0 <= i < positional(args).len() ==> positional(args)[i].name is None,
    decreases args.len(),
{
    if args.len() > 0 {
        lemma_positional_unnamed(args.drop_last());
    }
}

/// An argument that describes no entry leaves no trace: the list without it
/// gives the same entries.
pub proof fn lemma_bad_argument_is_dropped(args: Seq<JsonView>, i: int)
    requires
        0 <= i < args.len(),
        entry_spec(args[i]) is Err,
    ensures
        positional(args) == positional(args.remove(i)),
    decreases args.len(),
{
    if i == args.len() - 1 {
        assert(args.remove(i) == args.drop_last());
    } else {
        assert(args.remove(i).drop_last() == args.drop_last().remove(i));
        assert(args.remove(i).last() == args.last());
        lemma_bad_argument_is_dropped(args.drop_last(), i);
    }
}

/// Where `last_index_of` finds an entry, the entry has that name.
pub proof fn lemma_last_index_of_some(entries: Seq<EntryView>, key: Seq<char>)
    ensures
        last_index_of(entries, key) matches Some(i) ==> 0 <= i < entries.len() && entries[i].name
            == Some(key),
    decreases entries.len(),
{
    if entries.len() > 0 && entries.last().name != Some(key) {
        lemma_last_index_of_some(entries.drop_last(), key);
    }
}

/// Where no entry has the name, `last_index_of` finds none.
pub proof fn lemma_last_index_of_none(entries: Seq<EntryView>, key: Seq<char>)
    requires
        forall|i: int| 0 <= i < entries.len() ==> entries[i].name != Some(key),
    ensures
        last_index_of(entries, key) is None,
    decreases entries.len(),
{
    if entries.len() > 0 {
        lemma_last_index_of_none(entries.drop_last(), key);
    }
}

/// Inserting properties after entries without names leaves those entries
/// where they are, and every entry behind them has a name.
pub proof fn lemma_keyed_keeps_front(front: Seq<EntryView>, props: Seq<(Seq<char>, JsonView)>)
    requires
        forall|i: int| 0 <= i < front.len() ==> front[i].name is None,
    ensures
        keyed(front, props).len() >= front.len(),
        keyed(front, props).take(front.len() as int) == front,
        forall|i: int|
            front.len() <= i < keyed(front, props).len() ==> keyed(front, props)[i].name is Some,
    decreases props.len(),
{
    if props.len() == 0 {
        assert(front.take(front.len() as int) == front);
    } else {
        let before = keyed(front, props.drop_last());
        lemma_keyed_keeps_front(front, props.drop_last());
        if let Ok(e) = entry_spec(props.last().1) {
            let key = props.last().0;
            lemma_last_index_of_some(before, key);
            let after = insert_spec(before, key, e);
            match last_index_of(before, key) {
                Some(i) => {
                    assert(before.take(front.len() as int)[i] == before[i] || i >= front.len());
                    assert(i >= front.len());
                    assert(after.take(front.len() as int) == before.take(front.len() as int));
                },
                None => {
                    assert(after.take(front.len() as int) == before.take(front.len() as int));
                },
            }
        }
    }
}

/// In a node, the arguments precede the properties: the entries begin with
/// those of the arguments, in order, and only the entries behind them have
/// names.
pub proof fn lemma_arguments_precede_properties(obj: JsonView)
    requires
        node_spec(obj) is Ok,
    ensures
        ({
            let entries = node_spec(obj)->Ok_0.entries;
            let front = positional(arguments_of(obj)->Ok_0);
            &&& front.len() <= entries.len()
            &&& entries.take(front.len() as int) == front
            &&& forall|i: int| 0 <= i < front.len() ==> entries[i].name is None
            &&& forall|i: int| front.len() <= i < entries.len() ==> entries[i].name is Some
        }),
{
    let front = positional(arguments_of(obj)->Ok_0);
    lemma_positional_unnamed(arguments_of(obj)->Ok_0);
    lemma_keyed_keeps_front(front, properties_of(obj)->Ok_0);
    let entries = node_spec(obj)->Ok_0.entries;
    assert forall|i: int| 0 <= i < front.len() implies entries[i].name is None by {
        assert(entries.take(front.len() as int)[i] == entries[i]);
    }
}

/// The entries that a list of properties gives where each is added at the
/// end: those of the pairs whose value describes an entry, each under its
/// key.
pub open spec fn appended(props: Seq<(Seq<char>, JsonView)>) -> Seq<EntryView>
    decreases props.len(),
{
    if props.len() == 0 {
        Seq::empty()
    } else {
        let before = appended(props.drop_last());
        match entry_spec(props.last().1) {
            Ok(e) => before.push(named(props.last().0, e)),
            Err(_) => before,
        }
    }
}

/// Every entry of `appended` has the key of one of the pairs as its name.
pub proof fn lemma_appended_names(props: Seq<(Seq<char>, JsonView)>)
    ensures
        forall|i: int|
            0 <= i < appended(props).len() ==> exists|j: int|
                0 <= j < props.len() && #[trigger] appended(props)[i].name == Some(
                    #[trigger] props[j].0,
                ),
    decreases props.len(),
{
    if props.len() > 0 {
        let rest = props.drop_last();
        lemma_appended_names(rest);
        assert forall|i: int| 0 <= i < appended(props).len() implies exists|j: int|
            0 <= j < props.len() && #[trigger] appended(props)[i].name == Some(
                #[trigger] props[j].0,
            ) by {
            if i < appended(rest).len() {
                let j = choose|j: int|
                    0 <= j < rest.len() && #[trigger] appended(rest)[i].name == Some(
                        #[trigger] rest[j].0,
                    );
                assert(rest[j] == props[j]);
                assert(appended(props)[i] == appended(rest)[i]);
            } else {
                let j = props.len() - 1;
                assert(appended(props)[i].name == Some(props[j].0));
            }
        }
    }
}

/// Where no two properties share a key, inserting them is adding each at the
/// end: the entries of a node are those of its arguments followed by those
/// of its properties, both in order.
pub proof fn lemma_distinct_keys_append(front: Seq<EntryView>, props: Seq<(Seq<char>, JsonView)>)
    requires
        forall|i: int| 0 <= i < front.len() ==> front[i].name is None,
        distinct_keys(props),
    ensures
        keyed(front, props) == front + appended(props),
    decreases props.len(),
{
    if props.len() == 0 {
        assert(front + Seq::<EntryView>::empty() == front);
    } else {
        let rest = props.drop_last();
        let key = props.last().0;
        assert forall|i: int, j: int| 0 <= i < j < rest.len() implies rest[i].0 != rest[j].0 by {
            assert(rest[i] == props[i]);
            assert(rest[j] == props[j]);
        }
        lemma_distinct_keys_append(front, rest);
        let before = front + appended(rest);
        if let Ok(e) = entry_spec(props.last().1) {
            lemma_appended_names(rest);
            assert forall|i: int| 0 <= i < before.len() implies before[i].name != Some(key) by {
                if i >= front.len() {
                    let k = i - front.len();
                    assert(before[i] == appended(rest)[k]);
                    let j = choose|j: int|
                        0 <= j < rest.len() && #[trigger] appended(rest)[k].name == Some(
                            #[trigger] rest[j].0,
                        );
                    assert(rest[j] == props[j]);
                    assert(props[j].0 != props[props.len() - 1].0);
                }
            }
            lemma_last_index_of_none(before, key);
            assert(before.push(named(key, e)) == front + appended(rest).push(named(key, e)));
        }
    }
}

/// In a node that a value with unique keys describes, the entries are
/// exactly those of the arguments followed by those of the properties,
/// whatever the order of the members in the value.
pub proof fn lemma_node_entries(obj: JsonView)
    requires
        unique_keys(obj),
        node_spec(obj) is Ok,
    ensures
        node_spec(obj)->Ok_0.entries == positional(arguments_of(obj)->Ok_0) + appended(
            properties_of(obj)->Ok_0,
        ),
{
    lemma_lookup_unique_keys(obj, "properties"@);
    lemma_positional_unnamed(arguments_of(obj)->Ok_0);
    lemma_distinct_keys_append(positional(arguments_of(obj)->Ok_0), properties_of(obj)->Ok_0);
}

/// An item that describes no node makes the whole list describe none: the
/// error is that of the first such item.
pub proof fn lemma_first_bad_item_fails_all(items: Seq<JsonView>, i: int)
    requires
        0 <= i < items.len(),
        node_spec(items[i]) is Err,
        forall|j: int| 0 <= j < i ==> node_spec(items[j]) is Ok,
    ensures
        nodes_spec(items) == Err::<Seq<NodeView>, SchemaError>(
            node_spec(items[i])->Err_0,
        ),
    decreases items.len(),
{
    let rest = items.drop_last();
    if i == items.len() - 1 {
        lemma_good_items_give_nodes(rest);
    } else {
        assert(rest[i] == items[i]);
        assert forall|j: int| 0 <= j < i implies node_spec(rest[j]) is Ok by {
            assert(rest[j] == items[j]);
        }
        lemma_first_bad_item_fails_all(rest, i);
    }
}

/// Items that each describe a node describe as many nodes, in order.
pub proof fn lemma_good_items_give_nodes(items: Seq<JsonView>)
    requires
        forall|j: int| 0 <= j < items.len() ==> node_spec(items[j]) is Ok,
    ensures
        nodes_spec(items) matches Ok(nodes) && nodes.len() == items.len() && forall|j: int|
            0 <= j < items.len() ==> node_spec(items[j]) == Ok::<
                NodeView,
                SchemaError,
            >(nodes[j]),
    decreases items.len(),
{
    if items.len() > 0 {
        let rest = items.drop_last();
        assert forall|j: int| 0 <= j < rest.len() implies node_spec(rest[j]) is Ok by {
            assert(rest[j] == items[j]);
        }
        lemma_good_items_give_nodes(rest);
        let nodes = nodes_spec(items)->Ok_0;
        assert forall|j: int| 0 <= j < items.len() implies node_spec(items[j]) == Ok::<
            NodeView,
            SchemaError,
        >(nodes[j]) by {
            if j < rest.len() {
                assert(rest[j] == items[j]);
            }
        }
    }
}

/// The children of a node are the document that the member under
/// `children` describes.
pub proof fn lemma_children_are_nested(obj: JsonView, children: JsonView)
    requires
        node_spec(obj) is Ok,
        lookup(obj, "children"@) == Some(children),
    ensures
        document_spec(children) matches Ok(nodes) && node_spec(obj)->Ok_0.children == Some(nodes),
{
}

/// Children that describe no document make their node describe none, with
/// the same error.
pub proof fn lemma_bad_children_fail_node(obj: JsonView, children: JsonView)
    requires
        name_of(obj) is Ok,
        arguments_of(obj) is Ok,
        properties_of(obj) is Ok,
        lookup(obj, "children"@) == Some(children),
        document_spec(children) is Err,
    ensures
        node_spec(obj) == Err::<NodeView, SchemaError>(
            document_spec(children)->Err_0,
        ),
{
}

/// A null under `type` is no type: two values that differ in nothing but
/// that one has `null` there and the other has no such member describe the
/// same node.
pub proof fn lemma_null_type_is_no_type(with_null: JsonView, without: JsonView)
    requires
        lookup(with_null, "type"@) == Some(JsonView::Null),
        lookup(without, "type"@) is None,
        lookup(with_null, "name"@) == lookup(without, "name"@),
        lookup(with_null, "arguments"@) == lookup(without, "arguments"@),
        lookup(with_null, "properties"@) == lookup(without, "properties"@),
        lookup(with_null, "children"@) == lookup(without, "children"@),
    ensures
        node_spec(with_null) == node_spec(without),
{
}

/// A null under `type` is no annotation: two wrappers of the same value, one
/// with `null` there and one with no such member, describe the same entry,
/// and it has no type.
pub proof fn lemma_null_annotation_is_no_annotation(with_null: JsonView, without: JsonView)
    requires
        lookup(with_null, "type"@) == Some(JsonView::Null),
        lookup(without, "type"@) is None,
        lookup(with_null, "value"@) is Some,
        lookup(with_null, "value"@) == lookup(without, "value"@),
    ensures
        entry_spec(with_null) == entry_spec(without),
        entry_spec(without) matches Ok(e) ==> e.ty is None,
{
}

/// The conversion is a function of the content of its input: two values
/// with the same view describe the same document, and the same text.
pub proof fn lemma_same_input_same_output(a: Json, b: Json)
    requires
        a@ == b@,
    ensures
        document_spec(a@) == document_spec(b@),
        text_spec(a@) == text_spec(b@),
{
}

} // verus!
