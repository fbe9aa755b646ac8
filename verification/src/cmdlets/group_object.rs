//! `Group-Object`: puts the items of the pipeline into groups.

use vstd::prelude::*;
use crate::cmdlet::{Cmdlet, CmdletContext, CmdletStep};
use crate::cmdlets::common::{
    get_or_null,
    get_parameter_ci,
    parameter,
    parse_property_list,
    parse_switch,
    property_or_null,
    switch_value,
    unroll_to_items,
};
use crate::cmdlets::sort_object::{sort_input, sort_names};
use crate::error::{RuntimeError, RuntimeErrorView};
use crate::number::{count_bits, Number};
use crate::text::{lemma_deep_view_push, push_chars, push_text, same_chars, string_from};
use crate::cmdlets::common::strings_of;
use crate::value::{
    before,
    clone_value,
    clone_values,
    display_chars,
    display_text,
    lemma_value_views,
    text_before,
    Property,
    PropertyView,
    Value,
    ValueView,
};

verus! {

/// Groups by the text of the items, or by the texts of the properties that are
/// named. The groups come in the order of their names.
pub struct GroupObjectCmdlet;

/// A group: its name and its items, in the order they came in.
pub struct Group {
    pub name: Vec<char>,
    pub items: Vec<Value>,
}

/// The view of a group.
pub struct GroupView {
    pub name: Seq<char>,
    pub items: Seq<ValueView>,
}

impl DeepView for Group {
    type V = GroupView;

    open spec fn deep_view(&self) -> GroupView {
        GroupView { name: self.name@, items: self.items.deep_view() }
    }
}

/// The texts of the first `n` named properties of an item, joined by commas.
pub open spec fn joined_key(item: ValueView, names: Seq<Seq<char>>, n: int) -> Seq<char>
    decreases n,
{
    if n <= 0 || n > names.len() {
        Seq::empty()
    } else if n == 1 {
        display_text(property_or_null(item, names[0]))
    } else {
        joined_key(item, names, n - 1) + ","@ + display_text(property_or_null(item, names[n - 1]))
    }
}

/// The name of the group of an item: its text, or the texts of the named properties.
pub open spec fn group_key(item: ValueView, names: Seq<Seq<char>>) -> Seq<char> {
    if names.len() == 0 {
        display_text(item)
    } else {
        joined_key(item, names, names.len() as int)
    }
}

/// The groups with `item` added under `key`, looking from index `from` on: to the
/// group of that name, or to a new group at the place of the name in the order of
/// the names.
pub open spec fn with_item(groups: Seq<GroupView>, key: Seq<char>, item: ValueView, from: int) -> Seq<GroupView>
    decreases groups.len() - from,
{
    if !(0 <= from <= groups.len()) {
        groups
    } else if from == groups.len() {
        groups.push(GroupView { name: key, items: seq![item] })
    } else if groups[from].name == key {
        groups.update(from, GroupView { name: key, items: groups[from].items.push(item) })
    } else if text_before(key, groups[from].name, 0) {
        groups.insert(from, GroupView { name: key, items: seq![item] })
    } else {
        with_item(groups, key, item, from + 1)
    }
}

/// The groups of the first `n` items.
pub open spec fn grouped(items: Seq<ValueView>, names: Seq<Seq<char>>, n: int) -> Seq<GroupView>
    decreases n,
{
    if n <= 0 || n > items.len() {
        Seq::empty()
    } else {
        with_item(grouped(items, names, n - 1), group_key(items[n - 1], names), items[n - 1], 0)
    }
}

/// What stands for a group in the output: an object with `Count`, `Name` and,
/// unless they are left out, the items as `Group`.
pub open spec fn group_info(group: GroupView, no_element: bool) -> ValueView {
    let count = PropertyView { name: "Count"@, value: ValueView::Number(count_bits(group.items.len())) };
    let name = PropertyView { name: "Name"@, value: ValueView::String(group.name) };
    if no_element {
        ValueView::Object(seq![count, name])
    } else {
        ValueView::Object(seq![count, name, PropertyView { name: "Group"@, value: ValueView::Array(group.items) }])
    }
}

/// The objects of the first `n` groups.
pub open spec fn group_infos(groups: Seq<GroupView>, no_element: bool, n: int) -> Seq<ValueView>
    decreases n,
{
    if n <= 0 || n > groups.len() {
        Seq::empty()
    } else {
        group_infos(groups, no_element, n - 1).push(group_info(groups[n - 1], no_element))
    }
}

/// The first `n` groups as properties: the name of each with its object.
pub open spec fn group_table(groups: Seq<GroupView>, no_element: bool, n: int) -> Seq<PropertyView>
    decreases n,
{
    if n <= 0 || n > groups.len() {
        Seq::empty()
    } else {
        group_table(groups, no_element, n - 1).push(
            PropertyView { name: groups[n - 1].name, value: group_info(groups[n - 1], no_element) },
        )
    }
}

/// What `Group-Object` gives: one object for each group, or with `-AsHashTable` one
/// object that has the groups as its properties; or the error of a switch that is
/// no switch value.
pub open spec fn group_output(context: CmdletContext) -> Result<Seq<ValueView>, RuntimeErrorView> {
    match switch_value(parameter(context, "NoElement"@)) {
        Err(e) => Err(e),
        Ok(no_element) => match switch_value(parameter(context, "AsHashTable"@)) {
            Err(e) => Err(e),
            Ok(as_table) => {
                let groups = grouped(sort_input(context), sort_names(context), sort_input(context).len() as int);
                if as_table {
                    Ok(seq![ValueView::Object(group_table(groups, no_element, groups.len() as int))])
                } else {
                    Ok(group_infos(groups, no_element, groups.len() as int))
                }
            },
        },
    }
}

impl GroupObjectCmdlet {
    /// The name of the group of an item.
    pub fn key_for_item(item: &Value, names: &Vec<String>) -> (r: Vec<char>)
        ensures
            r@ == group_key(item.deep_view(), names.deep_view()),
    {
        if names.len() == 0 {
            return display_chars(item);
        }
        let mut out: Vec<char> = Vec::new();
        let mut i: usize = 0;
        assert(out@ =~= joined_key(item.deep_view(), names.deep_view(), 0));
        while i < names.len()
            invariant
                i <= names.len(),
                out@ == joined_key(item.deep_view(), names.deep_view(), i as int),
            decreases names.len() - i,
        {
            if i > 0 {
                push_text(&mut out, ",");
            }
            let value = get_or_null(item, names[i].as_str());
            let text = display_chars(&value);
            push_chars(&mut out, &text);
            i += 1;
            assert(out@ =~= joined_key(item.deep_view(), names.deep_view(), i as int));
        }
        out
    }

    /// Adds an item to the groups under `key`.
    pub fn add_to_groups(groups: &mut Vec<Group>, key: Vec<char>, item: Value)
        ensures
            final(groups).deep_view() == with_item(old(groups).deep_view(), key@, item.deep_view(), 0),
    {
        let ghost start = groups.deep_view();
        let mut at: usize = 0;
        while at < groups.len()
            invariant
                at <= groups.len(),
                groups.deep_view() == start,
                start == old(groups).deep_view(),
                with_item(start, key@, item.deep_view(), at as int) == with_item(start, key@, item.deep_view(), 0),
            decreases groups.len() - at,
        {
            if same_chars(&groups[at].name, &key) {
                let mut items = clone_values(&groups[at].items);
                let ghost before = items;
                items.push(item);
                proof {
                    lemma_deep_view_push(before, items, item);
                }
                groups.set(at, Group { name: key, items });
                assert(groups.deep_view() =~= start.update(
                    at as int,
                    GroupView { name: key@, items: start[at as int].items.push(item.deep_view()) },
                ));
                return ;
            } else if before(&key, &groups[at].name) {
                let mut items: Vec<Value> = Vec::new();
                items.push(item);
                assert(items.deep_view() =~= seq![item.deep_view()]);
                groups.insert(at, Group { name: key, items });
                assert(groups.deep_view() =~= start.insert(
                    at as int,
                    GroupView { name: key@, items: seq![item.deep_view()] },
                ));
                return ;
            }
            at += 1;
        }
        let mut items: Vec<Value> = Vec::new();
        items.push(item);
        assert(items.deep_view() =~= seq![item.deep_view()]);
        let group = Group { name: key, items };
        let ghost before = *groups;
        groups.push(group);
        proof {
            lemma_deep_view_push(before, *groups, group);
        }
    }

    /// The groups of the items.
    pub fn group(items: &Vec<Value>, names: &Vec<String>) -> (r: Vec<Group>)
        ensures
            r.deep_view() == grouped(items.deep_view(), names.deep_view(), items.len() as int),
    {
        let mut groups: Vec<Group> = Vec::new();
        let mut i: usize = 0;
        assert(groups.deep_view() =~= grouped(items.deep_view(), names.deep_view(), 0));
        while i < items.len()
            invariant
                i <= items.len(),
                groups.deep_view() == grouped(items.deep_view(), names.deep_view(), i as int),
            decreases items.len() - i,
        {
            let key = GroupObjectCmdlet::key_for_item(&items[i], names);
            GroupObjectCmdlet::add_to_groups(&mut groups, key, clone_value(&items[i]));
            i += 1;
        }
        groups
    }

    /// What stands for a group in the output.
    pub fn build_group_info(group: &Group, no_element: bool) -> (r: Value)
        ensures
            r.deep_view() == group_info(group.deep_view(), no_element),
    {
        let mut properties: Vec<Property> = Vec::new();
        properties.push(
            Property { name: "Count".to_owned(), value: Value::Number(Number::from_count(group.items.len())) },
        );
        properties.push(Property { name: "Name".to_owned(), value: Value::String(string_from(&group.name)) });
        if !no_element {
            let items = Value::Array(clone_values(&group.items));
            proof {
                lemma_value_views(items);
            }
            properties.push(Property { name: "Group".to_owned(), value: items });
        }
        let r = Value::Object(properties);
        proof {
            lemma_value_views(r);
            assert(r.deep_view()->Object_0 =~= group_info(group.deep_view(), no_element)->Object_0);
        }
        r
    }

    /// The values that the command gives for a context.
    pub fn output(context: &CmdletContext) -> (r: Result<Vec<Value>, RuntimeError>)
        ensures
            match group_output(*context) {
                Ok(values) => r matches Ok(results) && results.deep_view() == values,
                Err(e) => r matches Err(error) && error.deep_view() == e,
            },
    {
        let no_element = match parse_switch(get_parameter_ci(context, "NoElement")) {
            Ok(b) => b,
            Err(e) => {
                return Err(e);
            },
        };
        let as_table = match parse_switch(get_parameter_ci(context, "AsHashTable")) {
            Ok(b) => b,
            Err(e) => {
                return Err(e);
            },
        };
        let has_input = context.pipeline_input.len() > 0;
        let mut names = parse_property_list(get_parameter_ci(context, "Property"));
        if has_input && names.len() == 0 {
            names = strings_of(&context.arguments);
        }
        let input = if has_input {
            clone_values(&context.pipeline_input)
        } else {
            unroll_to_items(&context.arguments)
        };
        let groups = GroupObjectCmdlet::group(&input, &names);
        let mut out: Vec<Value> = Vec::new();
        if as_table {
            let mut table: Vec<Property> = Vec::new();
            let mut i: usize = 0;
            assert(table.deep_view() =~= group_table(groups.deep_view(), no_element, 0));
            while i < groups.len()
                invariant
                    i <= groups.len(),
                    table.deep_view() == group_table(groups.deep_view(), no_element, i as int),
                decreases groups.len() - i,
            {
                let property = Property {
                    name: string_from(&groups[i].name),
                    value: GroupObjectCmdlet::build_group_info(&groups[i], no_element),
                };
                let ghost before = table;
                table.push(property);
                proof {
                    lemma_deep_view_push(before, table, property);
                }
                i += 1;
            }
            let value = Value::Object(table);
            proof {
                lemma_value_views(value);
            }
            out.push(value);
            assert(out.deep_view() =~= seq![value.deep_view()]);
        } else {
            let mut i: usize = 0;
            assert(out.deep_view() =~= group_infos(groups.deep_view(), no_element, 0));
            while i < groups.len()
                invariant
                    i <= groups.len(),
                    out.deep_view() == group_infos(groups.deep_view(), no_element, i as int),
                decreases groups.len() - i,
            {
                let info = GroupObjectCmdlet::build_group_info(&groups[i], no_element);
                let ghost before = out;
                out.push(info);
                proof {
                    lemma_deep_view_push(before, out, info);
                }
                i += 1;
            }
        }
        Ok(out)
    }
}

impl Cmdlet for GroupObjectCmdlet {
    fn name(&self) -> (r: String)
        ensures
            r@ == "Group-Object"@,
    {
        "Group-Object".to_owned()
    }

    fn execute(&self, context: &CmdletContext, replies: &Vec<Value>) -> (r: Result<CmdletStep, RuntimeError>)
        ensures
            match group_output(*context) {
                Ok(values) => r matches Ok(CmdletStep::Done(results)) && results.deep_view() == values,
                Err(e) => r matches Err(error) && error.deep_view() == e,
            },
    {
        match GroupObjectCmdlet::output(context) {
            Ok(values) => Ok(CmdletStep::Done(values)),
            Err(e) => Err(e),
        }
    }
}

} // verus!
