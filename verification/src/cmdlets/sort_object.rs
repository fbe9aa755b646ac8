//! `Sort-Object`: puts the items of the pipeline in order.

use vstd::prelude::*;
use crate::cmdlet::{Cmdlet, CmdletContext, CmdletStep};
use crate::cmdlets::common::{
    flattened,
    get_or_null,
    get_parameter_ci,
    parameter,
    parse_property_list,
    parse_switch,
    property_names,
    property_or_null,
    strings_among,
    strings_of,
    switch_value,
    unroll_to_items,
};
use crate::error::{RuntimeError, RuntimeErrorView};
use crate::number::less_bits;
use crate::text::{chars_of, lowercase, to_lowercase};
use crate::value::{clone_value, clone_values, display_text, number_of, text_before, Value, ValueView};

verus! {

/// Sorts by value, or by the properties that are named. Equal items keep the order
/// they came in.
pub struct SortObjectCmdlet;

/// How one item stands to another.
#[derive(Clone, Copy, Debug, PartialEq, Eq, Structural)]
pub enum Order {
    Before,
    Same,
    After,
}

/// The order the other way round.
pub open spec fn turned(order: Order) -> Order {
    match order {
        Order::Before => Order::After,
        Order::Same => Order::Same,
        Order::After => Order::Before,
    }
}

/// The order of two values: `Null` comes first; two values that stand for numbers
/// go by the numbers, and rank the same where one is NaN; all others go by their
/// texts in lower case.
pub open spec fn value_order(a: ValueView, b: ValueView) -> Order {
    if a is Null && b is Null {
        Order::Same
    } else if a is Null {
        Order::Before
    } else if b is Null {
        Order::After
    } else {
        match (number_of(a), number_of(b)) {
            (Some(x), Some(y)) => if less_bits(x, y) {
                Order::Before
            } else if less_bits(y, x) {
                Order::After
            } else {
                Order::Same
            },
            _ => {
                let s = lowercase(display_text(a));
                let t = lowercase(display_text(b));
                if text_before(s, t, 0) {
                    Order::Before
                } else if text_before(t, s, 0) {
                    Order::After
                } else {
                    Order::Same
                }
            },
        }
    }
}

/// The order of two items by the properties from index `i` on: the first property
/// in which they differ decides.
pub open spec fn keyed_order(a: ValueView, b: ValueView, names: Seq<Seq<char>>, i: int) -> Order
    decreases names.len() - i,
{
    if !(0 <= i < names.len()) {
        Order::Same
    } else {
        let order = value_order(property_or_null(a, names[i]), property_or_null(b, names[i]));
        if order != Order::Same {
            order
        } else {
            keyed_order(a, b, names, i + 1)
        }
    }
}

/// The order of two items in a sort: by value where no properties are named, and
/// the other way round where the sort is descending.
pub open spec fn item_order(a: ValueView, b: ValueView, names: Seq<Seq<char>>, descending: bool) -> Order {
    let order = if names.len() == 0 {
        value_order(a, b)
    } else {
        keyed_order(a, b, names, 0)
    };
    if descending {
        turned(order)
    } else {
        order
    }
}

/// The sorted list with `item` put in before the first item from `from` on that it
/// comes before.
pub open spec fn placed(sorted: Seq<ValueView>, item: ValueView, names: Seq<Seq<char>>, descending: bool, from: int) -> Seq<
    ValueView,
>
    decreases sorted.len() - from,
{
    if 0 <= from < sorted.len() && item_order(item, sorted[from], names, descending) != Order::Before {
        placed(sorted, item, names, descending, from + 1)
    } else if 0 <= from <= sorted.len() {
        sorted.insert(from, item)
    } else {
        sorted
    }
}

/// The first `n` items in order.
pub open spec fn sorted_items(items: Seq<ValueView>, names: Seq<Seq<char>>, descending: bool, n: int) -> Seq<ValueView>
    decreases n,
{
    if n <= 0 || n > items.len() {
        Seq::empty()
    } else {
        placed(sorted_items(items, names, descending, n - 1), items[n - 1], names, descending, 0)
    }
}

/// The items that are sorted: the pipeline input, or without it the arguments with
/// arrays replaced by their items.
pub open spec fn sort_input(context: CmdletContext) -> Seq<ValueView> {
    if context.pipeline_input.len() > 0 {
        context.pipeline_input.deep_view()
    } else {
        flattened(context.arguments.deep_view(), context.arguments.len() as int)
    }
}

/// The properties to sort by: those of `-Property`; without them, and with pipeline
/// input, the strings among the arguments.
pub open spec fn sort_names(context: CmdletContext) -> Seq<Seq<char>> {
    let named = property_names(parameter(context, "Property"@));
    if context.pipeline_input.len() > 0 && named.len() == 0 {
        strings_among(context.arguments.deep_view(), context.arguments.len() as int)
    } else {
        named
    }
}

/// What `Sort-Object` gives: the items in order, or the error of a `-Descending`
/// that is no switch value.
pub open spec fn sort_output(context: CmdletContext) -> Result<Seq<ValueView>, RuntimeErrorView> {
    match switch_value(parameter(context, "Descending"@)) {
        Err(e) => Err(e),
        Ok(descending) => Ok(
            sorted_items(sort_input(context), sort_names(context), descending, sort_input(context).len() as int),
        ),
    }
}

fn turn(order: Order) -> (r: Order)
    ensures
        r == turned(order),
{
    match order {
        Order::Before => Order::After,
        Order::Same => Order::Same,
        Order::After => Order::Before,
    }
}

impl SortObjectCmdlet {
    /// The order of two values.
    pub fn order_values(a: &Value, b: &Value) -> (r: Order)
        ensures
            r == value_order(a.deep_view(), b.deep_view()),
    {
        let a_null = matches!(a, Value::Null);
        let b_null = matches!(b, Value::Null);
        if a_null && b_null {
            return Order::Same;
        }
        if a_null {
            return Order::Before;
        }
        if b_null {
            return Order::After;
        }
        match (a.to_number(), b.to_number()) {
            (Some(x), Some(y)) => {
                if x.less_than(y) {
                    Order::Before
                } else if y.less_than(x) {
                    Order::After
                } else {
                    Order::Same
                }
            },
            _ => {
                let s = chars_of(to_lowercase(a.to_string().as_str()).as_str());
                let t = chars_of(to_lowercase(b.to_string().as_str()).as_str());
                if crate::value::before(&s, &t) {
                    Order::Before
                } else if crate::value::before(&t, &s) {
                    Order::After
                } else {
                    Order::Same
                }
            },
        }
    }

    /// The order of two items by the named properties.
    pub fn order_by_properties(a: &Value, b: &Value, names: &Vec<String>) -> (r: Order)
        ensures
            r == keyed_order(a.deep_view(), b.deep_view(), names.deep_view(), 0),
    {
        let mut i: usize = 0;
        while i < names.len()
            invariant
                i <= names.len(),
                keyed_order(a.deep_view(), b.deep_view(), names.deep_view(), i as int) == keyed_order(
                    a.deep_view(),
                    b.deep_view(),
                    names.deep_view(),
                    0,
                ),
            decreases names.len() - i,
        {
            let x = get_or_null(a, names[i].as_str());
            let y = get_or_null(b, names[i].as_str());
            let found = SortObjectCmdlet::order_values(&x, &y);
            if found != Order::Same {
                return found;
            }
            i += 1;
        }
        Order::Same
    }

    /// The order of two items in a sort.
    pub fn order_items(a: &Value, b: &Value, names: &Vec<String>, descending: bool) -> (r: Order)
        ensures
            r == item_order(a.deep_view(), b.deep_view(), names.deep_view(), descending),
    {
        let order = if names.len() == 0 {
            SortObjectCmdlet::order_values(a, b)
        } else {
            SortObjectCmdlet::order_by_properties(a, b, names)
        };
        if descending {
            turn(order)
        } else {
            order
        }
    }

    /// The items in order.
    pub fn sort(items: &Vec<Value>, names: &Vec<String>, descending: bool) -> (r: Vec<Value>)
        ensures
            r.deep_view() == sorted_items(items.deep_view(), names.deep_view(), descending, items.len() as int),
    {
        let mut sorted: Vec<Value> = Vec::new();
        let mut n: usize = 0;
        assert(sorted.deep_view() =~= sorted_items(items.deep_view(), names.deep_view(), descending, 0));
        while n < items.len()
            invariant
                n <= items.len(),
                sorted.deep_view() == sorted_items(items.deep_view(), names.deep_view(), descending, n as int),
            decreases items.len() - n,
        {
            let item = clone_value(&items[n]);
            let ghost before = sorted.deep_view();
            let mut at: usize = 0;
            while at < sorted.len() && SortObjectCmdlet::order_items(&item, &sorted[at], names, descending)
                != Order::Before
                invariant
                    at <= sorted.len(),
                    sorted.deep_view() == before,
                    placed(before, item.deep_view(), names.deep_view(), descending, at as int) == placed(
                        before,
                        item.deep_view(),
                        names.deep_view(),
                        descending,
                        0,
                    ),
                decreases sorted.len() - at,
            {
                at += 1;
            }
            sorted.insert(at, item);
            assert(sorted.deep_view() =~= before.insert(at as int, item.deep_view()));
            n += 1;
        }
        sorted
    }

    /// The values that the command gives for a context.
    pub fn output(context: &CmdletContext) -> (r: Result<Vec<Value>, RuntimeError>)
        ensures
            match sort_output(*context) {
                Ok(values) => r matches Ok(sorted) && sorted.deep_view() == values,
                Err(e) => r matches Err(error) && error.deep_view() == e,
            },
    {
        let descending = match parse_switch(get_parameter_ci(context, "Descending")) {
            Ok(b) => b,
            Err(e) => {
                return Err(e);
            },
        };
        let has_input = context.pipeline_input.len() > 0;
        let mut names = parse_property_list(get_parameter_ci(context, "Property"));
        if has_input && names.len() == 0 {
            names = strings_of(&context.arguments);
        }
        let input = if has_input {
            clone_values(&context.pipeline_input)
        } else {
            unroll_to_items(&context.arguments)
        };
        Ok(SortObjectCmdlet::sort(&input, &names, descending))
    }
}

impl Cmdlet for SortObjectCmdlet {
    fn name(&self) -> (r: String)
        ensures
            r@ == "Sort-Object"@,
    {
        "Sort-Object".to_owned()
    }

    fn execute(&self, context: &CmdletContext, replies: &Vec<Value>) -> (r: Result<CmdletStep, RuntimeError>)
        ensures
            match sort_output(*context) {
                Ok(values) => r matches Ok(CmdletStep::Done(sorted)) && sorted.deep_view() == values,
                Err(e) => r matches Err(error) && error.deep_view() == e,
            },
    {
        match SortObjectCmdlet::output(context) {
            Ok(values) => Ok(CmdletStep::Done(values)),
            Err(e) => Err(e),
        }
    }
}

} // verus!
