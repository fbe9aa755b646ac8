//! Commands that work on values alone.

pub mod common;
pub mod files;
pub mod foreach_object;
pub mod patterns;
pub mod get_process;
pub mod group_object;
pub mod select_object;
pub mod sort_object;
pub mod where_object;
pub mod write_output;

use vstd::prelude::*;
use crate::cmdlet::{Cmdlet, CmdletRegistry};
pub use files::{
    GetChildItemCmdlet, GetContentCmdlet, NewItemCmdlet, RemoveItemCmdlet, SetContentCmdlet, TestPathCmdlet,
};
pub use foreach_object::ForEachObjectCmdlet;
pub use get_process::GetProcessCmdlet;
pub use group_object::GroupObjectCmdlet;
pub use select_object::SelectObjectCmdlet;
pub use sort_object::SortObjectCmdlet;
pub use where_object::WhereObjectCmdlet;
pub use write_output::WriteOutputCmdlet;

verus! {

fn enroll(registry: &mut CmdletRegistry, name: String, cmdlet: Box<dyn Cmdlet>)
    ensures
        final(registry).keys() == crate::cmdlet::keys_with(old(registry).keys(), name@),
{
    registry.register_as(name.as_str(), cmdlet);
}

/// The names of the commands of this module.
pub open spec fn command_names() -> Seq<Seq<char>> {
    seq![
        "Write-Output"@,
        "Where-Object"@,
        "Select-Object"@,
        "ForEach-Object"@,
        "Get-Process"@,
        "Sort-Object"@,
        "Group-Object"@,
    ]
}

/// The keys after the first `n` commands of this module are registered.
pub open spec fn keys_with_all(keys: Seq<Seq<char>>, n: int) -> Seq<Seq<char>>
    decreases n,
{
    if n <= 0 || n > command_names().len() {
        keys
    } else {
        crate::cmdlet::keys_with(keys_with_all(keys, n - 1), command_names()[n - 1])
    }
}

/// Registers the commands of this module, each under its name.
pub fn register_all(registry: &mut CmdletRegistry)
    ensures
        final(registry).keys() == keys_with_all(old(registry).keys(), 7),
        forall|i: int|
            0 <= i < 7 ==> crate::cmdlet::has_command(final(registry).keys(), #[trigger] command_names()[i]),
        forall|name: Seq<char>|
            crate::cmdlet::has_command(old(registry).keys(), name) ==> crate::cmdlet::has_command(
                final(registry).keys(),
                name,
            ),
{
    let ghost k0 = registry.keys();
    enroll(registry, WriteOutputCmdlet.name(), Box::new(WriteOutputCmdlet));
    enroll(registry, WhereObjectCmdlet.name(), Box::new(WhereObjectCmdlet));
    enroll(registry, SelectObjectCmdlet.name(), Box::new(SelectObjectCmdlet));
    enroll(registry, ForEachObjectCmdlet.name(), Box::new(ForEachObjectCmdlet));
    enroll(registry, GetProcessCmdlet.name(), Box::new(GetProcessCmdlet));
    enroll(registry, SortObjectCmdlet.name(), Box::new(SortObjectCmdlet));
    enroll(registry, GroupObjectCmdlet.name(), Box::new(GroupObjectCmdlet));
    proof {
        reveal_with_fuel(keys_with_all, 8);
        assert(registry.keys() == keys_with_all(k0, 7));
        lemma_all_registered(k0, 7);
        assert forall|name: Seq<char>| crate::cmdlet::has_command(k0, name) implies crate::cmdlet::has_command(
            registry.keys(),
            name,
        ) by {
            lemma_registered_stay(k0, 7, name);
        }
    }
}

/// What was registered before stays registered.
pub proof fn lemma_registered_stay(keys: Seq<Seq<char>>, n: int, name: Seq<char>)
    requires
        0 <= n <= command_names().len(),
        crate::cmdlet::has_command(keys, name),
    ensures
        crate::cmdlet::has_command(keys_with_all(keys, n), name),
    decreases n,
{
    if n > 0 {
        lemma_registered_stay(keys, n - 1, name);
        common::lemma_keys_with_keeps(keys_with_all(keys, n - 1), command_names()[n - 1], name);
    }
}

/// The commands that were registered are found.
pub proof fn lemma_all_registered(keys: Seq<Seq<char>>, n: int)
    requires
        0 <= n <= command_names().len(),
    ensures
        forall|i: int| 0 <= i < n ==> crate::cmdlet::has_command(keys_with_all(keys, n), #[trigger] command_names()[i]),
    decreases n,
{
    if n > 0 {
        lemma_all_registered(keys, n - 1);
        let before = keys_with_all(keys, n - 1);
        common::lemma_keys_with(before, command_names()[n - 1]);
        assert forall|i: int| 0 <= i < n implies crate::cmdlet::has_command(
            keys_with_all(keys, n),
            #[trigger] command_names()[i],
        ) by {
            if i < n - 1 {
                common::lemma_keys_with_keeps(before, command_names()[n - 1], command_names()[i]);
            }
        }
    }
}

} // verus!
