//! What holds of the registered commands.

use crate::config::CommandEntry;
use crate::registry::registered;
use vstd::prelude::*;

verus! {

/// A command is registered with the path of the last entry that names it.
pub proof fn law_last_entry_of_a_command_counts(entries: Seq<CommandEntry>, i: int)
    requires
        0 <= i < entries.len(),
        forall|j: int| i < j < entries.len() ==> (#[trigger] entries[j]).id@ != entries[i].id@,
    ensures
        registered(entries).dom().contains(entries[i].id@),
        registered(entries)[entries[i].id@] == entries[i].path@,
    decreases entries.len(),
{
    if i < entries.len() - 1 {
        let init = entries.drop_last();
        assert(init[i] == entries[i]);
        assert forall|j: int| i < j < init.len() implies (#[trigger] init[j]).id@ != init[i].id@ by {
            assert(init[j] == entries[j]);
        }
        law_last_entry_of_a_command_counts(init, i);
        assert(entries[entries.len() - 1].id@ != entries[i].id@);
    }
}

/// No command is registered that no entry names.
pub proof fn law_only_named_commands_are_registered(entries: Seq<CommandEntry>, id: Seq<char>)
    ensures
        registered(entries).dom().contains(id) <==> exists|i: int|
            0 <= i < entries.len() && (#[trigger] entries[i]).id@ == id,
    decreases entries.len(),
{
    if entries.len() > 0 {
        let init = entries.drop_last();
        law_only_named_commands_are_registered(init, id);
        if exists|i: int| 0 <= i < init.len() && (#[trigger] init[i]).id@ == id {
            let i = choose|i: int| 0 <= i < init.len() && (#[trigger] init[i]).id@ == id;
            assert(entries[i].id@ == id);
        }
        if exists|i: int| 0 <= i < entries.len() && (#[trigger] entries[i]).id@ == id {
            let i = choose|i: int| 0 <= i < entries.len() && (#[trigger] entries[i]).id@ == id;
            if i < init.len() {
                assert(init[i].id@ == id);
            }
        }
        if entries.last().id@ == id {
            assert(entries[entries.len() - 1].id@ == id);
        }
    }
}

} // verus!
