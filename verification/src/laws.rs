//! What holds of the browser's state whatever the listing and whatever the
//! keys that are pressed.

use vstd::arithmetic::div_mod::*;
use vstd::prelude::*;

use crate::app::AppView;
use crate::content::{Probe, ReadFault, NOT_A_FILE, UNREADABLE};
use crate::keymap::{command_of, phase_after, Command, Input, Key, Phase};

verus! {

/// One command together with the text found for its target.
pub type Step = (Command, Seq<char>);

/// The state after each of `steps` is applied in turn.
pub open spec fn run(state: AppView, steps: Seq<Step>) -> AppView
    decreases steps.len(),
{
    if steps.len() == 0 {
        state
    } else {
        run(state, steps.drop_last()).apply(steps.last().0, steps.last().1)
    }
}

/// The state after one move to the following entry for each text of `shown`.
pub open spec fn next_each(state: AppView, shown: Seq<Seq<char>>) -> AppView
    decreases shown.len(),
{
    if shown.len() == 0 {
        state
    } else {
        next_each(state, shown.drop_last()).next(shown.last())
    }
}

/// The state after one move to the entry before for each text of `shown`.
pub open spec fn previous_each(state: AppView, shown: Seq<Seq<char>>) -> AppView
    decreases shown.len(),
{
    if shown.len() == 0 {
        state
    } else {
        previous_each(state, shown.drop_last()).previous(shown.last())
    }
}

/// Whatever commands are applied, the listing stays as it was and in order,
/// and the selection stays on one of its entries.
pub proof fn lemma_selection_stays_in_range(state: AppView, steps: Seq<Step>)
    requires
        state.valid(),
    ensures
        run(state, steps).valid(),
        run(state, steps).items == state.items,
        state.items.len() > 0 ==> 0 <= run(state, steps).selected < state.items.len(),
    decreases steps.len(),
{
    if steps.len() > 0 {
        lemma_selection_stays_in_range(state, steps.drop_last());
    }
}

/// From the first entry a move back selects the last, and from the last
/// entry a move on selects the first.
pub proof fn lemma_selection_wraps_around(state: AppView, shown: Seq<char>)
    requires
        state.valid(),
        state.items.len() > 0,
    ensures
        state.selected == 0 ==> state.previous(shown).selected == state.items.len() - 1,
        state.selected == state.items.len() - 1 ==> state.next(shown).selected == 0,
{
    lemma_mod_self_0(state.items.len() as int);
}

/// An event that is not one of the keys `q`, `j` and `k` leaves the
/// selection, the text on show and the listing as they were, and a running
/// loop running.
pub proof fn lemma_unbound_input_changes_nothing(state: AppView, input: Input, shown: Seq<char>)
    requires
        input != Input::Key(Key::Char('q')),
        input != Input::Key(Key::Char('j')),
        input != Input::Key(Key::Char('k')),
    ensures
        command_of(input) == Command::Stay,
        state.apply(command_of(input), shown) == state,
        state.target(command_of(input)) is None,
        phase_after(Phase::Running, command_of(input)) == Phase::Running,
{
}

/// The selection after `n` moves on is `n` positions further, counted
/// round the listing.
pub proof fn lemma_next_each_selects(state: AppView, shown: Seq<Seq<char>>)
    requires
        state.valid(),
        state.items.len() > 0,
    ensures
        next_each(state, shown).valid(),
        next_each(state, shown).items == state.items,
        next_each(state, shown).selected
            == (state.selected + shown.len()) % (state.items.len() as int),
    decreases shown.len(),
{
    let count = state.items.len() as int;
    if shown.len() == 0 {
        lemma_small_mod(state.selected as nat, count as nat);
    } else {
        lemma_next_each_selects(state, shown.drop_last());
        lemma_add_mod_noop(state.selected + shown.len() - 1, 1, count);
        lemma_mod_twice(state.selected + shown.len() - 1, count);
        lemma_add_mod_noop(next_each(state, shown.drop_last()).selected, 1, count);
    }
}

/// The selection after `n` moves back is `n` positions earlier, counted
/// round the listing.
pub proof fn lemma_previous_each_selects(state: AppView, shown: Seq<Seq<char>>)
    requires
        state.valid(),
        state.items.len() > 0,
    ensures
        previous_each(state, shown).valid(),
        previous_each(state, shown).items == state.items,
        previous_each(state, shown).selected
            == (state.selected - shown.len()) % (state.items.len() as int),
    decreases shown.len(),
{
    let count = state.items.len() as int;
    if shown.len() == 0 {
        lemma_small_mod(state.selected as nat, count as nat);
    } else {
        lemma_previous_each_selects(state, shown.drop_last());
        let before = previous_each(state, shown.drop_last());
        if before.selected > 0 {
            lemma_small_mod((before.selected - 1) as nat, count as nat);
        } else {
            lemma_small_mod((count - 1) as nat, count as nat);
            lemma_mod_add_multiples_vanish(-1, count);
        }
        assert(before.previous(shown.last()).selected == (before.selected - 1) % count);
        lemma_sub_mod_noop(state.selected - (shown.len() - 1), 1, count);
        lemma_mod_twice(state.selected - (shown.len() - 1), count);
        lemma_sub_mod_noop(before.selected, 1, count);
    }
}

/// Any number of moves on followed by as many moves back bring the
/// selection to where it was, whatever texts were shown on the way.
pub proof fn lemma_round_trip_restores_selection(
    state: AppView,
    onward: Seq<Seq<char>>,
    back: Seq<Seq<char>>,
)
    requires
        state.valid(),
        state.items.len() >= 1,
        onward.len() == back.len(),
    ensures
        previous_each(next_each(state, onward), back).selected == state.selected,
        previous_each(next_each(state, onward), back).items == state.items,
{
    let count = state.items.len() as int;
    let n = onward.len() as int;
    let there = next_each(state, onward);
    lemma_next_each_selects(state, onward);
    lemma_previous_each_selects(there, back);
    lemma_sub_mod_noop(state.selected + n, n, count);
    lemma_mod_twice(state.selected + n, count);
    lemma_sub_mod_noop(there.selected, n, count);
    lemma_small_mod(state.selected as nat, count as nat);
}

/// In a listing without entries no command changes anything.
pub proof fn lemma_empty_listing_stays(state: AppView, command: Command, shown: Seq<char>)
    requires
        state.items.len() == 0,
    ensures
        state.next(shown) == state,
        state.previous(shown) == state,
        state.apply(command, shown) == state,
        state.target(command) is None,
{
}

/// After a move in a listing with entries the content panel shows the text
/// of the file that was read, to the letter, and the fixed message for an
/// entry that is no regular file.
pub proof fn lemma_content_follows_probe(state: AppView, file_text: String)
    requires
        state.items.len() > 0,
    ensures
        state.next(Probe::Text(file_text).text()).content == file_text@,
        state.previous(Probe::Text(file_text).text()).content == file_text@,
        state.next(Probe::NotAFile.text()).content == NOT_A_FILE@,
        state.previous(Probe::NotAFile.text()).content == NOT_A_FILE@,
{
}

/// A file that cannot be read shows the same fixed message whatever the
/// fault.
pub proof fn lemma_faults_show_one_message(state: AppView, fault: ReadFault)
    requires
        state.items.len() > 0,
    ensures
        Probe::Unreadable(fault).text() == UNREADABLE@,
        state.next(Probe::Unreadable(fault).text()).content == UNREADABLE@,
        state.previous(Probe::Unreadable(fault).text()).content == UNREADABLE@,
{
}

} // verus!
