//! The browser's state: the listing, the selection, and the text on show.

use vstd::prelude::*;

use crate::content::{Probe, PLACEHOLDER};
use crate::keymap::Command;
use crate::listing::{is_sorted, sort_paths};
use crate::path::{display_name, file_name};
use crate::style::{row_style, Style};

verus! {

/// The state of the browser as plain mathematics.
pub struct AppView {
    /// The paths of the entries, in the order of the listing.
    pub items: Seq<Seq<char>>,
    /// The position of the selected entry.
    pub selected: int,
    /// The text in the content panel.
    pub content: Seq<char>,
}

impl AppView {
    /// The listing is in order, and the selection points at one of its
    /// entries, or at position zero where there is none.
    pub open spec fn valid(self) -> bool {
        &&& is_sorted(self.items)
        &&& 0 <= self.selected
        &&& self.selected < self.items.len() || self.selected == 0
    }

    /// The position after the selected one, from the last round to the first.
    pub open spec fn following(self) -> int {
        (self.selected + 1) % (self.items.len() as int)
    }

    /// The position before the selected one, from the first round to the last.
    pub open spec fn preceding(self) -> int {
        if self.selected > 0 {
            self.selected - 1
        } else {
            self.items.len() - 1
        }
    }

    /// The state with `shown` in the content panel for the selected entry,
    /// and all else as it was.
    pub open spec fn update_content(self, shown: Seq<char>) -> AppView {
        AppView { items: self.items, selected: self.selected, content: shown }
    }

    /// The state with the selection at `position` and the text of that
    /// entry, `shown`, in the content panel. A listing without entries has
    /// nothing to select, and stays as it is.
    pub open spec fn select(self, position: int, shown: Seq<char>) -> AppView {
        if self.items.len() == 0 {
            self
        } else {
            AppView { items: self.items, selected: position, content: shown }
        }
    }

    /// The state after a move to the following entry, with `shown` in the
    /// content panel.
    pub open spec fn next(self, shown: Seq<char>) -> AppView {
        self.select(self.following(), shown)
    }

    /// The state after a move to the entry before, with `shown` in the
    /// content panel.
    pub open spec fn previous(self, shown: Seq<char>) -> AppView {
        self.select(self.preceding(), shown)
    }

    /// The entry whose text `command` puts on show, if it puts any: the
    /// entry that a move selects, in a listing that has entries.
    pub open spec fn target(self, command: Command) -> Option<int> {
        if self.items.len() == 0 {
            None
        } else {
            match command {
                Command::Next => Some(self.following()),
                Command::Previous => Some(self.preceding()),
                Command::Quit | Command::Stay => None,
            }
        }
    }

    /// The state after `command`, where `shown` is the text for the entry
    /// that the command selects. Only the two moves change the state.
    pub open spec fn apply(self, command: Command, shown: Seq<char>) -> AppView {
        match command {
            Command::Next => self.next(shown),
            Command::Previous => self.previous(shown),
            Command::Quit | Command::Stay => self,
        }
    }

    /// The row of the file list for the entry at `position`.
    pub open spec fn row(self, position: int) -> RowView {
        RowView {
            name: file_name(self.items[position]),
            style: row_style(position == self.selected),
        }
    }
}

/// One row of the file list as plain mathematics.
pub struct RowView {
    pub name: Seq<char>,
    pub style: Style,
}

/// One row of the file list: the name to show for an entry, and the style
/// to show it in.
#[derive(Debug, PartialEq, Eq)]
pub struct Row {
    pub name: String,
    pub style: Style,
}

impl View for Row {
    type V = RowView;

    open spec fn view(&self) -> RowView {
        RowView { name: self.name@, style: self.style }
    }
}

/// The browser's state. The listing is fixed when the state is made; the
/// selection and the text on show change together, one navigation at a time.
pub struct App {
    items: Vec<String>,
    selected_item: usize,
    content: String,
}

impl View for App {
    type V = AppView;

    closed spec fn view(&self) -> AppView {
        AppView {
            items: self.items.deep_view(),
            selected: self.selected_item as int,
            content: self.content@,
        }
    }
}

impl App {
    #[verifier::type_invariant]
    spec fn well_formed(self) -> bool {
        self@.valid()
    }

    /// Makes the state for a directory whose entries have the given paths:
    /// the paths sorted into the order of the listing, the first entry
    /// selected, and the placeholder in the content panel.
    pub fn new(paths: Vec<String>) -> (app: App)
        ensures
            app@.valid(),
            app@.items.to_multiset() == paths.deep_view().to_multiset(),
            app@.items.len() == paths@.len(),
            app@.selected == 0,
            app@.content == PLACEHOLDER@,
    {
        App { items: sort_paths(paths), selected_item: 0, content: PLACEHOLDER.to_owned() }
    }

    /// Moves the selection to the following entry, from the last one round
    /// to the first, and shows what `probe` found there. `probe` is the
    /// outcome of looking on disk at the entry that becomes selected. With
    /// an empty listing nothing changes.
    pub fn next(&mut self, probe: Probe)
        ensures
            final(self)@ == old(self)@.next(probe.text()),
            final(self)@.valid(),
    {
        proof {
            use_type_invariant(&*self);
        }
        let count: usize = self.items.len();
        if count > 0 {
            self.selected_item = (self.selected_item + 1) % count;
            self.update_content(probe);
        }
    }

    /// Moves the selection to the entry before, from the first one round to
    /// the last, and shows what `probe` found there. `probe` is the outcome
    /// of looking on disk at the entry that becomes selected. With an empty
    /// listing nothing changes.
    pub fn previous(&mut self, probe: Probe)
        ensures
            final(self)@ == old(self)@.previous(probe.text()),
            final(self)@.valid(),
    {
        proof {
            use_type_invariant(&*self);
        }
        let count: usize = self.items.len();
        if count > 0 {
            if self.selected_item > 0 {
                self.selected_item = self.selected_item - 1;
            } else {
                self.selected_item = count - 1;
            }
            self.update_content(probe);
        }
    }

    /// Shows what `probe` found at the selected entry: the text of a file
    /// that was read, or the fixed message for an entry that is no regular
    /// file or could not be read. The listing must hold an entry: without
    /// one there is no selected entry to show.
    pub fn update_content(&mut self, probe: Probe)
        requires
            old(self)@.items.len() > 0,
        ensures
            final(self)@ == old(self)@.update_content(probe.text()),
            final(self)@.valid(),
    {
        proof {
            use_type_invariant(&*self);
        }
        self.content = probe.into_text();
    }

    /// Tells which entry to look at on disk before `command` is applied:
    /// the entry that the command selects, if it selects one.
    pub fn target(&self, command: Command) -> (position: Option<usize>)
        ensures
            self@.valid(),
            match position {
                Some(at) => self@.target(command) == Some(at as int) && at < self@.items.len(),
                None => self@.target(command) is None,
            },
    {
        proof {
            use_type_invariant(self);
        }
        let count: usize = self.items.len();
        if count == 0 {
            None
        } else {
            match command {
                Command::Next => Some((self.selected_item + 1) % count),
                Command::Previous => Some(
                    if self.selected_item > 0 {
                        self.selected_item - 1
                    } else {
                        count - 1
                    },
                ),
                Command::Quit | Command::Stay => None,
            }
        }
    }

    /// Carries out `command` on the state, where `probe` is the outcome of
    /// looking on disk at the command's target. A command without a target
    /// changes nothing, whatever the probe.
    pub fn apply(&mut self, command: Command, probe: Probe)
        ensures
            final(self)@ == old(self)@.apply(command, probe.text()),
            final(self)@.valid(),
    {
        proof {
            use_type_invariant(&*self);
        }
        match command {
            Command::Next => self.next(probe),
            Command::Previous => self.previous(probe),
            Command::Quit | Command::Stay => {},
        }
    }

    /// The paths of the entries, in the order of the listing.
    pub fn items(&self) -> (items: &Vec<String>)
        ensures
            items.deep_view() == self@.items,
            self@.valid(),
    {
        proof {
            use_type_invariant(self);
        }
        &self.items
    }

    /// The position of the selected entry: within the listing where it has
    /// entries, zero where it has none.
    pub fn selected_item(&self) -> (position: usize)
        ensures
            position == self@.selected,
            self@.valid(),
    {
        proof {
            use_type_invariant(self);
        }
        self.selected_item
    }

    /// The text in the content panel.
    pub fn content(&self) -> (content: &String)
        ensures
            content@ == self@.content,
    {
        &self.content
    }

    /// The rows of the file list: one for each entry, in the order of the
    /// listing, with the entry's name, in the style that sets the selected
    /// entry apart.
    pub fn rows(&self) -> (rows: Vec<Row>)
        ensures
            rows@.len() == self@.items.len(),
            forall|i: int| 0 <= i < rows@.len() ==> (#[trigger] rows@[i])@ == self@.row(i),
    {
        let mut rows: Vec<Row> = Vec::new();
        let mut at: usize = 0;
        while at < self.items.len()
            invariant
                at <= self.items.len(),
                rows@.len() == at,
                forall|i: int| 0 <= i < at ==> (#[trigger] rows@[i])@ == self@.row(i),
            decreases self.items.len() - at,
        {
            let name = display_name(self.items[at].as_str());
            rows.push(Row { name, style: Style::for_row(at == self.selected_item) });
            at = at + 1;
        }
        rows
    }
}

} // verus!
