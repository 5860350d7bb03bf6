//! The session: the entries, the vocabulary and the cursor, and its commands.

use crate::command::{command_for, Command, Event};
use crate::example::{Entry, LabelledExample};
use crate::model::{jump_target, lemma_jump_target_is_unique, next_label, Session};
use crate::render::RenderState;
use vstd::prelude::*;

verus! {

/// What the caller does after an event has been handled.
#[derive(Clone, Copy, Debug, PartialEq, Eq, Structural)]
pub enum Action {
    /// Draw the session again and wait for the next event.
    Redraw,
    /// Leave the loop and save the entries.
    Finish,
}

/// A review session: the entries, the vocabulary of labels, and the
/// cursor. It always has an entry under the cursor and a label to give.
pub struct App {
    examples: Vec<LabelledExample>,
    labels: Vec<String>,
    index: usize,
}

impl View for App {
    type V = Session;

    closed spec fn view(&self) -> Session {
        Session {
            entries: self.examples.deep_view(),
            vocabulary: self.labels.deep_view(),
            cursor: self.index as int,
        }
    }
}

/// Where `label` first stands in `labels`, if it does.
pub fn position_of(labels: &Vec<String>, label: &String) -> (place: Option<usize>)
    ensures
        match place {
            Some(index) => labels.deep_view().index_of_first(label@) == Some(index as int),
            None => labels.deep_view().index_of_first(label@) is None,
        },
{
    let ghost vocabulary = labels.deep_view();
    let mut i: usize = 0;
    while i < labels.len()
        invariant
            i <= labels.len(),
            vocabulary == labels.deep_view(),
            forall|j: int| 0 <= j < i ==> vocabulary[j] != label@,
        decreases labels.len() - i,
    {
        if labels[i] == *label {
            proof {
                assert(vocabulary[i as int] == label@);
                vocabulary.index_of_first_ensures(label@);
            }
            return Some(i);
        }
        i += 1;
    }
    proof {
        vocabulary.index_of_first_ensures(label@);
    }
    None
}

/// The label that follows `current` in the cycle over `labels`: the first
/// label after no label or after one that `labels` does not hold, the next
/// one after a label of `labels`, and no label after the last.
pub fn following_label(labels: &Vec<String>, current: &Option<String>) -> (next: Option<String>)
    requires
        labels@.len() > 0,
    ensures
        next.deep_view() == next_label(labels.deep_view(), current.deep_view()),
{
    match current {
        None => Some(labels[0].clone()),
        Some(label) => match position_of(labels, label) {
            None => Some(labels[0].clone()),
            Some(place) => {
                if place < labels.len() - 1 {
                    Some(labels[place + 1].clone())
                } else {
                    None
                }
            },
        },
    }
}

/// The index of the first entry without a label, or of the last entry
/// where every entry has a label.
pub fn first_unlabelled(examples: &Vec<LabelledExample>) -> (index: usize)
    requires
        examples@.len() > 0,
    ensures
        index == jump_target(examples.deep_view()),
        index < examples@.len(),
{
    let ghost entries = examples.deep_view();
    let mut i: usize = 0;
    while i < examples.len() - 1
        invariant
            examples@.len() > 0,
            i <= examples.len() - 1,
            entries == examples.deep_view(),
            forall|j: int| 0 <= j < i ==> (#[trigger] entries[j]).label is Some,
        decreases examples.len() - i,
    {
        if examples[i].label.is_none() {
            proof {
                lemma_jump_target_is_unique(entries, i as int);
            }
            return i;
        }
        i += 1;
    }
    proof {
        lemma_jump_target_is_unique(entries, i as int);
    }
    i
}

impl App {
    #[verifier::type_invariant]
    spec fn well_formed(self) -> bool {
        self@.valid()
    }

    /// Starts a session on `examples` with the labels `labels`, the cursor
    /// on the first entry. There is no session without an entry or without
    /// a label to give: `None` where either list is empty.
    pub fn new(examples: Vec<LabelledExample>, labels: Vec<String>) -> (app: Option<App>)
        ensures
            app is Some <==> examples@.len() > 0 && labels@.len() > 0,
            app is Some ==> app->0@ == (Session {
                entries: examples.deep_view(),
                vocabulary: labels.deep_view(),
                cursor: 0,
            }),
            app is Some ==> app->0@.valid(),
    {
        if examples.is_empty() || labels.is_empty() {
            return None;
        }
        Some(App { examples, labels, index: 0 })
    }

    /// The entries, in order, with the labels given so far.
    pub fn examples(&self) -> (examples: &Vec<LabelledExample>)
        ensures
            examples.deep_view() == self@.entries,
            self@.valid(),
    {
        proof {
            use_type_invariant(self);
        }
        &self.examples
    }

    /// Ends the session and hands out the entries, labelled or not.
    pub fn into_examples(self) -> (examples: Vec<LabelledExample>)
        ensures
            examples.deep_view() == self@.entries,
            self@.valid(),
    {
        proof {
            use_type_invariant(&self);
        }
        self.examples
    }

    /// The vocabulary, in the order of the cycle.
    pub fn labels(&self) -> (labels: &Vec<String>)
        ensures
            labels.deep_view() == self@.vocabulary,
            self@.valid(),
    {
        proof {
            use_type_invariant(self);
        }
        &self.labels
    }

    /// The index of the current entry.
    pub fn cursor(&self) -> (cursor: usize)
        ensures
            cursor == self@.cursor,
            self@.valid(),
    {
        proof {
            use_type_invariant(self);
        }
        self.index
    }

    /// The number of entries; never zero.
    pub fn len(&self) -> (len: usize)
        ensures
            len == self@.entries.len(),
            self@.valid(),
    {
        proof {
            use_type_invariant(self);
        }
        self.examples.len()
    }

    /// The entry at `index`.
    pub fn get(&self, index: usize) -> (entry: &LabelledExample)
        requires
            index < self@.entries.len(),
        ensures
            entry@ == self@.entries[index as int],
    {
        &self.examples[index]
    }

    /// The entry under the cursor.
    pub fn current(&self) -> (entry: &LabelledExample)
        ensures
            self@.valid(),
            entry@ == self@.entries[self@.cursor],
    {
        proof {
            use_type_invariant(self);
        }
        &self.examples[self.index]
    }

    /// Puts `label` on the entry at `index`, in place of what it had. The
    /// label need not be one of the vocabulary.
    pub fn set_label(&mut self, index: usize, label: Option<String>)
        requires
            index < old(self)@.entries.len(),
        ensures
            final(self)@ == (Session {
                entries: old(self)@.entries.update(
                    index as int,
                    Entry { label: label.deep_view(), ..old(self)@.entries[index as int] },
                ),
                ..old(self)@
            }),
            final(self)@.valid(),
    {
        proof {
            use_type_invariant(&*self);
        }
        self.examples[index].label = label;
        assert(self@.entries =~= old(self)@.entries.update(
            index as int,
            Entry { label: label.deep_view(), ..old(self)@.entries[index as int] },
        ));
    }

    /// Moves the cursor one entry back; it stays on the first entry.
    pub fn move_previous(&mut self)
        ensures
            final(self)@ == old(self)@.step(Command::MovePrevious),
            final(self)@.valid(),
    {
        proof {
            use_type_invariant(&*self);
        }
        if self.index > 0 {
            self.index = self.index - 1;
        }
    }

    /// Moves the cursor one entry on; it stays on the last entry.
    pub fn move_next(&mut self)
        ensures
            final(self)@ == old(self)@.step(Command::MoveNext),
            final(self)@.valid(),
    {
        proof {
            use_type_invariant(&*self);
        }
        if self.index < self.examples.len() - 1 {
            self.index = self.index + 1;
        }
    }

    /// Gives the current entry the label that follows its own in the cycle.
    pub fn cycle_label(&mut self)
        ensures
            final(self)@ == old(self)@.step(Command::CycleLabel),
            final(self)@.valid(),
    {
        proof {
            use_type_invariant(&*self);
        }
        let next = following_label(&self.labels, &self.examples[self.index].label);
        self.examples[self.index].label = next;
        assert(self@.entries =~= old(self)@.step(Command::CycleLabel).entries);
    }

    /// Moves the cursor to the first entry without a label, from wherever
    /// it stands; to the last entry where every entry has a label.
    pub fn jump_to_next_unlabelled(&mut self)
        ensures
            final(self)@ == old(self)@.step(Command::JumpToNextUnlabelled),
            final(self)@.valid(),
    {
        proof {
            use_type_invariant(&*self);
        }
        self.index = first_unlabelled(&self.examples);
    }

    /// Carries out `command`, and says what the caller is to do next:
    /// `Finish` after `Quit`, which changes nothing, and `Redraw` after any
    /// other command.
    pub fn apply(&mut self, command: Command) -> (action: Action)
        ensures
            final(self)@ == old(self)@.step(command),
            final(self)@.valid(),
            action == Action::Finish <==> command == Command::Quit,
    {
        proof {
            use_type_invariant(&*self);
        }
        match command {
            Command::MovePrevious => {
                self.move_previous();
                Action::Redraw
            },
            Command::MoveNext => {
                self.move_next();
                Action::Redraw
            },
            Command::CycleLabel => {
                self.cycle_label();
                Action::Redraw
            },
            Command::JumpToNextUnlabelled => {
                self.jump_to_next_unlabelled();
                Action::Redraw
            },
            Command::Quit => Action::Finish,
        }
    }

    /// Handles one event of the input source: carries out the command bound
    /// to it, if there is one, and ignores it otherwise.
    pub fn handle(&mut self, event: Event) -> (action: Action)
        ensures
            final(self)@ == match crate::command::binding(event) {
                Some(command) => old(self)@.step(command),
                None => old(self)@,
            },
            final(self)@.valid(),
            action == Action::Finish <==> crate::command::binding(event) == Some(Command::Quit),
    {
        proof {
            use_type_invariant(&*self);
        }
        match command_for(event) {
            Some(command) => self.apply(command),
            None => Action::Redraw,
        }
    }

    /// The current entry as a display shows it, with its place among the
    /// entries.
    pub fn snapshot(&self) -> (state: RenderState<'_>)
        ensures
            self@.valid(),
            state.valid(),
            state.position == self@.cursor + 1,
            state.total == self@.entries.len(),
            state.text@ == self@.entries[self@.cursor].example.text@,
            state.ground_truth.deep_view()
                == self@.entries[self@.cursor].example.ground_truth.deep_view(),
            state.label.deep_view() == self@.entries[self@.cursor].label,
    {
        proof {
            use_type_invariant(self);
        }
        let total = self.examples.len();
        let entry = &self.examples[self.index];
        RenderState {
            position: self.index + 1,
            total,
            text: entry.example.text.as_str(),
            ground_truth: match &entry.example.ground_truth {
                Some(reference) => Some(reference.as_str()),
                None => None,
            },
            label: match &entry.label {
                Some(label) => Some(label.as_str()),
                None => None,
            },
        }
    }
}

} // verus!
