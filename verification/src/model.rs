//! The session as a mathematical value, and what holds of its commands.

use crate::command::Command;
use crate::example::Entry;
use vstd::prelude::*;

verus! {

/// A review session: the entries in order, the vocabulary of labels in the
/// order of the cycle, and the index of the current entry.
pub struct Session {
    pub entries: Seq<Entry>,
    pub vocabulary: Seq<Seq<char>>,
    pub cursor: int,
}

/// The label that follows `label` in the cycle over `vocabulary`.
///
/// No label is followed by the first of the vocabulary; so is a label that
/// the vocabulary does not hold. A label of the vocabulary is looked up at
/// the first place where it stands, and is followed by the label after that
/// place, or by no label where that place is the last.
pub open spec fn next_label(vocabulary: Seq<Seq<char>>, label: Option<Seq<char>>) -> Option<
    Seq<char>,
> {
    match label {
        None => Some(vocabulary[0]),
        Some(current) => match vocabulary.index_of_first(current) {
            None => Some(vocabulary[0]),
            Some(place) => if place < vocabulary.len() - 1 {
                Some(vocabulary[place + 1])
            } else {
                None
            },
        },
    }
}

/// The label reached from `label` by `times` steps of the cycle.
pub open spec fn cycle(vocabulary: Seq<Seq<char>>, label: Option<Seq<char>>, times: nat) -> Option<
    Seq<char>,
>
    decreases times,
{
    if times == 0 {
        label
    } else {
        next_label(vocabulary, cycle(vocabulary, label, (times - 1) as nat))
    }
}

/// The labels of the entries, in order.
pub open spec fn labels_of(entries: Seq<Entry>) -> Seq<Option<Seq<char>>> {
    entries.map_values(|entry: Entry| entry.label)
}

/// Where a jump to the next unlabelled entry lands: on the first entry
/// without a label, or on the last entry where every entry has one.
pub open spec fn jump_target(entries: Seq<Entry>) -> int {
    match labels_of(entries).index_of_first(None) {
        Some(place) => place,
        None => entries.len() - 1,
    }
}

/// `count` times the same command.
pub open spec fn repeated(command: Command, count: nat) -> Seq<Command> {
    Seq::new(count, |i: int| command)
}

impl Session {
    /// A session has at least one entry and one label to give, and its
    /// cursor stands on an entry.
    pub open spec fn valid(self) -> bool {
        &&& self.entries.len() > 0
        &&& self.vocabulary.len() > 0
        &&& 0 <= self.cursor < self.entries.len()
    }

    /// The index of the last entry.
    pub open spec fn last_index(self) -> int {
        self.entries.len() - 1
    }

    /// The session with the cursor at `cursor`.
    pub open spec fn at(self, cursor: int) -> Session {
        Session { cursor, ..self }
    }

    /// The session with `label` on the current entry.
    pub open spec fn relabelled(self, label: Option<Seq<char>>) -> Session {
        Session {
            entries: self.entries.update(
                self.cursor,
                Entry { label, ..self.entries[self.cursor] },
            ),
            ..self
        }
    }

    /// The label of the current entry.
    pub open spec fn current_label(self) -> Option<Seq<char>> {
        self.entries[self.cursor].label
    }

    /// The session after one command.
    pub open spec fn step(self, command: Command) -> Session {
        match command {
            Command::MovePrevious => self.at(
                if self.cursor > 0 {
                    self.cursor - 1
                } else {
                    0
                },
            ),
            Command::MoveNext => self.at(
                if self.cursor + 1 < self.last_index() {
                    self.cursor + 1
                } else {
                    self.last_index()
                },
            ),
            Command::CycleLabel => self.relabelled(
                next_label(self.vocabulary, self.current_label()),
            ),
            Command::JumpToNextUnlabelled => self.at(jump_target(self.entries)),
            Command::Quit => self,
        }
    }

    /// The session after the commands of `commands`, taken in order.
    pub open spec fn run(self, commands: Seq<Command>) -> Session
        decreases commands.len(),
    {
        if commands.len() == 0 {
            self
        } else {
            self.run(commands.drop_last()).step(commands.last())
        }
    }
}

/// A command leaves a valid session valid. It changes neither the number
/// of entries, nor their examples, nor the vocabulary.
pub proof fn lemma_step_keeps_shape(session: Session, command: Command)
    requires
        session.valid(),
    ensures
        session.step(command).valid(),
        session.step(command).vocabulary == session.vocabulary,
        session.step(command).entries.len() == session.entries.len(),
        forall|i: int|
            0 <= i < session.entries.len() ==> (#[trigger] session.step(
                command,
            ).entries[i]).example == session.entries[i].example,
{
    if command == Command::JumpToNextUnlabelled {
        lemma_jump_target(session.entries);
    }
}

/// Whatever commands are given, in whatever order and from whatever valid
/// session, the cursor stays on an entry: a valid session stays valid, with
/// the same number of entries and the same vocabulary.
pub proof fn lemma_run_keeps_cursor_in_range(session: Session, commands: Seq<Command>)
    requires
        session.valid(),
    ensures
        session.run(commands).valid(),
        0 <= session.run(commands).cursor <= session.entries.len() - 1,
        session.run(commands).vocabulary == session.vocabulary,
        session.run(commands).entries.len() == session.entries.len(),
    decreases commands.len(),
{
    if commands.len() > 0 {
        lemma_run_keeps_cursor_in_range(session, commands.drop_last());
        lemma_step_keeps_shape(session.run(commands.drop_last()), commands.last());
    }
}

/// Moving back from the first entry changes nothing, and neither does
/// moving on from the last.
pub proof fn lemma_moves_stop_at_the_ends(session: Session)
    requires
        session.valid(),
    ensures
        session.cursor == 0 ==> session.step(Command::MovePrevious) == session,
        session.cursor == session.last_index() ==> session.step(Command::MoveNext) == session,
{
}

/// Cycling an entry that has no label gives it the first label of the
/// vocabulary.
pub proof fn lemma_cycle_from_no_label(vocabulary: Seq<Seq<char>>)
    requires
        vocabulary.len() > 0,
    ensures
        next_label(vocabulary, None) == Some(vocabulary[0]),
{
}

/// Cycling an entry that has the last label of the vocabulary leaves it
/// without a label, where that label stands nowhere else in the vocabulary.
pub proof fn lemma_cycle_from_last_label(vocabulary: Seq<Seq<char>>)
    requires
        vocabulary.len() > 0,
        forall|i: int| 0 <= i < vocabulary.len() - 1 ==> vocabulary[i] != vocabulary.last(),
    ensures
        next_label(vocabulary, Some(vocabulary.last())) is None,
{
    vocabulary.index_of_first_ensures(vocabulary.last());
    assert(vocabulary.contains(vocabulary.last()));
}

/// In a vocabulary without repeats a label is found at its own place.
proof fn lemma_place_of_member(vocabulary: Seq<Seq<char>>, place: int)
    requires
        vocabulary.no_duplicates(),
        0 <= place < vocabulary.len(),
    ensures
        vocabulary.index_of_first(vocabulary[place]) == Some(place),
{
    vocabulary.index_of_first_ensures(vocabulary[place]);
    assert(vocabulary.contains(vocabulary[place]));
}

/// Steps of the cycle add up.
proof fn lemma_cycle_split(
    vocabulary: Seq<Seq<char>>,
    label: Option<Seq<char>>,
    first: nat,
    second: nat,
)
    ensures
        cycle(vocabulary, label, first + second) == cycle(
            vocabulary,
            cycle(vocabulary, label, first),
            second,
        ),
    decreases second,
{
    if second > 0 {
        lemma_cycle_split(vocabulary, label, first, (second - 1) as nat);
        assert((first + second - 1) as nat == first + (second - 1) as nat);
    }
}

/// From the label at `place`, `times` steps lead to the label `times`
/// places further on, as long as there is one.
proof fn lemma_cycle_walks_the_vocabulary(vocabulary: Seq<Seq<char>>, place: int, times: nat)
    requires
        vocabulary.no_duplicates(),
        0 <= place,
        place + times < vocabulary.len(),
    ensures
        cycle(vocabulary, Some(vocabulary[place]), times) == Some(vocabulary[place + times]),
    decreases times,
{
    if times > 0 {
        lemma_cycle_walks_the_vocabulary(vocabulary, place, (times - 1) as nat);
        lemma_place_of_member(vocabulary, place + times - 1);
    }
}

/// From the label at `place`, the steps that are left to the end of the
/// vocabulary, and one more, lead to no label.
proof fn lemma_cycle_reaches_no_label(vocabulary: Seq<Seq<char>>, place: int)
    requires
        vocabulary.no_duplicates(),
        0 <= place < vocabulary.len(),
    ensures
        cycle(vocabulary, Some(vocabulary[place]), (vocabulary.len() - place) as nat) is None,
{
    let rest = (vocabulary.len() - 1 - place) as nat;
    lemma_cycle_walks_the_vocabulary(vocabulary, place, rest);
    lemma_place_of_member(vocabulary, vocabulary.len() - 1);
    assert(cycle(vocabulary, Some(vocabulary[place]), rest + 1) == next_label(
        vocabulary,
        cycle(vocabulary, Some(vocabulary[place]), rest),
    ));
}

/// The cycle is closed: in a vocabulary without repeats, as many steps as
/// the vocabulary has labels, and one more, lead from no label back to no
/// label, and from a label of the vocabulary back to that label.
pub proof fn lemma_cycle_closes(vocabulary: Seq<Seq<char>>, label: Option<Seq<char>>)
    requires
        vocabulary.len() > 0,
        vocabulary.no_duplicates(),
        label is Some ==> vocabulary.contains(label->0),
    ensures
        cycle(vocabulary, label, vocabulary.len() + 1) == label,
{
    let size = vocabulary.len();
    assert(cycle(vocabulary, None, 1) == next_label(vocabulary, cycle(vocabulary, None, 0)));
    match label {
        None => {
            lemma_cycle_split(vocabulary, None, 1, size);
            lemma_cycle_reaches_no_label(vocabulary, 0);
        },
        Some(current) => {
            let place = choose|i: int| 0 <= i < size && vocabulary[i] == current;
            let ahead = (size - place) as nat;
            lemma_cycle_reaches_no_label(vocabulary, place);
            lemma_cycle_split(vocabulary, label, ahead, (place + 1) as nat);
            lemma_cycle_split(vocabulary, None, 1, place as nat);
            lemma_cycle_walks_the_vocabulary(vocabulary, 0, place as nat);
            assert(ahead + (place + 1) as nat == size + 1);
            assert(1 + place as nat == (place + 1) as nat);
        },
    }
}

/// A label that the vocabulary does not hold is not come back to: one step
/// replaces it by the first label, and after as many steps as the
/// vocabulary has labels, and one more, the entry has no label.
pub proof fn lemma_cycle_from_foreign_label(vocabulary: Seq<Seq<char>>, label: Seq<char>)
    requires
        vocabulary.len() > 0,
        vocabulary.no_duplicates(),
        !vocabulary.contains(label),
    ensures
        next_label(vocabulary, Some(label)) == Some(vocabulary[0]),
        cycle(vocabulary, Some(label), vocabulary.len() + 1) is None,
{
    vocabulary.index_of_first_ensures(label);
    assert(cycle(vocabulary, Some(label), 1) == next_label(
        vocabulary,
        cycle(vocabulary, Some(label), 0),
    ));
    lemma_cycle_split(vocabulary, Some(label), 1, vocabulary.len());
    lemma_cycle_reaches_no_label(vocabulary, 0);
}

/// Cycling the current entry over and over moves its label along the cycle
/// and changes nothing else.
pub proof fn lemma_run_of_cycles(session: Session, times: nat)
    requires
        session.valid(),
    ensures
        session.run(repeated(Command::CycleLabel, times)) == session.relabelled(
            cycle(session.vocabulary, session.current_label(), times),
        ),
    decreases times,
{
    let commands = repeated(Command::CycleLabel, times);
    if times == 0 {
        assert(session.relabelled(session.current_label()).entries =~= session.entries);
    } else {
        let before = (times - 1) as nat;
        assert(commands.drop_last() =~= repeated(Command::CycleLabel, before));
        lemma_run_of_cycles(session, before);
        let reached = session.relabelled(cycle(session.vocabulary, session.current_label(), before));
        assert(reached.step(Command::CycleLabel).entries =~= session.relabelled(
            cycle(session.vocabulary, session.current_label(), times),
        ).entries);
    }
}

/// The cycle is closed for a session: where the vocabulary has no repeats
/// and the current entry has no label or one of the vocabulary, cycling it
/// as many times as the vocabulary has labels, and once more, gives back
/// the session as it was.
pub proof fn lemma_session_cycle_closes(session: Session)
    requires
        session.valid(),
        session.vocabulary.no_duplicates(),
        session.current_label() is Some ==> session.vocabulary.contains(
            session.current_label()->0,
        ),
    ensures
        session.run(repeated(Command::CycleLabel, session.vocabulary.len() + 1)) == session,
{
    lemma_run_of_cycles(session, session.vocabulary.len() + 1);
    lemma_cycle_closes(session.vocabulary, session.current_label());
    assert(session.relabelled(session.current_label()).entries =~= session.entries);
}

/// A jump lands on an entry. Every entry before it has a label. It has
/// none itself, unless every entry has a label: the jump is to the last
/// entry in that case.
pub proof fn lemma_jump_target(entries: Seq<Entry>)
    requires
        entries.len() > 0,
    ensures
        0 <= jump_target(entries) < entries.len(),
        forall|i: int| 0 <= i < jump_target(entries) ==> (#[trigger] entries[i]).label is Some,
        entries[jump_target(entries)].label is None || jump_target(entries) == entries.len() - 1,
        (forall|i: int| 0 <= i < entries.len() ==> (#[trigger] entries[i]).label is Some)
            ==> jump_target(entries) == entries.len() - 1,
{
    let labels = labels_of(entries);
    labels.index_of_first_ensures(None);
    match labels.index_of_first(None) {
        Some(place) => {
            assert forall|i: int| 0 <= i < place implies (#[trigger] entries[i]).label is Some by {
                assert(labels[i] != None::<Seq<char>>);
            }
            assert(labels[place] == entries[place].label);
        },
        None => {
            assert forall|i: int| 0 <= i < entries.len() implies (#[trigger] entries[i]).label
                is Some by {
                assert(labels[i] == entries[i].label);
                assert(labels.contains(labels[i]));
            }
        },
    }
}

/// The entry that a jump lands on is the only one that all this holds of:
/// an index of an entry that has only labelled entries before it, and that
/// is without a label or the last.
pub proof fn lemma_jump_target_is_unique(entries: Seq<Entry>, index: int)
    requires
        0 <= index < entries.len(),
        forall|i: int| 0 <= i < index ==> (#[trigger] entries[i]).label is Some,
        entries[index].label is None || index == entries.len() - 1,
    ensures
        jump_target(entries) == index,
{
    lemma_jump_target(entries);
}

} // verus!
