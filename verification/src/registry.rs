//! The commands of a shell, by name.
//!
//! Names are unique. The commands are kept, and listed, in the order in which
//! their names were first registered; registering a name again replaces the
//! command and keeps its place.
//!
//! The names are held in an `indexmap::IndexSet`, which finds a name's place
//! without a search; the commands stand in a vector, each at the place of
//! its name. Of the set Verus knows what the declarations at the head of
//! this file say, and nothing else.

use vstd::prelude::*;
use indexmap::IndexSet;
use crate::command::Command;

verus! {

/// `indexmap::IndexSet`, a set that keeps its items in the order in which
/// they came. What a set holds is told by [`listed`].
#[verifier::external_type_specification]
#[verifier::external_body]
#[verifier::reject_recursive_types(T)]
#[verifier::reject_recursive_types(S)]
pub struct ExIndexSet<T, S>(IndexSet<T, S>);

/// The items of a set of names, in the set's order.
pub uninterp spec fn listed(names: IndexSet<String>) -> Seq<Seq<char>>;

/// `IndexSet::new`: a set without items.
#[verifier::external_body]
fn names_new() -> (names: IndexSet<String>)
    ensures
        listed(names) == Seq::<Seq<char>>::empty(),
{
    IndexSet::new()
}

/// `IndexSet::get_index_of`: the index of an item equal to `name`, or `None`
/// where the set holds no such item.
#[verifier::external_body]
fn names_position(names: &IndexSet<String>, name: &str) -> (found: Option<usize>)
    ensures
        match found {
            Some(index) => index < listed(*names).len() && listed(*names)[index as int] == name@,
            None => !listed(*names).contains(name@),
        },
{
    names.get_index_of(name)
}

/// `IndexSet::get_index`: the item at `index`, or `None` where `index` is not
/// below the number of items.
#[verifier::external_body]
fn names_at(names: &IndexSet<String>, index: usize) -> (found: Option<&String>)
    ensures
        match found {
            Some(name) => index < listed(*names).len() && name@ == listed(*names)[index as int],
            None => index >= listed(*names).len(),
        },
{
    names.get_index(index)
}

/// `IndexSet::insert_full`: where the set holds an item equal to `name`, the
/// set is left as it is and the result is that item's index and `false`;
/// otherwise `name` becomes the last item and the result is its index and
/// `true`.
#[verifier::external_body]
fn names_insert(names: &mut IndexSet<String>, name: String) -> (placed: (usize, bool))
    ensures
        placed.1 == !listed(*old(names)).contains(name@),
        placed.1 ==> listed(*final(names)) == listed(*old(names)).push(name@) && placed.0
            == listed(*old(names)).len(),
        !placed.1 ==> listed(*final(names)) == listed(*old(names)) && placed.0 < listed(
            *old(names),
        ).len() && listed(*old(names))[placed.0 as int] == name@,
{
    names.insert_full(name)
}

/// The commands of a shell, by name.
pub struct Registry<C, A> {
    names: IndexSet<String>,
    commands: Vec<Command<C, A>>,
}

/// The place of `name` among the entries, if it is registered.
pub open spec fn place_of<C, A>(entries: Seq<(Seq<char>, Command<C, A>)>, name: Seq<char>) -> Option<
    int,
> {
    if exists|i: int| 0 <= i < entries.len() && entries[i].0 == name {
        Some(choose|i: int| 0 <= i < entries.len() && entries[i].0 == name)
    } else {
        None
    }
}

/// No name occurs twice.
pub open spec fn distinct<C, A>(entries: Seq<(Seq<char>, Command<C, A>)>) -> bool {
    forall|i: int, j: int|
        0 <= i < entries.len() && 0 <= j < entries.len() && i != j ==> entries[i].0
            != entries[j].0
}

impl<C, A> View for Registry<C, A> {
    type V = Seq<(Seq<char>, Command<C, A>)>;

    /// The entries in order: each name with its command.
    closed spec fn view(&self) -> Seq<(Seq<char>, Command<C, A>)> {
        Seq::new(self.commands@.len(), |i: int| (listed(self.names)[i], self.commands@[i]))
    }
}

impl<C, A> Registry<C, A> {
    /// The registry holds one command for each name, and no name twice.
    pub closed spec fn wf(&self) -> bool {
        &&& listed(self.names).len() == self.commands@.len()
        &&& listed(self.names).no_duplicates()
    }

    /// In a well-formed registry no name occurs twice.
    pub proof fn lemma_distinct(&self)
        requires
            self.wf(),
        ensures
            distinct(self@),
    {
    }

    /// A registry without commands.
    pub fn new() -> (made: Self)
        ensures
            made.wf(),
            made@ == Seq::<(Seq<char>, Command<C, A>)>::empty(),
    {
        let made = Registry { names: names_new(), commands: Vec::new() };
        assert(made@ =~= Seq::<(Seq<char>, Command<C, A>)>::empty());
        made
    }

    /// The number of commands.
    pub fn len(&self) -> (count: usize)
        requires
            self.wf(),
        ensures
            count == self@.len(),
    {
        self.commands.len()
    }

    /// Registers `command` under `name`.
    ///
    /// A new name goes to the end. A name that is registered already keeps
    /// its place and gets the new command; the old one is returned.
    pub fn insert(&mut self, name: &str, command: Command<C, A>) -> (replaced: Option<
        Command<C, A>,
    >)
        requires
            old(self).wf(),
        ensures
            final(self).wf(),
            match place_of(old(self)@, name@) {
                Some(place) => final(self)@ == old(self)@.update(place, (name@, command))
                    && replaced == Some(old(self)@[place].1),
                None => final(self)@ == old(self)@.push((name@, command)) && replaced is None,
            },
    {
        let ghost before = self@;
        let (place, fresh) = names_insert(&mut self.names, String::from_str(name));
        if fresh {
            self.commands.push(command);
            proof {
                assert(self@ =~= before.push((name@, command)));
                assert(place_of(before, name@) is None) by {
                    if exists|i: int| 0 <= i < before.len() && before[i].0 == name@ {
                        let i = choose|i: int| 0 <= i < before.len() && before[i].0 == name@;
                        assert(listed(old(self).names)[i] == name@);
                    }
                }
            }
            None
        } else {
            let mut held = command;
            std::mem::swap(&mut self.commands[place], &mut held);
            proof {
                assert(before[place as int].0 == name@);
                assert(place_of(before, name@) == Some(place as int));
                assert(self@ =~= before.update(place as int, (name@, command)));
            }
            Some(held)
        }
    }

    /// The place of the command registered under `name`, if there is one.
    pub fn index_of(&self, name: &str) -> (found: Option<usize>)
        requires
            self.wf(),
        ensures
            match found {
                Some(place) => place_of(self@, name@) == Some(place as int),
                None => place_of(self@, name@) is None,
            },
            place_of(self@, name@) matches Some(place) ==> 0 <= place < self@.len()
                && self@[place].0 == name@,
    {
        let found = names_position(&self.names, name);
        proof {
            match found {
                Some(place) => {
                    assert(self@[place as int].0 == name@);
                },
                None => {
                    if exists|i: int| 0 <= i < self@.len() && self@[i].0 == name@ {
                        let i = choose|i: int| 0 <= i < self@.len() && self@[i].0 == name@;
                        assert(listed(self.names)[i] == name@);
                    }
                },
            }
        }
        found
    }

    /// The command registered under `name`, if there is one.
    pub fn get(&self, name: &str) -> (found: Option<&Command<C, A>>)
        requires
            self.wf(),
        ensures
            match place_of(self@, name@) {
                Some(place) => found == Some(&self@[place].1),
                None => found is None,
            },
    {
        match self.index_of(name) {
            Some(place) => Some(&self.commands[place]),
            None => None,
        }
    }

    /// The name and the command at `place`, if the registry has that many.
    pub fn entry(&self, place: usize) -> (found: Option<(&String, &Command<C, A>)>)
        requires
            self.wf(),
        ensures
            match found {
                Some((name, command)) => place < self@.len() && name@ == self@[place as int].0
                    && *command == self@[place as int].1,
                None => place >= self@.len(),
            },
    {
        match names_at(&self.names, place) {
            Some(name) => Some((name, &self.commands[place])),
            None => None,
        }
    }
}

} // verus!
