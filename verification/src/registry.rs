//! The commands of a console, by name.

use vstd::prelude::*;

verus! {

/// The name that lists the commands. The console answers it itself.
pub open spec fn help_word() -> Seq<char> {
    "help"@
}

/// The word that ends the session when it is the whole line. The read loop
/// answers it itself.
pub open spec fn exit_word() -> Seq<char> {
    "exit"@
}

/// Whether a command can be registered under `name`: the name is not empty
/// and is neither of the two reserved words.
pub open spec fn is_command_name(name: Seq<char>) -> bool {
    name.len() > 0 && name != help_word() && name != exit_word()
}

/// Whether a command can be registered under `name`.
pub fn check_command_name(name: &String) -> (free: bool)
    ensures
        free == is_command_name(name@),
{
    !name.as_str().is_empty() && *name != "help".to_owned() && *name != "exit".to_owned()
}

/// Commands under their names, in the order in which the names came in.
///
/// No name occurs twice, and every name is one that [`is_command_name`]
/// accepts: see [`Registry::is_consistent`], which every method states of
/// the registry that it was given or leaves behind.
pub struct Registry<C> {
    entries: Vec<(String, C)>,
}

impl<C> View for Registry<C> {
    type V = Map<Seq<char>, C>;

    /// The command under each registered name.
    open spec fn view(&self) -> Map<Seq<char>, C> {
        Map::new(
            |name: Seq<char>| self.names().contains(name),
            |name: Seq<char>| self.commands()[self.position(name)],
        )
    }
}

impl<C> Registry<C> {
    #[verifier::type_invariant]
    spec fn well_formed(self) -> bool {
        &&& forall|i: int|
            0 <= i < self.entries@.len() ==> is_command_name(#[trigger] self.entries@[i].0@)
        &&& forall|i: int, j: int|
            0 <= i < j < self.entries@.len() ==> self.entries@[i].0@ != self.entries@[j].0@
    }

    /// The registered names, in the order in which they came in.
    pub closed spec fn names(&self) -> Seq<Seq<char>> {
        Seq::new(self.entries@.len(), |i: int| self.entries@[i].0@)
    }

    /// The commands, each at the index of its name.
    pub closed spec fn commands(&self) -> Seq<C> {
        Seq::new(self.entries@.len(), |i: int| self.entries@[i].1)
    }

    /// What holds of every registry: each name has its command, no name
    /// occurs twice, and every name is one that [`is_command_name`] accepts,
    /// so that neither reserved word is ever registered.
    pub open spec fn is_consistent(&self) -> bool {
        &&& self.names().len() == self.commands().len()
        &&& self.names().no_duplicates()
        &&& forall|i: int|
            0 <= i < self.names().len() ==> is_command_name(#[trigger] self.names()[i])
    }

    /// An index at which `name` stands among the names.
    pub open spec fn position(&self, name: Seq<char>) -> int {
        choose|i: int| 0 <= i < self.names().len() && self.names()[i] == name
    }

    /// A registry without commands.
    pub fn new() -> (registry: Registry<C>)
        ensures
            registry.names() == Seq::<Seq<char>>::empty(),
            registry@ == Map::<Seq<char>, C>::empty(),
            registry.is_consistent(),
    {
        let registry = Registry { entries: Vec::new() };
        proof {
            registry.lemma_is_consistent();
        }
        assert(registry.names() =~= Seq::<Seq<char>>::empty());
        assert(registry@ =~= Map::<Seq<char>, C>::empty());
        registry
    }

    /// How many commands are registered.
    pub fn len(&self) -> (count: usize)
        ensures
            count == self.names().len(),
            self.is_consistent(),
    {
        proof {
            use_type_invariant(self);
            self.lemma_is_consistent();
        }
        self.entries.len()
    }

    /// The index of `name` among the names, if it is registered.
    fn find(&self, name: &String) -> (found: Option<usize>)
        ensures
            match found {
                Some(i) => i < self.names().len() && self.names()[i as int] == name@,
                None => !self.names().contains(name@),
            },
    {
        for i in 0..self.entries.len()
            invariant
                forall|j: int| 0 <= j < i ==> self.names()[j] != name@,
        {
            if self.entries[i].0 == *name {
                return Some(i);
            }
        }
        None
    }

    /// The command registered under `name`, if there is one.
    pub fn get(&self, name: &str) -> (command: Option<&C>)
        ensures
            match command {
                Some(found) => self@.contains_key(name@) && *found == self@[name@],
                None => !self@.contains_key(name@),
            },
            self.is_consistent(),
    {
        proof {
            use_type_invariant(self);
            self.lemma_is_consistent();
        }
        match self.find(&name.to_owned()) {
            Some(i) => {
                assert(self.names()[i as int] == name@);
                assert(self.names().contains(name@));
                Some(&self.entries[i].1)
            },
            None => None,
        }
    }

    /// Registers `command` under `name`, in place of the command that the name
    /// had, if it had one. A name that [`is_command_name`] refuses is not
    /// registered, and the registry stays as it was.
    pub fn insert(&mut self, name: String, command: C) -> (accepted: bool)
        ensures
            accepted == is_command_name(name@),
            accepted ==> final(self)@ == old(self)@.insert(name@, command),
            accepted ==> final(self).names() == if old(self).names().contains(name@) {
                old(self).names()
            } else {
                old(self).names().push(name@)
            },
            !accepted ==> *final(self) == *old(self),
            final(self).is_consistent(),
    {
        proof {
            use_type_invariant(&*self);
            self.lemma_is_consistent();
        }
        if !check_command_name(&name) {
            return false;
        }
        let ghost key = name@;
        let place = self.find(&name);
        let mut entries: Vec<(String, C)> = Vec::new();
        core::mem::swap(&mut self.entries, &mut entries);
        match place {
            Some(i) => {
                entries.set(i, (name, command));
            },
            None => {
                entries.push((name, command));
            },
        }
        proof {
            let before = old(self).entries@;
            assert forall|k: int| 0 <= k < entries@.len() implies is_command_name(
                #[trigger] entries@[k].0@,
            ) by {
                if k < before.len() {
                    assert(is_command_name(before[k].0@));
                }
            }
            assert forall|k: int, l: int| 0 <= k < l < entries@.len() implies entries@[k].0@
                != entries@[l].0@ by {
                if l < before.len() {
                    assert(before[k].0@ != before[l].0@);
                    assert(old(self).names()[k] == before[k].0@);
                    assert(old(self).names()[l] == before[l].0@);
                } else {
                    assert(old(self).names()[k] == before[k].0@);
                }
            }
        }
        core::mem::swap(&mut self.entries, &mut entries);
        proof {
            if old(self).names().contains(key) {
                assert(self.names() =~= old(self).names());
            } else {
                assert(self.names() =~= old(self).names().push(key));
            }
            use_type_invariant(&*self);
            self.lemma_is_consistent();
            old(self).lemma_view_after_insert(*self, key, command);
        }
        true
    }

    /// The registered names, in the order in which they came in.
    pub fn names_in_order(&self) -> (list: Vec<String>)
        ensures
            list.deep_view() == self.names(),
            self.is_consistent(),
    {
        proof {
            use_type_invariant(self);
            self.lemma_is_consistent();
        }
        let mut list: Vec<String> = Vec::new();
        for i in 0..self.entries.len()
            invariant
                list@.len() == i,
                forall|j: int| 0 <= j < i ==> list@[j]@ == self.names()[j],
        {
            list.push(self.entries[i].0.clone());
        }
        assert(list.deep_view() =~= self.names());
        list
    }

    /// What the type keeps of its entries shows in its names and commands.
    proof fn lemma_is_consistent(self)
        requires
            self.well_formed(),
        ensures
            self.is_consistent(),
    {
        let names = self.names();
        assert forall|i: int, j: int|
            0 <= i < names.len() && 0 <= j < names.len() && i != j implies names[i]
            != names[j] by {
            if i < j {
                assert(self.entries@[i].0@ != self.entries@[j].0@);
            } else {
                assert(self.entries@[j].0@ != self.entries@[i].0@);
            }
        }
        assert forall|i: int| 0 <= i < names.len() implies is_command_name(
            #[trigger] names[i],
        ) by {
            assert(is_command_name(self.entries@[i].0@));
        }
    }

    /// What the map of a registry is once `name` stands for `command`.
    proof fn lemma_view_after_insert(self, after: Registry<C>, name: Seq<char>, command: C)
        requires
            self.is_consistent(),
            after.is_consistent(),
            after.names() == if self.names().contains(name) {
                self.names()
            } else {
                self.names().push(name)
            },
            forall|i: int|
                0 <= i < after.names().len() ==> after.commands()[i] == if after.names()[i]
                    == name {
                    command
                } else {
                    self.commands()[i]
                },
        ensures
            after@ == self@.insert(name, command),
    {
        let wanted = self@.insert(name, command);
        assert forall|key: Seq<char>| after@.contains_key(key) == wanted.contains_key(key) by {
            if self.names().contains(name) {
            } else {
                if self.names().contains(key) {
                    let i = self.position(key);
                    assert(after.names()[i] == key);
                }
                if after.names().contains(key) && key != name {
                    let i = after.position(key);
                    assert(self.names()[i] == key);
                }
                if key == name {
                    assert(after.names()[self.names().len() as int] == name);
                }
            }
        }
        assert forall|key: Seq<char>| after@.contains_key(key) implies after@[key]
            == wanted[key] by {
            let i = after.position(key);
            if key != name {
                assert(self.names()[i] == key);
                assert(self.position(key) == i);
            }
        }
        assert(after@ =~= wanted);
    }
}

/// Neither reserved word, nor the empty name, is ever registered.
pub proof fn lemma_reserved_words_stay_free<C>(registry: Registry<C>)
    requires
        registry.is_consistent(),
    ensures
        !registry@.contains_key(help_word()),
        !registry@.contains_key(exit_word()),
        !registry@.contains_key(Seq::<char>::empty()),
{
    let names = registry.names();
    assert forall|name: Seq<char>| names.contains(name) implies is_command_name(name) by {
        let i = choose|i: int| 0 <= i < names.len() && names[i] == name;
        assert(is_command_name(names[i]));
    }
}

} // verus!
