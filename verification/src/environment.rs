//! The variables of a shell session: a map from names to values.

use vstd::prelude::*;

verus! {

/// One variable of the shell: its name and its value.
#[derive(Debug)]
pub struct Binding {
    pub name: String,
    pub value: String,
}

/// The variables of a shell session. No name is bound twice.
#[derive(Debug)]
pub struct Environment {
    bindings: Vec<Binding>,
}

/// Whether some binding of `bindings` has the name `name`.
pub open spec fn binds(bindings: Seq<Binding>, name: Seq<char>) -> bool {
    exists|i: int| 0 <= i < bindings.len() && #[trigger] bindings[i].name@ == name
}

/// The place of a binding named `name`, where there is one.
pub open spec fn place_of(bindings: Seq<Binding>, name: Seq<char>) -> int {
    choose|i: int| 0 <= i < bindings.len() && #[trigger] bindings[i].name@ == name
}

/// No two bindings share a name.
pub open spec fn distinct_names(bindings: Seq<Binding>) -> bool {
    forall|i: int, j: int|
        0 <= i < j < bindings.len() ==> #[trigger] bindings[i].name@ != #[trigger] bindings[j].name@
}

/// The map from names to values that `bindings` stands for.
pub open spec fn as_map(bindings: Seq<Binding>) -> Map<Seq<char>, Seq<char>> {
    Map::new(
        |name: Seq<char>| binds(bindings, name),
        |name: Seq<char>| bindings[place_of(bindings, name)].value@,
    )
}

/// Replacing the value of one binding updates the map at its name and
/// nowhere else.
proof fn lemma_replace(before: Seq<Binding>, after: Seq<Binding>, at: int)
    requires
        distinct_names(before),
        0 <= at < before.len(),
        after.len() == before.len(),
        after[at].name@ == before[at].name@,
        forall|i: int| 0 <= i < before.len() && i != at ==> after[i] == before[i],
    ensures
        distinct_names(after),
        as_map(after) == as_map(before).insert(before[at].name@, after[at].value@),
{
    assert(forall|i: int| 0 <= i < before.len() ==> #[trigger] after[i].name@ == before[i].name@);
    let wanted = as_map(before).insert(before[at].name@, after[at].value@);
    assert forall|name: Seq<char>| as_map(after).dom().contains(name) == wanted.dom().contains(
        name,
    ) by {
        if binds(after, name) {
            let i = place_of(after, name);
            assert(before[i].name@ == name);
        }
        if binds(before, name) {
            let i = place_of(before, name);
            assert(after[i].name@ == name);
        }
        if name == before[at].name@ {
            assert(after[at].name@ == name);
        }
    }
    assert forall|name: Seq<char>| #[trigger] as_map(after).dom().contains(name) implies as_map(
        after,
    )[name] == wanted[name] by {
        let i = place_of(after, name);
        assert(before[i].name@ == name);
        if name != before[at].name@ {
            let j = place_of(before, name);
            assert(i == j);
        }
    }
    assert(as_map(after) =~= wanted);
}

/// Adding a binding under a new name extends the map by it.
proof fn lemma_extend(before: Seq<Binding>, added: Binding)
    requires
        distinct_names(before),
        !binds(before, added.name@),
    ensures
        distinct_names(before.push(added)),
        as_map(before.push(added)) == as_map(before).insert(added.name@, added.value@),
{
    let after = before.push(added);
    let wanted = as_map(before).insert(added.name@, added.value@);
    assert forall|i: int, j: int| 0 <= i < j < after.len() implies #[trigger] after[i].name@
        != #[trigger] after[j].name@ by {
        if j == before.len() {
            assert(before[i].name@ == after[i].name@);
        } else {
            assert(before[i].name@ == after[i].name@);
            assert(before[j].name@ == after[j].name@);
        }
    }
    assert forall|name: Seq<char>| as_map(after).dom().contains(name) == wanted.dom().contains(
        name,
    ) by {
        if binds(after, name) {
            let i = place_of(after, name);
            if i < before.len() {
                assert(before[i].name@ == name);
            }
        }
        if binds(before, name) {
            let i = place_of(before, name);
            assert(after[i].name@ == name);
        }
        if name == added.name@ {
            assert(after[before.len() as int].name@ == name);
        }
    }
    assert forall|name: Seq<char>| #[trigger] as_map(after).dom().contains(name) implies as_map(
        after,
    )[name] == wanted[name] by {
        let i = place_of(after, name);
        if name != added.name@ {
            assert(before[i].name@ == name);
            let j = place_of(before, name);
            assert(after[j].name@ == name);
            assert(i == j);
        }
    }
    assert(as_map(after) =~= wanted);
}

impl View for Environment {
    type V = Map<Seq<char>, Seq<char>>;

    closed spec fn view(&self) -> Map<Seq<char>, Seq<char>> {
        as_map(self.bindings@)
    }
}

impl Environment {
    #[verifier::type_invariant]
    spec fn well_formed(self) -> bool {
        distinct_names(self.bindings@)
    }

    /// The bindings, in the order in which their names were first bound.
    pub closed spec fn entries(&self) -> Seq<Binding> {
        self.bindings@
    }

    /// An environment without variables.
    pub fn new() -> (env: Environment)
        ensures
            env@ == Map::<Seq<char>, Seq<char>>::empty(),
            env.entries().len() == 0,
    {
        let env = Environment { bindings: Vec::new() };
        assert(env@ =~= Map::<Seq<char>, Seq<char>>::empty());
        env
    }

    fn find(&self, name: &str) -> (place: Option<usize>)
        ensures
            match place {
                Some(i) => i < self.bindings.len() && self.bindings[i as int].name@ == name@,
                None => !binds(self.bindings@, name@),
            },
    {
        let mut i: usize = 0;
        while i < self.bindings.len()
            invariant
                i <= self.bindings.len(),
                forall|j: int| 0 <= j < i ==> (#[trigger] self.bindings[j]).name@ != name@,
            decreases self.bindings.len() - i,
        {
            if self.bindings[i].name.as_str().eq(name) {
                return Some(i);
            }
            i += 1;
        }
        None
    }

    /// The value bound to `name`, if any.
    pub fn get(&self, name: &str) -> (value: Option<&String>)
        ensures
            match value {
                Some(v) => self@.contains_key(name@) && v@ == self@[name@],
                None => !self@.contains_key(name@),
            },
    {
        proof {
            use_type_invariant(self);
        }
        match self.find(name) {
            Some(i) => {
                assert(self.bindings@[i as int].name@ == name@);
                Some(&self.bindings[i].value)
            },
            None => None,
        }
    }

    /// Binds `name` to `value`, and returns the value that was bound to it
    /// before, if any.
    pub fn insert(&mut self, name: String, value: String) -> (previous: Option<String>)
        ensures
            final(self)@ == old(self)@.insert(name@, value@),
            match previous {
                Some(v) => old(self)@.contains_key(name@) && v@ == old(self)@[name@],
                None => !old(self)@.contains_key(name@),
            },
    {
        proof {
            use_type_invariant(&*self);
        }
        let place = self.find(name.as_str());
        let mut bindings: Vec<Binding> = Vec::new();
        std::mem::swap(&mut bindings, &mut self.bindings);
        let ghost before = bindings@;
        let binding = Binding { name, value };
        let previous = match place {
            Some(i) => {
                assert(before[i as int].name@ == binding.name@);
                bindings.push(binding);
                let replaced = bindings.swap_remove(i);
                proof {
                    lemma_replace(before, bindings@, i as int);
                }
                Some(replaced.value)
            },
            None => {
                proof {
                    lemma_extend(before, binding);
                }
                bindings.push(binding);
                None
            },
        };
        self.bindings = bindings;
        previous
    }

    /// The number of variables. The entries are the map, each name once.
    pub fn len(&self) -> (n: usize)
        ensures
            n == self.entries().len(),
            distinct_names(self.entries()),
            self@ == as_map(self.entries()),
    {
        proof {
            use_type_invariant(self);
        }
        self.bindings.len()
    }

    /// The binding at place `i`.
    pub fn binding(&self, i: usize) -> (b: &Binding)
        requires
            i < self.entries().len(),
        ensures
            *b == self.entries()[i as int],
    {
        &self.bindings[i]
    }
}

impl Default for Environment {
    /// An environment without variables.
    fn default() -> (env: Environment)
        ensures
            env@ == Map::<Seq<char>, Seq<char>>::empty(),
    {
        Environment::new()
    }
}

} // verus!
