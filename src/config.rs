use vstd::prelude::*;
use crate::text::{join, join_strings, views};

verus! {

/// One state of a command item: its name and the shell command that enters it.
pub struct ConfigCommandItemState {
    pub name: String,
    pub command: String,
}

/// An item whose states are entered by running a shell command.
pub struct ConfigCommandItem {
    pub name: String,
    pub current: String,
    pub states: Vec<ConfigCommandItemState>,
}

/// An item of the store, tagged by its kind.
pub enum ConfigItem {
    CommandItem(ConfigCommandItem),
}

/// Why an operation on the store or on an item was refused.
#[derive(Clone, Copy, Debug, PartialEq, Eq, Structural)]
pub enum ConfigError {
    /// An item of that name is already in the store.
    DuplicateItem,
    /// No item of that name is in the store.
    MissingItem,
    /// An item needs a non-empty name.
    EmptyItemName,
    /// An item needs at least one state.
    NoStates,
    /// A state needs a non-empty name.
    EmptyStateName,
    /// Two states of one item share a name.
    DuplicateStateName,
}

/// The names of a sequence of states, in order.
pub open spec fn names_of(states: Seq<ConfigCommandItemState>) -> Seq<Seq<char>> {
    states.map_values(|s: ConfigCommandItemState| s.name@)
}

/// `i` is the first position of `n` in `names`.
pub open spec fn is_first_index(names: Seq<Seq<char>>, n: Seq<char>, i: int) -> bool {
    0 <= i < names.len() && names[i] == n && forall|j: int| 0 <= j < i ==> names[j] != n
}

/// What `check_state_name` reports for a new state name beside `earlier` states.
pub open spec fn state_name_error(earlier: Seq<Seq<char>>, n: Seq<char>) -> Option<ConfigError> {
    if n.len() == 0 {
        Some(ConfigError::EmptyStateName)
    } else if earlier.contains(n) {
        Some(ConfigError::DuplicateStateName)
    } else {
        None
    }
}

/// The first error met when the states of `names` are taken in order.
pub open spec fn states_error(names: Seq<Seq<char>>) -> Option<ConfigError>
    decreases names.len(),
{
    if names.len() == 0 {
        None
    } else {
        match states_error(names.drop_last()) {
            Some(e) => Some(e),
            None => state_name_error(names.drop_last(), names.last()),
        }
    }
}

/// Once a prefix of `names` has an error, every longer prefix has the same one.
proof fn lemma_states_error_prefix(names: Seq<Seq<char>>, k: int)
    requires
        0 <= k <= names.len(),
        states_error(names.take(k)).is_some(),
    ensures
        states_error(names) == states_error(names.take(k)),
    decreases names.len() - k,
{
    if k < names.len() {
        assert(names.take(k + 1).drop_last() =~= names.take(k));
        lemma_states_error_prefix(names, k + 1);
    } else {
        assert(names.take(k) =~= names);
    }
}

/// The text that names the kind of a command item.
pub open spec fn command_kind_label() -> Seq<char> {
    "Command"@
}

/// The first position of a state named `n`, if any.
fn find_state(states: &Vec<ConfigCommandItemState>, n: &String) -> (r: Option<usize>)
    ensures
        match r {
            Some(i) => is_first_index(names_of(states@), n@, i as int),
            None => !names_of(states@).contains(n@),
        },
{
    let mut i: usize = 0;
    while i < states.len()
        invariant
            i <= states@.len(),
            forall|j: int| 0 <= j < i ==> (#[trigger] states@[j]).name@ != n@,
        decreases states@.len() - i,
    {
        if states[i].name == *n {
            return Some(i);
        }
        i = i + 1;
    }
    proof {
        if names_of(states@).contains(n@) {
            let k = choose|k: int| 0 <= k < names_of(states@).len() && names_of(states@)[k] == n@;
            assert(states@[k].name@ == n@);
        }
    }
    None
}

/// Checks a state name offered for an item that already has `states`: it
/// must be non-empty and not yet taken.
pub fn check_state_name(states: &Vec<ConfigCommandItemState>, name: &String) -> (r: Result<(), ConfigError>)
    ensures
        r == match state_name_error(names_of(states@), name@) {
            Some(e) => Err::<(), ConfigError>(e),
            None => Ok(()),
        },
{
    if name.as_str().is_empty() {
        return Err(ConfigError::EmptyStateName);
    }
    match find_state(states, name) {
        Some(_) => Err(ConfigError::DuplicateStateName),
        None => Ok(()),
    }
}

/// How one state is listed: marked with `*` where it is the current one.
pub open spec fn state_line(name: Seq<char>, current: Seq<char>) -> Seq<char> {
    (if name == current { "*"@ } else { " "@ }) + " "@ + name
}

/// The listed lines of all states, in order.
pub open spec fn state_lines(names: Seq<Seq<char>>, current: Seq<char>) -> Seq<Seq<char>> {
    names.map_values(|n: Seq<char>| state_line(n, current))
}

impl ConfigItem {
    pub open spec fn spec_name(&self) -> Seq<char> {
        match self {
            ConfigItem::CommandItem(item) => item.name@,
        }
    }

    pub open spec fn spec_current(&self) -> Seq<char> {
        match self {
            ConfigItem::CommandItem(item) => item.current@,
        }
    }

    pub open spec fn spec_states(&self) -> Seq<ConfigCommandItemState> {
        match self {
            ConfigItem::CommandItem(item) => item.states@,
        }
    }

    pub open spec fn spec_state_names(&self) -> Seq<Seq<char>> {
        names_of(self.spec_states())
    }

    /// The item as listed: its name and kind on one line, then one line per state.
    pub open spec fn spec_render(&self) -> Seq<char> {
        self.spec_name() + " ["@ + self.spec_kind_label() + "]\n"@ + join(
            state_lines(self.spec_state_names(), self.spec_current()),
            "\n"@,
        )
    }

    pub open spec fn spec_kind_label(&self) -> Seq<char> {
        match self {
            ConfigItem::CommandItem(_) => command_kind_label(),
        }
    }

    /// States have non-empty, distinct names, there is at least one, and the
    /// current state is one of them.
    pub open spec fn wf(&self) -> bool {
        &&& self.spec_name().len() > 0
        &&& self.spec_states().len() > 0
        &&& states_error(self.spec_state_names()).is_none()
        &&& self.spec_state_names().contains(self.spec_current())
    }

    pub fn get_name(&self) -> (r: &str)
        ensures
            r@ == self.spec_name(),
    {
        match self {
            ConfigItem::CommandItem(item) => item.name.as_str(),
        }
    }

    pub fn get_current_state(&self) -> (r: &str)
        ensures
            r@ == self.spec_current(),
    {
        match self {
            ConfigItem::CommandItem(item) => item.current.as_str(),
        }
    }

    pub fn get_state_names(&self) -> (r: Vec<&str>)
        ensures
            r@.len() == self.spec_states().len(),
            forall|i: int| 0 <= i < r@.len() ==> (#[trigger] r@[i])@ == self.spec_state_names()[i],
    {
        match self {
            ConfigItem::CommandItem(item) => {
                let mut names: Vec<&str> = Vec::new();
                let mut i: usize = 0;
                while i < item.states.len()
                    invariant
                        i <= item.states@.len(),
                        names@.len() == i,
                        forall|j: int| 0 <= j < i ==> (#[trigger] names@[j])@ == item.states@[j].name@,
                    decreases item.states@.len() - i,
                {
                    names.push(item.states[i].name.as_str());
                    i = i + 1;
                }
                names
            },
        }
    }

    /// Builds a command item from its name and its states, in order; the
    /// first state becomes the current one.
    pub fn new_command(name: String, states: Vec<ConfigCommandItemState>) -> (r: Result<ConfigItem, ConfigError>)
        ensures
            name@.len() == 0 ==> r == Err::<ConfigItem, ConfigError>(ConfigError::EmptyItemName),
            name@.len() > 0 && states@.len() == 0 ==> r == Err::<ConfigItem, ConfigError>(ConfigError::NoStates),
            name@.len() > 0 && states@.len() > 0 ==> match states_error(names_of(states@)) {
                Some(e) => r == Err::<ConfigItem, ConfigError>(e),
                None => r matches Ok(item) && item.spec_name() == name@
                    && item.spec_states() == states@
                    && item.spec_current() == states@[0].name@
                    && item.wf(),
            },
    {
        if name.as_str().is_empty() {
            return Err(ConfigError::EmptyItemName);
        }
        if states.len() == 0 {
            return Err(ConfigError::NoStates);
        }
        let mut earlier: Vec<ConfigCommandItemState> = Vec::new();
        let mut i: usize = 0;
        while i < states.len()
            invariant
                name@.len() > 0,
                i <= states@.len(),
                names_of(earlier@) == names_of(states@).take(i as int),
                states_error(names_of(states@).take(i as int)).is_none(),
            decreases states@.len() - i,
        {
            let n = states[i].name.clone();
            proof {
                assert(names_of(states@).take(i + 1).drop_last() =~= names_of(states@).take(i as int));
                assert(names_of(states@).take(i + 1).last() == n@);
            }
            match check_state_name(&earlier, &n) {
                Err(e) => {
                    proof {
                        lemma_states_error_prefix(names_of(states@), i as int + 1);
                    }
                    return Err(e);
                },
                Ok(()) => {},
            }
            earlier.push(ConfigCommandItemState { name: n, command: String::new() });
            proof {
                assert(names_of(earlier@) =~= names_of(states@).take(i + 1));
            }
            i = i + 1;
        }
        proof {
            assert(names_of(states@).take(states@.len() as int) =~= names_of(states@));
            assert(names_of(states@).contains(states@[0].name@)) by {
                assert(names_of(states@)[0] == states@[0].name@);
            }
        }
        let current = states[0].name.clone();
        Ok(ConfigItem::CommandItem(ConfigCommandItem { name, current, states }))
    }

    /// Makes `new_state` the current state, whether or not a state of that
    /// name exists, and gives back the command of the state of that name to
    /// be run, or `None` where there is none.
    pub fn set_current_state(&mut self, new_state: String) -> (r: Option<String>)
        ensures
            final(self).spec_name() == old(self).spec_name(),
            final(self).spec_states() == old(self).spec_states(),
            final(self).spec_current() == new_state@,
            match r {
                Some(c) => exists|i: int| is_first_index(old(self).spec_state_names(), new_state@, i)
                    && c@ == #[trigger] old(self).spec_states()[i].command@,
                None => !old(self).spec_state_names().contains(new_state@),
            },
    {
        let r = self.command_of(&new_state);
        match self {
            ConfigItem::CommandItem(item) => {
                item.current = new_state;
            },
        }
        r
    }

    /// The command of the first state named `n`, if any.
    fn command_of(&self, n: &String) -> (r: Option<String>)
        ensures
            match r {
                Some(c) => exists|i: int| is_first_index(self.spec_state_names(), n@, i)
                    && c@ == #[trigger] self.spec_states()[i].command@,
                None => !self.spec_state_names().contains(n@),
            },
    {
        match self {
            ConfigItem::CommandItem(item) => match find_state(&item.states, n) {
                Some(i) => {
                    let c = item.states[i].command.clone();
                    assert(c@ == self.spec_states()[i as int].command@);
                    Some(c)
                },
                None => None,
            },
        }
    }

    /// The position of the current state among the states, if it is one of them.
    pub fn current_state_index(&self) -> (r: Option<usize>)
        ensures
            match r {
                Some(i) => is_first_index(self.spec_state_names(), self.spec_current(), i as int),
                None => !self.spec_state_names().contains(self.spec_current()),
            },
    {
        match self {
            ConfigItem::CommandItem(item) => find_state(&item.states, &item.current),
        }
    }

    pub fn get_type_string(&self) -> (r: String)
        ensures
            r@ == self.spec_kind_label(),
    {
        match self {
            ConfigItem::CommandItem(_) => String::from_str("Command"),
        }
    }

    /// The item as listed: `name [kind]`, then each state on a line of its
    /// own, the current one marked with `*`.
    pub fn to_string(&self) -> (r: String)
        ensures
            r@ == self.spec_render(),
    {
        let names = self.get_state_names();
        let current = self.get_current_state();
        let ghost expected = state_lines(self.spec_state_names(), self.spec_current());
        let mut lines: Vec<String> = Vec::new();
        let mut i: usize = 0;
        while i < names.len()
            invariant
                i <= names@.len(),
                names@.len() == self.spec_state_names().len(),
                forall|j: int| 0 <= j < names@.len() ==> (#[trigger] names@[j])@ == self.spec_state_names()[j],
                current@ == self.spec_current(),
                expected == state_lines(self.spec_state_names(), self.spec_current()),
                lines@.len() == i,
                forall|j: int| 0 <= j < i ==> (#[trigger] lines@[j])@ == expected[j],
            decreases names@.len() - i,
        {
            let name: &str = names[i];
            let n = String::from_str(name);
            let c = String::from_str(current);
            let mut line = if n == c {
                String::from_str("*")
            } else {
                String::from_str(" ")
            };
            line.append(" ");
            line.append(name);
            lines.push(line);
            i = i + 1;
        }
        assert(views(lines@) =~= expected);
        let body = join_strings(&lines, "\n");
        let mut r = String::from_str(self.get_name());
        r.append(" [");
        let kind = self.get_type_string();
        r.append(kind.as_str());
        r.append("]\n");
        r.append(body.as_str());
        r
    }
}

} // verus!
