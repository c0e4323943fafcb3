use vstd::prelude::*;
use crate::config::{is_first_index, ConfigError, ConfigItem};
use crate::text::{join, join_strings, views};

verus! {

/// No name occurs twice.
pub open spec fn unique(names: Seq<Seq<char>>) -> bool {
    forall|i: int, j: int|
        0 <= i < names.len() && 0 <= j < names.len() && i != j ==> names[i] != names[j]
}

/// All items of a store, in order: the order in which they are listed.
pub struct Config {
    pub items: Vec<ConfigItem>,
}

impl Config {
    /// The names of the items, in order.
    pub open spec fn spec_names(&self) -> Seq<Seq<char>> {
        self.items@.map_values(|it: ConfigItem| it.spec_name())
    }

    /// Item names are unique and every item is well formed.
    pub open spec fn wf(&self) -> bool {
        &&& unique(self.spec_names())
        &&& forall|i: int| 0 <= i < self.items@.len() ==> (#[trigger] self.items@[i]).wf()
    }

    /// The listing of the items, one block each, blocks apart by a blank line.
    pub open spec fn spec_render(&self) -> Seq<char> {
        join(self.items@.map_values(|it: ConfigItem| it.spec_render()), "\n\n"@)
    }

    /// The position of the item named `name`, if any.
    pub fn find(&self, name: &str) -> (r: Option<usize>)
        ensures
            match r {
                Some(i) => is_first_index(self.spec_names(), name@, i as int),
                None => !self.spec_names().contains(name@),
            },
    {
        let n = String::from_str(name);
        let mut i: usize = 0;
        while i < self.items.len()
            invariant
                n@ == name@,
                i <= self.items@.len(),
                forall|j: int| 0 <= j < i ==> (#[trigger] self.items@[j]).spec_name() != name@,
            decreases self.items@.len() - i,
        {
            if String::from_str(self.items[i].get_name()) == n {
                return Some(i);
            }
            i = i + 1;
        }
        proof {
            if self.spec_names().contains(name@) {
                let k = choose|k: int| 0 <= k < self.spec_names().len() && self.spec_names()[k] == name@;
                assert(self.items@[k].spec_name() == name@);
            }
        }
        None
    }

    /// Appends `item` unless an item of the same name is already there, in
    /// which case nothing changes.
    pub fn add_item(&mut self, item: ConfigItem) -> (r: Result<(), ConfigError>)
        ensures
            old(self).spec_names().contains(item.spec_name()) ==> r == Err::<(), ConfigError>(
                ConfigError::DuplicateItem,
            ) && final(self).items@ == old(self).items@,
            !old(self).spec_names().contains(item.spec_name()) ==> r is Ok && final(self).items@
                == old(self).items@.push(item),
            old(self).wf() && item.wf() ==> final(self).wf(),
    {
        match self.find(item.get_name()) {
            Some(_) => Err(ConfigError::DuplicateItem),
            None => {
                let ghost before = self.spec_names();
                self.items.push(item);
                assert(self.spec_names() =~= before.push(item.spec_name()));
                Ok(())
            },
        }
    }

    /// Takes the item named `name` out of the store and returns it; the last
    /// item takes its place. Where there is no such item, nothing changes.
    pub fn remove_item(&mut self, name: &str) -> (r: Result<ConfigItem, ConfigError>)
        ensures
            old(self).spec_names().contains(name@) <==> r is Ok,
            match r {
                Ok(it) => exists|i: int|
                    is_first_index(old(self).spec_names(), name@, i) && it == old(self).items@[i]
                        && final(self).items@ == #[trigger] old(self).items@.update(
                        i,
                        old(self).items@.last(),
                    ).drop_last(),
                Err(e) => e == ConfigError::MissingItem && final(self).items@ == old(self).items@,
            },
            old(self).spec_names().contains(name@) ==> final(self).items@.len() == old(
                self,
            ).items@.len() - 1,
            unique(old(self).spec_names()) ==> !final(self).spec_names().contains(name@),
            old(self).wf() ==> final(self).wf(),
    {
        match self.find(name) {
            None => Err(ConfigError::MissingItem),
            Some(i) => {
                let ghost before = self.items@;
                let it = self.items.swap_remove(i);
                proof {
                    let after = self.items@;
                    let last = before.len() - 1;
                    assert(forall|k: int|
                        0 <= k < after.len() ==> #[trigger] after[k] == before[if k == i {
                            last
                        } else {
                            k
                        }]);
                    if unique(old(self).spec_names()) {
                        if self.spec_names().contains(name@) {
                            let k = choose|k: int|
                                0 <= k < self.spec_names().len() && self.spec_names()[k] == name@;
                            let kk = if k == i { last } else { k };
                            assert(after[k] == before[kk]);
                            assert(old(self).spec_names()[kk] == name@);
                            assert(old(self).spec_names()[i as int] == name@);
                            assert(kk != i);
                        }
                    }
                    if old(self).wf() {
                        assert forall|a: int, b: int|
                            0 <= a < after.len() && 0 <= b < after.len() && a != b implies
                            self.spec_names()[a] != self.spec_names()[b] by {
                            let aa = if a == i { last } else { a };
                            let bb = if b == i { last } else { b };
                            assert(after[a] == before[aa]);
                            assert(after[b] == before[bb]);
                            assert(aa != bb);
                            assert(self.spec_names()[a] == old(self).spec_names()[aa]);
                            assert(self.spec_names()[b] == old(self).spec_names()[bb]);
                        }
                        assert forall|k: int| 0 <= k < after.len() implies (#[trigger] after[k]).wf() by {
                            assert(after[k] == before[if k == i { last } else { k }]);
                        }
                    }
                    assert(is_first_index(old(self).spec_names(), name@, i as int) && it == before[i as int]
                        && after == before.update(i as int, before.last()).drop_last());
                }
                Ok(it)
            },
        }
    }

    /// The listing of all items, as `ConfigItem::to_string` writes each,
    /// separated by a blank line.
    pub fn render_items(&self) -> (r: String)
        ensures
            r@ == self.spec_render(),
    {
        let mut blocks: Vec<String> = Vec::new();
        let mut i: usize = 0;
        while i < self.items.len()
            invariant
                i <= self.items@.len(),
                blocks@.len() == i,
                forall|j: int| 0 <= j < i ==> (#[trigger] blocks@[j])@ == self.items@[j].spec_render(),
            decreases self.items@.len() - i,
        {
            blocks.push(self.items[i].to_string());
            i = i + 1;
        }
        assert(views(blocks@) =~= self.items@.map_values(|it: ConfigItem| it.spec_render()));
        join_strings(&blocks, "\n\n")
    }
}

/// The store of one configuration directory, as held in memory.
pub struct ConfigManager {
    pub path: String,
    pub config: Config,
}

impl ConfigManager {
    /// A manager for the directory `path`, holding the empty store until
    /// the directory's file is read.
    pub fn new(path: String) -> (r: ConfigManager)
        ensures
            r.path@ == path@,
            r.config.items@.len() == 0,
            r.config.wf(),
    {
        ConfigManager { path, config: Self::get_default_config() }
    }

    /// The store of a directory that has no file yet: no items.
    pub fn get_default_config() -> (r: Config)
        ensures
            r.items@.len() == 0,
            r.wf(),
    {
        Config { items: Vec::new() }
    }
}

} // verus!
