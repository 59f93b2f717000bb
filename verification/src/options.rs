use vstd::prelude::*;
use crate::errors::Error;

verus! {

/// One value of the typed heterogeneous options bag.
#[derive(Clone, Debug)]
pub enum OptionsEntry {
    String(String),
    Binary(Vec<u8>),
    MultiBinary(Vec<Vec<u8>>),
    U32(u32),
    MultiU32(Vec<u32>),
    U64(u64),
    MultiU64(Vec<u64>),
}

/// A typed side-channel of named values handed to subprogram generators.
/// A later entry under the same name shadows an earlier one.
#[derive(Clone, Debug)]
pub struct Options {
    pub map: Vec<(String, OptionsEntry)>,
}

/// The entry a name resolves to: the latest one recorded under that name.
pub open spec fn assoc_lookup(m: Seq<(String, OptionsEntry)>, name: Seq<char>) -> Option<
    OptionsEntry,
>
    decreases m.len(),
{
    if m.len() == 0 {
        None
    } else if m.last().0@ == name {
        Some(m.last().1)
    } else {
        assoc_lookup(m.drop_last(), name)
    }
}

impl Options {
    /// What a name resolves to in this bag.
    pub open spec fn lookup(self, name: Seq<char>) -> Option<OptionsEntry> {
        assoc_lookup(self.map@, name)
    }

    /// An empty options bag.
    pub fn new() -> (r: Options)
        ensures
            r.map@.len() == 0,
            forall|name: Seq<char>| #[trigger] r.lookup(name) is None,
    {
        Options { map: Vec::new() }
    }

    /// Records `entry` under `name`, shadowing any earlier entry.
    pub fn with_entry(self, name: &str, entry: OptionsEntry) -> (r: Options)
        ensures
            r.lookup(name@) == Some(entry),
            forall|other: Seq<char>|
                other != name@ ==> #[trigger] r.lookup(other) == self.lookup(other),
    {
        let mut map = self.map;
        let ghost before = map@;
        map.push((name.to_owned(), entry));
        proof {
            assert(map@.last().0@ == name@);
            assert(map@.drop_last() =~= before);
        }
        Options { map }
    }

    pub fn with_string(self, name: &str, entry: &str) -> (r: Options)
        ensures
            r.lookup(name@) matches Some(OptionsEntry::String(v)) && v@ == entry@,
            forall|other: Seq<char>|
                other != name@ ==> #[trigger] r.lookup(other) == self.lookup(other),
    {
        self.with_entry(name, OptionsEntry::String(entry.to_owned()))
    }

    pub fn with_binary(self, name: &str, entry: Vec<u8>) -> (r: Options)
        ensures
            r.lookup(name@) == Some(OptionsEntry::Binary(entry)),
            forall|other: Seq<char>|
                other != name@ ==> #[trigger] r.lookup(other) == self.lookup(other),
    {
        self.with_entry(name, OptionsEntry::Binary(entry))
    }

    pub fn with_multi_binary(self, name: &str, entry: Vec<Vec<u8>>) -> (r: Options)
        ensures
            r.lookup(name@) == Some(OptionsEntry::MultiBinary(entry)),
            forall|other: Seq<char>|
                other != name@ ==> #[trigger] r.lookup(other) == self.lookup(other),
    {
        self.with_entry(name, OptionsEntry::MultiBinary(entry))
    }

    pub fn with_u32(self, name: &str, entry: u32) -> (r: Options)
        ensures
            r.lookup(name@) == Some(OptionsEntry::U32(entry)),
            forall|other: Seq<char>|
                other != name@ ==> #[trigger] r.lookup(other) == self.lookup(other),
    {
        self.with_entry(name, OptionsEntry::U32(entry))
    }

    pub fn with_multi_u32(self, name: &str, entry: Vec<u32>) -> (r: Options)
        ensures
            r.lookup(name@) == Some(OptionsEntry::MultiU32(entry)),
            forall|other: Seq<char>|
                other != name@ ==> #[trigger] r.lookup(other) == self.lookup(other),
    {
        self.with_entry(name, OptionsEntry::MultiU32(entry))
    }

    pub fn with_u64(self, name: &str, entry: u64) -> (r: Options)
        ensures
            r.lookup(name@) == Some(OptionsEntry::U64(entry)),
            forall|other: Seq<char>|
                other != name@ ==> #[trigger] r.lookup(other) == self.lookup(other),
    {
        self.with_entry(name, OptionsEntry::U64(entry))
    }

    pub fn with_multi_u64(self, name: &str, entry: Vec<u64>) -> (r: Options)
        ensures
            r.lookup(name@) == Some(OptionsEntry::MultiU64(entry)),
            forall|other: Seq<char>|
                other != name@ ==> #[trigger] r.lookup(other) == self.lookup(other),
    {
        self.with_entry(name, OptionsEntry::MultiU64(entry))
    }

    /// Finds the position of the latest entry under `name`, if any.
    fn find(&self, name: &str) -> (r: Option<usize>)
        ensures
            match r {
                Some(i) => 0 <= i < self.map@.len() && self.map@[i as int].0@ == name@
                    && self.lookup(name@) == Some(self.map@[i as int].1),
                None => self.lookup(name@) is None,
            },
    {
        let key: String = name.to_owned();
        let mut i = self.map.len();
        proof {
            assert(self.map@.subrange(0, self.map@.len() as int) =~= self.map@);
        }
        while i > 0
            invariant
                0 <= i <= self.map@.len(),
                key@ == name@,
                assoc_lookup(self.map@, name@) == assoc_lookup(
                    self.map@.subrange(0, i as int),
                    name@,
                ),
            decreases i,
        {
            i = i - 1;
            let ghost pre = self.map@.subrange(0, i + 1);
            proof {
                assert(pre.last() == self.map@[i as int]);
                assert(pre.drop_last() =~= self.map@.subrange(0, i as int));
            }
            if self.map[i].0.eq(&key) {
                return Some(i);
            }
        }
        proof {
            assert(self.map@.subrange(0, 0) =~= Seq::<(String, OptionsEntry)>::empty());
        }
        None
    }

    /// Whether a name is present in the bag.
    pub fn contains_key(&self, name: &str) -> (r: bool)
        ensures
            r == self.lookup(name@) is Some,
    {
        self.find(name).is_some()
    }

    /// The string entry under `name`.
    pub fn get_string(&self, name: &str) -> (r: Result<&String, Error>)
        ensures
            match self.lookup(name@) {
                Some(OptionsEntry::String(v)) => r matches Ok(x) && x == v,
                _ => r == Err::<&String, Error>(Error::OptionMissing),
            },
    {
        match self.find(name) {
            Some(i) => match &self.map[i].1 {
                OptionsEntry::String(v) => Ok(v),
                _ => Err(Error::OptionMissing),
            },
            None => Err(Error::OptionMissing),
        }
    }

    /// The binary entry under `name`.
    pub fn get_binary(&self, name: &str) -> (r: Result<&Vec<u8>, Error>)
        ensures
            match self.lookup(name@) {
                Some(OptionsEntry::Binary(v)) => r matches Ok(x) && x == v,
                _ => r == Err::<&Vec<u8>, Error>(Error::OptionMissing),
            },
    {
        match self.find(name) {
            Some(i) => match &self.map[i].1 {
                OptionsEntry::Binary(v) => Ok(v),
                _ => Err(Error::OptionMissing),
            },
            None => Err(Error::OptionMissing),
        }
    }

    /// The multi-binary entry under `name`.
    pub fn get_multi_binary(&self, name: &str) -> (r: Result<&Vec<Vec<u8>>, Error>)
        ensures
            match self.lookup(name@) {
                Some(OptionsEntry::MultiBinary(v)) => r matches Ok(x) && x == v,
                _ => r == Err::<&Vec<Vec<u8>>, Error>(Error::OptionMissing),
            },
    {
        match self.find(name) {
            Some(i) => match &self.map[i].1 {
                OptionsEntry::MultiBinary(v) => Ok(v),
                _ => Err(Error::OptionMissing),
            },
            None => Err(Error::OptionMissing),
        }
    }

    /// The u32 entry under `name`.
    pub fn get_u32(&self, name: &str) -> (r: Result<u32, Error>)
        ensures
            match self.lookup(name@) {
                Some(OptionsEntry::U32(v)) => r == Ok::<u32, Error>(v),
                _ => r == Err::<u32, Error>(Error::OptionMissing),
            },
    {
        match self.find(name) {
            Some(i) => match &self.map[i].1 {
                OptionsEntry::U32(v) => Ok(*v),
                _ => Err(Error::OptionMissing),
            },
            None => Err(Error::OptionMissing),
        }
    }

    /// The multi-u32 entry under `name`.
    pub fn get_multi_u32(&self, name: &str) -> (r: Result<&Vec<u32>, Error>)
        ensures
            match self.lookup(name@) {
                Some(OptionsEntry::MultiU32(v)) => r matches Ok(x) && x == v,
                _ => r == Err::<&Vec<u32>, Error>(Error::OptionMissing),
            },
    {
        match self.find(name) {
            Some(i) => match &self.map[i].1 {
                OptionsEntry::MultiU32(v) => Ok(v),
                _ => Err(Error::OptionMissing),
            },
            None => Err(Error::OptionMissing),
        }
    }

    /// The u64 entry under `name`.
    pub fn get_u64(&self, name: &str) -> (r: Result<u64, Error>)
        ensures
            match self.lookup(name@) {
                Some(OptionsEntry::U64(v)) => r == Ok::<u64, Error>(v),
                _ => r == Err::<u64, Error>(Error::OptionMissing),
            },
    {
        match self.find(name) {
            Some(i) => match &self.map[i].1 {
                OptionsEntry::U64(v) => Ok(*v),
                _ => Err(Error::OptionMissing),
            },
            None => Err(Error::OptionMissing),
        }
    }

    /// The multi-u64 entry under `name`.
    pub fn get_multi_u64(&self, name: &str) -> (r: Result<&Vec<u64>, Error>)
        ensures
            match self.lookup(name@) {
                Some(OptionsEntry::MultiU64(v)) => r matches Ok(x) && x == v,
                _ => r == Err::<&Vec<u64>, Error>(Error::OptionMissing),
            },
    {
        match self.find(name) {
            Some(i) => match &self.map[i].1 {
                OptionsEntry::MultiU64(v) => Ok(v),
                _ => Err(Error::OptionMissing),
            },
            None => Err(Error::OptionMissing),
        }
    }
}

} // verus!
