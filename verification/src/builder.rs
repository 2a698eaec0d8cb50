//! Describing a fleet: named groups of identical machines and a lifetime.
use vstd::prelude::*;

verus! {

/// How one kind of machine is requested and prepared.
///
/// `setup` is the routine that brings a freshly started machine into a usable
/// state. It is carried along untouched: running it is left to the driver.
pub struct MachineSetup<F> {
    pub instance_type: String,
    pub ami: String,
    pub setup: F,
}

impl<F> MachineSetup<F> {
    pub fn new(instance_type: String, ami: String, setup: F) -> (made: Self)
        ensures
            made.instance_type == instance_type,
            made.ami == ami,
            made.setup == setup,
    {
        MachineSetup { instance_type, ami, setup }
    }
}

/// One named group of a fleet: `number` machines that share a setup.
pub struct Descriptor<F> {
    pub name: String,
    pub setup: MachineSetup<F>,
    pub number: u32,
}

/// Why a change to a fleet description was refused.
#[derive(Clone, Copy, Debug, PartialEq, Eq, Structural)]
pub enum ConfigurationError {
    /// The group's name is the empty string.
    EmptyName,
    /// The group asks for no machines.
    ZeroCount,
    /// Another group already has this name.
    DuplicateName,
    /// The fleet's lifetime would be zero.
    ZeroDuration,
}

/// Some group in `groups` is called `name`.
pub open spec fn has_name<F>(groups: Seq<Descriptor<F>>, name: Seq<char>) -> bool {
    exists|i: int| 0 <= i < groups.len() && (#[trigger] groups[i]).name@ == name
}

/// Every group has a non-empty name of its own and asks for at least one
/// machine.
pub open spec fn well_formed_groups<F>(groups: Seq<Descriptor<F>>) -> bool {
    &&& forall|i: int|
        0 <= i < groups.len() ==> (#[trigger] groups[i]).name@.len() > 0 && groups[i].number >= 1
    &&& forall|i: int, j: int|
        0 <= i < j < groups.len() ==> (#[trigger] groups[i]).name@ != (#[trigger] groups[j]).name@
}

/// The reason, if any, for which a group called `name` with `number` machines
/// cannot join `groups`.
pub open spec fn rejection<F>(groups: Seq<Descriptor<F>>, name: Seq<char>, number: u32) -> Option<
    ConfigurationError,
> {
    if name.len() == 0 {
        Some(ConfigurationError::EmptyName)
    } else if number == 0 {
        Some(ConfigurationError::ZeroCount)
    } else if has_name(groups, name) {
        Some(ConfigurationError::DuplicateName)
    } else {
        None
    }
}

/// A fleet description under construction.
pub struct BurstBuilder<F> {
    descriptors: Vec<Descriptor<F>>,
    max_duration: i64,
}

impl<F> Default for BurstBuilder<F> {
    fn default() -> (made: Self)
        ensures
            made.groups().len() == 0,
            made.minutes() == 60,
            made.wf(),
    {
        BurstBuilder { descriptors: Vec::new(), max_duration: 60 }
    }
}

impl<F> BurstBuilder<F> {
    /// The groups added so far, in the order in which they were added.
    pub closed spec fn groups(&self) -> Seq<Descriptor<F>> {
        self.descriptors@
    }

    /// The fleet's lifetime in minutes.
    pub closed spec fn minutes(&self) -> int {
        self.max_duration as int
    }

    pub closed spec fn wf(&self) -> bool {
        &&& well_formed_groups(self.descriptors@)
        &&& 60 <= self.max_duration <= 255 * 60
    }

    /// Where the group called `name` stands, or the number of groups if there
    /// is none.
    fn position(&self, name: &String) -> (at: usize)
        ensures
            at <= self.groups().len(),
            at < self.groups().len() ==> self.groups()[at as int].name@ == name@,
            at == self.groups().len() ==> !has_name(self.groups(), name@),
    {
        let mut i: usize = 0;
        while i < self.descriptors.len()
            invariant
                i <= self.descriptors.len(),
                forall|j: int| 0 <= j < i ==> (#[trigger] self.descriptors@[j]).name@ != name@,
            decreases self.descriptors.len() - i,
        {
            if self.descriptors[i].name == *name {
                return i;
            }
            i += 1;
        }
        i
    }

    /// Adds a group of `number` machines called `name`.
    ///
    /// Refused, with the description left as it was, when the name is empty,
    /// when `number` is zero, or when the name is taken.
    pub fn add_set(&mut self, name: String, number: u32, setup: MachineSetup<F>) -> (done: Result<
        (),
        ConfigurationError,
    >)
        requires
            old(self).wf(),
        ensures
            final(self).wf(),
            final(self).minutes() == old(self).minutes(),
            match rejection(old(self).groups(), name@, number) {
                Some(why) => done == Err::<(), ConfigurationError>(why) && final(self).groups()
                    == old(self).groups(),
                None => done.is_ok() && final(self).groups() == old(self).groups().push(
                    (Descriptor { name, setup, number }),
                ),
            },
    {
        if name.as_str().is_empty() {
            return Err(ConfigurationError::EmptyName);
        }
        if number == 0 {
            return Err(ConfigurationError::ZeroCount);
        }
        if self.position(&name) < self.descriptors.len() {
            return Err(ConfigurationError::DuplicateName);
        }
        self.descriptors.push(Descriptor { name, setup, number });
        Ok(())
    }

    /// Bounds the fleet's lifetime to `hours` hours. Zero hours are refused.
    pub fn set_max_duration(&mut self, hours: u8) -> (done: Result<(), ConfigurationError>)
        requires
            old(self).wf(),
        ensures
            final(self).wf(),
            final(self).groups() == old(self).groups(),
            hours == 0 ==> done == Err::<(), ConfigurationError>(ConfigurationError::ZeroDuration)
                && final(self).minutes() == old(self).minutes(),
            hours > 0 ==> done.is_ok() && final(self).minutes() == hours * 60,
    {
        if hours == 0 {
            return Err(ConfigurationError::ZeroDuration);
        }
        let minutes: i64 = 60 * (hours as i64);
        self.max_duration = minutes;
        Ok(())
    }

    /// Hands out the groups and the lifetime in minutes.
    pub(crate) fn into_parts(self) -> (parts: (Vec<Descriptor<F>>, i64))
        ensures
            parts.0@ == self.groups(),
            parts.1 == self.minutes(),
            self.wf() ==> well_formed_groups(parts.0@) && parts.1 >= 60,
    {
        (self.descriptors, self.max_duration)
    }

    /// The fleet's lifetime in minutes.
    pub fn max_duration(&self) -> (minutes: i64)
        ensures
            minutes == self.minutes(),
    {
        self.max_duration
    }

    /// How many groups have been added.
    pub fn len(&self) -> (n: usize)
        ensures
            n == self.groups().len(),
    {
        self.descriptors.len()
    }

    /// The `index`-th group, in the order of addition.
    pub fn group(&self, index: usize) -> (found: Option<&Descriptor<F>>)
        ensures
            index < self.groups().len() ==> found == Some(&self.groups()[index as int]),
            index >= self.groups().len() ==> found.is_none(),
    {
        if index < self.descriptors.len() {
            Some(&self.descriptors[index])
        } else {
            None
        }
    }
}

} // verus!
