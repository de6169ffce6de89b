//! The environment that the Emscripten host functions share: the module's
//! linear memory, once known, and the data gathered from the instance.
use vstd::prelude::*;
use wasmer::Memory;

verus! {

/// The environment provided to the Emscripten imports. `D` is the data
/// gathered from the running instance (its exported helper functions).
pub struct EmEnv<D> {
    memory: Option<Memory>,
    data: Option<D>,
}

impl<D> EmEnv<D> {
    /// The memory the environment holds, if one has been set.
    pub closed spec fn memory_slot(&self) -> Option<Memory> {
        self.memory
    }

    /// The instance data the environment holds, if it has been set.
    pub closed spec fn data_slot(&self) -> Option<D> {
        self.data
    }

    /// An environment with neither memory nor data yet.
    pub fn new() -> (env: Self)
        ensures
            env.memory_slot() is None,
            env.data_slot() is None,
    {
        EmEnv { memory: None, data: None }
    }

    /// Sets the memory that the host functions read and write.
    pub fn set_memory(&mut self, memory: Memory)
        ensures
            final(self).memory_slot() == Some(memory),
            final(self).data_slot() == old(self).data_slot(),
    {
        self.memory = Some(memory);
    }

    /// Sets the data gathered from the instance.
    pub fn set_data(&mut self, data: D)
        ensures
            final(self).data_slot() == Some(data),
            final(self).memory_slot() == old(self).memory_slot(),
    {
        self.data = Some(data);
    }

    /// The memory the environment holds. Emscripten modules have a single
    /// memory, so the index is not consulted.
    pub fn memory(&self, _mem_idx: u32) -> (memory: &Memory)
        requires
            self.memory_slot() is Some,
        ensures
            *memory == self.memory_slot()->Some_0,
    {
        self.memory.as_ref().unwrap()
    }

    /// The data gathered from the instance, if it has been set.
    pub fn data(&self) -> (data: Option<&D>)
        ensures
            data == match self.data_slot() {
                Some(d) => Some(&d),
                None => None::<&D>,
            },
    {
        self.data.as_ref()
    }

    /// Whether a memory has been set.
    pub fn has_memory(&self) -> (set: bool)
        ensures
            set == self.memory_slot() is Some,
    {
        self.memory.is_some()
    }
}

/// A change made to an environment: a memory set, or data set.
pub enum EnvUpdate<D> {
    SetMemory(Memory),
    SetData(D),
}

/// `after` is `before` changed by `update`, as [`EmEnv::set_memory`] and
/// [`EmEnv::set_data`] change it.
pub open spec fn env_step<D>(before: EmEnv<D>, update: EnvUpdate<D>, after: EmEnv<D>) -> bool {
    match update {
        EnvUpdate::SetMemory(memory) => after.memory_slot() == Some(memory) && after.data_slot()
            == before.data_slot(),
        EnvUpdate::SetData(data) => after.data_slot() == Some(data) && after.memory_slot()
            == before.memory_slot(),
    }
}

/// The memory given by the last memory set among `updates`, or `initial`
/// where none sets one.
pub open spec fn last_memory_set<D>(initial: Option<Memory>, updates: Seq<EnvUpdate<D>>) -> Option<
    Memory,
>
    decreases updates.len(),
{
    if updates.len() == 0 {
        initial
    } else {
        match updates.last() {
            EnvUpdate::SetMemory(memory) => Some(memory),
            EnvUpdate::SetData(_) => last_memory_set(initial, updates.drop_last()),
        }
    }
}

/// Whatever sequence of memories and data is set on an environment, the
/// memory it holds (and so the one [`EmEnv::memory`] returns, whatever the
/// index) is the one given by the last memory set; an environment on which
/// no memory was set since [`EmEnv::new`] holds none, and `memory` may not
/// be called on it.
pub proof fn lemma_memory_is_last_set<D>(envs: Seq<EmEnv<D>>, updates: Seq<EnvUpdate<D>>)
    requires
        envs.len() == updates.len() + 1,
        forall|i: int| 0 <= i < updates.len() ==> env_step(envs[i], updates[i], envs[i + 1]),
    ensures
        envs.last().memory_slot() == last_memory_set(envs[0].memory_slot(), updates),
        (forall|i: int| 0 <= i < updates.len() ==> updates[i] is SetData)
            ==> envs.last().memory_slot() == envs[0].memory_slot(),
    decreases updates.len(),
{
    if updates.len() > 0 {
        let shorter = envs.drop_last();
        lemma_memory_is_last_set(shorter, updates.drop_last());
        assert(shorter.last() == envs[updates.len() - 1]);
        assert(env_step(envs[updates.len() - 1], updates.last(), envs.last()));
    }
}

} // verus!
