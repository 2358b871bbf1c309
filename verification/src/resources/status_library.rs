use vstd::prelude::*;

use crate::named::NamedTable;
use crate::resources::Resources;

verus! {

/// What makes a status act: the event it listens to and the effect it fires.
#[derive(Debug)]
pub struct Trigger {
    pub event: String,
    pub effect: String,
}

impl Trigger {
    /// An exact copy of the trigger.
    pub fn clone(&self) -> (res: Trigger)
        ensures
            res == *self,
    {
        Trigger { event: self.event.clone(), effect: self.effect.clone() }
    }
}

/// A status as it is defined once and attached to units by name.
#[derive(Debug)]
pub struct Status {
    pub description: Option<String>,
    /// Colour as 0xRRGGBBAA.
    pub color: u32,
    pub trigger: Trigger,
    /// Path of the shader drawn for the status, if any.
    pub shader: Option<String>,
}

/// A status shader to draw over a unit: the shader, with the status's colour
/// and its place among the unit's drawn statuses as uniforms.
#[derive(Debug)]
pub struct ContextShader {
    pub shader: String,
    pub color: u32,
    pub index: i32,
}

/// The shaders of the named statuses that have one, in order, each with its
/// status's colour.
pub open spec fn shaders_of(statuses: Seq<(String, i32)>, lib: Map<Seq<char>, Status>) -> Seq<(Seq<char>, u32)>
    decreases statuses.len(),
{
    if statuses.len() == 0 {
        Seq::empty()
    } else {
        let st = lib[statuses.last().0@];
        shaders_of(statuses.drop_last(), lib) + match st.shader {
            Some(sh) => seq![(sh@, st.color)],
            None => Seq::empty(),
        }
    }
}

/// Taking shaders never gives more of them than there are statuses.
proof fn lemma_shaders_len(statuses: Seq<(String, i32)>, lib: Map<Seq<char>, Status>)
    ensures
        shaders_of(statuses, lib).len() <= statuses.len(),
    decreases statuses.len(),
{
    if statuses.len() > 0 {
        lemma_shaders_len(statuses.drop_last(), lib);
    }
}

/// Player-facing descriptions of named things: their colour and text.
#[derive(Debug)]
pub struct Definitions {
    pub table: NamedTable<(u32, String)>,
}

impl Definitions {
    /// No descriptions yet.
    pub fn new() -> (res: Definitions)
        ensures
            res.table.map() == Map::<Seq<char>, (u32, String)>::empty(),
    {
        Definitions { table: NamedTable::new() }
    }

    /// Describes `name` with a colour and a text, replacing what was there.
    pub fn insert(&mut self, name: String, color: u32, description: String)
        ensures
            final(self).table.map() == old(self).table.map().insert(name@, (color, description)),
    {
        self.table.insert(name, (color, description));
    }
}

/// All statuses known to the game, by name.
#[derive(Debug)]
pub struct StatusLibrary {
    register: NamedTable<Status>,
}

impl StatusLibrary {
    /// The statuses by name.
    pub closed spec fn map(&self) -> Map<Seq<char>, Status> {
        self.register.map()
    }

    /// A library with no statuses.
    pub fn new() -> (res: StatusLibrary)
        ensures
            res.map() == Map::<Seq<char>, Status>::empty(),
    {
        StatusLibrary { register: NamedTable::new() }
    }

    /// Adds `status` under `name`, replacing a status of that name; a status
    /// with a description also has it entered among the definitions, with
    /// the status's colour.
    pub fn register(name: &str, status: Status, resources: &mut Resources)
        ensures
            final(resources).status_library.map() == old(resources).status_library.map().insert(name@, status),
            match status.description {
                Some(d) => final(resources).definitions.table.map()
                    == old(resources).definitions.table.map().insert(name@, (status.color, d)),
                None => final(resources).definitions == old(resources).definitions,
            },
            final(resources).ladder == old(resources).ladder,
    {
        if let Some(description) = status.description.as_ref() {
            resources.definitions.insert(name.to_string(), status.color, description.clone());
        }
        resources.status_library.register.insert(name.to_string(), status);
    }

    /// The status of the given name, which must be in the library.
    pub fn get<'a>(name: &str, resources: &'a Resources) -> (res: &'a Status)
        requires
            resources.status_library.map().contains_key(name@),
        ensures
            *res == resources.status_library.map()[name@],
    {
        let key = name.to_string();
        match resources.status_library.register.get(&key) {
            Some(status) => status,
            None => vstd::pervasive::unreached(),
        }
    }

    /// A copy of the trigger of the named status, which must be in the library.
    pub fn get_trigger(name: &str, resources: &Resources) -> (res: Trigger)
        requires
            resources.status_library.map().contains_key(name@),
        ensures
            res == resources.status_library.map()[name@].trigger,
    {
        Self::get(name, resources).trigger.clone()
    }

    /// The shaders to draw for a unit's statuses, given by name with their
    /// charges, in order: one for each status that has a shader, carrying the
    /// status's colour and its index among them. Every name must be in the
    /// library.
    pub fn get_context_shaders(statuses: &Vec<(String, i32)>, resources: &Resources) -> (res: Vec<ContextShader>)
        requires
            statuses@.len() < i32::MAX,
            forall|i: int| 0 <= i < statuses@.len() ==> resources.status_library.map().contains_key(#[trigger] statuses@[i].0@),
        ensures
            res@.len() == shaders_of(statuses@, resources.status_library.map()).len(),
            forall|k: int| 0 <= k < res@.len() ==> {
                &&& (#[trigger] res@[k]).shader@ == shaders_of(statuses@, resources.status_library.map())[k].0
                &&& res@[k].color == shaders_of(statuses@, resources.status_library.map())[k].1
                &&& res@[k].index == k
            },
    {
        let ghost lib = resources.status_library.map();
        let mut res: Vec<ContextShader> = Vec::new();
        let mut i: usize = 0;
        while i < statuses.len()
            invariant
                i <= statuses@.len(),
                statuses@.len() < i32::MAX,
                lib == resources.status_library.map(),
                forall|j: int| 0 <= j < statuses@.len() ==> lib.contains_key(#[trigger] statuses@[j].0@),
                res@.len() == shaders_of(statuses@.subrange(0, i as int), lib).len(),
                forall|k: int| 0 <= k < res@.len() ==> {
                    &&& (#[trigger] res@[k]).shader@ == shaders_of(statuses@.subrange(0, i as int), lib)[k].0
                    &&& res@[k].color == shaders_of(statuses@.subrange(0, i as int), lib)[k].1
                    &&& res@[k].index == k
                },
            decreases statuses.len() - i,
        {
            proof {
                assert(statuses@.subrange(0, i as int + 1).drop_last() =~= statuses@.subrange(0, i as int));
                lemma_shaders_len(statuses@.subrange(0, i as int), lib);
            }
            let status = Self::get(statuses[i].0.as_str(), resources);
            match &status.shader {
                Some(sh) => {
                    let index = res.len() as i32;
                    res.push(ContextShader { shader: sh.clone(), color: status.color, index });
                },
                None => {},
            }
            i = i + 1;
        }
        assert(statuses@.subrange(0, statuses@.len() as int) =~= statuses@);
        res
    }

    /// Pairs each named status with its trigger, keeping its charges; every
    /// name must be in the library.
    pub fn add_triggers(statuses: Vec<(String, i32)>, resources: &Resources) -> (res: Vec<(String, (Trigger, i32))>)
        requires
            forall|i: int| 0 <= i < statuses@.len() ==> resources.status_library.map().contains_key(#[trigger] statuses@[i].0@),
        ensures
            res@.len() == statuses@.len(),
            forall|i: int| 0 <= i < statuses@.len() ==> {
                &&& (#[trigger] res@[i]).0 == statuses@[i].0
                &&& res@[i].1.0 == resources.status_library.map()[statuses@[i].0@].trigger
                &&& res@[i].1.1 == statuses@[i].1
            },
    {
        let mut res: Vec<(String, (Trigger, i32))> = Vec::new();
        let mut i: usize = 0;
        while i < statuses.len()
            invariant
                i <= statuses@.len(),
                res@.len() == i,
                forall|j: int| 0 <= j < statuses@.len() ==> resources.status_library.map().contains_key(#[trigger] statuses@[j].0@),
                forall|j: int| 0 <= j < i ==> {
                    &&& (#[trigger] res@[j]).0 == statuses@[j].0
                    &&& res@[j].1.0 == resources.status_library.map()[statuses@[j].0@].trigger
                    &&& res@[j].1.1 == statuses@[j].1
                },
            decreases statuses.len() - i,
        {
            let (name, charges) = &statuses[i];
            let trigger = Self::get_trigger(name.as_str(), resources);
            res.push((name.clone(), (trigger, *charges)));
            i = i + 1;
        }
        res
    }
}

/// Looking a status up right after it is registered gives the registered
/// status, and registering one status leaves every other name as it was
/// (see [`StatusLibrary::register`] and [`StatusLibrary::get`]).
pub proof fn law_get_after_register(lib: Map<Seq<char>, Status>, name: Seq<char>, status: Status, other: Seq<char>)
    ensures
        lib.insert(name, status).contains_key(name),
        lib.insert(name, status)[name] == status,
        other != name ==> lib.insert(name, status).contains_key(other) == lib.contains_key(other),
        other != name && lib.contains_key(other) ==> lib.insert(name, status)[other] == lib[other],
{
}

} // verus!
