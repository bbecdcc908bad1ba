//! The registry: known types, known build commands, and the cache of
//! parsed descriptions.

use vstd::prelude::*;

use std::sync::Arc;

use crate::grammar::ErrV;
use crate::grammar::spec_parse_prefab;
use crate::parse::LoadPrefabError;
use crate::parse::parse_prefab_string;
use crate::prefab::Prefab;
use crate::prefab::PrefabV;
use crate::strmap::StrMap;
use vstd::string::StringExecFns;

verus! {

/// The structural category of a registered type: it decides how the value
/// builder assembles field data for that type.
#[derive(Debug, Clone, Copy, PartialEq, Eq, Structural)]
pub enum ReflectType {
    Struct,
    TupleStruct,
    Tuple,
    List,
    Mapping,
    Value,
    Array,
    Enum,
}

/// What the registry knows of a registered type: its name and its shape.
#[derive(Debug)]
pub struct TypeInfo {
    pub ty_name: String,
    pub reflect_type: ReflectType,
}

/// A build command that a description can invoke by name.  The command owns
/// its registration key; the host implements this trait and applies the
/// command's effect outside this library.
pub trait BuildPrefabCommand {
    /// Returns the command's registration key.
    fn key(&self) -> String;
}

/// The external collaborator that supplies a description's raw text for a
/// logical name.  How the bytes are found (a file under an assets root, a
/// network fetch, a test stub) is the host's concern; the registry only
/// consumes the text.
pub trait PrefabSource {
    /// Returns the description text for the name, or a message saying why
    /// it could not be read.
    fn read_text(&mut self, name: &str) -> Result<String, String>;
}

/// Relies on std's `Arc::clone`: the returned handle is the same shared
/// allocation, an identical value.
#[verifier::external_body]
fn arc_clone(a: &Arc<Prefab>) -> (r: Arc<Prefab>)
    ensures
        r == *a,
{
    Arc::clone(a)
}

/// Manages prefab-related data: registered types, registered build
/// commands, and previously loaded descriptions keyed by name.
pub struct PrefabRegistry {
    type_data: StrMap<TypeInfo>,
    commands: StrMap<Box<dyn BuildPrefabCommand>>,
    prefabs: StrMap<Arc<Prefab>>,
}

impl PrefabRegistry {
    /// The three tables hold each key at most once, and a type's entry
    /// carries the name it is registered under.
    pub closed spec fn wf(self) -> bool {
        &&& self.type_data.wf()
        &&& self.commands.wf()
        &&& self.prefabs.wf()
        &&& forall|k: Seq<char>|
            #[trigger] self.type_data.as_map().contains_key(k)
                ==> self.type_data.as_map()[k].ty_name@ == k
    }

    /// The table of registered type names and their shapes.
    pub closed spec fn types(self) -> Map<Seq<char>, ReflectType> {
        Map::new(
            |k: Seq<char>| self.type_data.as_map().contains_key(k),
            |k: Seq<char>| self.type_data.as_map()[k].reflect_type,
        )
    }

    /// The table of registered build commands.
    pub closed spec fn commands_map(self) -> Map<Seq<char>, Box<dyn BuildPrefabCommand>> {
        self.commands.as_map()
    }

    /// The cache of loaded descriptions, by name.
    pub closed spec fn prefabs_map(self) -> Map<Seq<char>, Arc<Prefab>> {
        self.prefabs.as_map()
    }

    /// The cached descriptions' parsed forms, by name.
    pub closed spec fn prefabs(self) -> Map<Seq<char>, PrefabV> {
        Map::new(
            |k: Seq<char>| self.prefabs.as_map().contains_key(k),
            |k: Seq<char>| self.prefabs.as_map()[k]@,
        )
    }

    pub fn new() -> (r: Self)
        ensures
            r.wf(),
            r.types() == Map::<Seq<char>, ReflectType>::empty(),
            r.commands_map() == Map::<Seq<char>, Box<dyn BuildPrefabCommand>>::empty(),
            r.prefabs_map() == Map::<Seq<char>, Arc<Prefab>>::empty(),
    {
        let r = PrefabRegistry {
            type_data: StrMap::new(),
            commands: StrMap::new(),
            prefabs: StrMap::new(),
        };
        proof {
            assert(r.types() =~= Map::<Seq<char>, ReflectType>::empty());
        }
        r
    }

    /// Registers a type for use in a description, under the given name and
    /// with the given shape.  Registering a name again overwrites its entry.
    ///
    /// This must be called before any description referencing the type is
    /// parsed; there is no forward reference resolution.
    pub fn register_type(&mut self, name: String, reflect_type: ReflectType)
        requires
            old(self).wf(),
        ensures
            final(self).wf(),
            final(self).types() == old(self).types().insert(name@, reflect_type),
            final(self).commands_map() == old(self).commands_map(),
            final(self).prefabs_map() == old(self).prefabs_map(),
    {
        let info = TypeInfo { ty_name: name.clone(), reflect_type };
        self.type_data.insert(name, info);
        proof {
            assert(self.types() =~= old(self).types().insert(name@, reflect_type));
        }
    }

    /// Registers a build command under its own declared key (the key is
    /// the handler's to choose, not the caller's).  Registering a command
    /// with the same key again overwrites the entry.
    pub fn register_build_command(&mut self, command: Box<dyn BuildPrefabCommand>)
        requires
            old(self).wf(),
        ensures
            final(self).wf(),
            exists|k: Seq<char>|
                final(self).commands_map() == #[trigger] old(self).commands_map().insert(
                    k,
                    command,
                ),
            final(self).types() == old(self).types(),
            final(self).prefabs_map() == old(self).prefabs_map(),
    {
        let key = command.key();
        let ghost k = key@;
        self.commands.insert(key, command);
        proof {
            assert(self.commands_map() == old(self).commands_map().insert(k, command));
        }
    }

    /// Looks up a registered build command by name.
    pub fn get_build_command(&self, name: &str) -> (r: Option<&Box<dyn BuildPrefabCommand>>)
        requires
            self.wf(),
        ensures
            match r {
                Some(c) => self.commands_map().contains_key(name@) && *c
                    == self.commands_map()[name@],
                None => !self.commands_map().contains_key(name@),
            },
    {
        self.commands.get(name)
    }

    /// Looks up a registered type by name.
    pub fn get_type_data(&self, name: &str) -> (r: Option<&TypeInfo>)
        requires
            self.wf(),
        ensures
            match r {
                Some(info) => self.types().contains_key(name@) && info.reflect_type
                    == self.types()[name@] && info.ty_name@ == name@,
                None => !self.types().contains_key(name@),
            },
    {
        self.type_data.get(name)
    }

    /// Loads the description of the given name: the cached instance when
    /// one is present, otherwise the text the source supplies is parsed,
    /// cached and returned.  A name's text is read and parsed at most once
    /// for the registry's lifetime, unless the entry is unloaded; a failed
    /// load caches nothing, so a later call starts over.
    pub fn load<S: PrefabSource>(&mut self, name: &str, source: &mut S) -> (r: Result<
        Arc<Prefab>,
        LoadPrefabError,
    >)
        requires
            old(self).wf(),
        ensures
            final(self).wf(),
            final(self).types() == old(self).types(),
            final(self).commands_map() == old(self).commands_map(),
            old(self).prefabs_map().contains_key(name@) ==> {
                &&& (r matches Ok(p) && p == old(self).prefabs_map()[name@])
                &&& final(self).prefabs_map() == old(self).prefabs_map()
            },
            !old(self).prefabs_map().contains_key(name@) ==> match r {
                Ok(p) => {
                    &&& final(self).prefabs_map() == old(self).prefabs_map().insert(name@, p)
                    &&& exists|text: Seq<char>|
                        spec_parse_prefab(text, old(self).types()) == Ok::<PrefabV, ErrV>(p@)
                },
                Err(e) => {
                    &&& final(self).prefabs_map() == old(self).prefabs_map()
                    &&& ((e@ matches ErrV::FileReadError(_)) || exists|text: Seq<char>|
                        spec_parse_prefab(text, old(self).types()) == Err::<PrefabV, ErrV>(e@))
                },
            },
    {
        if let Some(p) = self.prefabs.get(name) {
            return Ok(arc_clone(p));
        }
        let text = match source.read_text(name) {
            Ok(t) => t,
            Err(msg) => {
                return Err(LoadPrefabError::FileReadError(msg));
            },
        };
        match parse_prefab_string(text.as_str(), self) {
            Ok(prefab) => {
                let ghost textv = text@;
                let arc = Arc::new(prefab);
                let shared = arc_clone(&arc);
                self.prefabs.insert(String::from_str(name), arc);
                proof {
                    assert(spec_parse_prefab(textv, old(self).types()) == Ok::<PrefabV, ErrV>(
                        shared@,
                    ));
                }
                Ok(shared)
            },
            Err(e) => {
                proof {
                    assert(spec_parse_prefab(text@, old(self).types()) == Err::<PrefabV, ErrV>(
                        e@,
                    ));
                }
                Err(e)
            },
        }
    }

    /// Removes a cached description from the registry; the next load of
    /// that name reads and parses its source again.
    pub fn unload_prefab(&mut self, name: &str)
        requires
            old(self).wf(),
        ensures
            final(self).wf(),
            final(self).prefabs_map() == old(self).prefabs_map().remove(name@),
            final(self).types() == old(self).types(),
            final(self).commands_map() == old(self).commands_map(),
    {
        self.prefabs.remove(name);
    }
}

} // verus!
