//! Registration of entity spawners and their resolution by layer and entity
//! identifier.
//!
//! The registry is generic over the spawner it stores, so that the engine side
//! can keep whatever callable it runs while the matching rules live here.

use vstd::prelude::*;

use crate::entities::clone_opt_string;
use crate::keyed_map::{KeyedMap, LookupKey};
use crate::text::{str_eq, to_owned_string};

verus! {

/// Key of a registered spawner: an optional layer and an optional entity
/// identifier (`None` matches any).
#[derive(Debug, PartialEq, Eq, Hash)]
pub struct LdtkEntityRegistryKey {
    /// When `Some`, the spawner only applies to this layer.
    pub layer_identifier: Option<String>,
    /// When `Some`, the spawner only applies to this entity definition;
    /// `None` is a fallback.
    pub entity_identifier: Option<String>,
}

/// An optional string as an optional character sequence.
pub open spec fn opt_view(o: Option<String>) -> Option<Seq<char>> {
    match o {
        Some(s) => Some(s@),
        None => None,
    }
}

/// An optional string slice as an optional character sequence.
pub open spec fn opt_str_view(o: Option<&str>) -> Option<Seq<char>> {
    match o {
        Some(s) => Some(s@),
        None => None,
    }
}

pub type RegistryKeyView = (Option<Seq<char>>, Option<Seq<char>>);

impl View for LdtkEntityRegistryKey {
    type V = RegistryKeyView;

    open spec fn view(&self) -> RegistryKeyView {
        (opt_view(self.layer_identifier), opt_view(self.entity_identifier))
    }
}

fn opt_string_eq(a: &Option<String>, b: &Option<String>) -> (r: bool)
    ensures
        r == (opt_view(*a) == opt_view(*b)),
{
    match (a, b) {
        (Some(x), Some(y)) => str_eq(x.as_str(), y.as_str()),
        (None, None) => true,
        _ => false,
    }
}

impl LookupKey for LdtkEntityRegistryKey {
    fn key_eq(&self, other: &Self) -> (b: bool) {
        opt_string_eq(&self.layer_identifier, &other.layer_identifier) && opt_string_eq(
            &self.entity_identifier,
            &other.entity_identifier,
        )
    }

    fn key_clone(&self) -> (c: Self) {
        LdtkEntityRegistryKey {
            layer_identifier: clone_opt_string(&self.layer_identifier),
            entity_identifier: clone_opt_string(&self.entity_identifier),
        }
    }
}

/// The key a lookup for `entity` on `layer` settles on: exact (layer and
/// entity), then entity only, then layer only, then the global fallback.
pub open spec fn resolved_key<S>(
    m: Map<RegistryKeyView, S>,
    layer: Option<Seq<char>>,
    entity: Seq<char>,
) -> Option<RegistryKeyView> {
    if m.contains_key((layer, Some(entity))) {
        Some((layer, Some(entity)))
    } else if m.contains_key((None, Some(entity))) {
        Some((None, Some(entity)))
    } else if layer is Some && m.contains_key((layer, None)) {
        Some((layer, None))
    } else if m.contains_key((None, None)) {
        Some((None, None))
    } else {
        None
    }
}

/// Spawners keyed by layer and entity identifier.
#[derive(Debug)]
pub struct LdtkEntityRegistry<S> {
    /// Registered spawners.
    pub spawners: KeyedMap<LdtkEntityRegistryKey, S>,
}

impl<S> LdtkEntityRegistry<S> {
    /// An empty registry.
    pub fn new() -> (r: Self)
        ensures
            r.spawners@ == Map::<RegistryKeyView, S>::empty(),
    {
        LdtkEntityRegistry { spawners: KeyedMap::new() }
    }

    /// Registers `spawner` under optional layer and entity identifiers,
    /// replacing an earlier registration under the same key.
    pub fn register_spawner_for_layer_optional(
        &mut self,
        layer_identifier: Option<String>,
        entity_identifier: Option<String>,
        spawner: S,
    )
        ensures
            final(self).spawners@ == old(self).spawners@.insert(
                (opt_view(layer_identifier), opt_view(entity_identifier)),
                spawner,
            ),
    {
        self.spawners.insert(LdtkEntityRegistryKey { layer_identifier, entity_identifier }, spawner);
    }

    /// Registers `spawner` for entity `identifier` on any layer.
    pub fn register_spawner(&mut self, identifier: &str, spawner: S)
        ensures
            final(self).spawners@ == old(self).spawners@.insert((None, Some(identifier@)), spawner),
    {
        self.register_spawner_for_layer_optional(None, Some(to_owned_string(identifier)), spawner);
    }

    /// Registers `spawner` for entity `entity_identifier` on layer
    /// `layer_identifier` only.
    pub fn register_spawner_for_layer(
        &mut self,
        layer_identifier: &str,
        entity_identifier: &str,
        spawner: S,
    )
        ensures
            final(self).spawners@ == old(self).spawners@.insert(
                (Some(layer_identifier@), Some(entity_identifier@)),
                spawner,
            ),
    {
        self.register_spawner_for_layer_optional(
            Some(to_owned_string(layer_identifier)),
            Some(to_owned_string(entity_identifier)),
            spawner,
        );
    }

    /// Finds the spawner for an entity instance: exact (layer and entity) over
    /// entity-only over layer-only over the global fallback. `None` when
    /// nothing applies.
    pub fn resolve(&self, layer_identifier: Option<&str>, entity_identifier: &str) -> (r: Option<&S>)
        ensures
            match resolved_key(self.spawners@, opt_str_view(layer_identifier), entity_identifier@) {
                Some(k) => r is Some && *r->0 == self.spawners@[k],
                None => r is None,
            },
    {
        let layer: Option<String> = match layer_identifier {
            Some(l) => Some(to_owned_string(l)),
            None => None,
        };
        let exact = LdtkEntityRegistryKey {
            layer_identifier: clone_opt_string(&layer),
            entity_identifier: Some(to_owned_string(entity_identifier)),
        };
        if let Some(s) = self.spawners.get(&exact) {
            return Some(s);
        }
        let entity_only = LdtkEntityRegistryKey {
            layer_identifier: None,
            entity_identifier: Some(to_owned_string(entity_identifier)),
        };
        if let Some(s) = self.spawners.get(&entity_only) {
            return Some(s);
        }
        if layer.is_some() {
            let layer_only = LdtkEntityRegistryKey { layer_identifier: layer, entity_identifier: None };
            if let Some(s) = self.spawners.get(&layer_only) {
                return Some(s);
            }
        }
        let fallback = LdtkEntityRegistryKey { layer_identifier: None, entity_identifier: None };
        self.spawners.get(&fallback)
    }
}

impl<S> Default for LdtkEntityRegistry<S> {
    fn default() -> (r: Self)
        ensures
            r.spawners@ == Map::<RegistryKeyView, S>::empty(),
    {
        LdtkEntityRegistry::new()
    }
}

/// A spawner registered for an entity on any layer is the one found for that
/// entity on a layer, unless a spawner for exactly that layer and entity is
/// registered too.
pub proof fn lemma_entity_registration_is_found<S>(
    m: Map<RegistryKeyView, S>,
    entity: Seq<char>,
    spawner: S,
    layer: Option<Seq<char>>,
)
    requires
        layer is None || !m.contains_key((layer, Some(entity))),
    ensures
        resolved_key(m.insert((None, Some(entity)), spawner), layer, entity) == Some(
            (None::<Seq<char>>, Some(entity)),
        ),
        m.insert((None, Some(entity)), spawner)[(None, Some(entity))] == spawner,
{
}

/// An exact registration for a layer and entity wins over every other.
pub proof fn lemma_exact_registration_wins<S>(
    m: Map<RegistryKeyView, S>,
    layer: Seq<char>,
    entity: Seq<char>,
    spawner: S,
)
    ensures
        resolved_key(m.insert((Some(layer), Some(entity)), spawner), Some(layer), entity) == Some(
            (Some(layer), Some(entity)),
        ),
{
}

/// With nothing registered, nothing is found.
pub proof fn lemma_empty_registry_resolves_nothing<S>(layer: Option<Seq<char>>, entity: Seq<char>)
    ensures
        resolved_key(Map::<RegistryKeyView, S>::empty(), layer, entity) is None,
{
}

} // verus!
