//! Runtime configuration: asset locations, layer filters, validation switches
//! and IntGrid collision rules.

use vstd::prelude::*;

use crate::entities::clone_opt_string;
use crate::keyed_map::KeyedSet;
use crate::text::{str_eq, to_owned_string};

verus! {

/// A rule mapping an IntGrid value (optionally on one layer only) to
/// collision behaviour, taking precedence over the solid-value set.
#[derive(Debug, PartialEq, Eq)]
pub struct LdtkCollisionRule {
    /// When `Some`, the rule only applies to the named layer.
    pub layer_identifier: Option<String>,
    /// The IntGrid value this rule matches.
    pub value: i32,
    /// Matching cells are solid colliders.
    pub solid: bool,
    /// Matching cells are sensors.
    pub sensor: bool,
    /// Tag recorded on matching sensor cells.
    pub tag: Option<String>,
}

impl Clone for LdtkCollisionRule {
    fn clone(&self) -> (r: Self)
        ensures
            r == *self,
    {
        LdtkCollisionRule {
            layer_identifier: clone_opt_string(&self.layer_identifier),
            value: self.value,
            solid: self.solid,
            sensor: self.sensor,
            tag: clone_opt_string(&self.tag),
        }
    }
}

impl Default for LdtkCollisionRule {
    fn default() -> (r: Self)
        ensures
            r.layer_identifier is None,
            r.value == 0,
            !r.solid,
            !r.sensor,
            r.tag is None,
    {
        LdtkCollisionRule { layer_identifier: None, value: 0, solid: false, sensor: false, tag: None }
    }
}

impl LdtkCollisionRule {
    /// A rule marking `value` as solid on any layer.
    pub fn solid(value: i32) -> (r: Self)
        ensures
            r.layer_identifier is None,
            r.value == value,
            r.solid,
            !r.sensor,
            r.tag is None,
    {
        LdtkCollisionRule { layer_identifier: None, value, solid: true, sensor: false, tag: None }
    }

    /// A rule marking `value` as a sensor with `tag` on any layer.
    pub fn sensor(value: i32, tag: &str) -> (r: Self)
        ensures
            r.layer_identifier is None,
            r.value == value,
            !r.solid,
            r.sensor,
            r.tag is Some && r.tag->0@ == tag@,
    {
        LdtkCollisionRule {
            layer_identifier: None,
            value,
            solid: false,
            sensor: true,
            tag: Some(to_owned_string(tag)),
        }
    }

    /// The same rule, limited to one layer.
    pub fn for_layer(self, layer_identifier: &str) -> (r: Self)
        ensures
            r.layer_identifier is Some && r.layer_identifier->0@ == layer_identifier@,
            r.value == self.value,
            r.solid == self.solid,
            r.sensor == self.sensor,
            r.tag == self.tag,
    {
        LdtkCollisionRule { layer_identifier: Some(to_owned_string(layer_identifier)), ..self }
    }
}

/// Configuration of the LDtk integration.
#[derive(Debug)]
pub struct LdtkConfig {
    /// Root directory asset paths are resolved against (e.g. `"assets"`).
    pub asset_root: String,
    /// Asset-relative path of the world file to load on startup, if any.
    pub world_asset_path: Option<String>,
    /// External `.ldtkl` level files are read into the catalog.
    pub catalog_external_levels: bool,
    /// Levels adjacent to the active level are loaded proactively.
    pub load_level_neighbors: bool,
    /// IntGrid values that are solid when no rule matches.
    pub int_grid_solid_values: KeyedSet<i32>,
    /// Collision rules; the first matching rule wins.
    pub collision_rules: Vec<LdtkCollisionRule>,
    /// When non-empty, only these layers are processed.
    pub include_layers: KeyedSet<String>,
    /// These layers are skipped even when included.
    pub exclude_layers: KeyedSet<String>,
    /// Validate the catalog after loading.
    pub validate_on_load: bool,
    /// Validation issues are errors instead of warnings.
    pub strict_validation: bool,
    /// Report entities that have no registered spawner.
    pub warn_on_unregistered_entities: bool,
}

impl Clone for LdtkConfig {
    fn clone(&self) -> (c: Self)
        ensures
            c.asset_root == self.asset_root,
            c.world_asset_path == self.world_asset_path,
            c.catalog_external_levels == self.catalog_external_levels,
            c.load_level_neighbors == self.load_level_neighbors,
            c.int_grid_solid_values@ == self.int_grid_solid_values@,
            c.collision_rules@ == self.collision_rules@,
            c.include_layers@ == self.include_layers@,
            c.exclude_layers@ == self.exclude_layers@,
            c.validate_on_load == self.validate_on_load,
            c.strict_validation == self.strict_validation,
            c.warn_on_unregistered_entities == self.warn_on_unregistered_entities,
    {
        let mut rules: Vec<LdtkCollisionRule> = Vec::new();
        let mut i: usize = 0;
        while i < self.collision_rules.len()
            invariant
                i <= self.collision_rules@.len(),
                rules@ == self.collision_rules@.take(i as int),
            decreases self.collision_rules@.len() - i,
        {
            rules.push(self.collision_rules[i].clone());
            i = i + 1;
            proof {
                assert(rules@ =~= self.collision_rules@.take(i as int));
            }
        }
        proof {
            assert(rules@ =~= self.collision_rules@);
        }
        LdtkConfig {
            asset_root: self.asset_root.clone(),
            world_asset_path: clone_opt_string(&self.world_asset_path),
            catalog_external_levels: self.catalog_external_levels,
            load_level_neighbors: self.load_level_neighbors,
            int_grid_solid_values: self.int_grid_solid_values.clone(),
            collision_rules: rules,
            include_layers: self.include_layers.clone(),
            exclude_layers: self.exclude_layers.clone(),
            validate_on_load: self.validate_on_load,
            strict_validation: self.strict_validation,
            warn_on_unregistered_entities: self.warn_on_unregistered_entities,
        }
    }
}

impl Default for LdtkConfig {
    fn default() -> (c: Self)
        ensures
            c.asset_root@ == "assets"@,
            c.world_asset_path is None,
            c.catalog_external_levels,
            c.load_level_neighbors,
            c.int_grid_solid_values@ == Set::<i32>::empty(),
            c.collision_rules@.len() == 0,
            c.include_layers@ == Set::<Seq<char>>::empty(),
            c.exclude_layers@ == Set::<Seq<char>>::empty(),
            c.validate_on_load,
            !c.strict_validation,
            c.warn_on_unregistered_entities,
    {
        LdtkConfig {
            asset_root: to_owned_string("assets"),
            world_asset_path: None,
            catalog_external_levels: true,
            load_level_neighbors: true,
            int_grid_solid_values: KeyedSet::new(),
            collision_rules: Vec::new(),
            include_layers: KeyedSet::new(),
            exclude_layers: KeyedSet::new(),
            validate_on_load: true,
            strict_validation: false,
            warn_on_unregistered_entities: true,
        }
    }
}

/// The views of a list of string slices.
pub open spec fn str_views(v: Seq<&str>) -> Set<Seq<char>> {
    Set::new(|s: Seq<char>| exists|i: int| 0 <= i < v.len() && (#[trigger] v[i])@ == s)
}

/// `layer` passes the include/exclude filter: included (or no include list)
/// and not excluded.
pub open spec fn layer_passes(c: LdtkConfig, layer: Seq<char>) -> bool {
    (c.include_layers@.len() == 0 || c.include_layers@.contains(layer))
        && !c.exclude_layers@.contains(layer)
}

/// Builds a set from string slices.
fn string_set(items: &[&str]) -> (s: KeyedSet<String>)
    ensures
        s@ == str_views(items@),
{
    let mut s: KeyedSet<String> = KeyedSet::new();
    let mut i: usize = 0;
    while i < items.len()
        invariant
            i <= items@.len(),
            s@ == str_views(items@.take(i as int)),
        decreases items@.len() - i,
    {
        s.insert(to_owned_string(items[i]));
        i = i + 1;
        proof {
            assert forall|x: Seq<char>| s@.contains(x) <==> str_views(items@.take(i as int)).contains(
                x,
            ) by {
                if str_views(items@.take(i as int)).contains(x) {
                    let k = choose|k: int|
                        0 <= k < items@.take(i as int).len() && (#[trigger] items@.take(
                            i as int,
                        )[k])@ == x;
                    if k < i - 1 {
                        assert(items@.take(i - 1)[k] == items@.take(i as int)[k]);
                    }
                }
                if s@.contains(x) && x != items@[i - 1]@ {
                    let k = choose|k: int|
                        0 <= k < items@.take(i - 1).len() && (#[trigger] items@.take(i - 1)[k])@
                            == x;
                    assert(items@.take(i as int)[k] == items@.take(i - 1)[k]);
                }
                if x == items@[i - 1]@ {
                    assert(items@.take(i as int)[i - 1] == items@[i - 1]);
                }
            }
            assert(s@ =~= str_views(items@.take(i as int)));
        }
    }
    proof {
        assert(items@.take(items@.len() as int) =~= items@);
    }
    s
}

impl LdtkConfig {
    /// Sets the world file to load on startup.
    pub fn with_world_asset_path(self, path: &str) -> (c: Self)
        ensures
            c.world_asset_path is Some && c.world_asset_path->0@ == path@,
            c.asset_root == self.asset_root,
            c.catalog_external_levels == self.catalog_external_levels,
            c.load_level_neighbors == self.load_level_neighbors,
            c.int_grid_solid_values == self.int_grid_solid_values,
            c.collision_rules == self.collision_rules,
            c.include_layers == self.include_layers,
            c.exclude_layers == self.exclude_layers,
            c.validate_on_load == self.validate_on_load,
            c.strict_validation == self.strict_validation,
            c.warn_on_unregistered_entities == self.warn_on_unregistered_entities,
    {
        LdtkConfig { world_asset_path: Some(to_owned_string(path)), ..self }
    }

    /// Sets the asset root.
    pub fn with_asset_root(self, path: &str) -> (c: Self)
        ensures
            c.asset_root@ == path@,
            c.world_asset_path == self.world_asset_path,
            c.catalog_external_levels == self.catalog_external_levels,
            c.load_level_neighbors == self.load_level_neighbors,
            c.int_grid_solid_values == self.int_grid_solid_values,
            c.collision_rules == self.collision_rules,
            c.include_layers == self.include_layers,
            c.exclude_layers == self.exclude_layers,
            c.validate_on_load == self.validate_on_load,
            c.strict_validation == self.strict_validation,
            c.warn_on_unregistered_entities == self.warn_on_unregistered_entities,
    {
        LdtkConfig { asset_root: to_owned_string(path), ..self }
    }

    /// Turns off reading external level files into the catalog.
    pub fn without_external_level_catalog(self) -> (c: Self)
        ensures
            !c.catalog_external_levels,
            c.asset_root == self.asset_root,
            c.world_asset_path == self.world_asset_path,
            c.load_level_neighbors == self.load_level_neighbors,
            c.int_grid_solid_values == self.int_grid_solid_values,
            c.collision_rules == self.collision_rules,
            c.include_layers == self.include_layers,
            c.exclude_layers == self.exclude_layers,
            c.validate_on_load == self.validate_on_load,
            c.strict_validation == self.strict_validation,
            c.warn_on_unregistered_entities == self.warn_on_unregistered_entities,
    {
        LdtkConfig { catalog_external_levels: false, ..self }
    }

    /// Replaces the solid IntGrid values.
    pub fn with_solid_int_grid_values(self, values: &[i32]) -> (c: Self)
        ensures
            c.int_grid_solid_values@ == values@.to_set(),
            c.asset_root == self.asset_root,
            c.world_asset_path == self.world_asset_path,
            c.catalog_external_levels == self.catalog_external_levels,
            c.load_level_neighbors == self.load_level_neighbors,
            c.collision_rules == self.collision_rules,
            c.include_layers == self.include_layers,
            c.exclude_layers == self.exclude_layers,
            c.validate_on_load == self.validate_on_load,
            c.strict_validation == self.strict_validation,
            c.warn_on_unregistered_entities == self.warn_on_unregistered_entities,
    {
        let mut set: KeyedSet<i32> = KeyedSet::new();
        let mut i: usize = 0;
        while i < values.len()
            invariant
                i <= values@.len(),
                set@ == values@.take(i as int).to_set(),
            decreases values@.len() - i,
        {
            set.insert(values[i]);
            i = i + 1;
            proof {
                let prev = values@.take(i - 1);
                let cur = values@.take(i as int);
                assert(cur =~= prev.push(values@[i - 1]));
                assert forall|x: i32| set@.contains(x) <==> cur.contains(x) by {
                    if cur.contains(x) {
                        let j = choose|j: int| 0 <= j < cur.len() && cur[j] == x;
                        if j < i - 1 {
                            assert(prev[j] == x);
                            assert(prev.contains(x));
                        }
                    }
                    if set@.contains(x) && x != values@[i - 1] {
                        assert(prev.contains(x));
                        let j = choose|j: int| 0 <= j < prev.len() && prev[j] == x;
                        assert(cur[j] == x);
                    }
                    if x == values@[i - 1] {
                        assert(cur[i - 1] == x);
                    }
                }
                assert(set@ =~= values@.take(i as int).to_set());
            }
        }
        proof {
            assert(values@.take(values@.len() as int) =~= values@);
        }
        LdtkConfig { int_grid_solid_values: set, ..self }
    }

    /// Replaces the collision rules.
    pub fn with_collision_rules(self, rules: Vec<LdtkCollisionRule>) -> (c: Self)
        ensures
            c.collision_rules == rules,
            c.asset_root == self.asset_root,
            c.world_asset_path == self.world_asset_path,
            c.catalog_external_levels == self.catalog_external_levels,
            c.load_level_neighbors == self.load_level_neighbors,
            c.int_grid_solid_values == self.int_grid_solid_values,
            c.include_layers == self.include_layers,
            c.exclude_layers == self.exclude_layers,
            c.validate_on_load == self.validate_on_load,
            c.strict_validation == self.strict_validation,
            c.warn_on_unregistered_entities == self.warn_on_unregistered_entities,
    {
        LdtkConfig { collision_rules: rules, ..self }
    }

    /// Sets the layer allow-list.
    pub fn include_layers(self, layers: &[&str]) -> (c: Self)
        ensures
            c.include_layers@ == str_views(layers@),
            c.asset_root == self.asset_root,
            c.world_asset_path == self.world_asset_path,
            c.catalog_external_levels == self.catalog_external_levels,
            c.load_level_neighbors == self.load_level_neighbors,
            c.int_grid_solid_values == self.int_grid_solid_values,
            c.collision_rules == self.collision_rules,
            c.exclude_layers == self.exclude_layers,
            c.validate_on_load == self.validate_on_load,
            c.strict_validation == self.strict_validation,
            c.warn_on_unregistered_entities == self.warn_on_unregistered_entities,
    {
        LdtkConfig { include_layers: string_set(layers), ..self }
    }

    /// Sets the layer deny-list.
    pub fn exclude_layers(self, layers: &[&str]) -> (c: Self)
        ensures
            c.exclude_layers@ == str_views(layers@),
            c.asset_root == self.asset_root,
            c.world_asset_path == self.world_asset_path,
            c.catalog_external_levels == self.catalog_external_levels,
            c.load_level_neighbors == self.load_level_neighbors,
            c.int_grid_solid_values == self.int_grid_solid_values,
            c.collision_rules == self.collision_rules,
            c.include_layers == self.include_layers,
            c.validate_on_load == self.validate_on_load,
            c.strict_validation == self.strict_validation,
            c.warn_on_unregistered_entities == self.warn_on_unregistered_entities,
    {
        LdtkConfig { exclude_layers: string_set(layers), ..self }
    }

    /// Turns off validation after loading.
    pub fn without_validation(self) -> (c: Self)
        ensures
            !c.validate_on_load,
            c.asset_root == self.asset_root,
            c.world_asset_path == self.world_asset_path,
            c.catalog_external_levels == self.catalog_external_levels,
            c.load_level_neighbors == self.load_level_neighbors,
            c.int_grid_solid_values == self.int_grid_solid_values,
            c.collision_rules == self.collision_rules,
            c.include_layers == self.include_layers,
            c.exclude_layers == self.exclude_layers,
            c.strict_validation == self.strict_validation,
            c.warn_on_unregistered_entities == self.warn_on_unregistered_entities,
    {
        LdtkConfig { validate_on_load: false, ..self }
    }

    /// Stops reporting entities without a registered spawner.
    pub fn without_unregistered_entity_warnings(self) -> (c: Self)
        ensures
            !c.warn_on_unregistered_entities,
            c.asset_root == self.asset_root,
            c.world_asset_path == self.world_asset_path,
            c.catalog_external_levels == self.catalog_external_levels,
            c.load_level_neighbors == self.load_level_neighbors,
            c.int_grid_solid_values == self.int_grid_solid_values,
            c.collision_rules == self.collision_rules,
            c.include_layers == self.include_layers,
            c.exclude_layers == self.exclude_layers,
            c.validate_on_load == self.validate_on_load,
            c.strict_validation == self.strict_validation,
    {
        LdtkConfig { warn_on_unregistered_entities: false, ..self }
    }

    /// Makes validation issues errors instead of warnings.
    pub fn with_strict_validation(self) -> (c: Self)
        ensures
            c.strict_validation,
            c.asset_root == self.asset_root,
            c.world_asset_path == self.world_asset_path,
            c.catalog_external_levels == self.catalog_external_levels,
            c.load_level_neighbors == self.load_level_neighbors,
            c.int_grid_solid_values == self.int_grid_solid_values,
            c.collision_rules == self.collision_rules,
            c.include_layers == self.include_layers,
            c.exclude_layers == self.exclude_layers,
            c.validate_on_load == self.validate_on_load,
            c.warn_on_unregistered_entities == self.warn_on_unregistered_entities,
    {
        LdtkConfig { strict_validation: true, ..self }
    }

    /// `true` when `layer_identifier` passes the include/exclude filter.
    pub fn should_include_layer(&self, layer_identifier: &str) -> (b: bool)
        ensures
            b == layer_passes(*self, layer_identifier@),
    {
        let key = to_owned_string(layer_identifier);
        let n = self.include_layers.len();

        (n == 0 || self.include_layers.contains(&key)) && !self.exclude_layers.contains(&key)
    }
}

/// An excluded layer is never included, whatever the allow-list says.
pub proof fn lemma_exclusion_wins(c: LdtkConfig, layer: Seq<char>)
    requires
        c.exclude_layers@.contains(layer),
    ensures
        !layer_passes(c, layer),
{
}

/// With no allow-list, a layer passes exactly when it is not excluded.
pub proof fn lemma_empty_allow_list_admits_all(c: LdtkConfig, layer: Seq<char>)
    requires
        c.include_layers@.len() == 0,
    ensures
        layer_passes(c, layer) == !c.exclude_layers@.contains(layer),
{
}

/// `rule` applies to an IntGrid `value` on layer `layer`.
pub open spec fn rule_matches(rule: LdtkCollisionRule, layer: Seq<char>, value: i32) -> bool {
    rule.value == value && match rule.layer_identifier {
        Some(l) => l@ == layer,
        None => true,
    }
}

/// Index of the first rule in `rules` that applies.
pub open spec fn first_matching_rule(rules: Seq<LdtkCollisionRule>, layer: Seq<char>, value: i32) -> Option<int>
    decreases rules.len(),
{
    if rules.len() == 0 {
        None
    } else if rule_matches(rules[0], layer, value) {
        Some(0)
    } else {
        match first_matching_rule(rules.drop_first(), layer, value) {
            Some(i) => Some(i + 1),
            None => None,
        }
    }
}

/// Whether `value` is solid when no rule applies: any non-zero value when the
/// solid set is empty, otherwise the members of the set.
pub open spec fn default_solid(solid_values: Set<i32>, value: i32) -> bool {
    if solid_values.len() == 0 {
        value != 0
    } else {
        solid_values.contains(value)
    }
}

/// The collision behaviour of IntGrid `value` on layer `layer_identifier`:
/// the first applicable rule, or else a rule for exactly this layer and value
/// that is solid by the solid-value set and never a sensor.
pub fn resolve_collision_rule(config: &LdtkConfig, layer_identifier: &str, value: i32) -> (r:
    LdtkCollisionRule)
    ensures
        match first_matching_rule(config.collision_rules@, layer_identifier@, value) {
            Some(i) => r == config.collision_rules@[i],
            None => {
                &&& r.layer_identifier is Some
                &&& r.layer_identifier->0@ == layer_identifier@
                &&& r.value == value
                &&& r.solid == default_solid(config.int_grid_solid_values@, value)
                &&& !r.sensor
                &&& r.tag is None
            },
        },
{
    let rules = &config.collision_rules;
    let n = rules.len();
    let mut i: usize = 0;
    proof {
        assert(rules@.subrange(0, n as int) =~= rules@);
    }
    while i < n
        invariant
            n == rules@.len(),
            rules@ == config.collision_rules@,
            i <= n,
            first_matching_rule(rules@, layer_identifier@, value) == (match first_matching_rule(
                rules@.subrange(i as int, n as int),
                layer_identifier@,
                value,
            ) {
                Some(j) => Some(j + i),
                None => None,
            }),
        decreases n - i,
    {
        let rule = &rules[i];
        let layer_ok = match &rule.layer_identifier {
            Some(l) => str_eq(l.as_str(), layer_identifier),
            None => true,
        };
        proof {
            let t = rules@.subrange(i as int, n as int);
            assert(t[0] == rules@[i as int]);
            assert(t.drop_first() =~= rules@.subrange(i + 1, n as int));
        }
        if rule.value == value && layer_ok {
            proof {
                let t = rules@.subrange(i as int, n as int);
                assert(rule_matches(t[0], layer_identifier@, value));
                assert(first_matching_rule(t, layer_identifier@, value) == Some(0int));
            }
            let r = rule.clone();
            assert(r == rules@[i as int]);
            return r;
        }
        i = i + 1;
    }
    let count = config.int_grid_solid_values.len();
    let solid = if count == 0 {
        value != 0
    } else {
        config.int_grid_solid_values.contains(&value)
    };
    proof {
        assert(rules@.subrange(n as int, n as int).len() == 0);
    }
    LdtkCollisionRule {
        layer_identifier: Some(to_owned_string(layer_identifier)),
        value,
        solid,
        sensor: false,
        tag: None,
    }
}

} // verus!
