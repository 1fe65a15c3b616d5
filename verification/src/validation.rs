//! Catalog validation: cross-checks the built catalog against the entity
//! registry and the configuration and collects issues into a report.
//! Severity (warning or, under strict validation, error) is decided by
//! `LdtkValidationReport::push` alone.

use vstd::prelude::*;

use crate::catalog::{LdtkLayerInfo, LdtkLevelInfo, LdtkMapCatalog};
use crate::config::LdtkConfig;
use crate::entities::LdtkImportedEntity;
use crate::registry::{opt_view, resolved_key, LdtkEntityRegistry, RegistryKeyView};
use crate::state::{LdtkValidationIssue, LdtkValidationReport};
use crate::text::to_owned_string;

verus! {

/// An issue as plain text: code and message.
pub type IssueView = (Seq<char>, Seq<char>);

pub open spec fn issue_view(i: LdtkValidationIssue) -> IssueView {
    (i.code@, i.message@)
}

pub open spec fn issue_views(s: Seq<LdtkValidationIssue>) -> Seq<IssueView> {
    s.map_values(|i: LdtkValidationIssue| issue_view(i))
}

/// `prefix`, then `name`, then `suffix`.
pub(crate) fn message3(prefix: &str, name: &str, suffix: &str) -> (m: String)
    ensures
        m@ == prefix@ + name@ + suffix@,
{
    let mut m = to_owned_string(prefix);
    m.append(name);
    m.append(suffix);
    m
}

/// `p`, `a`, `mid`, `b`, `suffix`, in that order.
pub(crate) fn message5(p: &str, a: &str, mid: &str, b: &str, suffix: &str) -> (m: String)
    ensures
        m@ == p@ + a@ + mid@ + b@ + suffix@,
{
    let mut m = to_owned_string(p);
    m.append(a);
    m.append(mid);
    m.append(b);
    m.append(suffix);
    m
}

pub open spec fn external_issue(level: LdtkLevelInfo) -> IssueView {
    (
        "external_level_not_cataloged"@,
        "Level '"@ + level.identifier@
            + "' references an external .ldtkl file. bevy_ecs_ldtk can load it, but this metadata catalog only sees embedded layer data."@,
    )
}

pub open spec fn external_unsupported_issue(level: LdtkLevelInfo) -> IssueView {
    (
        "external_level_wasm_unsupported"@,
        "Level '"@ + level.identifier@
            + "' references an external .ldtkl file. The metadata catalog skips external levels on wasm32; use embedded levels or custom IO."@,
    )
}

pub open spec fn missing_spawn_issue(level: LdtkLevelInfo) -> IssueView {
    (
        "missing_spawn_point"@,
        "Level '"@ + level.identifier@ + "' has no entity tagged/named as spawn."@,
    )
}

pub open spec fn unregistered_issue(level: LdtkLevelInfo, entity: LdtkImportedEntity) -> IssueView {
    (
        "unregistered_entity"@,
        "LDtk entity '"@ + entity.entity_identifier@ + "' in level '"@ + level.identifier@
            + "' has no registered bundle/spawner."@,
    )
}

pub open spec fn tileset_path_issue(layer: LdtkLayerInfo) -> IssueView {
    (
        "missing_tileset_path"@,
        "Layer '"@ + layer.identifier@ + "' in level '"@ + layer.level_identifier@
            + "' references a tileset without a relative path."@,
    )
}

/// Issues for the entities of `level` that no spawner applies to.
pub open spec fn entity_issues<S>(
    level: LdtkLevelInfo,
    entities: Seq<LdtkImportedEntity>,
    registry: Map<RegistryKeyView, S>,
) -> Seq<IssueView>
    decreases entities.len(),
{
    if entities.len() == 0 {
        Seq::empty()
    } else {
        let before = entity_issues(level, entities.drop_last(), registry);
        let e = entities.last();
        if resolved_key(registry, opt_view(e.layer_identifier), e.entity_identifier@) is None {
            before.push(unregistered_issue(level, e))
        } else {
            before
        }
    }
}

/// No spawner of `registry` applies to an entity `entity` on layer
/// `layer`: there is none for that layer and entity, none for the entity on
/// any layer, none for the whole layer, and no catch-all one.
pub open spec fn no_spawner_applies<S>(
    registry: Map<RegistryKeyView, S>,
    layer: Option<Seq<char>>,
    entity: Seq<char>,
) -> bool {
    &&& !registry.contains_key((layer, Some(entity)))
    &&& !registry.contains_key((None, Some(entity)))
    &&& !(layer is Some && registry.contains_key((layer, None)))
    &&& !registry.contains_key((None, None))
}

/// The unregistered-entity issues of a level are exactly one per entity,
/// in order, for the entities that no spawner applies to when looked up by
/// the entity's own layer and identifier; that is the entities for which
/// the registry's lookup finds nothing.
pub proof fn lemma_unregistered_issues_exact<S>(
    level: LdtkLevelInfo,
    entities: Seq<LdtkImportedEntity>,
    registry: Map<RegistryKeyView, S>,
)
    ensures
        entity_issues(level, entities, registry) == entities.filter(
            |e: LdtkImportedEntity|
                no_spawner_applies(registry, opt_view(e.layer_identifier), e.entity_identifier@),
        ).map_values(|e: LdtkImportedEntity| unregistered_issue(level, e)),
        forall|e: LdtkImportedEntity|
            #[trigger] resolved_key(registry, opt_view(e.layer_identifier), e.entity_identifier@)
                is None <==> no_spawner_applies(
                registry,
                opt_view(e.layer_identifier),
                e.entity_identifier@,
            ),
    decreases entities.len(),
{
    let pred = |e: LdtkImportedEntity|
        no_spawner_applies(registry, opt_view(e.layer_identifier), e.entity_identifier@);
    let f = |e: LdtkImportedEntity| unregistered_issue(level, e);
    reveal(Seq::filter);
    if entities.len() == 0 {
        assert(entities.filter(pred) =~= Seq::<LdtkImportedEntity>::empty());
        assert(entities.filter(pred).map_values(f) =~= Seq::<IssueView>::empty());
    } else {
        lemma_unregistered_issues_exact(level, entities.drop_last(), registry);
        let sub = entities.drop_last().filter(pred);
        let e = entities.last();
        if pred(e) {
            assert(entities.filter(pred) == sub.push(e));
            assert(sub.push(e).map_values(f) =~= sub.map_values(f).push(f(e)));
        } else {
            assert(entities.filter(pred) == sub);
        }
    }
}

/// Issues for one level, in the order they are checked.
pub open spec fn level_issues<S>(
    level: LdtkLevelInfo,
    registry: Map<RegistryKeyView, S>,
    config: LdtkConfig,
    external_files_readable: bool,
) -> Seq<IssueView> {
    let a = if level.external_path is Some && level.tiles@.len() == 0 && level.entities@.len()
        == 0 {
        seq![external_issue(level)]
    } else {
        Seq::empty()
    };
    let b = if !external_files_readable && level.external_path is Some {
        seq![external_unsupported_issue(level)]
    } else {
        Seq::empty()
    };
    let c = if level.spawn_points@.len() == 0 {
        seq![missing_spawn_issue(level)]
    } else {
        Seq::empty()
    };
    let d = if config.warn_on_unregistered_entities {
        entity_issues(level, level.entities@, registry)
    } else {
        Seq::empty()
    };
    a + b + c + d
}

proof fn lemma_entity_issue_codes<S>(
    level: LdtkLevelInfo,
    entities: Seq<LdtkImportedEntity>,
    registry: Map<RegistryKeyView, S>,
)
    ensures
        forall|i: int|
            0 <= i < entity_issues(level, entities, registry).len() ==> (#[trigger] entity_issues(
                level,
                entities,
                registry,
            )[i]).0 == "unregistered_entity"@,
    decreases entities.len(),
{
    if entities.len() > 0 {
        lemma_entity_issue_codes(level, entities.drop_last(), registry);
        let before = entity_issues(level, entities.drop_last(), registry);
        let all = entity_issues(level, entities, registry);
        assert forall|i: int| 0 <= i < all.len() implies (#[trigger] all[i]).0
            == "unregistered_entity"@ by {
            if i < before.len() {
                assert(all[i] == before[i]);
            }
        }
    }
}

/// Which issues a level gets, and exactly when: `missing_spawn_point` when it
/// has no spawn point; `external_level_not_cataloged` when it names an
/// external file and has neither tiles nor entities;
/// `external_level_wasm_unsupported` when it names an external file and
/// external files cannot be read; and no `unregistered_entity` issue at all
/// unless unregistered entities are to be reported.
pub proof fn lemma_level_issue_conditions<S>(
    level: LdtkLevelInfo,
    registry: Map<RegistryKeyView, S>,
    config: LdtkConfig,
    external_files_readable: bool,
)
    ensures
        level_issues(level, registry, config, external_files_readable).contains(
            missing_spawn_issue(level),
        ) <==> level.spawn_points@.len() == 0,
        level_issues(level, registry, config, external_files_readable).contains(
            external_issue(level),
        ) <==> (level.external_path is Some && level.tiles@.len() == 0 && level.entities@.len()
            == 0),
        level_issues(level, registry, config, external_files_readable).contains(
            external_unsupported_issue(level),
        ) <==> (!external_files_readable && level.external_path is Some),
        !config.warn_on_unregistered_entities ==> forall|i: int|
            0 <= i < level_issues(level, registry, config, external_files_readable).len()
                ==> (#[trigger] level_issues(
                level,
                registry,
                config,
                external_files_readable,
            )[i]).0 != "unregistered_entity"@,
{
    reveal_strlit("external_level_not_cataloged");
    reveal_strlit("external_level_wasm_unsupported");
    reveal_strlit("missing_spawn_point");
    reveal_strlit("unregistered_entity");
    let k1 = "external_level_not_cataloged"@;
    let k2 = "external_level_wasm_unsupported"@;
    let k3 = "missing_spawn_point"@;
    let k4 = "unregistered_entity"@;
    assert(k1.len() != k2.len());
    assert(k1.len() != k3.len());
    assert(k2.len() != k3.len());
    assert(k1.len() != k4.len());
    assert(k2.len() != k4.len());
    assert(k3[0] != k4[0]);
    assert(k1 != k2 && k1 != k3 && k2 != k3 && k1 != k4 && k2 != k4 && k3 != k4);
    let a = if level.external_path is Some && level.tiles@.len() == 0 && level.entities@.len()
        == 0 {
        seq![external_issue(level)]
    } else {
        Seq::empty()
    };
    let b = if !external_files_readable && level.external_path is Some {
        seq![external_unsupported_issue(level)]
    } else {
        Seq::empty()
    };
    let c = if level.spawn_points@.len() == 0 {
        seq![missing_spawn_issue(level)]
    } else {
        Seq::empty()
    };
    let d = if config.warn_on_unregistered_entities {
        entity_issues(level, level.entities@, registry)
    } else {
        Seq::empty()
    };
    lemma_entity_issue_codes(level, level.entities@, registry);
    let all = level_issues(level, registry, config, external_files_readable);
    assert(all == a + b + c + d);
    let ab: int = (a.len() + b.len()) as int;
    let abc: int = ab + c.len() as int;
    assert forall|i: int| 0 <= i < all.len() implies {
        &&& (#[trigger] all[i]).0 == k1 ==> i < a.len() && all[i] == external_issue(level)
        &&& all[i].0 == k2 ==> a.len() <= i < ab && all[i] == external_unsupported_issue(level)
        &&& all[i].0 == k3 ==> ab <= i < abc && all[i] == missing_spawn_issue(level)
        &&& all[i].0 == k4 ==> abc <= i
    } by {
        if i < a.len() {
            assert(all[i] == a[i]);
        } else if i < ab {
            assert(all[i] == b[i - a.len()]);
        } else if i < abc {
            assert(all[i] == c[i - ab]);
        } else {
            assert(all[i] == d[i - abc]);
        }
    }
    if a.len() > 0 {
        assert(all[0] == a[0]);
    }
    if b.len() > 0 {
        assert(all[a.len() as int] == b[0]);
    }
    if c.len() > 0 {
        assert(all[ab] == c[0]);
    }
    if all.contains(external_issue(level)) {
        let i = choose|i: int| 0 <= i < all.len() && all[i] == external_issue(level);
        assert(all[i].0 == k1);
    }
    if all.contains(external_unsupported_issue(level)) {
        let i = choose|i: int| 0 <= i < all.len() && all[i] == external_unsupported_issue(level);
        assert(all[i].0 == k2);
    }
    if all.contains(missing_spawn_issue(level)) {
        let i = choose|i: int| 0 <= i < all.len() && all[i] == missing_spawn_issue(level);
        assert(all[i].0 == k3);
    }
}

/// Issues for all levels, in catalog order.
pub open spec fn levels_issues<S>(
    levels: Seq<(String, LdtkLevelInfo)>,
    registry: Map<RegistryKeyView, S>,
    config: LdtkConfig,
    external_files_readable: bool,
) -> Seq<IssueView>
    decreases levels.len(),
{
    if levels.len() == 0 {
        Seq::empty()
    } else {
        levels_issues(levels.drop_last(), registry, config, external_files_readable) + level_issues(
            levels.last().1,
            registry,
            config,
            external_files_readable,
        )
    }
}

/// Issues for all layers, in catalog order.
pub open spec fn layers_issues(layers: Seq<(String, LdtkLayerInfo)>) -> Seq<IssueView>
    decreases layers.len(),
{
    if layers.len() == 0 {
        Seq::empty()
    } else {
        let l = layers.last().1;
        if l.tileset_uid is Some && l.tileset_rel_path is None {
            layers_issues(layers.drop_last()).push(tileset_path_issue(l))
        } else {
            layers_issues(layers.drop_last())
        }
    }
}

/// Every issue validation finds in `catalog`.
pub open spec fn catalog_issues<S>(
    catalog: LdtkMapCatalog,
    registry: Map<RegistryKeyView, S>,
    config: LdtkConfig,
    external_files_readable: bool,
) -> Seq<IssueView> {
    levels_issues(catalog.levels.pairs(), registry, config, external_files_readable)
        + layers_issues(catalog.layers.pairs())
}

/// The report holds `issues` in the list strictness selects and nothing in
/// the other.
pub open spec fn report_holds(report: LdtkValidationReport, strict: bool, issues: Seq<IssueView>) -> bool {
    if strict {
        issue_views(report.errors@) == issues && report.warnings@.len() == 0
    } else {
        issue_views(report.warnings@) == issues && report.errors@.len() == 0
    }
}

proof fn lemma_push_keeps_report(
    before: LdtkValidationReport,
    after: LdtkValidationReport,
    strict: bool,
    issues: Seq<IssueView>,
    code: Seq<char>,
    message: Seq<char>,
)
    requires
        report_holds(before, strict, issues),
        strict ==> {
            &&& after.errors@.len() == before.errors@.len() + 1
            &&& after.errors@.drop_last() == before.errors@
            &&& after.errors@.last().code@ == code
            &&& after.errors@.last().message@ == message
            &&& after.warnings@ == before.warnings@
        },
        !strict ==> {
            &&& after.warnings@.len() == before.warnings@.len() + 1
            &&& after.warnings@.drop_last() == before.warnings@
            &&& after.warnings@.last().code@ == code
            &&& after.warnings@.last().message@ == message
            &&& after.errors@ == before.errors@
        },
    ensures
        report_holds(after, strict, issues.push((code, message))),
{
    if strict {
        assert(issue_views(after.errors@) =~= issue_views(before.errors@).push((code, message)));
    } else {
        assert(issue_views(after.warnings@) =~= issue_views(before.warnings@).push(
            (code, message),
        ));
    }
}

fn push_issue(report: &mut LdtkValidationReport, strict: bool, code: &str, message: String)
    ensures
        forall|issues: Seq<IssueView>|
            report_holds(*old(report), strict, issues) ==> report_holds(
                *final(report),
                strict,
                issues.push((code@, message@)),
            ),
{
    let ghost before = *report;
    let ghost m = message@;
    report.push(strict, code, message);
    proof {
        assert forall|issues: Seq<IssueView>|
            report_holds(before, strict, issues) implies report_holds(
            *report,
            strict,
            issues.push((code@, m)),
        ) by {
            lemma_push_keeps_report(before, *report, strict, issues, code@, m);
        }
    }
}

/// Records the issues of the entities of `level` that no spawner applies to.
fn validate_entities<S>(
    level: &LdtkLevelInfo,
    registry: &LdtkEntityRegistry<S>,
    report: &mut LdtkValidationReport,
    strict: bool,
    Ghost(so_far): Ghost<Seq<IssueView>>,
)
    requires
        report_holds(*old(report), strict, so_far),
    ensures
        report_holds(
            *final(report),
            strict,
            so_far + entity_issues(*level, level.entities@, registry.spawners@),
        ),
{
    let ghost reg = registry.spawners@;
    let m = level.entities.len();
    let mut j: usize = 0;
    proof {
        reveal_strlit("unregistered_entity");
        assert(level.entities@.take(0) =~= Seq::<LdtkImportedEntity>::empty());
        assert(so_far + entity_issues(*level, level.entities@.take(0), reg) =~= so_far);
    }
    while j < m
        invariant
            m == level.entities@.len(),
            j <= m,
            reg == registry.spawners@,
            report_holds(
                *report,
                strict,
                so_far + entity_issues(*level, level.entities@.take(j as int), reg),
            ),
        decreases m - j,
    {
        let entity = &level.entities[j];
        proof {
            assert(level.entities@.take(j + 1).drop_last() =~= level.entities@.take(j as int));
            assert(level.entities@.take(j + 1).last() == *entity);
        }
        let layer: Option<&str> = match &entity.layer_identifier {
            Some(l) => Some(l.as_str()),
            None => None,
        };
        if registry.resolve(layer, entity.entity_identifier.as_str()).is_none() {
            let message = message5(
                "LDtk entity '",
                entity.entity_identifier.as_str(),
                "' in level '",
                level.identifier.as_str(),
                "' has no registered bundle/spawner.",
            );
            push_issue(report, strict, "unregistered_entity", message);
            proof {
                let prev = entity_issues(*level, level.entities@.take(j as int), reg);
                assert(so_far + prev.push(unregistered_issue(*level, *entity)) =~= (so_far
                    + prev).push(unregistered_issue(*level, *entity)));
            }
        }
        j = j + 1;
    }
    proof {
        assert(level.entities@.take(m as int) =~= level.entities@);
    }
}

/// Records the issues of one level.
fn validate_level<S>(
    level: &LdtkLevelInfo,
    registry: &LdtkEntityRegistry<S>,
    config: &LdtkConfig,
    report: &mut LdtkValidationReport,
    external_files_readable: bool,
    Ghost(done): Ghost<Seq<IssueView>>,
)
    requires
        report_holds(*old(report), config.strict_validation, done),
    ensures
        report_holds(
            *final(report),
            config.strict_validation,
            done + level_issues(*level, registry.spawners@, *config, external_files_readable),
        ),
{
    let strict = config.strict_validation;
    let ghost reg = registry.spawners@;
    proof {
        reveal_strlit("external_level_not_cataloged");
        reveal_strlit("external_level_wasm_unsupported");
        reveal_strlit("missing_spawn_point");
    }
    let ghost part_a = if level.external_path is Some && level.tiles@.len() == 0
        && level.entities@.len() == 0 {
        seq![external_issue(*level)]
    } else {
        Seq::empty()
    };
    if level.external_path.is_some() && level.tiles.len() == 0 && level.entities.len() == 0 {
        let message = message3(
            "Level '",
            level.identifier.as_str(),
            "' references an external .ldtkl file. bevy_ecs_ldtk can load it, but this metadata catalog only sees embedded layer data.",
        );
        push_issue(report, strict, "external_level_not_cataloged", message);
    }
    proof {
        assert(done + part_a =~= (if part_a.len() == 0 {
            done
        } else {
            done.push(external_issue(*level))
        }));
    }
    let ghost part_b = if !external_files_readable && level.external_path is Some {
        seq![external_unsupported_issue(*level)]
    } else {
        Seq::empty()
    };
    if !external_files_readable && level.external_path.is_some() {
        let message = message3(
            "Level '",
            level.identifier.as_str(),
            "' references an external .ldtkl file. The metadata catalog skips external levels on wasm32; use embedded levels or custom IO.",
        );
        push_issue(report, strict, "external_level_wasm_unsupported", message);
    }
    proof {
        assert(done + part_a + part_b =~= (if part_b.len() == 0 {
            done + part_a
        } else {
            (done + part_a).push(external_unsupported_issue(*level))
        }));
    }
    let ghost part_c = if level.spawn_points@.len() == 0 {
        seq![missing_spawn_issue(*level)]
    } else {
        Seq::empty()
    };
    if level.spawn_points.len() == 0 {
        let message = message3(
            "Level '",
            level.identifier.as_str(),
            "' has no entity tagged/named as spawn.",
        );
        push_issue(report, strict, "missing_spawn_point", message);
    }
    proof {
        assert(done + part_a + part_b + part_c =~= (if part_c.len() == 0 {
            done + part_a + part_b
        } else {
            (done + part_a + part_b).push(missing_spawn_issue(*level))
        }));
    }
    let ghost so_far = done + part_a + part_b + part_c;
    if config.warn_on_unregistered_entities {
        validate_entities(level, registry, report, strict, Ghost(so_far));
    } else {
        proof {
            assert(so_far + Seq::<IssueView>::empty() =~= so_far);
        }
    }
    proof {
        let d = if config.warn_on_unregistered_entities {
            entity_issues(*level, level.entities@, reg)
        } else {
            Seq::empty()
        };
        assert(level_issues(*level, reg, *config, external_files_readable) =~= part_a + part_b
            + part_c + d);
        assert(done + (part_a + part_b + part_c + d) =~= so_far + d);
    }
}

/// Validates `catalog`: levels with external files whose layer data was not
/// read, levels read on a target that cannot read external files, levels
/// without spawn points, entities no spawner applies to (when configured),
/// and layers whose tileset has no path. The report is cleared first.
pub fn validate_catalog<S>(
    catalog: &LdtkMapCatalog,
    registry: &LdtkEntityRegistry<S>,
    config: &LdtkConfig,
    report: &mut LdtkValidationReport,
    external_files_readable: bool,
)
    ensures
        report_holds(
            *final(report),
            config.strict_validation,
            catalog_issues(*catalog, registry.spawners@, *config, external_files_readable),
        ),
{
    report.clear();
    let strict = config.strict_validation;
    proof {
        assert(issue_views(report.errors@) =~= Seq::<IssueView>::empty());
        assert(issue_views(report.warnings@) =~= Seq::<IssueView>::empty());
        assert(catalog.levels.pairs().take(0) =~= Seq::<(String, LdtkLevelInfo)>::empty());
    }
    let n = catalog.levels.len();
    let mut i: usize = 0;
    while i < n
        invariant
            n == catalog.levels.pairs().len(),
            i <= n,
            strict == config.strict_validation,
            report_holds(
                *report,
                strict,
                levels_issues(
                    catalog.levels.pairs().take(i as int),
                    registry.spawners@,
                    *config,
                    external_files_readable,
                ),
            ),
        decreases n - i,
    {
        let level = catalog.levels.value_at(i);
        let ghost done = levels_issues(
            catalog.levels.pairs().take(i as int),
            registry.spawners@,
            *config,
            external_files_readable,
        );
        proof {
            assert(catalog.levels.pairs().take(i + 1).drop_last() =~= catalog.levels.pairs().take(
                i as int,
            ));
            assert(catalog.levels.pairs().take(i + 1).last().1 == *level);
        }
        validate_level(level, registry, config, report, external_files_readable, Ghost(done));
        i = i + 1;
    }
    let ghost level_part = levels_issues(
        catalog.levels.pairs(),
        registry.spawners@,
        *config,
        external_files_readable,
    );
    proof {
        assert(catalog.levels.pairs().take(n as int) =~= catalog.levels.pairs());
        assert(catalog.layers.pairs().take(0) =~= Seq::<(String, LdtkLayerInfo)>::empty());
        assert(level_part + layers_issues(catalog.layers.pairs().take(0)) =~= level_part);
        reveal_strlit("missing_tileset_path");
    }
    let k = catalog.layers.len();
    let mut j: usize = 0;
    while j < k
        invariant
            k == catalog.layers.pairs().len(),
            j <= k,
            strict == config.strict_validation,
            report_holds(
                *report,
                strict,
                level_part + layers_issues(catalog.layers.pairs().take(j as int)),
            ),
        decreases k - j,
    {
        let layer = catalog.layers.value_at(j);
        proof {
            assert(catalog.layers.pairs().take(j + 1).drop_last() =~= catalog.layers.pairs().take(
                j as int,
            ));
            assert(catalog.layers.pairs().take(j + 1).last().1 == *layer);
        }
        if layer.tileset_uid.is_some() && layer.tileset_rel_path.is_none() {
            let message = message5(
                "Layer '",
                layer.identifier.as_str(),
                "' in level '",
                layer.level_identifier.as_str(),
                "' references a tileset without a relative path.",
            );
            push_issue(report, strict, "missing_tileset_path", message);
            proof {
                let prev = layers_issues(catalog.layers.pairs().take(j as int));
                assert(level_part + prev.push(tileset_path_issue(*layer)) =~= (level_part
                    + prev).push(tileset_path_issue(*layer)));
            }
        }
        j = j + 1;
    }
    proof {
        assert(catalog.layers.pairs().take(k as int) =~= catalog.layers.pairs());
    }
}

/// A report is free of errors exactly when validation is lenient or found
/// nothing.
pub proof fn lemma_errors_only_when_strict(
    report: LdtkValidationReport,
    strict: bool,
    issues: Seq<IssueView>,
)
    requires
        report_holds(report, strict, issues),
    ensures
        report.errors@.len() > 0 <==> strict && issues.len() > 0,
        report.warnings@.len() > 0 <==> !strict && issues.len() > 0,
{
    if strict {
        assert(issue_views(report.errors@).len() == report.errors@.len());
    } else {
        assert(issue_views(report.warnings@).len() == report.warnings@.len());
    }
}

} // verus!
