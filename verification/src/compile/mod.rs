//! Compiling a document into the wiki: the plan of concept and entity pages that the
//! model proposes, and the page actions and link lists it leads to.
pub mod prompts;

use vstd::prelude::*;

use crate::kb::WikiScope;
use crate::wiki::{slug, slugify};

verus! {

/// What compiling a document produced.
#[derive(Debug, Clone)]
pub struct CompileOutcome {
    pub doc_name: String,
    pub summary_path: String,
    pub private: bool,
}

/// The wiki zone of a compiled document.
pub fn summary_scope(doc_private: bool) -> (s: WikiScope)
    ensures
        s == (if doc_private {
            WikiScope::Private
        } else {
            WikiScope::Public
        }),
{
    if doc_private {
        WikiScope::Private
    } else {
        WikiScope::Public
    }
}

/// Whether a document's sources move from the public to the private zone: it was found
/// private by its summary though its path is not private.
pub fn promotes_sources(path_private: bool, doc_private: bool) -> (b: bool)
    ensures
        b == (!path_private && doc_private),
{
    !path_private && doc_private
}

/// The log action of a compile.
pub fn compile_action(is_long: bool) -> (r: &'static str)
    ensures
        r@ == (if is_long {
            "compile-long"@
        } else {
            "compile"@
        }),
{
    if is_long {
        "compile-long"
    } else {
        "compile"
    }
}

/// One page the model proposes: its `name`, `title` and (for entities) `type`, each
/// present when the model gave a string.
#[derive(Debug, Clone)]
pub struct PlanItem {
    pub name: Option<String>,
    pub title: Option<String>,
    pub entity_type: Option<String>,
}

/// The proposal for one kind of page: pages to create, pages to update, and existing
/// slugs to cross-link (present when the model gave a string).
#[derive(Debug, Clone)]
pub struct PlanSection {
    pub create: Vec<PlanItem>,
    pub update: Vec<PlanItem>,
    pub related: Vec<Option<String>>,
}

/// The model's plan of concept and entity pages.
#[derive(Debug, Clone)]
pub struct WikiPlan {
    pub concepts: PlanSection,
    pub entities: PlanSection,
}

/// The plan with nothing to do (used when the model gives no usable plan).
pub fn empty_wiki_plan() -> (p: WikiPlan)
    ensures
        p.concepts.create@.len() == 0,
        p.concepts.update@.len() == 0,
        p.concepts.related@.len() == 0,
        p.entities.create@.len() == 0,
        p.entities.update@.len() == 0,
        p.entities.related@.len() == 0,
{
    WikiPlan {
        concepts: PlanSection { create: Vec::new(), update: Vec::new(), related: Vec::new() },
        entities: PlanSection { create: Vec::new(), update: Vec::new(), related: Vec::new() },
    }
}

/// A page action of the plan.
#[derive(Debug, Clone)]
pub enum PageAction {
    /// Write a concept page (create, or update when it exists).
    Concept { slug: String, title: String, update: bool },
    /// Write an entity page of the given type.
    Entity { slug: String, title: String, entity_type: String, update: bool },
    /// Add a "See also" link to an existing concept or entity page.
    Related { slug: String },
}

/// The characters of a page action.
pub enum ActionModel {
    Concept(Seq<char>, Seq<char>, bool),
    Entity(Seq<char>, Seq<char>, Seq<char>, bool),
    Related(Seq<char>),
}

impl View for PageAction {
    type V = ActionModel;

    open spec fn view(&self) -> ActionModel {
        match self {
            PageAction::Concept { slug, title, update } => ActionModel::Concept(slug@, title@, *update),
            PageAction::Entity { slug, title, entity_type, update } => ActionModel::Entity(
                slug@,
                title@,
                entity_type@,
                *update,
            ),
            PageAction::Related { slug } => ActionModel::Related(slug@),
        }
    }
}

/// The characters of an optional string.
pub open spec fn ostr(o: Option<String>) -> Option<Seq<char>> {
    match o {
        Some(s) => Some(s@),
        None => None,
    }
}

/// The slug of a proposed page: its name (or `default`) slugified.
pub open spec fn item_slug(item: PlanItem, default: Seq<char>) -> Seq<char> {
    slug(
        match ostr(item.name) {
            Some(n) => n,
            None => default,
        },
    )
}

/// The title of a proposed page: its title, or its slug.
pub open spec fn item_title(item: PlanItem, default: Seq<char>) -> Seq<char> {
    match ostr(item.title) {
        Some(t) => t,
        None => item_slug(item, default),
    }
}

/// The type of a proposed entity: its type, or `product`.
pub open spec fn item_type(item: PlanItem) -> Seq<char> {
    match ostr(item.entity_type) {
        Some(t) => t,
        None => "product"@,
    }
}

/// The action that writes a proposed page.
pub open spec fn write_action(item: PlanItem, entity: bool, update: bool) -> ActionModel {
    if entity {
        ActionModel::Entity(item_slug(item, "entity"@), item_title(item, "entity"@), item_type(item), update)
    } else {
        ActionModel::Concept(item_slug(item, "concept"@), item_title(item, "concept"@), update)
    }
}

/// The cross-link actions of the related slugs that are strings.
pub open spec fn related_actions(related: Seq<Option<String>>) -> Seq<ActionModel>
    decreases related.len(),
{
    if related.len() == 0 {
        seq![]
    } else {
        let prev = related_actions(related.drop_last());
        match ostr(related.last()) {
            Some(s) => prev.push(ActionModel::Related(slug(s))),
            None => prev,
        }
    }
}

/// The actions of one section: create every proposed page, update every page to
/// update, then cross-link the related pages.
pub open spec fn section_actions(sec: PlanSection, entity: bool) -> Seq<ActionModel> {
    sec.create@.map_values(|i: PlanItem| write_action(i, entity, false)) + sec.update@.map_values(
        |i: PlanItem| write_action(i, entity, true),
    ) + related_actions(sec.related@)
}

/// `x` appended to `list` unless it is there already.
pub open spec fn push_unique(list: Seq<Seq<char>>, x: Seq<char>) -> Seq<Seq<char>> {
    if list.contains(x) {
        list
    } else {
        list.push(x)
    }
}

/// The slugs of the created pages, all of them, in order.
pub open spec fn created_slugs(items: Seq<PlanItem>, default: Seq<char>) -> Seq<Seq<char>> {
    items.map_values(|i: PlanItem| item_slug(i, default))
}

/// `list` extended with the slugs of the updated pages not in it yet.
pub open spec fn with_updated(list: Seq<Seq<char>>, items: Seq<PlanItem>, default: Seq<char>) -> Seq<
    Seq<char>,
>
    decreases items.len(),
{
    if items.len() == 0 {
        list
    } else {
        push_unique(with_updated(list, items.drop_last(), default), item_slug(items.last(), default))
    }
}

/// `list` extended with the related slugs not in it yet.
pub open spec fn with_related(list: Seq<Seq<char>>, related: Seq<Option<String>>) -> Seq<Seq<char>>
    decreases related.len(),
{
    if related.len() == 0 {
        list
    } else {
        let prev = with_related(list, related.drop_last());
        match ostr(related.last()) {
            Some(s) => push_unique(prev, slug(s)),
            None => prev,
        }
    }
}

/// The slugs a section links from the summary and the index.
pub open spec fn section_slugs(sec: PlanSection, default: Seq<char>) -> Seq<Seq<char>> {
    with_related(with_updated(created_slugs(sec.create@, default), sec.update@, default), sec.related@)
}

fn write_action_exec(item: &PlanItem, entity: bool, update: bool) -> (a: PageAction)
    ensures
        a@ == write_action(*item, entity, update),
{
    let default = if entity {
        "entity"
    } else {
        "concept"
    };
    let name = match &item.name {
        Some(n) => slugify(n.as_str()),
        None => slugify(default),
    };
    let title = match &item.title {
        Some(t) => t.clone(),
        None => name.clone(),
    };
    if entity {
        let t = match &item.entity_type {
            Some(t) => t.clone(),
            None => String::from_str("product"),
        };
        PageAction::Entity { slug: name, title, entity_type: t, update }
    } else {
        PageAction::Concept { slug: name, title, update }
    }
}

fn string_list_contains(list: &Vec<String>, s: &str) -> (b: bool)
    ensures
        b == list@.map_values(|x: String| x@).contains(s@),
{
    let ghost l = list@.map_values(|x: String| x@);
    let mut i: usize = 0;
    while i < list.len()
        invariant
            i <= list.len(),
            l == list@.map_values(|x: String| x@),
            forall|j: int| 0 <= j < i ==> l[j] != s@,
        decreases list.len() - i,
    {
        if crate::text::str_eq(list[i].as_str(), s) {
            assert(l[i as int] == s@);
            return true;
        }
        i = i + 1;
    }
    false
}

fn push_unique_exec(list: &mut Vec<String>, x: String)
    ensures
        final(list)@.map_values(|s: String| s@) == push_unique(
            old(list)@.map_values(|s: String| s@),
            x@,
        ),
{
    if !string_list_contains(list, x.as_str()) {
        let ghost prev = list@.map_values(|s: String| s@);
        let ghost xv = x@;
        list.push(x);
        assert(list@.map_values(|s: String| s@) =~= prev.push(xv));
    }
}

/// The page actions of a section, in order, and the slugs it links.
fn apply_section(sec: &PlanSection, entity: bool, actions: &mut Vec<PageAction>) -> (slugs: Vec<String>)
    ensures
        final(actions)@.map_values(|a: PageAction| a@) == old(actions)@.map_values(
            |a: PageAction| a@,
        ) + section_actions(*sec, entity),
        slugs@.map_values(|s: String| s@) == section_slugs(
            *sec,
            if entity {
                "entity"@
            } else {
                "concept"@
            },
        ),
{
    let ghost d = if entity {
        "entity"@
    } else {
        "concept"@
    };
    let ghost start = actions@.map_values(|a: PageAction| a@);
    let mut slugs: Vec<String> = Vec::new();
    let mut i: usize = 0;
    while i < sec.create.len()
        invariant
            i <= sec.create@.len(),
            d == (if entity {
                "entity"@
            } else {
                "concept"@
            }),
            actions@.map_values(|a: PageAction| a@) == start + sec.create@.take(i as int).map_values(
                |it: PlanItem| write_action(it, entity, false),
            ),
            slugs@.map_values(|s: String| s@) == created_slugs(sec.create@.take(i as int), d),
        decreases sec.create@.len() - i,
    {
        let a = write_action_exec(&sec.create[i], entity, false);
        let s = match &a {
            PageAction::Concept { slug, .. } => slug.clone(),
            PageAction::Entity { slug, .. } => slug.clone(),
            PageAction::Related { slug } => slug.clone(),
        };
        let ghost pa = actions@.map_values(|a: PageAction| a@);
        let ghost ps = slugs@.map_values(|s: String| s@);
        let ghost av = a@;
        let ghost sv = s@;
        actions.push(a);
        slugs.push(s);
        proof {
            let it = sec.create@[i as int];
            assert(sv == item_slug(it, d));
            assert(actions@.map_values(|a: PageAction| a@) =~= pa.push(av));
            assert(slugs@.map_values(|s: String| s@) =~= ps.push(sv));
            assert(sec.create@.take(i + 1) =~= sec.create@.take(i as int).push(it));
            assert(sec.create@.take(i + 1).map_values(|it: PlanItem| write_action(it, entity, false))
                =~= sec.create@.take(i as int).map_values(
                |it: PlanItem| write_action(it, entity, false),
            ).push(av));
            assert(created_slugs(sec.create@.take(i + 1), d) =~= created_slugs(
                sec.create@.take(i as int),
                d,
            ).push(sv));
        }
        i = i + 1;
    }
    assert(sec.create@.take(sec.create@.len() as int) =~= sec.create@);
    let ghost start2 = actions@.map_values(|a: PageAction| a@);
    let ghost base2 = slugs@.map_values(|s: String| s@);
    let mut j: usize = 0;
    while j < sec.update.len()
        invariant
            j <= sec.update@.len(),
            d == (if entity {
                "entity"@
            } else {
                "concept"@
            }),
            actions@.map_values(|a: PageAction| a@) == start2 + sec.update@.take(j as int).map_values(
                |it: PlanItem| write_action(it, entity, true),
            ),
            slugs@.map_values(|s: String| s@) == with_updated(base2, sec.update@.take(j as int), d),
        decreases sec.update@.len() - j,
    {
        let a = write_action_exec(&sec.update[j], entity, true);
        let s = match &a {
            PageAction::Concept { slug, .. } => slug.clone(),
            PageAction::Entity { slug, .. } => slug.clone(),
            PageAction::Related { slug } => slug.clone(),
        };
        let ghost pa = actions@.map_values(|a: PageAction| a@);
        let ghost av = a@;
        let ghost sv = s@;
        actions.push(a);
        push_unique_exec(&mut slugs, s);
        proof {
            let it = sec.update@[j as int];
            assert(sv == item_slug(it, d));
            assert(actions@.map_values(|a: PageAction| a@) =~= pa.push(av));
            assert(sec.update@.take(j + 1) =~= sec.update@.take(j as int).push(it));
            assert(sec.update@.take(j + 1).map_values(|it: PlanItem| write_action(it, entity, true))
                =~= sec.update@.take(j as int).map_values(
                |it: PlanItem| write_action(it, entity, true),
            ).push(av));
            assert(sec.update@.take(j + 1).drop_last() =~= sec.update@.take(j as int));
        }
        j = j + 1;
    }
    assert(sec.update@.take(sec.update@.len() as int) =~= sec.update@);
    let ghost start3 = actions@.map_values(|a: PageAction| a@);
    let ghost base3 = slugs@.map_values(|s: String| s@);
    let mut k: usize = 0;
    while k < sec.related.len()
        invariant
            k <= sec.related@.len(),
            d == (if entity {
                "entity"@
            } else {
                "concept"@
            }),
            actions@.map_values(|a: PageAction| a@) == start3 + related_actions(
                sec.related@.take(k as int),
            ),
            slugs@.map_values(|s: String| s@) == with_related(base3, sec.related@.take(k as int)),
        decreases sec.related@.len() - k,
    {
        proof {
            assert(sec.related@.take(k + 1).drop_last() =~= sec.related@.take(k as int));
        }
        match &sec.related[k] {
            Some(r) => {
                let s = slugify(r.as_str());
                let s2 = s.clone();
                let ghost pa = actions@.map_values(|a: PageAction| a@);
                let ghost sv = s@;
                actions.push(PageAction::Related { slug: s });
                push_unique_exec(&mut slugs, s2);
                assert(actions@.map_values(|a: PageAction| a@) =~= pa.push(ActionModel::Related(sv)));
            },
            None => {},
        }
        k = k + 1;
    }
    assert(sec.related@.take(sec.related@.len() as int) =~= sec.related@);
    slugs
}

/// The page actions of a plan, in the order they are carried out (concepts, then
/// entities), and the concept and entity slugs to link from the summary and the index.
pub fn plan_actions(plan: &WikiPlan) -> (r: (Vec<PageAction>, Vec<String>, Vec<String>))
    ensures
        r.0@.map_values(|a: PageAction| a@) == section_actions(plan.concepts, false)
            + section_actions(plan.entities, true),
        r.1@.map_values(|s: String| s@) == section_slugs(plan.concepts, "concept"@),
        r.2@.map_values(|s: String| s@) == section_slugs(plan.entities, "entity"@),
{
    let mut actions: Vec<PageAction> = Vec::new();
    assert(actions@.map_values(|a: PageAction| a@) =~= Seq::<ActionModel>::empty());
    let concepts = apply_section(&plan.concepts, false, &mut actions);
    let entities = apply_section(&plan.entities, true, &mut actions);
    (actions, concepts, entities)
}

/// The slug of the page an action writes or cross-links.
pub open spec fn action_slug(a: ActionModel) -> Seq<char> {
    match a {
        ActionModel::Concept(s, _, _) => s,
        ActionModel::Entity(s, _, _, _) => s,
        ActionModel::Related(s) => s,
    }
}

proof fn lemma_push_unique(list: Seq<Seq<char>>, x: Seq<char>)
    ensures
        push_unique(list, x).contains(x),
        forall|y: Seq<char>| list.contains(y) ==> #[trigger] push_unique(list, x).contains(y),
{
    if !list.contains(x) {
        assert(list.push(x)[list.len() as int] == x);
        assert forall|y: Seq<char>| list.contains(y) implies #[trigger] push_unique(list, x).contains(y) by {
            let i = choose|i: int| 0 <= i < list.len() && list[i] == y;
            assert(list.push(x)[i] == y);
        }
    }
}

proof fn lemma_with_updated(list: Seq<Seq<char>>, items: Seq<PlanItem>, d: Seq<char>)
    ensures
        forall|y: Seq<char>| list.contains(y) ==> #[trigger] with_updated(list, items, d).contains(y),
        forall|k: int|
            0 <= k < items.len() ==> with_updated(list, items, d).contains(
                item_slug(#[trigger] items[k], d),
            ),
    decreases items.len(),
{
    if items.len() > 0 {
        let prev = with_updated(list, items.drop_last(), d);
        lemma_with_updated(list, items.drop_last(), d);
        lemma_push_unique(prev, item_slug(items.last(), d));
        assert forall|k: int| 0 <= k < items.len() implies with_updated(list, items, d).contains(
            item_slug(#[trigger] items[k], d),
        ) by {
            if k < items.len() - 1 {
                assert(items.drop_last()[k] == items[k]);
                assert(prev.contains(item_slug(items.drop_last()[k], d)));
            }
        }
    }
}

proof fn lemma_with_related(list: Seq<Seq<char>>, related: Seq<Option<String>>)
    ensures
        forall|y: Seq<char>| list.contains(y) ==> #[trigger] with_related(list, related).contains(y),
        forall|k: int|
            0 <= k < related.len() && (#[trigger] related[k]) is Some ==> with_related(
                list,
                related,
            ).contains(slug(related[k]->0@)),
    decreases related.len(),
{
    if related.len() > 0 {
        let prev = with_related(list, related.drop_last());
        lemma_with_related(list, related.drop_last());
        match ostr(related.last()) {
            Some(x) => lemma_push_unique(prev, slug(x)),
            None => {},
        }
        assert forall|k: int|
            0 <= k < related.len() && (#[trigger] related[k]) is Some implies with_related(
            list,
            related,
        ).contains(slug(related[k]->0@)) by {
            if k < related.len() - 1 {
                assert(related.drop_last()[k] == related[k]);
            }
        }
    }
}

proof fn lemma_related_actions(related: Seq<Option<String>>)
    ensures
        forall|i: int|
            0 <= i < related_actions(related).len() ==> exists|k: int|
                0 <= k < related.len() && related[k] is Some && #[trigger] related_actions(related)[i]
                    == ActionModel::Related(slug(related[k]->0@)),
    decreases related.len(),
{
    if related.len() > 0 {
        let prev = related_actions(related.drop_last());
        lemma_related_actions(related.drop_last());
        assert forall|i: int| 0 <= i < related_actions(related).len() implies exists|k: int|
            0 <= k < related.len() && related[k] is Some && #[trigger] related_actions(related)[i]
                == ActionModel::Related(slug(related[k]->0@)) by {
            if i < prev.len() {
                let k = choose|k: int|
                    0 <= k < related.drop_last().len() && related.drop_last()[k] is Some
                        && prev[i] == ActionModel::Related(slug(related.drop_last()[k]->0@));
                assert(related[k] == related.drop_last()[k]);
                assert(related_actions(related)[i] == prev[i]);
            } else {
                let n = related.len() - 1;
                assert(related_actions(related)[i] == ActionModel::Related(slug(related[n]->0@)));
            }
        }
    }
}

/// Every page a section acts on is linked from the summary and the index: the slug of
/// each action of the section (a page written, or a related page cross-linked) is among
/// the section's slugs; in particular every related page is.
pub proof fn law_section_acted_slugs_linked(sec: PlanSection, entity: bool)
    ensures
        forall|i: int|
            0 <= i < section_actions(sec, entity).len() ==> section_slugs(
                sec,
                if entity {
                    "entity"@
                } else {
                    "concept"@
                },
            ).contains(action_slug(#[trigger] section_actions(sec, entity)[i])),
        forall|k: int|
            0 <= k < sec.related@.len() && (#[trigger] sec.related@[k]) is Some ==> section_slugs(
                sec,
                if entity {
                    "entity"@
                } else {
                    "concept"@
                },
            ).contains(slug(sec.related@[k]->0@)),
{
    let d: Seq<char> = if entity {
        "entity"@
    } else {
        "concept"@
    };
    let created = created_slugs(sec.create@, d);
    let updated = with_updated(created, sec.update@, d);
    let all = section_slugs(sec, d);
    lemma_with_updated(created, sec.update@, d);
    lemma_with_related(updated, sec.related@);
    lemma_related_actions(sec.related@);
    let a1 = sec.create@.map_values(|i: PlanItem| write_action(i, entity, false));
    let a2 = sec.update@.map_values(|i: PlanItem| write_action(i, entity, true));
    let a3 = related_actions(sec.related@);
    assert(section_actions(sec, entity) == a1 + a2 + a3);
    assert forall|i: int| 0 <= i < section_actions(sec, entity).len() implies all.contains(
        action_slug(#[trigger] section_actions(sec, entity)[i]),
    ) by {
        let acts = section_actions(sec, entity);
        if i < a1.len() {
            assert(acts[i] == a1[i]);
            assert(action_slug(a1[i]) == item_slug(sec.create@[i], d));
            assert(created[i] == item_slug(sec.create@[i], d));
            assert(created.contains(created[i]));
            assert(updated.contains(created[i]));
        } else if i < a1.len() + a2.len() {
            let k = i - a1.len();
            assert(acts[i] == a2[k]);
            assert(action_slug(a2[k]) == item_slug(sec.update@[k], d));
            assert(updated.contains(item_slug(sec.update@[k], d)));
        } else {
            let j = i - a1.len() - a2.len();
            assert(acts[i] == a3[j]);
            let k = choose|k: int|
                0 <= k < sec.related@.len() && sec.related@[k] is Some && a3[j]
                    == ActionModel::Related(slug(sec.related@[k]->0@));
            assert(sec.related@[k] is Some);
        }
    }
}

/// Every page the plan acts on is linked: each concept action's slug is among the
/// concept slugs of the summary and the index, and each entity action's slug among the
/// entity slugs.
pub proof fn law_plan_acted_slugs_linked(plan: WikiPlan)
    ensures
        forall|i: int|
            0 <= i < section_actions(plan.concepts, false).len() ==> section_slugs(
                plan.concepts,
                "concept"@,
            ).contains(action_slug(#[trigger] section_actions(plan.concepts, false)[i])),
        forall|i: int|
            0 <= i < section_actions(plan.entities, true).len() ==> section_slugs(
                plan.entities,
                "entity"@,
            ).contains(action_slug(#[trigger] section_actions(plan.entities, true)[i])),
{
    law_section_acted_slugs_linked(plan.concepts, false);
    law_section_acted_slugs_linked(plan.entities, true);
}

/// The default name of a section's pages: `entity` or `concept`.
pub open spec fn default_name(entity: bool) -> Seq<char> {
    if entity {
        "entity"@
    } else {
        "concept"@
    }
}

/// Some action of the list acts on the page `slug`.
pub open spec fn acted_on(actions: Seq<ActionModel>, slug: Seq<char>) -> bool {
    exists|i: int| 0 <= i < actions.len() && action_slug(#[trigger] actions[i]) == slug
}

/// The summary and the index link only pages the section acts on: every slug of the
/// section is the slug of one of its actions.
pub proof fn law_section_slugs_acted_on(sec: PlanSection, entity: bool)
    ensures
        forall|j: int|
            0 <= j < section_slugs(sec, default_name(entity)).len() ==> acted_on(
                section_actions(sec, entity),
                #[trigger] section_slugs(sec, default_name(entity))[j],
            ),
{
    let d = default_name(entity);
    let acts = section_actions(sec, entity);
    let a1 = sec.create@.map_values(|i: PlanItem| write_action(i, entity, false));
    let a2 = sec.update@.map_values(|i: PlanItem| write_action(i, entity, true));
    let a3 = related_actions(sec.related@);
    assert(acts == a1 + a2 + a3);
    let created = created_slugs(sec.create@, d);
    assert forall|y: Seq<char>| created.contains(y) implies exists|i: int|
        0 <= i < acts.len() && action_slug(#[trigger] acts[i]) == y by {
        let k = choose|k: int| 0 <= k < created.len() && created[k] == y;
        assert(acts[k] == a1[k]);
        assert(action_slug(acts[k]) == y);
    }
    lemma_updated_acted(created, sec, entity, d, sec.update@.len() as int);
    lemma_related_acted(with_updated(created, sec.update@, d), sec, entity, d, sec.related@.len() as int);
    assert(sec.related@.take(sec.related@.len() as int) =~= sec.related@);
    let all = section_slugs(sec, d);
    assert forall|j: int|
        0 <= j < section_slugs(sec, default_name(entity)).len() implies acted_on(
            section_actions(sec, entity),
            #[trigger] section_slugs(sec, default_name(entity))[j],
        ) by {
        assert(all.contains(all[j]));
        let y = all[j];
        assert(with_related(with_updated(created, sec.update@, d), sec.related@.take(
            sec.related@.len() as int,
        )).contains(y));
    }
}

proof fn lemma_push_unique_members(list: Seq<Seq<char>>, x: Seq<char>, y: Seq<char>)
    requires
        push_unique(list, x).contains(y),
    ensures
        list.contains(y) || y == x,
{
    if !list.contains(x) && !list.contains(y) {
        let i = choose|i: int| 0 <= i < list.push(x).len() && list.push(x)[i] == y;
        if i < list.len() {
            assert(list[i] == y);
        }
    }
}

proof fn lemma_updated_acted(
    created: Seq<Seq<char>>,
    sec: PlanSection,
    entity: bool,
    d: Seq<char>,
    n: int,
)
    requires
        0 <= n <= sec.update@.len(),
        d == default_name(entity),
        created == created_slugs(sec.create@, d),
        forall|y: Seq<char>| created.contains(y) ==> exists|i: int|
            0 <= i < section_actions(sec, entity).len() && action_slug(
                #[trigger] section_actions(sec, entity)[i],
            ) == y,
    ensures
        forall|y: Seq<char>| with_updated(created, sec.update@.take(n), d).contains(y) ==> exists|i: int|
            0 <= i < section_actions(sec, entity).len() && action_slug(
                #[trigger] section_actions(sec, entity)[i],
            ) == y,
    decreases n,
{
    let acts = section_actions(sec, entity);
    let a1 = sec.create@.map_values(|i: PlanItem| write_action(i, entity, false));
    let a2 = sec.update@.map_values(|i: PlanItem| write_action(i, entity, true));
    let a3 = related_actions(sec.related@);
    assert(acts == a1 + a2 + a3);
    if n == 0 {
        assert(sec.update@.take(0) =~= Seq::<PlanItem>::empty());
    } else {
        lemma_updated_acted(created, sec, entity, d, n - 1);
        assert(sec.update@.take(n).drop_last() =~= sec.update@.take(n - 1));
        let x = item_slug(sec.update@[n - 1], d);
        assert forall|y: Seq<char>| with_updated(created, sec.update@.take(n), d).contains(y) implies exists|
            i: int,
        | 0 <= i < acts.len() && action_slug(#[trigger] acts[i]) == y by {
            lemma_push_unique_members(with_updated(created, sec.update@.take(n - 1), d), x, y);
            if y == x {
                let i = a1.len() + n - 1;
                assert(acts[i] == a2[n - 1]);
                assert(action_slug(acts[i]) == y);
            }
        }
    }
}

proof fn lemma_related_acted(
    updated: Seq<Seq<char>>,
    sec: PlanSection,
    entity: bool,
    d: Seq<char>,
    n: int,
)
    requires
        0 <= n <= sec.related@.len(),
        d == default_name(entity),
        updated == with_updated(created_slugs(sec.create@, d), sec.update@, d),
        forall|y: Seq<char>| with_updated(created_slugs(sec.create@, d), sec.update@.take(sec.update@.len() as int), d).contains(y) ==> exists|i: int|
            0 <= i < section_actions(sec, entity).len() && action_slug(
                #[trigger] section_actions(sec, entity)[i],
            ) == y,
    ensures
        forall|y: Seq<char>| with_related(updated, sec.related@.take(n)).contains(y) ==> exists|i: int|
            0 <= i < section_actions(sec, entity).len() && action_slug(
                #[trigger] section_actions(sec, entity)[i],
            ) == y,
    decreases n,
{
    assert(sec.update@.take(sec.update@.len() as int) =~= sec.update@);
    let acts = section_actions(sec, entity);
    let a1 = sec.create@.map_values(|i: PlanItem| write_action(i, entity, false));
    let a2 = sec.update@.map_values(|i: PlanItem| write_action(i, entity, true));
    let a3 = related_actions(sec.related@);
    assert(acts == a1 + a2 + a3);
    if n == 0 {
        assert(sec.related@.take(0) =~= Seq::<Option<String>>::empty());
    } else {
        lemma_related_acted(updated, sec, entity, d, n - 1);
        let r = sec.related@.take(n);
        assert(r.drop_last() =~= sec.related@.take(n - 1));
        let prev = with_related(updated, sec.related@.take(n - 1));
        assert(r.last() == sec.related@[n - 1]);
        assert forall|y: Seq<char>| with_related(updated, r).contains(y) implies exists|i: int|
            0 <= i < acts.len() && action_slug(#[trigger] acts[i]) == y by {
            match sec.related@[n - 1] {
                Some(x) => {
                    assert(with_related(updated, r) == push_unique(prev, slug(x@)));
                    lemma_push_unique_members(prev, slug(x@), y);
                    if y == slug(x@) {
                        lemma_related_action_of(sec.related@, n - 1);
                        let j = choose|j: int|
                            0 <= j < a3.len() && a3[j] == ActionModel::Related(slug(x@));
                        let i = a1.len() + a2.len() + j;
                        assert(acts[i] == a3[j]);
                        assert(action_slug(acts[i]) == y);
                    } else {
                        assert(prev.contains(y));
                    }
                },
                None => {
                    assert(with_related(updated, r) == prev);
                    assert(prev.contains(y));
                },
            }
        }
    }
}

proof fn lemma_related_action_of(related: Seq<Option<String>>, k: int)
    requires
        0 <= k < related.len(),
        related[k] is Some,
    ensures
        exists|j: int|
            0 <= j < related_actions(related).len() && related_actions(related)[j]
                == ActionModel::Related(slug(related[k]->0@)),
    decreases related.len(),
{
    let prev = related_actions(related.drop_last());
    if k < related.len() - 1 {
        lemma_related_action_of(related.drop_last(), k);
        assert(related.drop_last()[k] == related[k]);
        let j = choose|j: int| 0 <= j < prev.len() && prev[j] == ActionModel::Related(slug(related[k]->0@));
        assert(related_actions(related)[j] == prev[j]);
    } else {
        assert(related_actions(related)[prev.len() as int] == ActionModel::Related(slug(related[k]->0@)));
    }
}

/// No slug of `l` at or after position `n` repeats an earlier one.
pub open spec fn distinct_from(l: Seq<Seq<char>>, n: int) -> bool {
    forall|i: int, j: int| 0 <= i < j < l.len() && j >= n ==> #[trigger] l[i] != #[trigger] l[j]
}

proof fn lemma_push_unique_keeps(l: Seq<Seq<char>>, x: Seq<char>, n: int)
    requires
        0 <= n <= l.len(),
        distinct_from(l, n),
    ensures
        distinct_from(push_unique(l, x), n),
        push_unique(l, x).len() >= l.len(),
        forall|k: int| 0 <= k < l.len() ==> #[trigger] push_unique(l, x)[k] == l[k],
{
    if !l.contains(x) {
        let r = l.push(x);
        assert forall|i: int, j: int| 0 <= i < j < r.len() && j >= n implies #[trigger] r[i] != #[trigger] r[j] by {
            if j == l.len() {
                assert(r[i] == l[i]);
                if l[i] == x {
                    assert(l.contains(x));
                }
            } else {
                assert(r[i] == l[i] && r[j] == l[j]);
            }
        }
    }
}

proof fn lemma_with_updated_keeps(l: Seq<Seq<char>>, items: Seq<PlanItem>, d: Seq<char>, n: int)
    requires
        0 <= n <= l.len(),
        distinct_from(l, n),
    ensures
        distinct_from(with_updated(l, items, d), n),
        with_updated(l, items, d).len() >= l.len(),
        forall|k: int| 0 <= k < l.len() ==> #[trigger] with_updated(l, items, d)[k] == l[k],
    decreases items.len(),
{
    if items.len() > 0 {
        let prev = with_updated(l, items.drop_last(), d);
        lemma_with_updated_keeps(l, items.drop_last(), d, n);
        lemma_push_unique_keeps(prev, item_slug(items.last(), d), n);
        assert forall|k: int| 0 <= k < l.len() implies #[trigger] with_updated(l, items, d)[k] == l[k] by {
            assert(prev[k] == l[k]);
        }
    }
}

proof fn lemma_with_related_keeps(l: Seq<Seq<char>>, related: Seq<Option<String>>, n: int)
    requires
        0 <= n <= l.len(),
        distinct_from(l, n),
    ensures
        distinct_from(with_related(l, related), n),
        with_related(l, related).len() >= l.len(),
        forall|k: int| 0 <= k < l.len() ==> #[trigger] with_related(l, related)[k] == l[k],
    decreases related.len(),
{
    if related.len() > 0 {
        let prev = with_related(l, related.drop_last());
        lemma_with_related_keeps(l, related.drop_last(), n);
        match ostr(related.last()) {
            Some(x) => {
                lemma_push_unique_keeps(prev, slug(x), n);
                assert forall|k: int| 0 <= k < l.len() implies #[trigger] with_related(l, related)[k]
                    == l[k] by {
                    assert(prev[k] == l[k]);
                }
            },
            None => {},
        }
    }
}

/// The slugs a section links start with the slugs of its created pages, in order (one
/// per created page), and the pages to update and the related pages add only slugs not
/// listed before.
pub proof fn law_section_slugs_order(sec: PlanSection, entity: bool)
    ensures
        section_slugs(sec, default_name(entity)).len() >= sec.create@.len(),
        forall|k: int|
            0 <= k < sec.create@.len() ==> #[trigger] section_slugs(sec, default_name(entity))[k]
                == item_slug(sec.create@[k], default_name(entity)),
        distinct_from(section_slugs(sec, default_name(entity)), sec.create@.len() as int),
{
    let d = default_name(entity);
    let created = created_slugs(sec.create@, d);
    let n = sec.create@.len() as int;
    assert(distinct_from(created, n));
    lemma_with_updated_keeps(created, sec.update@, d, n);
    let updated = with_updated(created, sec.update@, d);
    lemma_with_related_keeps(updated, sec.related@, n);
    assert forall|k: int| 0 <= k < n implies #[trigger] section_slugs(sec, d)[k] == item_slug(
        sec.create@[k],
        d,
    ) by {
        assert(updated[k] == created[k]);
    }
}

} // verus!
