//! What holds of merging settings: nothing that is there is lost, and a
//! second merge of the same settings changes nothing.

use crate::config::{
    category_position, interface_position, lemma_category_position, lemma_first_true,
    lemma_interface_position, merged_config, merged_config_categories, merged_config_interfaces,
    merged_config_projects, project_position, lemma_first_true_is_first, YapiCategoryModel,
    YapiConfigModel, YapiInterfaceModel, YapiProjectModel,
};
use vstd::prelude::*;

verus! {

/// An interface that is added at the end moves no interface that was found,
/// and is found itself.
pub proof fn lemma_interface_position_push(
    interfaces: Seq<YapiInterfaceModel>,
    added: YapiInterfaceModel,
    id: Seq<char>,
)
    ensures
        interface_position(interfaces, id) < interfaces.len() ==> interface_position(
            interfaces.push(added),
            id,
        ) == interface_position(interfaces, id),
        added.id == id ==> interface_position(interfaces.push(added), id) < interfaces.len() + 1,
{
    lemma_interface_position(interfaces, id);
    let p = interface_position(interfaces, id);
    let grown = interfaces.push(added);
    let flags = Seq::new(grown.len(), |i: int| grown[i].id == id);
    if p < interfaces.len() {
        assert forall|j: int| 0 <= j < p implies !flags[j] by {
            assert(grown[j] == interfaces[j]);
        }
        assert(grown[p] == interfaces[p]);
        lemma_first_true(flags, p);
    } else if added.id == id {
        assert forall|j: int| 0 <= j < interfaces.len() implies !flags[j] by {
            assert(grown[j] == interfaces[j]);
        }
        lemma_first_true(flags, interfaces.len() as int);
    }
}

/// Whether each identifier of `others` is found among `interfaces`.
pub open spec fn holds_interfaces(
    interfaces: Seq<YapiInterfaceModel>,
    others: Seq<YapiInterfaceModel>,
) -> bool {
    forall|j: int|
        0 <= j < others.len() ==> interface_position(interfaces, (#[trigger] others[j]).id)
            < interfaces.len()
}

/// Merging interfaces loses none: an identifier that was found, or that one
/// of `others` has, is found afterwards.
pub proof fn lemma_merged_interfaces_finds(
    source: Seq<YapiInterfaceModel>,
    others: Seq<YapiInterfaceModel>,
    id: Seq<char>,
)
    requires
        interface_position(source, id) < source.len() || exists|j: int|
            0 <= j < others.len() && (#[trigger] others[j]).id == id,
    ensures
        interface_position(merged_config_interfaces(source, others), id)
            < merged_config_interfaces(source, others).len(),
    decreases others.len(),
{
    if others.len() > 0 {
        let rest = others.drop_last();
        let merged = merged_config_interfaces(source, rest);
        let last = others.last();
        if interface_position(source, id) < source.len() || exists|j: int|
            0 <= j < rest.len() && (#[trigger] rest[j]).id == id {
            lemma_merged_interfaces_finds(source, rest, id);
            lemma_interface_position_push(merged, last, id);
        } else {
            let j = choose|j: int| 0 <= j < others.len() && (#[trigger] others[j]).id == id;
            if j < rest.len() {
                assert(rest[j].id == id);
            }
            assert(last.id == id);
            lemma_interface_position_push(merged, last, id);
        }
    }
}

/// After merging, each identifier of `others` is found, and so is each that
/// `source` held of any list.
pub proof fn lemma_merged_interfaces_hold(
    source: Seq<YapiInterfaceModel>,
    others: Seq<YapiInterfaceModel>,
    held: Seq<YapiInterfaceModel>,
)
    requires
        holds_interfaces(source, held),
    ensures
        holds_interfaces(merged_config_interfaces(source, others), others),
        holds_interfaces(merged_config_interfaces(source, others), held),
{
    let merged = merged_config_interfaces(source, others);
    assert forall|j: int| 0 <= j < others.len() implies interface_position(
        merged,
        (#[trigger] others[j]).id,
    ) < merged.len() by {
        lemma_merged_interfaces_finds(source, others, others[j].id);
    }
    assert forall|j: int| 0 <= j < held.len() implies interface_position(
        merged,
        (#[trigger] held[j]).id,
    ) < merged.len() by {
        lemma_merged_interfaces_finds(source, others, held[j].id);
    }
}

/// Where each identifier of `others` is found, merging adds nothing.
pub proof fn lemma_merged_interfaces_nothing_new(
    source: Seq<YapiInterfaceModel>,
    others: Seq<YapiInterfaceModel>,
)
    requires
        holds_interfaces(source, others),
    ensures
        merged_config_interfaces(source, others) == source,
    decreases others.len(),
{
    if others.len() > 0 {
        let rest = others.drop_last();
        assert forall|j: int| 0 <= j < rest.len() implies interface_position(
            source,
            (#[trigger] rest[j]).id,
        ) < source.len() by {
            assert(rest[j] == others[j]);
        }
        lemma_merged_interfaces_nothing_new(source, rest);
        assert(others.last() == others[others.len() - 1]);
    }
}

/// A list of interfaces holds each of its own identifiers.
pub proof fn lemma_holds_own_interfaces(interfaces: Seq<YapiInterfaceModel>)
    ensures
        holds_interfaces(interfaces, interfaces),
{
    assert forall|j: int| 0 <= j < interfaces.len() implies interface_position(
        interfaces,
        (#[trigger] interfaces[j]).id,
    ) < interfaces.len() by {
        lemma_interface_position(interfaces, interfaces[j].id);
        if interface_position(interfaces, interfaces[j].id) >= interfaces.len() {
            assert(interfaces[j].id != interfaces[j].id);
        }
    }
}

/// A second merge of the same interfaces changes nothing.
pub proof fn lemma_merged_interfaces_twice(
    source: Seq<YapiInterfaceModel>,
    others: Seq<YapiInterfaceModel>,
)
    ensures
        merged_config_interfaces(merged_config_interfaces(source, others), others)
            == merged_config_interfaces(source, others),
{
    lemma_merged_interfaces_hold(source, others, Seq::empty());
    lemma_merged_interfaces_nothing_new(merged_config_interfaces(source, others), others);
}

/// One step of merging categories: `other` merged into `categories`.
pub open spec fn with_merged_category(
    categories: Seq<YapiCategoryModel>,
    other: YapiCategoryModel,
) -> Seq<YapiCategoryModel> {
    let c = category_position(categories, other.id);
    if c < categories.len() {
        categories.update(
            c,
            YapiCategoryModel {
                interfaces: merged_config_interfaces(categories[c].interfaces, other.interfaces),
                ..categories[c]
            },
        )
    } else {
        categories.push(other)
    }
}

/// Whether `categories` has the category `other` and, in the first with its
/// identifier, each of its interfaces.
pub open spec fn holds_category(categories: Seq<YapiCategoryModel>, other: YapiCategoryModel) -> bool {
    let c = category_position(categories, other.id);
    c < categories.len() && holds_interfaces(categories[c].interfaces, other.interfaces)
}

/// Where two lists of categories have the same identifiers in the same
/// places, an identifier is found at the same place in both.
pub proof fn lemma_category_position_same_ids(
    a: Seq<YapiCategoryModel>,
    b: Seq<YapiCategoryModel>,
    id: Seq<char>,
)
    requires
        a.len() == b.len(),
        forall|j: int| 0 <= j < a.len() ==> (#[trigger] a[j]).id == b[j].id,
    ensures
        category_position(a, id) == category_position(b, id),
{
    lemma_category_position(a, id);
    let p = category_position(a, id);
    let flags = Seq::new(b.len(), |i: int| b[i].id == id);
    assert forall|j: int| 0 <= j < p implies !flags[j] by {
        assert(a[j].id == b[j].id);
    }
    if p < a.len() {
        assert(a[p].id == b[p].id);
    }
    lemma_first_true(flags, p);
}

/// One step of merging keeps what the categories held, and makes them hold
/// the category that was merged.
pub proof fn lemma_with_merged_category_holds(
    categories: Seq<YapiCategoryModel>,
    other: YapiCategoryModel,
    held: YapiCategoryModel,
)
    requires
        holds_category(categories, held),
    ensures
        holds_category(with_merged_category(categories, other), other),
        holds_category(with_merged_category(categories, other), held),
{
    let c = category_position(categories, other.id);
    let h = category_position(categories, held.id);
    let after = with_merged_category(categories, other);
    lemma_category_position(categories, other.id);
    lemma_category_position(categories, held.id);
    if c < categories.len() {
        assert forall|j: int| 0 <= j < categories.len() implies (#[trigger] after[j]).id
            == categories[j].id by {}
        lemma_category_position_same_ids(after, categories, other.id);
        lemma_category_position_same_ids(after, categories, held.id);
        lemma_merged_interfaces_hold(
            categories[c].interfaces,
            other.interfaces,
            if h == c {
                held.interfaces
            } else {
                Seq::empty()
            },
        );
    } else {
        crate::config::lemma_category_position_push(categories, other, other.id);
        crate::config::lemma_category_position_push(categories, other, held.id);
        let flags = Seq::new(after.len(), |i: int| after[i].id == other.id);
        assert forall|j: int| 0 <= j < categories.len() implies !flags[j] by {
            assert(after[j] == categories[j]);
        }
        lemma_first_true(flags, categories.len() as int);
        lemma_holds_own_interfaces(other.interfaces);
        assert(after[h] == categories[h]);
    }
}

/// Whether `categories` holds each category of `others`.
pub open spec fn holds_categories(
    categories: Seq<YapiCategoryModel>,
    others: Seq<YapiCategoryModel>,
) -> bool {
    forall|j: int| 0 <= j < others.len() ==> holds_category(categories, #[trigger] others[j])
}

/// Merging categories is one step for each of `others`, in their order.
pub proof fn lemma_merged_categories_step(
    source: Seq<YapiCategoryModel>,
    others: Seq<YapiCategoryModel>,
)
    requires
        others.len() > 0,
    ensures
        merged_config_categories(source, others) == with_merged_category(
            merged_config_categories(source, others.drop_last()),
            others.last(),
        ),
{
}

/// After merging, the categories hold each category of `others`, and each
/// that `source` held of any list.
pub proof fn lemma_merged_categories_hold(
    source: Seq<YapiCategoryModel>,
    others: Seq<YapiCategoryModel>,
    held: Seq<YapiCategoryModel>,
)
    requires
        holds_categories(source, held),
    ensures
        holds_categories(merged_config_categories(source, others), others),
        holds_categories(merged_config_categories(source, others), held),
    decreases others.len(),
{
    if others.len() > 0 {
        let rest = others.drop_last();
        let before = merged_config_categories(source, rest);
        let last = others.last();
        lemma_merged_categories_hold(source, rest, held);
        lemma_merged_categories_step(source, others);
        let after = with_merged_category(before, last);
        assert forall|j: int| 0 <= j < others.len() implies holds_category(
            after,
            #[trigger] others[j],
        ) by {
            if j < rest.len() {
                assert(rest[j] == others[j]);
                lemma_with_merged_category_holds(before, last, rest[j]);
            } else {
                lemma_with_merged_category_first(before, last);
            }
        }
        assert forall|j: int| 0 <= j < held.len() implies holds_category(
            after,
            #[trigger] held[j],
        ) by {
            lemma_with_merged_category_holds(before, last, held[j]);
        }
    }
}

/// One step of merging makes the categories hold the category that was
/// merged.
pub proof fn lemma_with_merged_category_first(
    categories: Seq<YapiCategoryModel>,
    other: YapiCategoryModel,
)
    ensures
        holds_category(with_merged_category(categories, other), other),
{
    let c = category_position(categories, other.id);
    let after = with_merged_category(categories, other);
    lemma_category_position(categories, other.id);
    if c < categories.len() {
        assert forall|j: int| 0 <= j < categories.len() implies (#[trigger] after[j]).id
            == categories[j].id by {}
        lemma_category_position_same_ids(after, categories, other.id);
        lemma_merged_interfaces_hold(categories[c].interfaces, other.interfaces, Seq::empty());
    } else {
        let flags = Seq::new(after.len(), |i: int| after[i].id == other.id);
        assert forall|j: int| 0 <= j < categories.len() implies !flags[j] by {
            assert(after[j] == categories[j]);
        }
        lemma_first_true(flags, categories.len() as int);
        lemma_holds_own_interfaces(other.interfaces);
    }
}

/// Where the categories hold each category of `others`, merging changes
/// nothing.
pub proof fn lemma_merged_categories_nothing_new(
    source: Seq<YapiCategoryModel>,
    others: Seq<YapiCategoryModel>,
)
    requires
        holds_categories(source, others),
    ensures
        merged_config_categories(source, others) == source,
    decreases others.len(),
{
    if others.len() > 0 {
        let rest = others.drop_last();
        assert forall|j: int| 0 <= j < rest.len() implies holds_category(
            source,
            #[trigger] rest[j],
        ) by {
            assert(rest[j] == others[j]);
        }
        lemma_merged_categories_nothing_new(source, rest);
        let last = others.last();
        assert(last == others[others.len() - 1]);
        assert(holds_category(source, others[others.len() - 1]));
        let c = category_position(source, last.id);
        lemma_category_position(source, last.id);
        lemma_merged_interfaces_nothing_new(source[c].interfaces, last.interfaces);
        assert(source.update(c, source[c]) =~= source);
    }
}

/// A second merge of the same categories changes nothing.
pub proof fn lemma_merged_categories_twice(
    source: Seq<YapiCategoryModel>,
    others: Seq<YapiCategoryModel>,
)
    ensures
        merged_config_categories(merged_config_categories(source, others), others)
            == merged_config_categories(source, others),
{
    lemma_merged_categories_hold(source, others, Seq::empty());
    lemma_merged_categories_nothing_new(merged_config_categories(source, others), others);
}

/// What `project_position` gives is the least index of a project with the
/// identifier, or the number of projects where there is none.
pub proof fn lemma_project_position(projects: Seq<YapiProjectModel>, id: Seq<char>)
    ensures
        0 <= project_position(projects, id) <= projects.len(),
        forall|j: int|
            0 <= j < project_position(projects, id) ==> (#[trigger] projects[j]).project_id != id,
        project_position(projects, id) < projects.len() ==> projects[project_position(
            projects,
            id,
        )].project_id == id,
{
    let flags = Seq::new(projects.len(), |i: int| projects[i].project_id == id);
    lemma_first_true_is_first(flags);
    assert forall|j: int| 0 <= j < project_position(projects, id) implies (
    #[trigger] projects[j]).project_id != id by {
        assert(!flags[j]);
    }
    if project_position(projects, id) < projects.len() {
        assert(flags[project_position(projects, id)]);
    }
}

/// Where the first `n` projects of two lists have the same identifiers, and
/// an identifier is found among them in the one, it is found at the same
/// place in the other.
pub proof fn lemma_project_position_same_ids(
    a: Seq<YapiProjectModel>,
    b: Seq<YapiProjectModel>,
    id: Seq<char>,
)
    requires
        a.len() <= b.len(),
        forall|j: int| 0 <= j < a.len() ==> (#[trigger] a[j]).project_id == b[j].project_id,
        project_position(a, id) < a.len(),
    ensures
        project_position(b, id) == project_position(a, id),
{
    lemma_project_position(a, id);
    let p = project_position(a, id);
    let flags = Seq::new(b.len(), |i: int| b[i].project_id == id);
    assert forall|j: int| 0 <= j < p implies !flags[j] by {
        assert(a[j].project_id == b[j].project_id);
    }
    assert(a[p].project_id == b[p].project_id);
    lemma_first_true(flags, p);
}

/// One step of merging projects: `other` merged into `projects`.
pub open spec fn with_merged_config_project(
    projects: Seq<YapiProjectModel>,
    other: YapiProjectModel,
) -> Seq<YapiProjectModel> {
    let p = project_position(projects, other.project_id);
    if p < projects.len() {
        projects.update(
            p,
            YapiProjectModel {
                categories: merged_config_categories(projects[p].categories, other.categories),
                ..projects[p]
            },
        )
    } else {
        projects.push(other)
    }
}

/// Whether no two categories of a project have the same identifier.
pub open spec fn distinct_categories(project: YapiProjectModel) -> bool {
    forall|j: int|
        0 <= j < project.categories.len() ==> category_position(
            project.categories,
            (#[trigger] project.categories[j]).id,
        ) == j
}

/// Whether `projects` has the project `other` and, in the first with its
/// identifier, each of its categories with each of their interfaces.
pub open spec fn holds_project(projects: Seq<YapiProjectModel>, other: YapiProjectModel) -> bool {
    let p = project_position(projects, other.project_id);
    p < projects.len() && holds_categories(projects[p].categories, other.categories)
}

/// Whether `projects` holds each project of `others`.
pub open spec fn holds_projects(projects: Seq<YapiProjectModel>, others: Seq<YapiProjectModel>) -> bool {
    forall|j: int| 0 <= j < others.len() ==> holds_project(projects, #[trigger] others[j])
}

/// A project whose categories have distinct identifiers holds each of them.
pub proof fn lemma_holds_own_categories(project: YapiProjectModel)
    requires
        distinct_categories(project),
    ensures
        holds_categories(project.categories, project.categories),
{
    assert forall|j: int| 0 <= j < project.categories.len() implies holds_category(
        project.categories,
        #[trigger] project.categories[j],
    ) by {
        lemma_holds_own_interfaces(project.categories[j].interfaces);
    }
}

/// One step of merging makes the projects hold the project that was merged,
/// where that is not added with two categories of one identifier.
pub proof fn lemma_with_merged_project_first(
    projects: Seq<YapiProjectModel>,
    other: YapiProjectModel,
)
    requires
        distinct_categories(other),
    ensures
        holds_project(with_merged_config_project(projects, other), other),
{
    let p = project_position(projects, other.project_id);
    let after = with_merged_config_project(projects, other);
    lemma_project_position(projects, other.project_id);
    if p < projects.len() {
        assert forall|j: int| 0 <= j < projects.len() implies (#[trigger] projects[j]).project_id
            == after[j].project_id by {}
        lemma_project_position_same_ids(projects, after, other.project_id);
        lemma_merged_categories_hold(projects[p].categories, other.categories, Seq::empty());
    } else {
        let flags = Seq::new(after.len(), |i: int| after[i].project_id == other.project_id);
        assert forall|j: int| 0 <= j < projects.len() implies !flags[j] by {
            assert(after[j] == projects[j]);
        }
        lemma_first_true(flags, projects.len() as int);
        lemma_holds_own_categories(other);
    }
}

/// One step of merging keeps what the projects held.
pub proof fn lemma_with_merged_project_holds(
    projects: Seq<YapiProjectModel>,
    other: YapiProjectModel,
    held: YapiProjectModel,
)
    requires
        holds_project(projects, held),
    ensures
        holds_project(with_merged_config_project(projects, other), held),
{
    let p = project_position(projects, other.project_id);
    let h = project_position(projects, held.project_id);
    let after = with_merged_config_project(projects, other);
    lemma_project_position(projects, other.project_id);
    lemma_project_position(projects, held.project_id);
    assert forall|j: int| 0 <= j < projects.len() implies (#[trigger] projects[j]).project_id
        == after[j].project_id by {}
    lemma_project_position_same_ids(projects, after, held.project_id);
    if p < projects.len() && p == h {
        lemma_merged_categories_hold(projects[p].categories, other.categories, held.categories);
    } else {
        assert(after[h] == projects[h]);
    }
}

/// Merging projects is one step for each of `others`, in their order.
pub proof fn lemma_merged_projects_step(
    source: Seq<YapiProjectModel>,
    others: Seq<YapiProjectModel>,
)
    requires
        others.len() > 0,
    ensures
        merged_config_projects(source, others) == with_merged_config_project(
            merged_config_projects(source, others.drop_last()),
            others.last(),
        ),
{
}

/// After merging, the projects hold each project of `others`, where none of
/// those has two categories of one identifier.
pub proof fn lemma_merged_projects_hold(
    source: Seq<YapiProjectModel>,
    others: Seq<YapiProjectModel>,
)
    requires
        forall|j: int| 0 <= j < others.len() ==> distinct_categories(#[trigger] others[j]),
    ensures
        holds_projects(merged_config_projects(source, others), others),
    decreases others.len(),
{
    if others.len() > 0 {
        let rest = others.drop_last();
        let before = merged_config_projects(source, rest);
        let last = others.last();
        assert forall|j: int| 0 <= j < rest.len() implies distinct_categories(
            #[trigger] rest[j],
        ) by {
            assert(rest[j] == others[j]);
        }
        lemma_merged_projects_hold(source, rest);
        lemma_merged_projects_step(source, others);
        let after = with_merged_config_project(before, last);
        assert(last == others[others.len() - 1]);
        assert forall|j: int| 0 <= j < others.len() implies holds_project(
            after,
            #[trigger] others[j],
        ) by {
            if j < rest.len() {
                assert(rest[j] == others[j]);
                lemma_with_merged_project_holds(before, last, rest[j]);
            } else {
                lemma_with_merged_project_first(before, last);
            }
        }
    }
}

/// Where the projects hold each project of `others`, merging changes nothing.
pub proof fn lemma_merged_projects_nothing_new(
    source: Seq<YapiProjectModel>,
    others: Seq<YapiProjectModel>,
)
    requires
        holds_projects(source, others),
    ensures
        merged_config_projects(source, others) == source,
    decreases others.len(),
{
    if others.len() > 0 {
        let rest = others.drop_last();
        assert forall|j: int| 0 <= j < rest.len() implies holds_project(
            source,
            #[trigger] rest[j],
        ) by {
            assert(rest[j] == others[j]);
        }
        lemma_merged_projects_nothing_new(source, rest);
        let last = others.last();
        assert(last == others[others.len() - 1]);
        assert(holds_project(source, others[others.len() - 1]));
        let p = project_position(source, last.project_id);
        lemma_project_position(source, last.project_id);
        lemma_merged_categories_nothing_new(source[p].categories, last.categories);
        assert(source.update(p, source[p]) =~= source);
    }
}

/// Repetition: a second merge of the same settings changes nothing, where no
/// project of those settings has two categories of one identifier.
pub proof fn lemma_merged_config_twice(source: YapiConfigModel, other: YapiConfigModel)
    requires
        forall|j: int|
            0 <= j < other.project_list.len() ==> distinct_categories(
                #[trigger] other.project_list[j],
            ),
    ensures
        merged_config(merged_config(source, other), other) == merged_config(source, other),
{
    lemma_merged_projects_hold(source.project_list, other.project_list);
    lemma_merged_projects_nothing_new(
        merged_config_projects(source.project_list, other.project_list),
        other.project_list,
    );
}

/// Merging settings keeps every project that was there in its place, with
/// its identifier, its token and its name.
pub proof fn lemma_merged_projects_keep(
    source: Seq<YapiProjectModel>,
    others: Seq<YapiProjectModel>,
    k: int,
)
    requires
        0 <= k < source.len(),
    ensures
        k < merged_config_projects(source, others).len(),
        merged_config_projects(source, others)[k].project_id == source[k].project_id,
        merged_config_projects(source, others)[k].token == source[k].token,
        merged_config_projects(source, others)[k].project_name == source[k].project_name,
    decreases others.len(),
{
    if others.len() > 0 {
        lemma_merged_projects_keep(source, others.drop_last(), k);
        lemma_merged_projects_step(source, others);
        lemma_project_position(
            merged_config_projects(source, others.drop_last()),
            others.last().project_id,
        );
    }
}

/// Merging settings loses nothing of a project that was there: a category
/// that it held, with its interfaces, it holds afterwards.
pub proof fn lemma_merged_projects_keep_held(
    source: Seq<YapiProjectModel>,
    others: Seq<YapiProjectModel>,
    k: int,
    held: YapiCategoryModel,
)
    requires
        0 <= k < source.len(),
        holds_category(source[k].categories, held),
    ensures
        k < merged_config_projects(source, others).len(),
        holds_category(merged_config_projects(source, others)[k].categories, held),
    decreases others.len(),
{
    lemma_merged_projects_keep(source, others, k);
    if others.len() > 0 {
        let rest = others.drop_last();
        let before = merged_config_projects(source, rest);
        let last = others.last();
        lemma_merged_projects_keep(source, rest, k);
        lemma_merged_projects_keep_held(source, rest, k, held);
        lemma_merged_projects_step(source, others);
        let p = project_position(before, last.project_id);
        lemma_project_position(before, last.project_id);
        if p < before.len() && p == k {
            lemma_merged_categories_hold(before[k].categories, last.categories, seq![held]);
            assert(seq![held][0] == held);
        }
    }
}

} // verus!
