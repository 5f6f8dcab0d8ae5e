//! The settings of a project and the interfaces that it has recorded.

use crate::template::{contains, has_substring};
use crate::text::{decimal, same_text, u32_to_string};
use vstd::prelude::*;

verus! {

/// The mathematical value of a recorded interface.
pub struct YapiInterfaceModel {
    pub id: Seq<char>,
    pub name: Seq<char>,
    pub path: Option<Seq<char>>,
    pub lock: Option<bool>,
}

/// The mathematical value of a recorded category.
pub struct YapiCategoryModel {
    pub id: Seq<char>,
    pub name: Seq<char>,
    pub interfaces: Seq<YapiInterfaceModel>,
}

/// The mathematical value of a recorded project.
pub struct YapiProjectModel {
    pub token: Seq<char>,
    pub project_id: Seq<char>,
    pub project_name: Option<Seq<char>>,
    pub categories: Seq<YapiCategoryModel>,
}

/// The mathematical value of a project's settings.
pub struct YapiConfigModel {
    pub base_url: Seq<char>,
    pub types_path: Seq<char>,
    pub project_list: Seq<YapiProjectModel>,
    pub request_path: Seq<char>,
    pub request_template: Seq<char>,
    pub header_template: Seq<char>,
    pub file_name_template: Seq<char>,
    pub type_import_template: Seq<char>,
}

/// An interface that a category has recorded.
#[derive(Debug, PartialEq)]
pub struct YapiInterface {
    pub id: String,
    pub name: String,
    pub path: Option<String>,
    pub lock: Option<bool>,
}

/// A category of a project, with the interfaces recorded in it.
#[derive(Debug, PartialEq)]
pub struct YapiCategory {
    pub id: String,
    pub name: String,
    pub interfaces: Vec<YapiInterface>,
}

/// A remote project, with the categories recorded in it.
#[derive(Debug, PartialEq)]
pub struct YapiProject {
    pub token: String,
    pub project_id: String,
    pub project_name: Option<String>,
    pub categories: Vec<YapiCategory>,
}

/// The settings of a project.
#[derive(Debug, PartialEq)]
pub struct YapiConfig {
    pub base_url: String,
    pub types_path: String,
    pub project_list: Vec<YapiProject>,
    pub request_path: String,
    pub request_template: String,
    pub header_template: String,
    pub file_name_template: String,
    pub type_import_template: String,
}

/// The settings that a request wants changed.
#[derive(Clone, Debug, PartialEq)]
pub struct YapiConfigRequest {
    pub base_url: Option<String>,
    pub types_path: Option<String>,
    pub request_path: Option<String>,
    pub request_template: Option<String>,
    pub header_template: Option<String>,
    pub file_name_template: Option<String>,
    pub type_import_template: Option<String>,
}

/// A search among the recorded interfaces.
#[derive(Clone, Debug, PartialEq)]
pub struct SearchRequest {
    pub key: Option<String>,
}

/// What the remote service says of a project.
#[derive(Clone, Debug, PartialEq)]
pub struct YapiProjectBaseInfo {
    pub _id: u32,
    pub name: String,
}

/// One interface in the list of a category.
#[derive(Clone, Debug, PartialEq)]
pub struct InterfaceDataItem {
    pub _id: u32,
    pub catid: u32,
    pub title: String,
    pub path: String,
}

/// The interfaces of a category as the remote service lists them.
#[derive(Clone, Debug, PartialEq)]
pub struct CategoryDataList {
    pub count: u32,
    pub total: u32,
    pub list: Vec<InterfaceDataItem>,
}

/// One category in the menu of a project.
#[derive(Clone, Debug, PartialEq)]
pub struct CategoryMenuItem {
    pub _id: u32,
    pub name: String,
    pub interfaces: Option<CategoryDataList>,
}

/// What an optional string holds.
pub open spec fn some_text(s: Option<String>) -> Option<Seq<char>> {
    match s {
        Some(s) => Some(s@),
        None => None,
    }
}

impl View for YapiInterface {
    type V = YapiInterfaceModel;

    open spec fn view(&self) -> YapiInterfaceModel {
        YapiInterfaceModel {
            id: self.id@,
            name: self.name@,
            path: some_text(self.path),
            lock: self.lock,
        }
    }
}

/// What each of the interfaces stands for.
pub open spec fn interface_models(v: Seq<YapiInterface>) -> Seq<YapiInterfaceModel> {
    Seq::new(v.len(), |i: int| v[i]@)
}

impl View for YapiCategory {
    type V = YapiCategoryModel;

    open spec fn view(&self) -> YapiCategoryModel {
        YapiCategoryModel {
            id: self.id@,
            name: self.name@,
            interfaces: interface_models(self.interfaces@),
        }
    }
}

/// What each of the categories stands for.
pub open spec fn category_models(v: Seq<YapiCategory>) -> Seq<YapiCategoryModel> {
    Seq::new(v.len(), |i: int| v[i]@)
}

impl View for YapiProject {
    type V = YapiProjectModel;

    open spec fn view(&self) -> YapiProjectModel {
        YapiProjectModel {
            token: self.token@,
            project_id: self.project_id@,
            project_name: some_text(self.project_name),
            categories: category_models(self.categories@),
        }
    }
}

/// What each of the projects stands for.
pub open spec fn project_models(v: Seq<YapiProject>) -> Seq<YapiProjectModel> {
    Seq::new(v.len(), |i: int| v[i]@)
}

/// A copy of an optional string.
fn copy_text(text: &Option<String>) -> (r: Option<String>)
    ensures
        some_text(r) == some_text(*text),
{
    match text {
        Some(text) => Some(text.clone()),
        None => None,
    }
}

impl Clone for YapiInterface {
    /// A copy of the interface.
    fn clone(&self) -> (r: Self)
        ensures
            r@ == self@,
    {
        YapiInterface {
            id: self.id.clone(),
            name: self.name.clone(),
            path: copy_text(&self.path),
            lock: self.lock,
        }
    }
}

impl Clone for YapiCategory {
    /// A copy of the category and of its interfaces.
    fn clone(&self) -> (r: Self)
        ensures
            r@ == self@,
    {
        let mut interfaces: Vec<YapiInterface> = Vec::new();
        let mut i: usize = 0;
        while i < self.interfaces.len()
            invariant
                i <= self.interfaces.len(),
                interface_models(interfaces@) == interface_models(self.interfaces@).take(i as int),
            decreases self.interfaces.len() - i,
        {
            let ghost before = interface_models(interfaces@);
            interfaces.push(self.interfaces[i].clone());
            assert(interface_models(interfaces@) =~= before.push(self.interfaces@[i as int]@));
            assert(interface_models(self.interfaces@).take(i + 1) =~= interface_models(
                self.interfaces@,
            ).take(i as int).push(self.interfaces@[i as int]@));
            i += 1;
        }
        assert(interface_models(self.interfaces@).take(i as int) =~= interface_models(
            self.interfaces@,
        ));
        YapiCategory { id: self.id.clone(), name: self.name.clone(), interfaces }
    }
}

impl Clone for YapiProject {
    /// A copy of the project and of its categories.
    fn clone(&self) -> (r: Self)
        ensures
            r@ == self@,
    {
        let mut categories: Vec<YapiCategory> = Vec::new();
        let mut i: usize = 0;
        while i < self.categories.len()
            invariant
                i <= self.categories.len(),
                category_models(categories@) == category_models(self.categories@).take(i as int),
            decreases self.categories.len() - i,
        {
            let ghost before = category_models(categories@);
            categories.push(self.categories[i].clone());
            assert(category_models(categories@) =~= before.push(self.categories@[i as int]@));
            assert(category_models(self.categories@).take(i + 1) =~= category_models(
                self.categories@,
            ).take(i as int).push(self.categories@[i as int]@));
            i += 1;
        }
        assert(category_models(self.categories@).take(i as int) =~= category_models(
            self.categories@,
        ));
        YapiProject {
            token: self.token.clone(),
            project_id: self.project_id.clone(),
            project_name: copy_text(&self.project_name),
            categories,
        }
    }
}

impl View for YapiConfig {
    type V = YapiConfigModel;

    open spec fn view(&self) -> YapiConfigModel {
        YapiConfigModel {
            base_url: self.base_url@,
            types_path: self.types_path@,
            project_list: project_models(self.project_list@),
            request_path: self.request_path@,
            request_template: self.request_template@,
            header_template: self.header_template@,
            file_name_template: self.file_name_template@,
            type_import_template: self.type_import_template@,
        }
    }
}

/// Settings with every text empty and no project.
pub open spec fn empty_config() -> YapiConfigModel {
    YapiConfigModel {
        base_url: Seq::empty(),
        types_path: Seq::empty(),
        project_list: Seq::empty(),
        request_path: Seq::empty(),
        request_template: Seq::empty(),
        header_template: Seq::empty(),
        file_name_template: Seq::empty(),
        type_import_template: Seq::empty(),
    }
}

/// The new text where the request has one, else the old.
pub open spec fn replaced(old_text: Seq<char>, new_text: Option<String>) -> Seq<char> {
    match new_text {
        Some(text) => text@,
        None => old_text,
    }
}

/// The settings after a request: each text that the request holds replaces
/// the old one; the projects stay.
pub open spec fn merged_request(config: YapiConfigModel, request: YapiConfigRequest) -> YapiConfigModel {
    YapiConfigModel {
        base_url: replaced(config.base_url, request.base_url),
        types_path: replaced(config.types_path, request.types_path),
        project_list: config.project_list,
        request_path: replaced(config.request_path, request.request_path),
        request_template: replaced(config.request_template, request.request_template),
        header_template: replaced(config.header_template, request.header_template),
        file_name_template: replaced(config.file_name_template, request.file_name_template),
        type_import_template: replaced(config.type_import_template, request.type_import_template),
    }
}

impl Default for YapiConfig {
    /// Settings with every text empty and no project.
    fn default() -> (r: Self)
        ensures
            r@ == empty_config(),
    {
        let config = YapiConfig {
            base_url: String::new(),
            types_path: String::new(),
            project_list: Vec::new(),
            request_path: String::new(),
            request_template: String::new(),
            header_template: String::new(),
            file_name_template: String::new(),
            type_import_template: String::new(),
        };
        assert(config@.project_list =~= Seq::<YapiProjectModel>::empty());
        config
    }
}

impl YapiConfig {
    /// Settings with every text empty and no project.
    pub fn new() -> (r: Self)
        ensures
            r@ == empty_config(),
    {
        YapiConfig::default()
    }

    /// Takes over each text that the request holds.
    pub fn merge_from_request(&mut self, yapi_config_request: YapiConfigRequest)
        ensures
            final(self)@ == merged_request(old(self)@, yapi_config_request),
    {
        if let Some(base_url) = yapi_config_request.base_url {
            self.base_url = base_url;
        }
        if let Some(types_path) = yapi_config_request.types_path {
            self.types_path = types_path;
        }
        if let Some(request_path) = yapi_config_request.request_path {
            self.request_path = request_path;
        }
        if let Some(request_template) = yapi_config_request.request_template {
            self.request_template = request_template;
        }
        if let Some(header_template) = yapi_config_request.header_template {
            self.header_template = header_template;
        }
        if let Some(file_name_template) = yapi_config_request.file_name_template {
            self.file_name_template = file_name_template;
        }
        if let Some(type_import_template) = yapi_config_request.type_import_template {
            self.type_import_template = type_import_template;
        }
    }
}

/// Whether `i` is the least index at which `flags` is true, or its length
/// where it is true nowhere.
pub open spec fn is_first_true(flags: Seq<bool>, i: int) -> bool {
    &&& 0 <= i <= flags.len()
    &&& forall|j: int| 0 <= j < i ==> !flags[j]
    &&& i < flags.len() ==> flags[i]
}

/// The least index at which `flags` is true, or its length where it is true
/// nowhere.
pub open spec fn first_true(flags: Seq<bool>) -> int {
    choose|i: int| is_first_true(flags, i)
}

/// The index that is the first true one is what `first_true` gives.
pub proof fn lemma_first_true(flags: Seq<bool>, i: int)
    requires
        is_first_true(flags, i),
    ensures
        first_true(flags) == i,
{
    let k = first_true(flags);
    assert(is_first_true(flags, k));
    if k < i {
        assert(!flags[k]);
    } else if i < k {
        assert(!flags[i]);
    }
}

/// Where `flags` is false before `n`, it has a first true index.
proof fn lemma_first_true_from(flags: Seq<bool>, n: int)
    requires
        0 <= n <= flags.len(),
        forall|j: int| 0 <= j < n ==> !flags[j],
    ensures
        exists|i: int| is_first_true(flags, i),
    decreases flags.len() - n,
{
    if n == flags.len() || flags[n] {
        assert(is_first_true(flags, n));
    } else {
        lemma_first_true_from(flags, n + 1);
    }
}

/// `first_true` is what its name says.
pub proof fn lemma_first_true_is_first(flags: Seq<bool>)
    ensures
        is_first_true(flags, first_true(flags)),
{
    lemma_first_true_from(flags, 0);
}

/// Where the first project with the identifier `id` stands; the number of
/// projects where there is none.
pub open spec fn project_position(projects: Seq<YapiProjectModel>, id: Seq<char>) -> int {
    first_true(Seq::new(projects.len(), |i: int| projects[i].project_id == id))
}

/// Where the first category with the identifier `id` stands; the number of
/// categories where there is none.
pub open spec fn category_position(categories: Seq<YapiCategoryModel>, id: Seq<char>) -> int {
    first_true(Seq::new(categories.len(), |i: int| categories[i].id == id))
}

/// Where the first interface with the identifier `id` stands; the number of
/// interfaces where there is none.
pub open spec fn interface_position(interfaces: Seq<YapiInterfaceModel>, id: Seq<char>) -> int {
    first_true(Seq::new(interfaces.len(), |i: int| interfaces[i].id == id))
}

/// Whether a project has a category with the identifier `id`.
pub open spec fn has_category(project: YapiProjectModel, id: Seq<char>) -> bool {
    category_position(project.categories, id) < project.categories.len()
}

/// Where the first project with a category `id` stands; the number of
/// projects where there is none.
pub open spec fn category_home(projects: Seq<YapiProjectModel>, id: Seq<char>) -> int {
    first_true(Seq::new(projects.len(), |i: int| has_category(projects[i], id)))
}

/// Finds the first project with the identifier `id`.
pub fn find_project(projects: &Vec<YapiProject>, id: &str) -> (r: usize)
    ensures
        r == project_position(project_models(projects@), id@),
        r <= projects.len(),
{
    let ghost models = project_models(projects@);
    let ghost flags = Seq::new(models.len(), |i: int| models[i].project_id == id@);
    let mut i: usize = 0;
    while i < projects.len()
        invariant
            i <= projects.len(),
            models == project_models(projects@),
            flags == Seq::new(models.len(), |i: int| models[i].project_id == id@),
            forall|j: int| 0 <= j < i ==> !flags[j],
        decreases projects.len() - i,
    {
        if same_text(projects[i].project_id.as_str(), id) {
            proof {
                lemma_first_true(flags, i as int);
            }
            return i;
        }
        i += 1;
    }
    proof {
        lemma_first_true(flags, i as int);
    }
    i
}

/// Finds the first category with the identifier `id`.
pub fn find_category(categories: &Vec<YapiCategory>, id: &str) -> (r: usize)
    ensures
        r == category_position(category_models(categories@), id@),
        r <= categories.len(),
{
    let ghost models = category_models(categories@);
    let ghost flags = Seq::new(models.len(), |i: int| models[i].id == id@);
    let mut i: usize = 0;
    while i < categories.len()
        invariant
            i <= categories.len(),
            models == category_models(categories@),
            flags == Seq::new(models.len(), |i: int| models[i].id == id@),
            forall|j: int| 0 <= j < i ==> !flags[j],
        decreases categories.len() - i,
    {
        if same_text(categories[i].id.as_str(), id) {
            proof {
                lemma_first_true(flags, i as int);
            }
            return i;
        }
        i += 1;
    }
    proof {
        lemma_first_true(flags, i as int);
    }
    i
}

/// Finds the first interface with the identifier `id`.
pub fn find_interface(interfaces: &Vec<YapiInterface>, id: &str) -> (r: usize)
    ensures
        r == interface_position(interface_models(interfaces@), id@),
        r <= interfaces.len(),
{
    let ghost models = interface_models(interfaces@);
    let ghost flags = Seq::new(models.len(), |i: int| models[i].id == id@);
    let mut i: usize = 0;
    while i < interfaces.len()
        invariant
            i <= interfaces.len(),
            models == interface_models(interfaces@),
            flags == Seq::new(models.len(), |i: int| models[i].id == id@),
            forall|j: int| 0 <= j < i ==> !flags[j],
        decreases interfaces.len() - i,
    {
        if same_text(interfaces[i].id.as_str(), id) {
            proof {
                lemma_first_true(flags, i as int);
            }
            return i;
        }
        i += 1;
    }
    proof {
        lemma_first_true(flags, i as int);
    }
    i
}

/// Finds the first project that has a category with the identifier `id`.
pub fn find_category_home(projects: &Vec<YapiProject>, id: &str) -> (r: usize)
    ensures
        r == category_home(project_models(projects@), id@),
        r <= projects.len(),
        r < projects.len() ==> has_category(project_models(projects@)[r as int], id@),
{
    let ghost models = project_models(projects@);
    let ghost flags = Seq::new(models.len(), |i: int| has_category(models[i], id@));
    let mut i: usize = 0;
    while i < projects.len()
        invariant
            i <= projects.len(),
            models == project_models(projects@),
            flags == Seq::new(models.len(), |i: int| has_category(models[i], id@)),
            forall|j: int| 0 <= j < i ==> !flags[j],
        decreases projects.len() - i,
    {
        if find_category(&projects[i].categories, id) < projects[i].categories.len() {
            proof {
                lemma_first_true(flags, i as int);
            }
            return i;
        }
        i += 1;
    }
    proof {
        lemma_first_true(flags, i as int);
    }
    i
}

/// The settings with the project `id` recorded: unchanged where a project
/// with that identifier is there, else with a new project without categories
/// at the end.
pub open spec fn with_project(
    config: YapiConfigModel,
    id: Seq<char>,
    name: Seq<char>,
    token: Seq<char>,
) -> YapiConfigModel {
    if project_position(config.project_list, id) < config.project_list.len() {
        config
    } else {
        YapiConfigModel {
            project_list: config.project_list.push(
                YapiProjectModel {
                    token,
                    project_id: id,
                    project_name: Some(name),
                    categories: Seq::empty(),
                },
            ),
            ..config
        }
    }
}

/// The project with the category `id` recorded: unchanged where a category
/// with that identifier is there, else with a new category without interfaces
/// at the end.
pub open spec fn project_with_category(
    project: YapiProjectModel,
    id: Seq<char>,
    name: Seq<char>,
) -> YapiProjectModel {
    if has_category(project, id) {
        project
    } else {
        YapiProjectModel {
            categories: project.categories.push(
                YapiCategoryModel { id, name, interfaces: Seq::empty() },
            ),
            ..project
        }
    }
}

/// The settings with the category `id` recorded in the first project
/// `project_id`; unchanged where there is no such project.
pub open spec fn with_category(
    config: YapiConfigModel,
    project_id: Seq<char>,
    id: Seq<char>,
    name: Seq<char>,
) -> YapiConfigModel {
    let p = project_position(config.project_list, project_id);
    if p < config.project_list.len() {
        YapiConfigModel {
            project_list: config.project_list.update(
                p,
                project_with_category(config.project_list[p], id, name),
            ),
            ..config
        }
    } else {
        config
    }
}

/// The category with an interface recorded: unchanged where an interface with
/// that identifier is there, else with the interface at the end.
pub open spec fn category_with_interface(
    category: YapiCategoryModel,
    interface: YapiInterfaceModel,
) -> YapiCategoryModel {
    if interface_position(category.interfaces, interface.id) < category.interfaces.len() {
        category
    } else {
        YapiCategoryModel { interfaces: category.interfaces.push(interface), ..category }
    }
}

/// The settings with an interface recorded in the first category `cat_id` of
/// the first project that has one; unchanged where no project has one.
pub open spec fn with_interface(
    config: YapiConfigModel,
    cat_id: Seq<char>,
    interface: YapiInterfaceModel,
) -> YapiConfigModel {
    let p = category_home(config.project_list, cat_id);
    if p < config.project_list.len() {
        let project = config.project_list[p];
        let c = category_position(project.categories, cat_id);
        YapiConfigModel {
            project_list: config.project_list.update(
                p,
                YapiProjectModel {
                    categories: project.categories.update(
                        c,
                        category_with_interface(project.categories[c], interface),
                    ),
                    ..project
                },
            ),
            ..config
        }
    } else {
        config
    }
}

/// The interfaces `source` with those of `others` added, in their order, that
/// are not there by their identifier.
pub open spec fn merged_config_interfaces(
    source: Seq<YapiInterfaceModel>,
    others: Seq<YapiInterfaceModel>,
) -> Seq<YapiInterfaceModel>
    decreases others.len(),
{
    if others.len() == 0 {
        source
    } else {
        let merged = merged_config_interfaces(source, others.drop_last());
        if interface_position(merged, others.last().id) < merged.len() {
            merged
        } else {
            merged.push(others.last())
        }
    }
}

/// The categories `source` with those of `others` merged in: one that is not
/// there by its identifier is added at the end, the interfaces of any other
/// are merged into the first category with its identifier.
pub open spec fn merged_config_categories(
    source: Seq<YapiCategoryModel>,
    others: Seq<YapiCategoryModel>,
) -> Seq<YapiCategoryModel>
    decreases others.len(),
{
    if others.len() == 0 {
        source
    } else {
        let merged = merged_config_categories(source, others.drop_last());
        let c = category_position(merged, others.last().id);
        if c < merged.len() {
            merged.update(
                c,
                YapiCategoryModel {
                    interfaces: merged_config_interfaces(merged[c].interfaces, others.last().interfaces),
                    ..merged[c]
                },
            )
        } else {
            merged.push(others.last())
        }
    }
}

/// The projects `source` with those of `others` merged in: one that is not
/// there by its identifier is added at the end, the categories of any other
/// are merged into the first project with its identifier.
pub open spec fn merged_config_projects(
    source: Seq<YapiProjectModel>,
    others: Seq<YapiProjectModel>,
) -> Seq<YapiProjectModel>
    decreases others.len(),
{
    if others.len() == 0 {
        source
    } else {
        let merged = merged_config_projects(source, others.drop_last());
        let p = project_position(merged, others.last().project_id);
        if p < merged.len() {
            merged.update(
                p,
                YapiProjectModel {
                    categories: merged_config_categories(merged[p].categories, others.last().categories),
                    ..merged[p]
                },
            )
        } else {
            merged.push(others.last())
        }
    }
}

/// The settings `source` with the projects of `other` merged in; every other
/// setting stays.
pub open spec fn merged_config(source: YapiConfigModel, other: YapiConfigModel) -> YapiConfigModel {
    YapiConfigModel {
        project_list: merged_config_projects(source.project_list, other.project_list),
        ..source
    }
}

/// The categories `source`, then those of `others`, in their order, whose
/// identifier no earlier category has. No category of `source` changes.
pub open spec fn appended_categories(
    source: Seq<YapiCategoryModel>,
    others: Seq<YapiCategoryModel>,
) -> Seq<YapiCategoryModel>
    decreases others.len(),
{
    if others.len() == 0 {
        source
    } else {
        let merged = appended_categories(source, others.drop_last());
        if category_position(merged, others.last().id) < merged.len() {
            merged
        } else {
            merged.push(others.last())
        }
    }
}

/// What `category_position` gives is the least index of a category with the
/// identifier, or the number of categories where there is none.
pub proof fn lemma_category_position(categories: Seq<YapiCategoryModel>, id: Seq<char>)
    ensures
        0 <= category_position(categories, id) <= categories.len(),
        forall|j: int|
            0 <= j < category_position(categories, id) ==> (#[trigger] categories[j]).id != id,
        category_position(categories, id) < categories.len() ==> categories[category_position(
            categories,
            id,
        )].id == id,
{
    let flags = Seq::new(categories.len(), |i: int| categories[i].id == id);
    lemma_first_true_is_first(flags);
    assert forall|j: int| 0 <= j < category_position(categories, id) implies (
    #[trigger] categories[j]).id != id by {
        assert(!flags[j]);
    }
    if category_position(categories, id) < categories.len() {
        assert(flags[category_position(categories, id)]);
    }
}

/// A category that is added at the end moves no category that was found.
pub proof fn lemma_category_position_push(
    categories: Seq<YapiCategoryModel>,
    added: YapiCategoryModel,
    id: Seq<char>,
)
    ensures
        category_position(categories, id) < categories.len() ==> category_position(
            categories.push(added),
            id,
        ) == category_position(categories, id),
        added.id == id ==> category_position(categories.push(added), id) < categories.len() + 1,
{
    lemma_category_position(categories, id);
    let p = category_position(categories, id);
    let grown = categories.push(added);
    let flags = Seq::new(grown.len(), |i: int| grown[i].id == id);
    if p < categories.len() {
        assert forall|j: int| 0 <= j < p implies !flags[j] by {
            assert(grown[j] == categories[j]);
        }
        assert(grown[p] == categories[p]);
        lemma_first_true(flags, p);
    } else if added.id == id {
        assert forall|j: int| 0 <= j < categories.len() implies !flags[j] by {
            assert(grown[j] == categories[j]);
        }
        lemma_first_true(flags, categories.len() as int);
    }
}

/// The shallow merge keeps the categories that were there, in their places.
pub proof fn lemma_appended_keeps_source(
    source: Seq<YapiCategoryModel>,
    others: Seq<YapiCategoryModel>,
)
    ensures
        source.len() <= appended_categories(source, others).len(),
        appended_categories(source, others).take(source.len() as int) == source,
    decreases others.len(),
{
    if others.len() == 0 {
        assert(source.take(source.len() as int) =~= source);
    } else {
        lemma_appended_keeps_source(source, others.drop_last());
        let merged = appended_categories(source, others.drop_last());
        assert(merged.push(others.last()).take(source.len() as int) =~= merged.take(
            source.len() as int,
        ));
    }
}

/// Every category that the shallow merge adds is one of `others`, and no
/// earlier category has its identifier.
pub proof fn lemma_appended_are_new(
    source: Seq<YapiCategoryModel>,
    others: Seq<YapiCategoryModel>,
    k: int,
)
    requires
        source.len() <= k < appended_categories(source, others).len(),
    ensures
        category_position(
            appended_categories(source, others),
            appended_categories(source, others)[k].id,
        ) == k,
        others.contains(appended_categories(source, others)[k]),
    decreases others.len(),
{
    lemma_appended_keeps_source(source, others);
    if others.len() > 0 {
        let rest = others.drop_last();
        let merged = appended_categories(source, rest);
        let last = others.last();
        lemma_appended_keeps_source(source, rest);
        if k < merged.len() {
            lemma_appended_are_new(source, rest, k);
            let j = choose|j: int| 0 <= j < rest.len() && rest[j] == merged[k];
            assert(others[j] == merged[k]);
            if category_position(merged, last.id) >= merged.len() {
                lemma_category_position_push(merged, last, merged[k].id);
            }
        } else {
            lemma_category_position(merged, last.id);
            let grown = merged.push(last);
            let flags = Seq::new(grown.len(), |i: int| grown[i].id == last.id);
            assert forall|j: int| 0 <= j < merged.len() implies !flags[j] by {
                assert(grown[j] == merged[j]);
            }
            lemma_first_true(flags, merged.len() as int);
            assert(others[others.len() - 1] == last);
        }
    }
}

/// After the shallow merge every identifier of `others`, and every one that
/// was found before, is found.
pub proof fn lemma_appended_finds(
    source: Seq<YapiCategoryModel>,
    others: Seq<YapiCategoryModel>,
    id: Seq<char>,
)
    requires
        category_position(source, id) < source.len() || exists|j: int|
            0 <= j < others.len() && (#[trigger] others[j]).id == id,
    ensures
        category_position(appended_categories(source, others), id) < appended_categories(
            source,
            others,
        ).len(),
    decreases others.len(),
{
    if others.len() > 0 {
        let rest = others.drop_last();
        let merged = appended_categories(source, rest);
        let last = others.last();
        if category_position(source, id) < source.len() || exists|j: int|
            0 <= j < rest.len() && (#[trigger] rest[j]).id == id {
            lemma_appended_finds(source, rest, id);
            lemma_category_position_push(merged, last, id);
        } else {
            let j = choose|j: int| 0 <= j < others.len() && (#[trigger] others[j]).id == id;
            if j < rest.len() {
                assert(rest[j].id == id);
            }
            assert(last.id == id);
            lemma_category_position_push(merged, last, id);
        }
    }
}

/// Where every identifier of `others` is found, the shallow merge adds
/// nothing.
pub proof fn lemma_appended_nothing_new(
    source: Seq<YapiCategoryModel>,
    others: Seq<YapiCategoryModel>,
)
    requires
        forall|j: int|
            0 <= j < others.len() ==> category_position(source, (#[trigger] others[j]).id)
                < source.len(),
    ensures
        appended_categories(source, others) == source,
    decreases others.len(),
{
    if others.len() > 0 {
        let rest = others.drop_last();
        assert forall|j: int| 0 <= j < rest.len() implies category_position(
            source,
            (#[trigger] rest[j]).id,
        ) < source.len() by {
            assert(rest[j] == others[j]);
        }
        lemma_appended_nothing_new(source, rest);
        assert(others.last() == others[others.len() - 1]);
    }
}

/// A second shallow merge of the same categories changes nothing.
pub proof fn lemma_appended_twice(source: Seq<YapiCategoryModel>, others: Seq<YapiCategoryModel>)
    ensures
        appended_categories(appended_categories(source, others), others) == appended_categories(
            source,
            others,
        ),
{
    let merged = appended_categories(source, others);
    assert forall|j: int| 0 <= j < others.len() implies category_position(
        merged,
        (#[trigger] others[j]).id,
    ) < merged.len() by {
        lemma_appended_finds(source, others, others[j].id);
    }
    lemma_appended_nothing_new(merged, others);
}

/// The project `old_project` with the categories of `new_project` that it
/// lacks; nothing else of it changes.
pub open spec fn with_new_categories(
    old_project: YapiProjectModel,
    new_project: YapiProjectModel,
) -> YapiProjectModel {
    YapiProjectModel {
        categories: appended_categories(old_project.categories, new_project.categories),
        ..old_project
    }
}

/// The settings with a project merged in: where a project with its
/// identifier is there, the first such gets the categories that it lacks;
/// else the project is added at the end.
pub open spec fn with_merged_project(
    config: YapiConfigModel,
    new_project: YapiProjectModel,
) -> YapiConfigModel {
    let p = project_position(config.project_list, new_project.project_id);
    if p < config.project_list.len() {
        YapiConfigModel {
            project_list: config.project_list.update(
                p,
                with_new_categories(config.project_list[p], new_project),
            ),
            ..config
        }
    } else {
        YapiConfigModel { project_list: config.project_list.push(new_project), ..config }
    }
}

/// What `interface_position` gives is the least index of an interface with
/// the identifier, or the number of interfaces where there is none.
pub proof fn lemma_interface_position(interfaces: Seq<YapiInterfaceModel>, id: Seq<char>)
    ensures
        0 <= interface_position(interfaces, id) <= interfaces.len(),
        forall|j: int|
            0 <= j < interface_position(interfaces, id) ==> (#[trigger] interfaces[j]).id != id,
        interface_position(interfaces, id) < interfaces.len() ==> interfaces[interface_position(
            interfaces,
            id,
        )].id == id,
{
    let flags = Seq::new(interfaces.len(), |i: int| interfaces[i].id == id);
    lemma_first_true_is_first(flags);
    assert forall|j: int| 0 <= j < interface_position(interfaces, id) implies (
    #[trigger] interfaces[j]).id != id by {
        assert(!flags[j]);
    }
    if interface_position(interfaces, id) < interfaces.len() {
        assert(flags[interface_position(interfaces, id)]);
    }
}

/// A category that has an interface recorded has it: its identifier is
/// found, and recording it again changes nothing.
pub proof fn lemma_category_with_interface(
    category: YapiCategoryModel,
    interface: YapiInterfaceModel,
)
    ensures
        category_with_interface(category, interface).id == category.id,
        interface_position(category_with_interface(category, interface).interfaces, interface.id)
            < category_with_interface(category, interface).interfaces.len(),
        category_with_interface(category_with_interface(category, interface), interface)
            == category_with_interface(category, interface),
{
    lemma_interface_position(category.interfaces, interface.id);
    if interface_position(category.interfaces, interface.id) >= category.interfaces.len() {
        let grown = category.interfaces.push(interface);
        let flags = Seq::new(grown.len(), |i: int| grown[i].id == interface.id);
        assert forall|j: int| 0 <= j < category.interfaces.len() implies !flags[j] by {
            assert(grown[j] == category.interfaces[j]);
        }
        lemma_first_true(flags, category.interfaces.len() as int);
    }
}

/// Recording an interface a second time changes nothing.
pub proof fn lemma_with_interface_twice(
    config: YapiConfigModel,
    cat_id: Seq<char>,
    interface: YapiInterfaceModel,
)
    ensures
        with_interface(with_interface(config, cat_id, interface), cat_id, interface)
            == with_interface(config, cat_id, interface),
{
    let projects = config.project_list;
    let p = category_home(projects, cat_id);
    let home_flags = Seq::new(projects.len(), |i: int| has_category(projects[i], cat_id));
    lemma_first_true_is_first(home_flags);
    if p < projects.len() {
        assert(home_flags[p]);
        let project = projects[p];
        let c = category_position(project.categories, cat_id);
        lemma_category_position(project.categories, cat_id);
        let category = project.categories[c];
        let recorded = category_with_interface(category, interface);
        lemma_category_with_interface(category, interface);
        let categories = project.categories.update(c, recorded);
        let cat_flags = Seq::new(categories.len(), |i: int| categories[i].id == cat_id);
        assert forall|j: int| 0 <= j < c implies !cat_flags[j] by {
            assert(categories[j] == project.categories[j]);
        }
        lemma_first_true(cat_flags, c);
        let changed = YapiProjectModel { categories, ..project };
        let after = projects.update(p, changed);
        let after_flags = Seq::new(after.len(), |i: int| has_category(after[i], cat_id));
        assert forall|j: int| 0 <= j < p implies !after_flags[j] by {
            assert(after[j] == projects[j]);
            assert(!home_flags[j]);
        }
        assert(has_category(changed, cat_id));
        lemma_first_true(after_flags, p);
        assert(categories.update(c, recorded) =~= categories);
        assert(after.update(p, changed) =~= after);
    }
}

/// The interface that is recorded for an item of a category's list.
pub open spec fn recorded_interface(item: InterfaceDataItem) -> YapiInterfaceModel {
    YapiInterfaceModel {
        id: decimal(item._id as nat),
        name: item.title@,
        path: Some(item.path@),
        lock: Some(false),
    }
}

/// Records a remote project in the settings unless it is there.
pub fn merge_yapi_project_to_project_config(
    yapi_config: &mut YapiConfig,
    yapi_project_base_info: &YapiProjectBaseInfo,
    token: &str,
)
    ensures
        final(yapi_config)@ == with_project(
            old(yapi_config)@,
            decimal(yapi_project_base_info._id as nat),
            yapi_project_base_info.name@,
            token@,
        ),
{
    let id = u32_to_string(yapi_project_base_info._id);
    if find_project(&yapi_config.project_list, id.as_str()) >= yapi_config.project_list.len() {
        let project = YapiProject {
            token: String::from_str(token),
            project_id: id,
            project_name: Some(yapi_project_base_info.name.clone()),
            categories: Vec::new(),
        };
        assert(project@.categories =~= Seq::<YapiCategoryModel>::empty());
        let ghost before = project_models(yapi_config.project_list@);
        yapi_config.project_list.push(project);
        assert(project_models(yapi_config.project_list@) =~= before.push(project@));
    }
}

/// Records a category of the menu in the first project `project_id` unless it
/// is there.
pub fn merge_category_to_project_config(
    category_menu_item: &CategoryMenuItem,
    yapi_config: &mut YapiConfig,
    project_id: &str,
)
    ensures
        final(yapi_config)@ == with_category(
            old(yapi_config)@,
            project_id@,
            decimal(category_menu_item._id as nat),
            category_menu_item.name@,
        ),
{
    let p = find_project(&yapi_config.project_list, project_id);
    if p < yapi_config.project_list.len() {
        let id = u32_to_string(category_menu_item._id);
        let ghost before = project_models(yapi_config.project_list@);
        if find_category(&yapi_config.project_list[p].categories, id.as_str())
            >= yapi_config.project_list[p].categories.len() {
            let category = YapiCategory {
                id,
                name: category_menu_item.name.clone(),
                interfaces: Vec::new(),
            };
            assert(category@.interfaces =~= Seq::<YapiInterfaceModel>::empty());
            let ghost categories = category_models(yapi_config.project_list[p as int].categories@);
            yapi_config.project_list[p].categories.push(category);
            assert(category_models(yapi_config.project_list[p as int].categories@)
                =~= categories.push(category@));
        }
        assert(project_models(yapi_config.project_list@) =~= before.update(
            p as int,
            project_with_category(
                before[p as int],
                decimal(category_menu_item._id as nat),
                category_menu_item.name@,
            ),
        ));
    }
}

/// Records an interface of a category's list in the first category `cat_id`
/// unless it is there.
pub fn merge_interface_to_project_config(
    interface_data_item: &InterfaceDataItem,
    yapi_config: &mut YapiConfig,
    cat_id: &str,
)
    ensures
        final(yapi_config)@ == with_interface(
            old(yapi_config)@,
            cat_id@,
            recorded_interface(*interface_data_item),
        ),
{
    let p = find_category_home(&yapi_config.project_list, cat_id);
    if p < yapi_config.project_list.len() {
        let c = find_category(&yapi_config.project_list[p].categories, cat_id);
        let id = u32_to_string(interface_data_item._id);
        let ghost projects = project_models(yapi_config.project_list@);
        let ghost categories = category_models(yapi_config.project_list[p as int].categories@);
        assert(has_category(projects[p as int], cat_id@));
        if find_interface(&yapi_config.project_list[p].categories[c].interfaces, id.as_str())
            >= yapi_config.project_list[p].categories[c].interfaces.len() {
            let interface = YapiInterface {
                id,
                name: interface_data_item.title.clone(),
                path: Some(interface_data_item.path.clone()),
                lock: Some(false),
            };
            let ghost interfaces = interface_models(
                yapi_config.project_list[p as int].categories[c as int].interfaces@,
            );
            yapi_config.project_list[p].categories[c].interfaces.push(interface);
            assert(interface_models(
                yapi_config.project_list[p as int].categories[c as int].interfaces@,
            ) =~= interfaces.push(interface@));
        }
        assert(category_models(yapi_config.project_list[p as int].categories@) =~= categories.update(
            c as int,
            category_with_interface(categories[c as int], recorded_interface(*interface_data_item)),
        ));
        assert(project_models(yapi_config.project_list@) =~= projects.update(
            p as int,
            YapiProjectModel {
                categories: categories.update(
                    c as int,
                    category_with_interface(
                        categories[c as int],
                        recorded_interface(*interface_data_item),
                    ),
                ),
                ..projects[p as int]
            },
        ));
    }
}

/// Adds the categories of `new_project` whose identifier `old_project` does
/// not have yet. A category that is there stays as it is.
pub fn merge_categories(new_project: &YapiProject, old_project: &mut YapiProject)
    ensures
        final(old_project)@ == with_new_categories(old(old_project)@, new_project@),
{
    let ghost start = category_models(old_project.categories@);
    let ghost models = category_models(new_project.categories@);
    let mut i: usize = 0;
    while i < new_project.categories.len()
        invariant
            i <= new_project.categories.len(),
            models == category_models(new_project.categories@),
            old_project.token == old(old_project).token,
            old_project.project_id == old(old_project).project_id,
            old_project.project_name == old(old_project).project_name,
            start == old(old_project)@.categories,
            category_models(old_project.categories@) == appended_categories(
                start,
                models.take(i as int),
            ),
        decreases new_project.categories.len() - i,
    {
        proof {
            assert(models.take(i + 1).drop_last() =~= models.take(i as int));
        }
        let category = &new_project.categories[i];
        if find_category(&old_project.categories, category.id.as_str())
            >= old_project.categories.len() {
            let ghost before = category_models(old_project.categories@);
            old_project.categories.push(category.clone());
            assert(category_models(old_project.categories@) =~= before.push(category@));
        }
        i += 1;
    }
    proof {
        assert(models.take(i as int) =~= models);
    }
}

/// Merges a project into the settings: the first project with its identifier
/// gets the categories that it lacks; where there is none, the project is
/// added.
pub fn merge_projects(new_project: &YapiProject, old_config: &mut YapiConfig)
    ensures
        final(old_config)@ == with_merged_project(old(old_config)@, new_project@),
{
    let ghost before = project_models(old_config.project_list@);
    let p = find_project(&old_config.project_list, new_project.project_id.as_str());
    if p < old_config.project_list.len() {
        merge_categories(new_project, &mut old_config.project_list[p]);
        assert(project_models(old_config.project_list@) =~= before.update(
            p as int,
            with_new_categories(before[p as int], new_project@),
        ));
    } else {
        old_config.project_list.push(new_project.clone());
        assert(project_models(old_config.project_list@) =~= before.push(new_project@));
    }
}

/// Adds the interfaces of `others` that the list does not hold yet.
pub fn merge_config_interfaces(source: &mut Vec<YapiInterface>, others: Vec<YapiInterface>)
    ensures
        interface_models(final(source)@) == merged_config_interfaces(
            interface_models(old(source)@),
            interface_models(others@),
        ),
{
    let ghost start = interface_models(source@);
    let ghost models = interface_models(others@);
    for o_interface in it: others
        invariant
            it.seq() == others@,
            models == interface_models(others@),
            interface_models(source@) == merged_config_interfaces(start, models.take(it.index() as int)),
    {
        proof {
            assert(models.take(it.index() + 1).drop_last() =~= models.take(it.index() as int));
        }
        if find_interface(source, o_interface.id.as_str()) >= source.len() {
            let ghost before = interface_models(source@);
            source.push(o_interface);
            assert(interface_models(source@) =~= before.push(o_interface@));
        }
    }
    proof {
        assert(models.take(models.len() as int) =~= models);
    }
}

/// Merges the categories of `others` into the list: one that is missing is
/// added, and the interfaces of any other are merged into the first category
/// with its identifier.
pub fn merge_config_categories(source: &mut Vec<YapiCategory>, others: Vec<YapiCategory>)
    ensures
        category_models(final(source)@) == merged_config_categories(
            category_models(old(source)@),
            category_models(others@),
        ),
{
    let ghost start = category_models(source@);
    let ghost models = category_models(others@);
    for o_category in it: others
        invariant
            it.seq() == others@,
            models == category_models(others@),
            category_models(source@) == merged_config_categories(start, models.take(it.index() as int)),
    {
        proof {
            assert(models.take(it.index() + 1).drop_last() =~= models.take(it.index() as int));
        }
        let ghost before = category_models(source@);
        let c = find_category(source, o_category.id.as_str());
        if c >= source.len() {
            source.push(o_category);
            assert(category_models(source@) =~= before.push(o_category@));
        } else {
            merge_config_interfaces(&mut source[c].interfaces, o_category.interfaces);
            assert(category_models(source@) =~= before.update(
                c as int,
                YapiCategoryModel {
                    interfaces: merged_config_interfaces(
                        before[c as int].interfaces,
                        o_category@.interfaces,
                    ),
                    ..before[c as int]
                },
            ));
        }
    }
    proof {
        assert(models.take(models.len() as int) =~= models);
    }
}

/// Merges the projects of `other` into the settings: a project, a category
/// or an interface that is missing is added, nothing that is there changes.
pub fn merge_config_projects(source_config: &mut YapiConfig, other_config: YapiConfig)
    ensures
        final(source_config)@ == merged_config(old(source_config)@, other_config@),
{
    let ghost start = project_models(source_config.project_list@);
    let ghost models = project_models(other_config.project_list@);
    let others = other_config.project_list;
    for o_project in it: others
        invariant
            it.seq() == others@,
            models == project_models(others@),
            project_models(source_config.project_list@) == merged_config_projects(
                start,
                models.take(it.index() as int),
            ),
            source_config.base_url == old(source_config).base_url,
            source_config.types_path == old(source_config).types_path,
            source_config.request_path == old(source_config).request_path,
            source_config.request_template == old(source_config).request_template,
            source_config.header_template == old(source_config).header_template,
            source_config.file_name_template == old(source_config).file_name_template,
            source_config.type_import_template == old(source_config).type_import_template,
    {
        proof {
            assert(models.take(it.index() + 1).drop_last() =~= models.take(it.index() as int));
        }
        let ghost before = project_models(source_config.project_list@);
        let p = find_project(&source_config.project_list, o_project.project_id.as_str());
        if p >= source_config.project_list.len() {
            source_config.project_list.push(o_project);
            assert(project_models(source_config.project_list@) =~= before.push(o_project@));
        } else {
            merge_config_categories(&mut source_config.project_list[p].categories, o_project.categories);
            assert(project_models(source_config.project_list@) =~= before.update(
                p as int,
                YapiProjectModel {
                    categories: merged_config_categories(
                        before[p as int].categories,
                        o_project@.categories,
                    ),
                    ..before[p as int]
                },
            ));
        }
    }
    proof {
        assert(models.take(models.len() as int) =~= models);
    }
}

/// Whether a search for `key` finds an interface: in its name or in its path.
pub open spec fn interface_found(interface: YapiInterfaceModel, key: Seq<char>) -> bool {
    has_substring(interface.name, key) || (interface.path matches Some(path) && has_substring(
        path,
        key,
    ))
}

/// The interfaces that a search for `key` finds, in their order.
pub open spec fn found_interfaces(
    interfaces: Seq<YapiInterfaceModel>,
    key: Seq<char>,
) -> Seq<YapiInterfaceModel>
    decreases interfaces.len(),
{
    if interfaces.len() == 0 {
        Seq::empty()
    } else if interface_found(interfaces[0], key) {
        seq![interfaces[0]] + found_interfaces(interfaces.skip(1), key)
    } else {
        found_interfaces(interfaces.skip(1), key)
    }
}

/// The search keeps the order: what is found in two lists, one after the
/// other, is what is found in them joined.
pub proof fn lemma_found_interfaces_concat(
    a: Seq<YapiInterfaceModel>,
    b: Seq<YapiInterfaceModel>,
    key: Seq<char>,
)
    ensures
        found_interfaces(a + b, key) == found_interfaces(a, key) + found_interfaces(b, key),
    decreases a.len(),
{
    if a.len() == 0 {
        assert(a + b =~= b);
        assert(found_interfaces(a, key) + found_interfaces(b, key) =~= found_interfaces(b, key));
    } else {
        assert((a + b).skip(1) =~= a.skip(1) + b);
        lemma_found_interfaces_concat(a.skip(1), b, key);
        assert(seq![a[0]] + (found_interfaces(a.skip(1), key) + found_interfaces(b, key))
            =~= seq![a[0]] + found_interfaces(a.skip(1), key) + found_interfaces(b, key));
    }
}

/// The search keeps exactly the interfaces that hold the key in their name
/// or path: each that is kept is one of the list and holds it, and each of
/// the list that holds it is kept.
pub proof fn lemma_found_interfaces(interfaces: Seq<YapiInterfaceModel>, key: Seq<char>)
    ensures
        found_interfaces(interfaces, key).len() <= interfaces.len(),
        forall|k: int|
            0 <= k < found_interfaces(interfaces, key).len() ==> interface_found(
                #[trigger] found_interfaces(interfaces, key)[k],
                key,
            ) && interfaces.contains(found_interfaces(interfaces, key)[k]),
        forall|j: int|
            0 <= j < interfaces.len() && interface_found(#[trigger] interfaces[j], key)
                ==> found_interfaces(interfaces, key).contains(interfaces[j]),
    decreases interfaces.len(),
{
    if interfaces.len() > 0 {
        let rest = interfaces.skip(1);
        let found = found_interfaces(interfaces, key);
        let below = found_interfaces(rest, key);
        lemma_found_interfaces(rest, key);
        assert forall|k: int| 0 <= k < found.len() implies interface_found(#[trigger] found[k], key)
            && interfaces.contains(found[k]) by {
            if interface_found(interfaces[0], key) && k == 0 {
                assert(found[0] == interfaces[0]);
            } else {
                let kk = if interface_found(interfaces[0], key) {
                    k - 1
                } else {
                    k
                };
                assert(found[k] == below[kk]);
                let j = choose|j: int| 0 <= j < rest.len() && rest[j] == below[kk];
                assert(interfaces[j + 1] == below[kk]);
            }
        }
        assert forall|j: int|
            0 <= j < interfaces.len() && interface_found(
                #[trigger] interfaces[j],
                key,
            ) implies found.contains(interfaces[j]) by {
            if j == 0 {
                assert(found[0] == interfaces[0]);
            } else {
                assert(rest[j - 1] == interfaces[j]);
                let k = choose|k: int| 0 <= k < below.len() && below[k] == rest[j - 1];
                if interface_found(interfaces[0], key) {
                    assert(found[k + 1] == interfaces[j]);
                } else {
                    assert(found[k] == interfaces[j]);
                }
            }
        }
    }
}

/// What a search for `key` leaves of a category: all of it where its name
/// holds the key, else the interfaces that are found.
pub open spec fn found_category(category: YapiCategoryModel, key: Seq<char>) -> YapiCategoryModel {
    if has_substring(category.name, key) {
        category
    } else {
        YapiCategoryModel { interfaces: found_interfaces(category.interfaces, key), ..category }
    }
}

/// Whether a search for `key` keeps a category: its name holds the key, or
/// one of its interfaces is found.
pub open spec fn category_found(category: YapiCategoryModel, key: Seq<char>) -> bool {
    has_substring(category.name, key) || found_interfaces(category.interfaces, key).len() != 0
}

/// The categories that a search for `key` keeps, each with what the search
/// leaves of it.
pub open spec fn found_categories(
    categories: Seq<YapiCategoryModel>,
    key: Seq<char>,
) -> Seq<YapiCategoryModel>
    decreases categories.len(),
{
    if categories.len() == 0 {
        Seq::empty()
    } else if category_found(categories[0], key) {
        seq![found_category(categories[0], key)] + found_categories(categories.skip(1), key)
    } else {
        found_categories(categories.skip(1), key)
    }
}

/// The projects that a search for `key` keeps, each with what the search
/// leaves of it: those in which a category is kept.
pub open spec fn found_projects(
    projects: Seq<YapiProjectModel>,
    key: Seq<char>,
) -> Seq<YapiProjectModel>
    decreases projects.len(),
{
    if projects.len() == 0 {
        Seq::empty()
    } else if found_categories(projects[0].categories, key).len() != 0 {
        seq![
            YapiProjectModel {
                categories: found_categories(projects[0].categories, key),
                ..projects[0]
            },
        ] + found_projects(projects.skip(1), key)
    } else {
        found_projects(projects.skip(1), key)
    }
}

/// What a search leaves of the projects: all of them where the search has no
/// key or an empty one, else what is found.
pub open spec fn searched(projects: Seq<YapiProjectModel>, key: Option<String>) -> Seq<
    YapiProjectModel,
> {
    match key {
        Some(key) => if key@.len() == 0 {
            projects
        } else {
            found_projects(projects, key@)
        },
        None => projects,
    }
}

/// The interfaces of `items` that the category `category_id` has not
/// recorded, in their order; all of them where no project has that category.
pub open spec fn new_interfaces(
    items: Seq<InterfaceDataItem>,
    recorded: Seq<YapiInterfaceModel>,
) -> Seq<InterfaceDataItem>
    decreases items.len(),
{
    if items.len() == 0 {
        Seq::empty()
    } else if interface_position(recorded, decimal(items[0]._id as nat)) < recorded.len() {
        new_interfaces(items.skip(1), recorded)
    } else {
        seq![items[0]] + new_interfaces(items.skip(1), recorded)
    }
}

/// The interfaces that the first category `category_id` has recorded; none
/// where no project has that category.
pub open spec fn recorded_in(projects: Seq<YapiProjectModel>, category_id: Seq<char>) -> Seq<
    YapiInterfaceModel,
> {
    let p = category_home(projects, category_id);
    if p < projects.len() {
        projects[p].categories[category_position(projects[p].categories, category_id)].interfaces
    } else {
        Seq::empty()
    }
}

/// Keeps the interfaces whose name or path holds `key`. Returns whether any
/// is left.
pub fn filter_interfaces(category: &mut YapiCategory, key: &str) -> (r: bool)
    ensures
        final(category)@ == (YapiCategoryModel {
            interfaces: found_interfaces(old(category)@.interfaces, key@),
            ..old(category)@
        }),
        r == (final(category)@.interfaces.len() != 0),
{
    let ghost all = interface_models(category.interfaces@);
    let mut i: usize = 0;
    assert(all.skip(0) =~= all);
    assert(interface_models(category.interfaces@).take(0) + found_interfaces(all.skip(0), key@)
        =~= found_interfaces(all, key@));
    while i < category.interfaces.len()
        invariant
            i <= category.interfaces.len(),
            category.id == old(category).id,
            category.name == old(category).name,
            all == old(category)@.interfaces,
            interface_models(category.interfaces@).take(i as int) + found_interfaces(
                interface_models(category.interfaces@).skip(i as int),
                key@,
            ) == found_interfaces(all, key@),
        decreases category.interfaces.len() - i,
    {
        let ghost now = interface_models(category.interfaces@);
        let ghost rest = now.skip(i as int);
        let found = contains(category.interfaces[i].name.as_str(), key) || match &category.interfaces[i].path {
            Some(path) => contains(path.as_str(), key),
            None => false,
        };
        assert(found == interface_found(rest[0], key@));
        assert(rest.skip(1) =~= now.skip(i + 1));
        if found {
            assert(now.take(i + 1) =~= now.take(i as int) + seq![rest[0]]);
            assert(now.take(i as int) + (seq![rest[0]] + found_interfaces(rest.skip(1), key@))
                =~= now.take(i as int) + seq![rest[0]] + found_interfaces(rest.skip(1), key@));
            i += 1;
        } else {
            category.interfaces.remove(i);
            let ghost after = interface_models(category.interfaces@);
            assert(after =~= now.remove(i as int));
            assert(after.take(i as int) =~= now.take(i as int));
            assert(after.skip(i as int) =~= rest.skip(1));
        }
    }
    proof {
        let now = interface_models(category.interfaces@);
        assert(now.take(i as int) =~= now);
        assert(found_interfaces(now.skip(i as int), key@) =~= Seq::<YapiInterfaceModel>::empty());
        assert(now + Seq::<YapiInterfaceModel>::empty() =~= now);
    }
    category.interfaces.len() != 0
}

/// Keeps the categories whose name holds `key`, and of every other the
/// interfaces that are found, where there is one. Returns whether any
/// category is left.
pub fn filter_categories(project: &mut YapiProject, key: &str) -> (r: bool)
    ensures
        final(project)@ == (YapiProjectModel {
            categories: found_categories(old(project)@.categories, key@),
            ..old(project)@
        }),
        r == (final(project)@.categories.len() != 0),
{
    let ghost all = category_models(project.categories@);
    let mut i: usize = 0;
    assert(all.skip(0) =~= all);
    assert(category_models(project.categories@).take(0) + found_categories(all.skip(0), key@)
        =~= found_categories(all, key@));
    while i < project.categories.len()
        invariant
            i <= project.categories.len(),
            project.token == old(project).token,
            project.project_id == old(project).project_id,
            project.project_name == old(project).project_name,
            all == old(project)@.categories,
            category_models(project.categories@).take(i as int) + found_categories(
                category_models(project.categories@).skip(i as int),
                key@,
            ) == found_categories(all, key@),
        decreases project.categories.len() - i,
    {
        let ghost now = category_models(project.categories@);
        let ghost rest = now.skip(i as int);
        assert(rest.skip(1) =~= now.skip(i + 1));
        let keep = if contains(project.categories[i].name.as_str(), key) {
            true
        } else {
            filter_interfaces(&mut project.categories[i], key)
        };
        let ghost then = category_models(project.categories@);
        assert(then =~= now.update(i as int, found_category(rest[0], key@)));
        assert(keep == category_found(rest[0], key@));
        if keep {
            assert(then.take(i + 1) =~= now.take(i as int) + seq![found_category(rest[0], key@)]);
            assert(then.skip(i + 1) =~= rest.skip(1));
            assert(now.take(i as int) + (seq![found_category(rest[0], key@)] + found_categories(
                rest.skip(1),
                key@,
            )) =~= now.take(i as int) + seq![found_category(rest[0], key@)] + found_categories(
                rest.skip(1),
                key@,
            ));
            i += 1;
        } else {
            project.categories.remove(i);
            let ghost after = category_models(project.categories@);
            assert(after =~= then.remove(i as int));
            assert(after.take(i as int) =~= now.take(i as int));
            assert(after.skip(i as int) =~= rest.skip(1));
        }
    }
    proof {
        let now = category_models(project.categories@);
        assert(now.take(i as int) =~= now);
        assert(found_categories(now.skip(i as int), key@) =~= Seq::<YapiCategoryModel>::empty());
        assert(now + Seq::<YapiCategoryModel>::empty() =~= now);
    }
    project.categories.len() != 0
}

/// Narrows the projects of the settings to what a search finds: with a key
/// that is not empty, the categories and interfaces that hold it.
pub fn search_projects(yapi_config: &mut YapiConfig, request: &SearchRequest)
    ensures
        final(yapi_config)@ == (YapiConfigModel {
            project_list: searched(old(yapi_config)@.project_list, request.key),
            ..old(yapi_config)@
        }),
{
    let key = match &request.key {
        Some(key) => key.as_str(),
        None => {
            return ;
        },
    };
    if key.is_empty() {
        return ;
    }
    let ghost all = project_models(yapi_config.project_list@);
    let mut i: usize = 0;
    assert(all.skip(0) =~= all);
    assert(all.take(0) + found_projects(all.skip(0), key@) =~= found_projects(all, key@));
    while i < yapi_config.project_list.len()
        invariant
            i <= yapi_config.project_list.len(),
            yapi_config.base_url == old(yapi_config).base_url,
            yapi_config.types_path == old(yapi_config).types_path,
            yapi_config.request_path == old(yapi_config).request_path,
            yapi_config.request_template == old(yapi_config).request_template,
            yapi_config.header_template == old(yapi_config).header_template,
            yapi_config.file_name_template == old(yapi_config).file_name_template,
            yapi_config.type_import_template == old(yapi_config).type_import_template,
            all == old(yapi_config)@.project_list,
            project_models(yapi_config.project_list@).take(i as int) + found_projects(
                project_models(yapi_config.project_list@).skip(i as int),
                key@,
            ) == found_projects(all, key@),
        decreases yapi_config.project_list.len() - i,
    {
        let ghost now = project_models(yapi_config.project_list@);
        let ghost rest = now.skip(i as int);
        assert(rest.skip(1) =~= now.skip(i + 1));
        let keep = filter_categories(&mut yapi_config.project_list[i], key);
        let ghost kept = YapiProjectModel {
            categories: found_categories(rest[0].categories, key@),
            ..rest[0]
        };
        let ghost then = project_models(yapi_config.project_list@);
        assert(then =~= now.update(i as int, kept));
        if keep {
            assert(then.take(i + 1) =~= now.take(i as int) + seq![kept]);
            assert(then.skip(i + 1) =~= rest.skip(1));
            assert(now.take(i as int) + (seq![kept] + found_projects(rest.skip(1), key@))
                =~= now.take(i as int) + seq![kept] + found_projects(rest.skip(1), key@));
            i += 1;
        } else {
            yapi_config.project_list.remove(i);
            let ghost after = project_models(yapi_config.project_list@);
            assert(after =~= then.remove(i as int));
            assert(after.take(i as int) =~= now.take(i as int));
            assert(after.skip(i as int) =~= rest.skip(1));
        }
    }
    proof {
        let now = project_models(yapi_config.project_list@);
        assert(now.take(i as int) =~= now);
        assert(found_projects(now.skip(i as int), key@) =~= Seq::<YapiProjectModel>::empty());
        assert(now + Seq::<YapiProjectModel>::empty() =~= now);
    }
}

/// Keeps the interfaces of a category's list that the settings have not
/// recorded in the category `category_id`.
pub fn filter_new_interfaces(
    interfaces: Vec<InterfaceDataItem>,
    yapi_config: &YapiConfig,
    category_id: &str,
) -> (r: Vec<InterfaceDataItem>)
    ensures
        r@ == new_interfaces(
            interfaces@,
            recorded_in(project_models(yapi_config.project_list@), category_id@),
        ),
{
    let p = find_category_home(&yapi_config.project_list, category_id);
    if p >= yapi_config.project_list.len() {
        proof {
            lemma_all_new(interfaces@);
        }
        return interfaces;
    }
    let c = find_category(&yapi_config.project_list[p].categories, category_id);
    let recorded = &yapi_config.project_list[p].categories[c].interfaces;
    let ghost models = interface_models(recorded@);
    assert(models == recorded_in(project_models(yapi_config.project_list@), category_id@));
    let mut out: Vec<InterfaceDataItem> = Vec::new();
    assert(interfaces@.skip(0) =~= interfaces@);
    for item in it: interfaces
        invariant
            it.seq() == interfaces@,
            models == interface_models(recorded@),
            new_interfaces(interfaces@, models) == out@ + new_interfaces(
                interfaces@.skip(it.index() as int),
                models,
            ),
    {
        let ghost rest = interfaces@.skip(it.index() as int);
        let ghost before = out@;
        assert(rest.skip(1) =~= interfaces@.skip(it.index() + 1));
        assert(rest[0] == item);
        let id = u32_to_string(item._id);
        if find_interface(recorded, id.as_str()) >= recorded.len() {
            out.push(item);
            assert(before + (seq![rest[0]] + new_interfaces(rest.skip(1), models)) =~= before.push(
                rest[0],
            ) + new_interfaces(rest.skip(1), models));
        }
    }
    out
}

/// Where nothing is recorded, every interface is new.
proof fn lemma_all_new(items: Seq<InterfaceDataItem>)
    ensures
        new_interfaces(items, Seq::empty()) == items,
    decreases items.len(),
{
    if items.len() > 0 {
        lemma_all_new(items.skip(1));
        lemma_first_true(
            Seq::new(
                0,
                |i: int| Seq::<YapiInterfaceModel>::empty()[i].id == decimal(items[0]._id as nat),
            ),
            0,
        );
        assert(seq![items[0]] + items.skip(1) =~= items);
    }
}

} // verus!
