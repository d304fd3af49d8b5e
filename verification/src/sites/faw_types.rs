//! Recipes as Food & Wine publishes them.

use crate::ld_md::{opt_view, LdJson};
use crate::ld_types::{short_time, shorten_time, tags, tags_of};
use crate::sites::sub_objects::{InstructionsView, RecipeInstructionKinds};
use crate::sites::{show_yield, shown_yield, trim_each, trimmed_all};
use crate::json::JsonValue;
use crate::text::{join, join_spec, replace, replace_spec, split, split_spec, views};
use vstd::prelude::*;

verus! {

/// A recipe of Food & Wine.
pub struct FoodAndWineRecipe {
    pub main_entity_of_page: String,
    pub name: String,
    pub image: Image,
    pub date_published: String,
    pub description: String,
    pub total_time: String,
    pub recipe_yield: String,
    pub recipe_ingredient: Vec<String>,
    pub recipe_instructions: String,
    pub recipe_category: Vec<String>,
    pub recipe_cuisine: Vec<String>,
    pub author: Vec<Author>,
}

/// An author.
pub struct Author {
    pub name: String,
}

/// An image.
pub struct Image {
    pub url: String,
}

/// The names of the authors.
pub open spec fn author_names(authors: Seq<Author>) -> Seq<Seq<char>> {
    authors.map_values(|a: Author| a.name@)
}

/// The tags of a list, or nothing for an empty list.
pub open spec fn tags_if_any(v: Seq<Seq<char>>) -> Option<Seq<char>> {
    if v.len() == 0 {
        None
    } else {
        Some(tags_of(v))
    }
}

impl FoodAndWineRecipe {
    /// The total time made short: `PT` dropped, `H` made `h ` and `M` made `m`.
    pub fn clean_total_time(&self) -> (r: String)
        ensures
            r@ == short_time(self.total_time@),
    {
        shorten_time(self.total_time.as_str())
    }

    /// The categories as tags.
    pub fn categories_as_tags(&self) -> (r: String)
        ensures
            r@ == tags_of(views(self.recipe_category@)),
    {
        tags(&self.recipe_category)
    }

    /// The cuisines as tags.
    pub fn cuisines_as_tags(&self) -> (r: String)
        ensures
            r@ == tags_of(views(self.recipe_cuisine@)),
    {
        tags(&self.recipe_cuisine)
    }

    /// The cuisines as tags, if there are any.
    pub fn cuisine(&self) -> (r: Option<String>)
        ensures
            opt_view(r) == tags_if_any(views(self.recipe_cuisine@)),
    {
        if self.recipe_cuisine.len() == 0 {
            None
        } else {
            Some(self.cuisines_as_tags())
        }
    }

    /// The categories as tags, if there are any.
    pub fn category(&self) -> (r: Option<String>)
        ensures
            opt_view(r) == tags_if_any(views(self.recipe_category@)),
    {
        if self.recipe_category.len() == 0 {
            None
        } else {
            Some(self.categories_as_tags())
        }
    }
}

impl LdJson for FoodAndWineRecipe {
    open spec fn name_spec(&self) -> Seq<char> {
        self.name@
    }

    open spec fn description_spec(&self) -> Seq<char> {
        replace_spec(self.description@, "\r"@, ""@)
    }

    open spec fn author_spec(&self) -> Seq<char> {
        join_spec(author_names(self.author@), ", "@)
    }

    open spec fn image_spec(&self) -> Seq<char> {
        self.image.url@
    }

    open spec fn total_time_spec(&self) -> Option<Seq<char>> {
        Some(short_time(self.total_time@))
    }

    open spec fn recipe_yield_spec(&self) -> Option<Seq<char>> {
        Some(shown_yield(self.recipe_yield@))
    }

    open spec fn ingredients_spec(&self) -> Seq<Seq<char>> {
        trimmed_all(views(self.recipe_ingredient@))
    }

    open spec fn instructions_spec(&self) -> InstructionsView {
        InstructionsView::Lines(trimmed_all(split_spec(self.recipe_instructions@, "."@)))
    }

    open spec fn video_spec(&self) -> Option<Seq<char>> {
        None
    }

    open spec fn holds_recipe(&self) -> bool {
        true
    }

    open spec fn author_defined(&self) -> bool {
        true
    }

    open spec fn image_defined(&self) -> bool {
        true
    }

    open spec fn yield_defined(&self) -> bool {
        true
    }

    fn name(&self) -> (r: String) {
        self.name.clone()
    }

    fn description(&self) -> (r: String) {
        proof {
            reveal_strlit("\r");
        }
        replace(self.description.as_str(), "\r", "")
    }

    fn author(&self) -> (r: String) {
        let mut names: Vec<String> = Vec::new();
        let mut i: usize = 0;
        while i < self.author.len()
            invariant
                i <= self.author.len(),
                views(names@) == author_names(self.author@).take(i as int),
            decreases self.author.len() - i,
        {
            let n = self.author[i].name.clone();
            let ghost before = names@;
            names.push(n);
            assert(views(names@) =~= views(before).push(n@));
            assert(author_names(self.author@).take(i + 1) =~= author_names(self.author@).take(
                i as int,
            ).push(self.author@[i as int].name@));
            i = i + 1;
        }
        assert(author_names(self.author@).take(self.author.len() as int) =~= author_names(
            self.author@,
        ));
        join(&names, ", ")
    }

    fn image(&self) -> (r: String) {
        self.image.url.clone()
    }

    fn total_time(&self) -> (r: Option<String>) {
        Some(self.clean_total_time())
    }

    fn recipe_yield(&self) -> (r: Option<String>) {
        Some(show_yield(self.recipe_yield.as_str()))
    }

    fn ingredients(&self) -> (r: Vec<String>) {
        trim_each(&self.recipe_ingredient)
    }

    fn instructions(&self) -> (r: RecipeInstructionKinds) {
        proof {
            reveal_strlit(".");
        }
        let pieces = split(self.recipe_instructions.as_str(), ".");
        RecipeInstructionKinds::StringInstruction(trim_each(&pieces))
    }

    fn video(&self) -> (r: Option<String>) {
        None
    }
}

/// An entry of a Food & Wine ld+json list: the recipe, or anything else.
pub enum FWEnum {
    Recipe(FoodAndWineRecipe),
    Breadcrumb(JsonValue),
}

/// A Food & Wine ld+json list.
pub struct FoodAndWineLd(pub Vec<FWEnum>);

/// The first recipe of the entries.
pub open spec fn first_recipe_entry(entries: Seq<FWEnum>) -> Option<FoodAndWineRecipe>
    decreases entries.len(),
{
    if entries.len() == 0 {
        None
    } else {
        match entries[0] {
            FWEnum::Recipe(r) => Some(r),
            FWEnum::Breadcrumb(_) => first_recipe_entry(entries.drop_first()),
        }
    }
}

impl FoodAndWineLd {
    /// The first recipe of the list.
    pub open spec fn recipe_spec(&self) -> Option<FoodAndWineRecipe> {
        first_recipe_entry(self.0@)
    }

    /// The first recipe of the list.
    pub fn get_recipe(&self) -> (r: Option<&FoodAndWineRecipe>)
        ensures
            match r {
                Some(x) => self.recipe_spec() == Some(*x),
                None => self.recipe_spec() is None,
            },
    {
        let mut i: usize = 0;
        assert(self.0@.subrange(0, self.0@.len() as int) =~= self.0@);
        while i < self.0.len()
            invariant
                i <= self.0.len(),
                first_recipe_entry(self.0@) == first_recipe_entry(
                    self.0@.subrange(i as int, self.0@.len() as int),
                ),
            decreases self.0.len() - i,
        {
            assert(self.0@.subrange(i as int, self.0@.len() as int).drop_first()
                =~= self.0@.subrange(i + 1, self.0@.len() as int));
            assert(self.0@.subrange(i as int, self.0@.len() as int)[0] == self.0@[i as int]);
            if let FWEnum::Recipe(r) = &self.0[i] {
                return Some(r);
            }
            i = i + 1;
        }
        None
    }

    /// The cuisines of the recipe as tags, if there are any.
    pub fn cuisine(&self) -> (r: Option<String>)
        requires
            self.recipe_spec() is Some,
        ensures
            opt_view(r) == tags_if_any(views(self.recipe_spec()->0.recipe_cuisine@)),
    {
        match self.get_recipe() {
            Some(recipe) => recipe.cuisine(),
            None => None,
        }
    }

    /// The categories of the recipe as tags, if there are any.
    pub fn category(&self) -> (r: Option<String>)
        requires
            self.recipe_spec() is Some,
        ensures
            opt_view(r) == tags_if_any(views(self.recipe_spec()->0.recipe_category@)),
    {
        match self.get_recipe() {
            Some(recipe) => recipe.category(),
            None => None,
        }
    }
}

impl LdJson for FoodAndWineLd {
    open spec fn name_spec(&self) -> Seq<char> {
        self.recipe_spec()->0.name_spec()
    }

    open spec fn description_spec(&self) -> Seq<char> {
        self.recipe_spec()->0.description_spec()
    }

    open spec fn author_spec(&self) -> Seq<char> {
        self.recipe_spec()->0.author_spec()
    }

    open spec fn image_spec(&self) -> Seq<char> {
        self.recipe_spec()->0.image_spec()
    }

    open spec fn total_time_spec(&self) -> Option<Seq<char>> {
        self.recipe_spec()->0.total_time_spec()
    }

    open spec fn recipe_yield_spec(&self) -> Option<Seq<char>> {
        self.recipe_spec()->0.recipe_yield_spec()
    }

    open spec fn ingredients_spec(&self) -> Seq<Seq<char>> {
        self.recipe_spec()->0.ingredients_spec()
    }

    open spec fn instructions_spec(&self) -> InstructionsView {
        self.recipe_spec()->0.instructions_spec()
    }

    open spec fn video_spec(&self) -> Option<Seq<char>> {
        None
    }

    open spec fn holds_recipe(&self) -> bool {
        self.recipe_spec() is Some
    }

    open spec fn author_defined(&self) -> bool {
        true
    }

    open spec fn image_defined(&self) -> bool {
        true
    }

    open spec fn yield_defined(&self) -> bool {
        true
    }

    fn name(&self) -> (r: String) {
        match self.get_recipe() {
            Some(recipe) => recipe.name(),
            None => String::new(),
        }
    }

    fn description(&self) -> (r: String) {
        match self.get_recipe() {
            Some(recipe) => recipe.description(),
            None => String::new(),
        }
    }

    fn author(&self) -> (r: String) {
        match self.get_recipe() {
            Some(recipe) => recipe.author(),
            None => String::new(),
        }
    }

    fn image(&self) -> (r: String) {
        match self.get_recipe() {
            Some(recipe) => recipe.image(),
            None => String::new(),
        }
    }

    fn total_time(&self) -> (r: Option<String>) {
        match self.get_recipe() {
            Some(recipe) => recipe.total_time(),
            None => None,
        }
    }

    fn recipe_yield(&self) -> (r: Option<String>) {
        match self.get_recipe() {
            Some(recipe) => recipe.recipe_yield(),
            None => None,
        }
    }

    fn ingredients(&self) -> (r: Vec<String>) {
        match self.get_recipe() {
            Some(recipe) => recipe.ingredients(),
            None => Vec::new(),
        }
    }

    fn instructions(&self) -> (r: RecipeInstructionKinds) {
        match self.get_recipe() {
            Some(recipe) => recipe.instructions(),
            None => RecipeInstructionKinds::StringInstruction(Vec::new()),
        }
    }

    fn video(&self) -> (r: Option<String>) {
        None
    }
}

proof fn lemma_first_recipe_entry(entries: Seq<FWEnum>)
    ensures
        forall|k: int|
            0 <= k < entries.len() && #[trigger] entries[k] is Recipe && (forall|j: int|
                0 <= j < k ==> !(entries[j] is Recipe)) ==> first_recipe_entry(entries) == Some(
                entries[k]->Recipe_0,
            ),
        first_recipe_entry(entries) is None <==> forall|k: int|
            0 <= k < entries.len() ==> !(#[trigger] entries[k] is Recipe),
    decreases entries.len(),
{
    if entries.len() > 0 {
        let rest = entries.drop_first();
        lemma_first_recipe_entry(rest);
        assert forall|k: int| 0 <= k < rest.len() implies rest[k] == entries[k + 1] by {}
        if entries[0] is Breadcrumb {
            assert forall|k: int|
                0 <= k < entries.len() && #[trigger] entries[k] is Recipe && (forall|j: int|
                    0 <= j < k ==> !(entries[j] is Recipe)) implies first_recipe_entry(entries)
                == Some(entries[k]->Recipe_0) by {
                assert(k > 0);
                assert(rest[k - 1] == entries[k]);
                assert forall|j: int| 0 <= j < k - 1 implies !(rest[j] is Recipe) by {
                    assert(rest[j] == entries[j + 1]);
                }
            }
            if first_recipe_entry(rest) is None {
                assert forall|k: int| 0 <= k < entries.len() implies !(
                #[trigger] entries[k] is Recipe) by {
                    if k > 0 {
                        assert(rest[k - 1] == entries[k]);
                    }
                }
            } else {
                let k = choose|k: int| 0 <= k < rest.len() && #[trigger] rest[k] is Recipe;
                assert(entries[k + 1] is Recipe);
            }
        }
    }
}

/// The recipe of a Food & Wine list is its first `Recipe` entry, wherever in
/// the list it stands: an entry that is a recipe with none before it is the
/// recipe, and the list has no recipe only when no entry is one.
pub proof fn lemma_recipe_is_first_recipe_entry(ld: FoodAndWineLd)
    ensures
        forall|k: int|
            0 <= k < ld.0@.len() && #[trigger] ld.0@[k] is Recipe && (forall|j: int|
                0 <= j < k ==> !(ld.0@[j] is Recipe)) ==> ld.recipe_spec() == Some(ld.0@[k]->Recipe_0),
        ld.recipe_spec() is None <==> forall|k: int|
            0 <= k < ld.0@.len() ==> !(#[trigger] ld.0@[k] is Recipe),
{
    lemma_first_recipe_entry(ld.0@);
}

} // verus!
