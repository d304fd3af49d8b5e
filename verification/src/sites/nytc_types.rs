//! Recipes as NYT Cooking publishes them.

use crate::ld_md::{opt_view, LdJson};
use crate::ld_types::{
    categories_to_tags, category_tags, copy_text, map_text, short_time, shorten_time,
};
use crate::sites::sub_objects::{copy_strings, InstructionsView, RecipeInstructionKinds};
use crate::text::views;
use vstd::prelude::*;

verus! {

/// A recipe of NYT Cooking.
pub struct NYTCRecipe {
    pub name: String,
    pub description: String,
    pub author: Author,
    pub image: String,
    pub total_time: Option<String>,
    pub recipe_yield: Option<String>,
    pub recipe_cuisine: Option<String>,
    pub recipe_category: Option<String>,
    pub recipe_ingredient: Vec<String>,
    pub recipe_instructions: Vec<RecipeInstruction>,
    pub video: Option<Video>,
}

/// A rating.
pub struct AggregateRating {
    pub aggregate_rating_type: String,
    pub rating_value: i64,
    pub rating_count: i64,
}

/// An author.
pub struct Author {
    pub author_type: String,
    pub name: String,
}

/// Nutrition facts.
pub struct Nutrition {
    pub context: String,
    pub nutrition_type: String,
    pub calories: i64,
    pub unsaturated_fat_content: String,
    pub carbohydrate_content: String,
    pub cholesterol_content: Option<String>,
    pub fat_content: String,
    pub fiber_content: String,
    pub protein_content: String,
    pub saturated_fat_content: String,
    pub sodium_content: String,
    pub sugar_content: String,
    pub trans_fat_content: Option<String>,
}

/// One step of a recipe.
pub struct RecipeInstruction {
    pub recipe_instruction_type: String,
    pub text: String,
}

impl RecipeInstruction {
    /// The text of the step.
    pub fn simplify(&self) -> (r: String)
        ensures
            r@ == self.text@,
    {
        self.text.clone()
    }
}

/// A video, of which the thumbnail is shown.
pub struct Video {
    pub name: String,
    pub description: String,
    pub thumbnail_url: String,
}

/// The texts of the steps.
pub open spec fn step_texts(steps: Seq<RecipeInstruction>) -> Seq<Seq<char>> {
    steps.map_values(|s: RecipeInstruction| s.text@)
}

impl NYTCRecipe {
    /// The total time made short: `PT` dropped, `H` made `h ` and `M` made `m`.
    pub fn clean_total_time(&self) -> (r: Option<String>)
        ensures
            opt_view(r) == map_text(opt_view(self.total_time), |t: Seq<char>| short_time(t)),
    {
        match &self.total_time {
            Some(x) => Some(shorten_time(x.as_str())),
            None => None,
        }
    }

    /// The comma-separated categories as tags.
    pub fn categories_as_tags(&self) -> (r: Option<String>)
        ensures
            opt_view(r) == map_text(
                opt_view(self.recipe_category),
                |c: Seq<char>| category_tags(c),
            ),
    {
        match &self.recipe_category {
            Some(x) => Some(categories_to_tags(x.as_str())),
            None => None,
        }
    }

    /// The cuisine as a tag: `#` and the cuisine.
    pub fn cuisine(&self) -> (r: Option<String>)
        ensures
            opt_view(r) == map_text(opt_view(self.recipe_cuisine), |c: Seq<char>| "#"@ + c),
    {
        match &self.recipe_cuisine {
            Some(cuisine) => {
                let mut out = String::from_str("#");
                out.append(cuisine.as_str());
                Some(out)
            },
            None => None,
        }
    }

    /// The categories as tags.
    pub fn category(&self) -> (r: Option<String>)
        ensures
            opt_view(r) == map_text(
                opt_view(self.recipe_category),
                |c: Seq<char>| category_tags(c),
            ),
    {
        self.categories_as_tags()
    }
}

impl LdJson for NYTCRecipe {
    open spec fn name_spec(&self) -> Seq<char> {
        self.name@
    }

    open spec fn description_spec(&self) -> Seq<char> {
        self.description@
    }

    open spec fn author_spec(&self) -> Seq<char> {
        self.author.name@
    }

    open spec fn image_spec(&self) -> Seq<char> {
        self.image@
    }

    open spec fn total_time_spec(&self) -> Option<Seq<char>> {
        map_text(opt_view(self.total_time), |t: Seq<char>| short_time(t))
    }

    open spec fn recipe_yield_spec(&self) -> Option<Seq<char>> {
        opt_view(self.recipe_yield)
    }

    open spec fn ingredients_spec(&self) -> Seq<Seq<char>> {
        views(self.recipe_ingredient@)
    }

    open spec fn instructions_spec(&self) -> InstructionsView {
        InstructionsView::Lines(step_texts(self.recipe_instructions@))
    }

    open spec fn video_spec(&self) -> Option<Seq<char>> {
        match self.video {
            Some(v) => Some(v.thumbnail_url@),
            None => None,
        }
    }

    open spec fn holds_recipe(&self) -> bool {
        true
    }

    open spec fn author_defined(&self) -> bool {
        true
    }

    open spec fn image_defined(&self) -> bool {
        true
    }

    open spec fn yield_defined(&self) -> bool {
        true
    }

    fn name(&self) -> (r: String) {
        self.name.clone()
    }

    fn description(&self) -> (r: String) {
        self.description.clone()
    }

    fn author(&self) -> (r: String) {
        self.author.name.clone()
    }

    fn image(&self) -> (r: String) {
        self.image.clone()
    }

    fn total_time(&self) -> (r: Option<String>) {
        self.clean_total_time()
    }

    fn recipe_yield(&self) -> (r: Option<String>) {
        copy_text(&self.recipe_yield)
    }

    fn ingredients(&self) -> (r: Vec<String>) {
        copy_strings(&self.recipe_ingredient)
    }

    fn instructions(&self) -> (r: RecipeInstructionKinds) {
        let mut out: Vec<String> = Vec::new();
        let mut i: usize = 0;
        while i < self.recipe_instructions.len()
            invariant
                i <= self.recipe_instructions.len(),
                views(out@) == step_texts(self.recipe_instructions@).take(i as int),
            decreases self.recipe_instructions.len() - i,
        {
            let t = self.recipe_instructions[i].simplify();
            let ghost before = out@;
            out.push(t);
            assert(views(out@) =~= views(before).push(t@));
            assert(step_texts(self.recipe_instructions@).take(i + 1) =~= step_texts(
                self.recipe_instructions@,
            ).take(i as int).push(self.recipe_instructions@[i as int].text@));
            i = i + 1;
        }
        assert(step_texts(self.recipe_instructions@).take(self.recipe_instructions.len() as int)
            =~= step_texts(self.recipe_instructions@));
        RecipeInstructionKinds::StringInstruction(out)
    }

    fn video(&self) -> (r: Option<String>) {
        match &self.video {
            Some(vid) => Some(vid.thumbnail_url.clone()),
            None => None,
        }
    }
}

} // verus!
