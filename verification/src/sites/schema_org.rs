//! A plainer schema.org recipe: one author shape, string or step
//! instructions.

use crate::ld_md::{opt_view, LdJson};
use crate::ld_types::{map_text, short_time, shorten_time};
use crate::sites::sub_objects::{InstructionsView, RecipeInstructionKinds};
use crate::sites::{show_yield, shown_yield, trim_each, trimmed_all};
use crate::text::{split, split_spec, trim, trim_spec, views};
use vstd::prelude::*;

verus! {

/// One value, or a list of them of which the first counts.
pub enum SingleOrArray<T> {
    Single(T),
    Array(Vec<T>),
}

impl<T> SingleOrArray<T> {
    /// There is a value to take: a list is not empty.
    pub open spec fn has_value(&self) -> bool {
        match self {
            SingleOrArray::Single(_) => true,
            SingleOrArray::Array(v) => v@.len() > 0,
        }
    }

    /// The value that counts: the single one, or the first of the list.
    pub open spec fn value(&self) -> T {
        match self {
            SingleOrArray::Single(v) => *v,
            SingleOrArray::Array(v) => v@[0],
        }
    }

    /// The value that counts.
    pub fn get(&self) -> (r: &T)
        requires
            self.has_value(),
        ensures
            *r == self.value(),
    {
        match self {
            SingleOrArray::Single(val) => val,
            SingleOrArray::Array(val) => &val[0],
        }
    }
}

/// The shapes in which a recipe's image arrives.
pub enum Image {
    String(String),
    Array(Vec<String>),
    Url(ImageObject),
}

/// An image object.
pub struct ImageObject {
    pub url: String,
}

impl Image {
    /// There is an image to report: a list is not empty.
    pub open spec fn has_image(&self) -> bool {
        match self {
            Image::Array(v) => v@.len() > 0,
            _ => true,
        }
    }

    /// The address reported: the string, the first of the list, or the url.
    pub open spec fn url_spec(&self) -> Seq<char> {
        match self {
            Image::String(s) => s@,
            Image::Array(v) => v@[0]@,
            Image::Url(o) => o.url@,
        }
    }

    /// The address of the image.
    pub fn get(&self) -> (r: String)
        requires
            self.has_image(),
        ensures
            r@ == self.url_spec(),
    {
        match self {
            Image::String(val) => val.clone(),
            Image::Array(val) => val[0].clone(),
            Image::Url(val) => val.url.clone(),
        }
    }
}

/// A schema.org recipe.
pub struct LdRecipe {
    pub name: String,
    pub description: String,
    pub author: SingleOrArray<Author>,
    pub image: Image,
    pub total_time: Option<String>,
    pub recipe_yield: SingleOrArray<String>,
    pub recipe_ingredient: Vec<String>,
    pub recipe_instructions: StringOrInstruction,
    pub video: Option<Video>,
}

/// A rating.
pub struct AggregateRating {
    pub aggregate_rating_type: String,
    pub rating_value: i64,
    pub rating_count: i64,
}

/// An author.
pub struct Author {
    pub author_type: String,
    pub name: String,
}

/// One step of a recipe.
pub struct RecipeInstruction {
    pub recipe_instruction_type: String,
    pub text: String,
}

impl RecipeInstruction {
    /// The text of the step.
    pub fn simplify(self) -> (r: String)
        ensures
            r@ == self.text@,
    {
        self.text
    }
}

/// Instructions as one text or as steps.
pub enum StringOrInstruction {
    String(String),
    Instruction(Vec<RecipeInstruction>),
}

/// The texts of the steps.
pub open spec fn step_texts(steps: Seq<RecipeInstruction>) -> Seq<Seq<char>> {
    steps.map_values(|s: RecipeInstruction| s.text@)
}

/// The kinds of the steps.
pub open spec fn step_kinds(steps: Seq<RecipeInstruction>) -> Seq<Seq<char>> {
    steps.map_values(|s: RecipeInstruction| s.recipe_instruction_type@)
}

impl StringOrInstruction {
    /// The kinds of the steps: `@type` for each piece of a text; the steps'
    /// own for a list of steps.
    pub open spec fn kinds(&self) -> Seq<Seq<char>> {
        match self {
            StringOrInstruction::String(_) => Seq::new(self.texts().len(), |k: int| "@type"@),
            StringOrInstruction::Instruction(v) => step_kinds(v@),
        }
    }

    /// The texts of the steps: a text is cut at each `". "` and each piece
    /// trimmed.
    pub open spec fn texts(&self) -> Seq<Seq<char>> {
        match self {
            StringOrInstruction::String(s) => trimmed_all(split_spec(s@, ". "@)),
            StringOrInstruction::Instruction(v) => step_texts(v@),
        }
    }

    /// The steps.
    pub fn get(&self) -> (r: Vec<RecipeInstruction>)
        ensures
            step_texts(r@) == self.texts(),
            step_kinds(r@) == self.kinds(),
    {
        match self {
            StringOrInstruction::String(val) => {
                proof {
                    reveal_strlit(". ");
                }
                let pieces = split(val.as_str(), ". ");
                let mut out: Vec<RecipeInstruction> = Vec::new();
                let mut i: usize = 0;
                while i < pieces.len()
                    invariant
                        i <= pieces.len(),
                        step_texts(out@) == trimmed_all(views(pieces@).take(i as int)),
                        step_kinds(out@) == Seq::new(i as nat, |k: int| "@type"@),
                    decreases pieces.len() - i,
                {
                    let step = RecipeInstruction {
                        recipe_instruction_type: String::from_str("@type"),
                        text: trim(pieces[i].as_str()),
                    };
                    let ghost before = out@;
                    out.push(step);
                    assert(step_texts(out@) =~= step_texts(before).push(step.text@));
                    assert(step_kinds(out@) =~= step_kinds(before).push(
                        step.recipe_instruction_type@,
                    ));
                    assert(step_kinds(out@) =~= Seq::new((i + 1) as nat, |k: int| "@type"@));
                    assert(trimmed_all(views(pieces@).take(i + 1)) =~= trimmed_all(
                        views(pieces@).take(i as int),
                    ).push(trim_spec(pieces@[i as int]@)));
                    i = i + 1;
                }
                assert(views(pieces@).take(pieces.len() as int) =~= views(pieces@));
                assert(step_kinds(out@) =~= self.kinds());
                out
            },
            StringOrInstruction::Instruction(val) => {
                let mut out: Vec<RecipeInstruction> = Vec::new();
                let mut i: usize = 0;
                while i < val.len()
                    invariant
                        i <= val.len(),
                        step_texts(out@) == step_texts(val@).take(i as int),
                        step_kinds(out@) == step_kinds(val@).take(i as int),
                    decreases val.len() - i,
                {
                    let step = RecipeInstruction {
                        recipe_instruction_type: val[i].recipe_instruction_type.clone(),
                        text: val[i].text.clone(),
                    };
                    let ghost before = out@;
                    out.push(step);
                    assert(step_texts(out@) =~= step_texts(before).push(step.text@));
                    assert(step_texts(val@).take(i + 1) =~= step_texts(val@).take(i as int).push(
                        val@[i as int].text@,
                    ));
                    assert(step_kinds(out@) =~= step_kinds(before).push(
                        step.recipe_instruction_type@,
                    ));
                    assert(step_kinds(val@).take(i + 1) =~= step_kinds(val@).take(i as int).push(
                        val@[i as int].recipe_instruction_type@,
                    ));
                    i = i + 1;
                }
                assert(step_texts(val@).take(val.len() as int) =~= step_texts(val@));
                assert(step_kinds(val@).take(val.len() as int) =~= step_kinds(val@));
                out
            },
        }
    }
}

/// A video, of which the thumbnail is shown.
pub struct Video {
    pub name: String,
    pub description: String,
    pub thumbnail_url: String,
}

/// A recipe without image and yield.
pub struct ExRecipe {
    pub name: String,
    pub description: String,
    pub author: Author,
    pub total_time: Option<String>,
    pub recipe_ingredient: Vec<String>,
    pub recipe_instructions: StringOrInstruction,
    pub video: Option<Video>,
}

impl LdRecipe {
    /// The total time made short: `PT` dropped, `H` made `h ` and `M` made `m`.
    pub fn clean_total_time(&self) -> (r: Option<String>)
        ensures
            opt_view(r) == map_text(opt_view(self.total_time), |t: Seq<char>| short_time(t)),
    {
        match &self.total_time {
            Some(x) => Some(shorten_time(x.as_str())),
            None => None,
        }
    }
}

impl LdJson for LdRecipe {
    open spec fn name_spec(&self) -> Seq<char> {
        self.name@
    }

    open spec fn description_spec(&self) -> Seq<char> {
        self.description@
    }

    open spec fn author_spec(&self) -> Seq<char> {
        self.author.value().name@
    }

    open spec fn image_spec(&self) -> Seq<char> {
        self.image.url_spec()
    }

    open spec fn total_time_spec(&self) -> Option<Seq<char>> {
        map_text(opt_view(self.total_time), |t: Seq<char>| short_time(t))
    }

    open spec fn recipe_yield_spec(&self) -> Option<Seq<char>> {
        Some(shown_yield(self.recipe_yield.value()@))
    }

    open spec fn ingredients_spec(&self) -> Seq<Seq<char>> {
        trimmed_all(views(self.recipe_ingredient@))
    }

    open spec fn instructions_spec(&self) -> InstructionsView {
        InstructionsView::Lines(self.recipe_instructions.texts())
    }

    open spec fn video_spec(&self) -> Option<Seq<char>> {
        match self.video {
            Some(v) => Some(v.thumbnail_url@),
            None => None,
        }
    }

    open spec fn holds_recipe(&self) -> bool {
        true
    }

    open spec fn author_defined(&self) -> bool {
        self.author.has_value()
    }

    open spec fn image_defined(&self) -> bool {
        self.image.has_image()
    }

    open spec fn yield_defined(&self) -> bool {
        self.recipe_yield.has_value()
    }

    fn name(&self) -> (r: String) {
        self.name.clone()
    }

    fn description(&self) -> (r: String) {
        self.description.clone()
    }

    fn author(&self) -> (r: String) {
        self.author.get().name.clone()
    }

    fn image(&self) -> (r: String) {
        self.image.get()
    }

    fn total_time(&self) -> (r: Option<String>) {
        self.clean_total_time()
    }

    fn recipe_yield(&self) -> (r: Option<String>) {
        Some(show_yield(self.recipe_yield.get().as_str()))
    }

    fn ingredients(&self) -> (r: Vec<String>) {
        trim_each(&self.recipe_ingredient)
    }

    fn instructions(&self) -> (r: RecipeInstructionKinds) {
        let steps = self.recipe_instructions.get();
        let mut out: Vec<String> = Vec::new();
        let mut rest = steps;
        let ghost all = step_texts(rest@);
        let mut i: usize = 0;
        let n = rest.len();
        while i < n
            invariant
                n == all.len(),
                i <= n,
                rest@.len() == n - i,
                step_texts(rest@) == all.subrange(i as int, n as int),
                views(out@) == all.take(i as int),
            decreases n - i,
        {
            let ghost old_rest = rest@;
            let step = rest.remove(0);
            let ghost before = out@;
            assert(step_texts(old_rest)[0] == all.subrange(i as int, n as int)[0]);
            assert(step.text@ == all[i as int]);
            assert(rest@ =~= old_rest.subrange(1, old_rest.len() as int));
            assert(step_texts(rest@) =~= step_texts(old_rest).subrange(1, old_rest.len() as int));
            let t = step.simplify();
            out.push(t);
            assert(views(out@) =~= views(before).push(t@));
            assert(all.take(i + 1) =~= all.take(i as int).push(all[i as int]));
            assert(step_texts(rest@) =~= all.subrange(i + 1, n as int));
            i = i + 1;
        }
        assert(all.take(n as int) =~= all);
        RecipeInstructionKinds::StringInstruction(out)
    }

    fn video(&self) -> (r: Option<String>) {
        match &self.video {
            Some(vid) => Some(vid.thumbnail_url.clone()),
            None => None,
        }
    }
}

} // verus!
