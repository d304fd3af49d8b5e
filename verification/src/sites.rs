//! The schema.org recipe as web pages embed it, and what the markdown
//! builder reads of it.

use crate::ld_md::{opt_view, LdJson};
use crate::text::{decimal, decimal_spec, replace, replace_spec, trim, trim_spec, views};
use vstd::prelude::*;

pub mod faw_types;
pub mod media;
pub mod nytc_types;
pub mod schema_org;
pub mod sub_objects;

pub use media::{IdImage, Image, ImageObject, Video};

pub use sub_objects::{
    Author, AuthorObject, HowToSection, InstructionsView, RecipeInstruction, RecipeInstructionKinds,
};

verus! {

/// One value, or a list of them of which the first counts.
pub enum SingleOrArray<T> {
    Single(T),
    Array(Vec<T>),
}

impl<T> SingleOrArray<T> {
    /// There is a value to take: a list is not empty.
    pub open spec fn has_value(&self) -> bool {
        match self {
            SingleOrArray::Single(_) => true,
            SingleOrArray::Array(v) => v@.len() > 0,
        }
    }

    /// The value that counts: the single one, or the first of the list.
    pub open spec fn value(&self) -> T
        recommends
            self.has_value(),
    {
        match self {
            SingleOrArray::Single(v) => *v,
            SingleOrArray::Array(v) => v@[0],
        }
    }

    /// The value that counts.
    pub fn get(&self) -> (r: &T)
        requires
            self.has_value(),
        ensures
            *r == self.value(),
    {
        match self {
            SingleOrArray::Single(v) => v,
            SingleOrArray::Array(v) => &v[0],
        }
    }
}

} // verus!

verus! {

/// A count or a text, given alone or as a list of which the first counts.
pub enum TypesOrArray {
    String(String),
    Number(usize),
    Array(Vec<String>),
}

impl TypesOrArray {
    /// There is a value to report: a list is not empty.
    pub open spec fn has_value(&self) -> bool {
        match self {
            TypesOrArray::Array(v) => v@.len() > 0,
            _ => true,
        }
    }

    /// The text reported: the string, the number in decimal, or the first
    /// of the list.
    pub open spec fn value_spec(&self) -> Seq<char> {
        match self {
            TypesOrArray::String(s) => s@,
            TypesOrArray::Number(n) => decimal_spec(*n as nat),
            TypesOrArray::Array(v) => v@[0]@,
        }
    }

    /// The text of the value.
    pub fn get(&self) -> (r: String)
        requires
            self.has_value(),
        ensures
            r@ == self.value_spec(),
    {
        match self {
            TypesOrArray::String(val) => val.clone(),
            TypesOrArray::Number(val) => decimal(*val as u64),
            TypesOrArray::Array(val) => val[0].clone(),
        }
    }
}

/// A schema.org recipe.
pub struct LdRecipe {
    pub name: String,
    pub description: Option<String>,
    pub author: Author,
    pub image: Image,
    /// The total time as it is shown: the hours and minutes of the
    /// recipe's ISO 8601 duration.
    pub total_time: Option<String>,
    pub recipe_yield: Option<TypesOrArray>,
    pub recipe_ingredient: Vec<String>,
    pub recipe_instructions: RecipeInstructionKinds,
    pub video: Option<Video>,
}

/// A yield as shown: `Serves : ` taken out, then trimmed.
pub open spec fn shown_yield(y: Seq<char>) -> Seq<char> {
    trim_spec(replace_spec(y, "Serves : "@, Seq::empty()))
}

/// The trimmed texts.
pub open spec fn trimmed_all(v: Seq<Seq<char>>) -> Seq<Seq<char>> {
    v.map_values(|s: Seq<char>| trim_spec(s))
}

/// Trims each text of a list.
pub fn trim_each(v: &Vec<String>) -> (r: Vec<String>)
    ensures
        views(r@) == trimmed_all(views(v@)),
{
    let mut out: Vec<String> = Vec::new();
    let mut i: usize = 0;
    while i < v.len()
        invariant
            i <= v.len(),
            views(out@) == trimmed_all(views(v@).take(i as int)),
        decreases v.len() - i,
    {
        let t = trim(v[i].as_str());
        let ghost before = out@;
        out.push(t);
        assert(views(out@) =~= views(before).push(t@));
        assert(trimmed_all(views(v@).take(i + 1)) =~= trimmed_all(views(v@).take(i as int)).push(
            trim_spec(v@[i as int]@),
        ));
        i = i + 1;
    }
    assert(views(v@).take(v.len() as int) =~= views(v@));
    out
}

/// A yield as shown.
pub fn show_yield(y: &str) -> (r: String)
    ensures
        r@ == shown_yield(y@),
{
    proof {
        reveal_strlit("Serves : ");
        reveal_strlit("");
        assert(""@ =~= Seq::<char>::empty());
    }
    let removed = replace(y, "Serves : ", "");
    trim(removed.as_str())
}

impl LdJson for LdRecipe {
    open spec fn name_spec(&self) -> Seq<char> {
        self.name@
    }

    open spec fn description_spec(&self) -> Seq<char> {
        match self.description {
            Some(d) => d@,
            None => Seq::empty(),
        }
    }

    open spec fn author_spec(&self) -> Seq<char> {
        match self.author {
            Author::String(s) => s@,
            Author::AuthorObject(a) => a.value().name@,
        }
    }

    open spec fn image_spec(&self) -> Seq<char> {
        self.image.url_spec()
    }

    open spec fn total_time_spec(&self) -> Option<Seq<char>> {
        opt_view(self.total_time)
    }

    open spec fn recipe_yield_spec(&self) -> Option<Seq<char>> {
        match self.recipe_yield {
            Some(y) => Some(shown_yield(y.value_spec())),
            None => None,
        }
    }

    open spec fn ingredients_spec(&self) -> Seq<Seq<char>> {
        trimmed_all(views(self.recipe_ingredient@))
    }

    open spec fn instructions_spec(&self) -> InstructionsView {
        self.recipe_instructions@
    }

    open spec fn video_spec(&self) -> Option<Seq<char>> {
        match self.video {
            Some(v) => Some(v.thumbnail_url@),
            None => None,
        }
    }

    open spec fn holds_recipe(&self) -> bool {
        true
    }

    open spec fn author_defined(&self) -> bool {
        match self.author {
            Author::AuthorObject(a) => a.has_value(),
            Author::String(_) => true,
        }
    }

    open spec fn image_defined(&self) -> bool {
        self.image.has_image()
    }

    open spec fn yield_defined(&self) -> bool {
        match self.recipe_yield {
            Some(y) => y.has_value(),
            None => true,
        }
    }

    fn name(&self) -> (r: String) {
        self.name.clone()
    }

    fn description(&self) -> (r: String) {
        if let Some(desc) = &self.description {
            desc.clone()
        } else {
            String::new()
        }
    }

    fn author(&self) -> (r: String) {
        match &self.author {
            Author::String(val) => val.clone(),
            Author::AuthorObject(author) => author.get().name.clone(),
        }
    }

    fn image(&self) -> (r: String) {
        self.image.get()
    }

    fn total_time(&self) -> (r: Option<String>) {
        match &self.total_time {
            Some(t) => Some(t.clone()),
            None => None,
        }
    }

    fn recipe_yield(&self) -> (r: Option<String>) {
        match &self.recipe_yield {
            Some(inner) => {
                let value = inner.get();
                Some(show_yield(value.as_str()))
            },
            None => None,
        }
    }

    fn ingredients(&self) -> (r: Vec<String>) {
        trim_each(&self.recipe_ingredient)
    }

    fn instructions(&self) -> (r: RecipeInstructionKinds) {
        self.recipe_instructions.get()
    }

    fn video(&self) -> (r: Option<String>) {
        match &self.video {
            Some(vid) => Some(vid.thumbnail_url.clone()),
            None => None,
        }
    }
}

} // verus!
