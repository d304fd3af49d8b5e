//! A recipe with its nutrition facts, rendered as one markdown page.

use crate::ld_md::opt_view;
use crate::text::{
    decimal, decimal_spec, join, join_spec, replace, replace_spec, signed_decimal,
    signed_decimal_spec, split, split_spec, views, lemma_replace_char,
};
use vstd::prelude::*;

verus! {

/// A recipe.
pub struct Recipe {
    pub context: String,
    pub recipe_type: String,
    pub name: String,
    pub description: String,
    pub author: Author,
    pub image: String,
    pub total_time: Option<String>,
    pub recipe_yield: Option<String>,
    pub recipe_cuisine: Option<String>,
    pub recipe_category: Option<String>,
    pub nutrition: Option<Nutrition>,
    pub recipe_ingredient: Vec<String>,
    pub recipe_instructions: Vec<RecipeInstruction>,
    pub video: Option<Video>,
}

/// A rating.
pub struct AggregateRating {
    pub aggregate_rating_type: String,
    pub rating_value: i64,
    pub rating_count: i64,
}

/// An author.
pub struct Author {
    pub author_type: String,
    pub name: String,
}

/// Nutrition facts.
pub struct Nutrition {
    pub context: String,
    pub nutrition_type: String,
    pub calories: i64,
    pub unsaturated_fat_content: String,
    pub carbohydrate_content: String,
    pub cholesterol_content: Option<String>,
    pub fat_content: String,
    pub fiber_content: String,
    pub protein_content: String,
    pub saturated_fat_content: String,
    pub sodium_content: String,
    pub sugar_content: String,
    pub trans_fat_content: Option<String>,
}

/// One step of a recipe.
pub struct RecipeInstruction {
    pub context: String,
    pub recipe_instruction_type: String,
    pub text: String,
}

/// A video.
pub struct Video {
    pub context: String,
    pub video_type: String,
    pub name: String,
    pub description: String,
    pub thumbnail_url: String,
    pub upload_date: String,
    pub duration: String,
}

/// The text of an optional string, empty when there is none.
pub open spec fn text_or_empty(o: Option<Seq<char>>) -> Seq<char> {
    match o {
        Some(s) => s,
        None => Seq::empty(),
    }
}

/// The text of an optional string, empty when there is none.
pub fn option_or_empty(val: Option<String>) -> (r: String)
    ensures
        r@ == text_or_empty(opt_view(val)),
{
    if let Some(i) = val {
        i
    } else {
        String::new()
    }
}

/// A copy of an optional string.
pub fn copy_text(o: &Option<String>) -> (r: Option<String>)
    ensures
        opt_view(r) == opt_view(*o),
{
    match o {
        Some(s) => Some(s.clone()),
        None => None,
    }
}

/// A total time made short: `PT` dropped, `H` made `h ` and `M` made `m`.
pub open spec fn short_time(t: Seq<char>) -> Seq<char> {
    replace_spec(replace_spec(replace_spec(t, "PT"@, ""@), "H"@, "h "@), "M"@, "m"@)
}

/// A total time made short.
pub fn shorten_time(t: &str) -> (r: String)
    ensures
        r@ == short_time(t@),
{
    proof {
        reveal_strlit("PT");
        reveal_strlit("H");
        reveal_strlit("M");
    }
    let a = replace(t, "PT", "");
    let b = replace(a.as_str(), "H", "h ");
    replace(b.as_str(), "M", "m")
}

/// A category as a tag: `#` and the category with its spaces made `_`.
pub open spec fn tag_of(category: Seq<char>) -> Seq<char> {
    "#"@ + replace_spec(category, " "@, "_"@)
}

/// A category as a tag.
pub fn tag(category: &str) -> (r: String)
    ensures
        r@ == tag_of(category@),
{
    proof {
        reveal_strlit(" ");
    }
    let mut out = String::from_str("#");
    let body = replace(category, " ", "_");
    out.append(body.as_str());
    out
}

/// The tags of the categories, separated by spaces.
pub open spec fn tags_of(categories: Seq<Seq<char>>) -> Seq<char> {
    join_spec(categories.map_values(|c: Seq<char>| tag_of(c)), " "@)
}

/// The tags of the categories, separated by spaces.
pub fn tags(categories: &Vec<String>) -> (r: String)
    ensures
        r@ == tags_of(views(categories@)),
{
    let mut out: Vec<String> = Vec::new();
    let mut i: usize = 0;
    while i < categories.len()
        invariant
            i <= categories.len(),
            views(out@) == views(categories@).take(i as int).map_values(|c: Seq<char>| tag_of(c)),
        decreases categories.len() - i,
    {
        let t = tag(categories[i].as_str());
        let ghost before = out@;
        out.push(t);
        assert(views(out@) =~= views(before).push(t@));
        assert(views(categories@).take(i + 1).map_values(|c: Seq<char>| tag_of(c))
            =~= views(categories@).take(i as int).map_values(|c: Seq<char>| tag_of(c)).push(
            tag_of(categories@[i as int]@),
        ));
        i = i + 1;
    }
    assert(views(categories@).take(categories.len() as int) =~= views(categories@));
    join(&out, " ")
}

/// A comma-separated category list as tags.
pub open spec fn category_tags(c: Seq<char>) -> Seq<char> {
    tags_of(split_spec(c, ", "@))
}

/// A comma-separated category list as tags.
pub fn categories_to_tags(c: &str) -> (r: String)
    ensures
        r@ == category_tags(c@),
{
    proof {
        reveal_strlit(", ");
    }
    let parts = split(c, ", ");
    tags(&parts)
}

/// `- {item}` for each item.
pub open spec fn plain_bullets(items: Seq<Seq<char>>) -> Seq<char>
    decreases items.len(),
{
    if items.len() == 0 {
        Seq::empty()
    } else {
        plain_bullets(items.drop_last()) + "- "@ + items.last() + "\n"@
    }
}

/// `{k}. {item}` for each item, numbered from 1.
pub open spec fn plain_numbered(items: Seq<Seq<char>>) -> Seq<char>
    decreases items.len(),
{
    if items.len() == 0 {
        Seq::empty()
    } else {
        plain_numbered(items.drop_last()) + decimal_spec(items.len()) + ". "@ + items.last()
            + "\n"@
    }
}

/// A titled bullet list.
pub open spec fn ul_spec(list: Seq<Seq<char>>, title: Seq<char>) -> Seq<char> {
    "## "@ + title + "\n"@ + plain_bullets(list)
}

/// A titled numbered list.
pub open spec fn ol_spec(list: Seq<Seq<char>>, title: Seq<char>) -> Seq<char> {
    "## "@ + title + "\n"@ + plain_numbered(list)
}

/// The texts of the steps.
pub open spec fn step_texts(steps: Seq<RecipeInstruction>) -> Seq<Seq<char>> {
    steps.map_values(|s: RecipeInstruction| s.text@)
}

/// The nutrition facts as a markdown section.
pub open spec fn nutrition_md(n: Nutrition) -> Seq<char> {
    "### Nutrition\n- calories: "@ + signed_decimal_spec(n.calories as int)
        + "\n- unsaturated fat: "@ + n.unsaturated_fat_content@ + "\n- carbohydrate: "@
        + n.carbohydrate_content@ + "\n- cholesterol: "@ + text_or_empty(
        opt_view(n.cholesterol_content),
    ) + "\n- fat: "@ + n.fat_content@ + "\n- fiber: "@ + n.fiber_content@ + "\n- protein: "@
        + n.protein_content@ + "\n- saturated fat: "@ + n.saturated_fat_content@
        + "\n- sodium: "@ + n.sodium_content@ + "\n- sugar: "@ + n.sugar_content@
        + "\n- trans fat: "@ + text_or_empty(opt_view(n.trans_fat_content)) + "\n        "@
}

/// The markdown page of a recipe whose total time and categories were
/// already made short and tags.
pub open spec fn recipe_page(r: Recipe) -> Seq<char> {
    "# "@ + r.name@ + "\n\nBy: "@ + r.author.name@ + "\n\n![]("@ + r.image@ + ")\n\n"@
        + r.description@ + "\n\nYields: "@ + text_or_empty(opt_view(r.recipe_yield)) + " in "@
        + text_or_empty(opt_view(r.total_time)) + "\n\n#"@ + text_or_empty(
        opt_view(r.recipe_cuisine),
    ) + " "@ + text_or_empty(opt_view(r.recipe_category)) + "\n\n"@ + ul_spec(
        views(r.recipe_ingredient@),
        "Ingredients"@,
    ) + "\n\n"@ + ol_spec(step_texts(r.recipe_instructions@), "Instructions"@) + "\n\n"@
        + match r.nutrition {
        Some(n) => nutrition_md(n),
        None => Seq::empty(),
    } + "\n\nSource: ["@ + r.name@ + "]"@
}

/// The optional text, transformed where present.
pub open spec fn map_text(o: Option<Seq<char>>, f: spec_fn(Seq<char>) -> Seq<char>) -> Option<
    Seq<char>,
> {
    match o {
        Some(s) => Some(f(s)),
        None => None,
    }
}

impl Recipe {
    /// Makes the total time short and the categories tags, then renders the
    /// recipe as a markdown page.
    pub fn as_md(&mut self) -> (r: String)
        ensures
            opt_view(final(self).total_time) == map_text(
                opt_view(old(self).total_time),
                |t: Seq<char>| short_time(t),
            ),
            opt_view(final(self).recipe_category) == map_text(
                opt_view(old(self).recipe_category),
                |c: Seq<char>| category_tags(c),
            ),
            *final(self) == (Recipe {
                total_time: final(self).total_time,
                recipe_category: final(self).recipe_category,
                ..*old(self)
            }),
            r@ == recipe_page(*final(self)),
    {
        self.clean_total_time();
        self.categories_as_tags();
        let mut out = String::from_str("# ");
        out.append(self.name.as_str());
        out.append("\n\nBy: ");
        out.append(self.author.name.as_str());
        out.append("\n\n![](");
        out.append(self.image.as_str());
        out.append(")\n\n");
        out.append(self.description.as_str());
        out.append("\n\nYields: ");
        let y = option_or_empty(copy_text(&self.recipe_yield));
        out.append(y.as_str());
        out.append(" in ");
        let t = option_or_empty(copy_text(&self.total_time));
        out.append(t.as_str());
        out.append("\n\n#");
        let c = option_or_empty(copy_text(&self.recipe_cuisine));
        out.append(c.as_str());
        out.append(" ");
        let cat = option_or_empty(copy_text(&self.recipe_category));
        out.append(cat.as_str());
        out.append("\n\n");
        let ul = Self::ul(
            crate::sites::sub_objects::copy_strings(&self.recipe_ingredient),
            String::from_str("Ingredients"),
        );
        out.append(ul.as_str());
        out.append("\n\n");
        let ol = Self::ol(Self::instruction_texts(&self.recipe_instructions), String::from_str("Instructions"));
        out.append(ol.as_str());
        out.append("\n\n");
        let n = match &self.nutrition {
            Some(n) => n.as_md(),
            None => String::new(),
        };
        out.append(n.as_str());
        out.append("\n\nSource: [");
        out.append(self.name.as_str());
        out.append("]");
        assert(out@ =~= recipe_page(*self));
        out
    }

    /// The texts of the steps.
    fn instruction_texts(steps: &Vec<RecipeInstruction>) -> (r: Vec<String>)
        ensures
            views(r@) == step_texts(steps@),
    {
        let mut out: Vec<String> = Vec::new();
        let mut i: usize = 0;
        while i < steps.len()
            invariant
                i <= steps.len(),
                views(out@) == step_texts(steps@).take(i as int),
            decreases steps.len() - i,
        {
            let t = steps[i].simplify();
            let ghost before = out@;
            out.push(t);
            assert(views(out@) =~= views(before).push(t@));
            assert(step_texts(steps@).take(i + 1) =~= step_texts(steps@).take(i as int).push(
                steps@[i as int].text@,
            ));
            i = i + 1;
        }
        assert(step_texts(steps@).take(steps.len() as int) =~= step_texts(steps@));
        out
    }

    fn clean_total_time(&mut self)
        ensures
            opt_view(final(self).total_time) == map_text(
                opt_view(old(self).total_time),
                |t: Seq<char>| short_time(t),
            ),
            *final(self) == (Recipe { total_time: final(self).total_time, ..*old(self) }),
    {
        let cleaned = match &self.total_time {
            Some(x) => Some(shorten_time(x.as_str())),
            None => None,
        };
        self.total_time = cleaned;
    }

    fn categories_as_tags(&mut self)
        ensures
            opt_view(final(self).recipe_category) == map_text(
                opt_view(old(self).recipe_category),
                |c: Seq<char>| category_tags(c),
            ),
            *final(self) == (Recipe { recipe_category: final(self).recipe_category, ..*old(self) }),
    {
        let tagged = match &self.recipe_category {
            Some(x) => Some(categories_to_tags(x.as_str())),
            None => None,
        };
        self.recipe_category = tagged;
    }

    /// A titled bullet list.
    fn ul(list: Vec<String>, title: String) -> (r: String)
        ensures
            r@ == ul_spec(views(list@), title@),
    {
        let mut out = String::from_str("## ");
        out.append(title.as_str());
        out.append("\n");
        let ghost start = out@;
        let mut i: usize = 0;
        while i < list.len()
            invariant
                i <= list.len(),
                start == "## "@ + title@ + "\n"@,
                out@ == start + plain_bullets(views(list@).take(i as int)),
            decreases list.len() - i,
        {
            assert(views(list@).take(i + 1).drop_last() =~= views(list@).take(i as int));
            out.append("- ");
            out.append(list[i].as_str());
            out.append("\n");
            i = i + 1;
            assert(out@ =~= start + plain_bullets(views(list@).take(i as int)));
        }
        assert(views(list@).take(list.len() as int) =~= views(list@));
        out
    }

    /// A titled numbered list.
    fn ol(list: Vec<String>, title: String) -> (r: String)
        ensures
            r@ == ol_spec(views(list@), title@),
    {
        let mut out = String::from_str("## ");
        out.append(title.as_str());
        out.append("\n");
        let ghost start = out@;
        let mut i: usize = 0;
        while i < list.len()
            invariant
                i <= list.len(),
                start == "## "@ + title@ + "\n"@,
                out@ == start + plain_numbered(views(list@).take(i as int)),
            decreases list.len() - i,
        {
            assert(views(list@).take(i + 1).drop_last() =~= views(list@).take(i as int));
            let number = decimal((i + 1) as u64);
            out.append(number.as_str());
            out.append(". ");
            out.append(list[i].as_str());
            out.append("\n");
            i = i + 1;
            assert(out@ =~= start + plain_numbered(views(list@).take(i as int)));
        }
        assert(views(list@).take(list.len() as int) =~= views(list@));
        out
    }
}

impl Nutrition {
    /// The nutrition facts as a markdown section.
    pub fn as_md(&self) -> (r: String)
        ensures
            r@ == nutrition_md(*self),
    {
        let mut out = String::from_str("### Nutrition\n- calories: ");
        let calories = signed_decimal(self.calories);
        out.append(calories.as_str());
        out.append("\n- unsaturated fat: ");
        out.append(self.unsaturated_fat_content.as_str());
        out.append("\n- carbohydrate: ");
        out.append(self.carbohydrate_content.as_str());
        out.append("\n- cholesterol: ");
        let cholesterol = option_or_empty(copy_text(&self.cholesterol_content));
        out.append(cholesterol.as_str());
        out.append("\n- fat: ");
        out.append(self.fat_content.as_str());
        out.append("\n- fiber: ");
        out.append(self.fiber_content.as_str());
        out.append("\n- protein: ");
        out.append(self.protein_content.as_str());
        out.append("\n- saturated fat: ");
        out.append(self.saturated_fat_content.as_str());
        out.append("\n- sodium: ");
        out.append(self.sodium_content.as_str());
        out.append("\n- sugar: ");
        out.append(self.sugar_content.as_str());
        out.append("\n- trans fat: ");
        let trans = option_or_empty(copy_text(&self.trans_fat_content));
        out.append(trans.as_str());
        out.append("\n        ");
        assert(out@ =~= nutrition_md(*self));
        out
    }
}

impl RecipeInstruction {
    /// The text of the step.
    pub fn simplify(&self) -> (r: String)
        ensures
            r@ == self.text@,
    {
        self.text.clone()
    }
}

/// A tag is `#` followed by the category with each of its spaces made `_`
/// and every other character kept: one character longer than the category,
/// and without any space.
pub proof fn lemma_tag_of(category: Seq<char>)
    ensures
        tag_of(category).len() == category.len() + 1,
        tag_of(category)[0] == '#',
        forall|k: int|
            #![trigger category[k]]
            0 <= k < category.len() ==> tag_of(category)[k + 1] == (if category[k] == ' ' {
                '_'
            } else {
                category[k]
            }),
        forall|k: int| 0 <= k < tag_of(category).len() ==> #[trigger] tag_of(category)[k] != ' ',
{
    reveal_strlit("#");
    reveal_strlit(" ");
    reveal_strlit("_");
    assert(" "@ =~= seq![' ']);
    assert("_"@ =~= seq!['_']);
    lemma_replace_char(category, ' ', '_');
    let r = replace_spec(category, " "@, "_"@);
    assert forall|k: int| 0 <= k < category.len() implies tag_of(category)[k + 1] == (
    if category[k] == ' ' {
        '_'
    } else {
        category[k]
    }) by {
        assert(tag_of(category)[k + 1] == r[k]);
    }
    assert forall|k: int| 0 <= k < tag_of(category).len() implies #[trigger] tag_of(category)[k]
        != ' ' by {
        if k > 0 {
            assert(tag_of(category)[k] == r[k - 1]);
        }
    }
}

/// Each line of a numbered list is its number in decimal, `. ` and its
/// item: the list of the first `k` items is the list of the first `k - 1`
/// followed by `{k}. {item k}\n`, and it begins the list of all the items.
pub proof fn lemma_numbered_lines(items: Seq<Seq<char>>, k: int)
    requires
        1 <= k <= items.len(),
    ensures
        plain_numbered(items.take(k)) == plain_numbered(items.take(k - 1)) + decimal_spec(k as nat)
            + ". "@ + items[k - 1] + "\n"@,
        plain_numbered(items.take(k)).is_prefix_of(plain_numbered(items)),
    decreases items.len(),
{
    assert(items.take(k).drop_last() =~= items.take(k - 1));
    assert(items.take(k).last() == items[k - 1]);
    if k == items.len() {
        assert(items.take(k) =~= items);
    } else {
        let shorter = items.drop_last();
        lemma_numbered_lines(shorter, k);
        assert(shorter.take(k) =~= items.take(k));
        assert(shorter.take(k - 1) =~= items.take(k - 1));
        let a = plain_numbered(items.take(k));
        let b = plain_numbered(shorter);
        let whole = plain_numbered(items);
        assert(whole == b + decimal_spec(items.len()) + ". "@ + items.last() + "\n"@);
        assert(whole.subrange(0, a.len() as int) =~= b.subrange(0, a.len() as int));
    }
}

/// Each item is one bullet line, in the order of the items: the list of
/// the first `k` items is the list of the first `k - 1` followed by the
/// line of item `k`, and it begins the list of all the items.
pub proof fn lemma_plain_bullet_lines(items: Seq<Seq<char>>, k: int)
    requires
        1 <= k <= items.len(),
    ensures
        plain_bullets(items.take(k)) == plain_bullets(items.take(k - 1)) + "- "@ + items[k - 1] + "\n"@,
        plain_bullets(items.take(k)).is_prefix_of(plain_bullets(items)),
    decreases items.len(),
{
    assert(items.take(k).drop_last() =~= items.take(k - 1));
    assert(items.take(k).last() == items[k - 1]);
    if k == items.len() {
        assert(items.take(k) =~= items);
    } else {
        let shorter = items.drop_last();
        lemma_plain_bullet_lines(shorter, k);
        assert(shorter.take(k) =~= items.take(k));
        assert(shorter.take(k - 1) =~= items.take(k - 1));
        let a = plain_bullets(items.take(k));
        let b = plain_bullets(shorter);
        let whole = plain_bullets(items);
        assert(whole == b + "- "@ + items.last() + "\n"@);
        assert(whole.subrange(0, a.len() as int) =~= b.subrange(0, a.len() as int));
    }
}

} // verus!
