//! The markdown document of a recipe, built from what a recipe type reports
//! through `LdJson`.

use crate::sites::{InstructionsView, RecipeInstruction, RecipeInstructionKinds};
use crate::text::{
    decimal, decimal_spec, join, lemma_split_at_first, lemma_split_without_pattern, occurs_at,
    split, split_spec, trim, trim_spec, views,
};
use vstd::prelude::*;

verus! {

/// The view of an optional string.
pub open spec fn opt_view(o: Option<String>) -> Option<Seq<char>> {
    match o {
        Some(s) => Some(s@),
        None => None,
    }
}

/// What a recipe type reports to the markdown builder.
pub trait LdJson: Sized {
    /// The recipe title.
    spec fn name_spec(&self) -> Seq<char>;

    /// The recipe description.
    spec fn description_spec(&self) -> Seq<char>;

    /// The recipe's author(s).
    spec fn author_spec(&self) -> Seq<char>;

    /// The recipe image.
    spec fn image_spec(&self) -> Seq<char>;

    /// The recipe's total time.
    spec fn total_time_spec(&self) -> Option<Seq<char>>;

    /// The recipe's yield.
    spec fn recipe_yield_spec(&self) -> Option<Seq<char>>;

    /// The recipe's ingredients.
    spec fn ingredients_spec(&self) -> Seq<Seq<char>>;

    /// The recipe's instructions.
    spec fn instructions_spec(&self) -> InstructionsView;

    /// The recipe video.
    spec fn video_spec(&self) -> Option<Seq<char>>;

    /// The data holds a recipe to report on.
    spec fn holds_recipe(&self) -> bool;

    /// The author can be reported.
    spec fn author_defined(&self) -> bool;

    /// The image can be reported.
    spec fn image_defined(&self) -> bool;

    /// The yield can be reported.
    spec fn yield_defined(&self) -> bool;

    /// A recipe title.
    fn name(&self) -> (r: String)
        requires
            self.holds_recipe(),
        ensures
            r@ == self.name_spec(),
    ;

    /// A recipe description.
    fn description(&self) -> (r: String)
        requires
            self.holds_recipe(),
        ensures
            r@ == self.description_spec(),
    ;

    /// A recipe's author(s).
    fn author(&self) -> (r: String)
        requires
            self.holds_recipe(),
            self.author_defined(),
        ensures
            r@ == self.author_spec(),
    ;

    /// A recipe image.
    fn image(&self) -> (r: String)
        requires
            self.holds_recipe(),
            self.image_defined(),
        ensures
            r@ == self.image_spec(),
    ;

    /// A recipe total time.
    fn total_time(&self) -> (r: Option<String>)
        requires
            self.holds_recipe(),
        ensures
            opt_view(r) == self.total_time_spec(),
    ;

    /// A recipe yield.
    fn recipe_yield(&self) -> (r: Option<String>)
        requires
            self.holds_recipe(),
            self.yield_defined(),
        ensures
            opt_view(r) == self.recipe_yield_spec(),
    ;

    /// A recipe's ingredients.
    fn ingredients(&self) -> (r: Vec<String>)
        requires
            self.holds_recipe(),
        ensures
            views(r@) == self.ingredients_spec(),
    ;

    /// A recipe's instructions.
    fn instructions(&self) -> (r: RecipeInstructionKinds)
        requires
            self.holds_recipe(),
        ensures
            r@ == self.instructions_spec(),
    ;

    /// A recipe video.
    fn video(&self) -> (r: Option<String>)
        requires
            self.holds_recipe(),
        ensures
            opt_view(r) == self.video_spec(),
    ;
}

/// Everything the builder asks of the recipe can be answered: there is a
/// recipe, its author and yield can be reported, and its image unless a
/// video stands in its place.
pub open spec fn renderable<T: LdJson>(recipe: &T) -> bool {
    &&& recipe.holds_recipe()
    &&& recipe.author_defined()
    &&& recipe.yield_defined()
    &&& (recipe.video_spec() is None ==> recipe.image_defined())
}

/// `# {name}` and a blank line.
pub open spec fn title_md(name: Seq<char>) -> Seq<char> {
    "# "@ + name + "\n\n"@
}

/// `By: {author}` and a blank line.
pub open spec fn authors_md(author: Seq<char>) -> Seq<char> {
    "By: "@ + author + "\n\n"@
}

/// The picture link: the video thumbnail when there is one, else the image.
pub open spec fn image_md(video: Option<Seq<char>>, image: Seq<char>) -> Seq<char> {
    let link = match video {
        Some(v) => v,
        None => image,
    };
    "![]("@ + link + ")\n\n"@
}

/// The trimmed description and a blank line.
pub open spec fn description_md(description: Seq<char>) -> Seq<char> {
    trim_spec(description) + "\n\n"@
}

/// `Yields: {yield} in {total time}` when both are known, else nothing.
pub open spec fn yield_md(recipe_yield: Option<Seq<char>>, total_time: Option<Seq<char>>) -> Seq<
    char,
> {
    match (recipe_yield, total_time) {
        (Some(y), Some(t)) => "Yields: "@ + y + " in "@ + t + "\n\n"@,
        _ => Seq::empty(),
    }
}

/// One bullet: `- {item}` with the item trimmed.
pub open spec fn bullet_line(item: Seq<char>) -> Seq<char> {
    "- "@ + trim_spec(item) + "\n"@
}

/// A bullet for each item, in order.
pub open spec fn bullet_list(items: Seq<Seq<char>>) -> Seq<char>
    decreases items.len(),
{
    if items.len() == 0 {
        Seq::empty()
    } else {
        bullet_list(items.drop_last()) + bullet_line(items.last())
    }
}

/// The ingredients section.
pub open spec fn ingredients_md(items: Seq<Seq<char>>) -> Seq<char> {
    "## Ingredients\n"@ + bullet_list(items) + "\n"@
}

/// Entry `k` of a numbered list: `{k}. {item}` with the item trimmed.
pub open spec fn numbered_line(k: nat, item: Seq<char>) -> Seq<char> {
    decimal_spec(k) + ". "@ + trim_spec(item) + "\n"@
}

/// The items numbered from 1, in order.
pub open spec fn numbered_list(items: Seq<Seq<char>>) -> Seq<char>
    decreases items.len(),
{
    if items.len() == 0 {
        Seq::empty()
    } else {
        numbered_list(items.drop_last()) + numbered_line(items.len(), items.last())
    }
}

/// Each section under its `### {name}` heading, its steps numbered from 1.
pub open spec fn sections_md(sections: Seq<(Seq<char>, Seq<Seq<char>>)>) -> Seq<char>
    decreases sections.len(),
{
    if sections.len() == 0 {
        Seq::empty()
    } else {
        sections_md(sections.drop_last()) + "### "@ + sections.last().0 + "\n\n"@
            + numbered_list(sections.last().1)
    }
}

/// The steps of instructions that are not sectioned, in order: a text is
/// cut at each `". "` and each piece trimmed.
pub open spec fn instruction_lines(k: InstructionsView) -> Seq<Seq<char>> {
    match k {
        InstructionsView::Text(s) => split_spec(s, ". "@).map_values(|p: Seq<char>| trim_spec(p)),
        InstructionsView::Lines(v) => v,
        InstructionsView::Steps(v) => v,
        InstructionsView::NestedSteps(v) => v.flatten(),
        InstructionsView::Sections(_) => Seq::empty(),
    }
}

/// The instructions section.
pub open spec fn instructions_md(k: InstructionsView) -> Seq<char> {
    "## Instructions\n\n"@ + match k {
        InstructionsView::Sections(s) => sections_md(s),
        _ => numbered_list(instruction_lines(k)),
    } + "\n"@
}

/// `Source: [{name}]`.
pub open spec fn source_md(name: Seq<char>) -> Seq<char> {
    "Source: ["@ + name + "]"@
}

/// The markdown document of a recipe.
pub open spec fn recipe_markdown<T: LdJson>(recipe: &T) -> Seq<char> {
    title_md(recipe.name_spec()) + authors_md(recipe.author_spec()) + image_md(
        recipe.video_spec(),
        recipe.image_spec(),
    ) + description_md(recipe.description_spec()) + yield_md(
        recipe.recipe_yield_spec(),
        recipe.total_time_spec(),
    ) + ingredients_md(recipe.ingredients_spec()) + instructions_md(recipe.instructions_spec())
        + source_md(recipe.name_spec())
}

/// Builds the markdown document of a recipe.
pub struct RecipeMarkdownBuilder<'r, T> {
    recipe: &'r T,
    markdown: String,
}

/// Appends `{k}. {item}` for each item, numbered from 1.
fn push_numbered(out: &mut String, items: &Vec<String>)
    ensures
        final(out)@ == old(out)@ + numbered_list(views(items@)),
{
    let ghost start = out@;
    let mut i: usize = 0;
    while i < items.len()
        invariant
            i <= items.len(),
            out@ == start + numbered_list(views(items@).take(i as int)),
        decreases items.len() - i,
    {
        assert(views(items@).take(i + 1).drop_last() =~= views(items@).take(i as int));
        let number = decimal((i + 1) as u64);
        let item = trim(items[i].as_str());
        out.append(number.as_str());
        out.append(". ");
        out.append(item.as_str());
        out.append("\n");
        i = i + 1;
        assert(out@ =~= start + numbered_list(views(items@).take(i as int)));
    }
    assert(views(items@).take(items.len() as int) =~= views(items@));
}

/// The texts of a list of steps.
fn step_lines(steps: &Vec<RecipeInstruction>) -> (r: Vec<String>)
    ensures
        views(r@) == crate::sites::sub_objects::step_texts(steps@),
{
    let mut out: Vec<String> = Vec::new();
    let mut i: usize = 0;
    while i < steps.len()
        invariant
            i <= steps.len(),
            views(out@) == crate::sites::sub_objects::step_texts(steps@).take(i as int),
        decreases steps.len() - i,
    {
        let text = steps[i].text.clone();
        let ghost before = out@;
        out.push(text);
        assert(views(out@) =~= views(before).push(text@));
        assert(crate::sites::sub_objects::step_texts(steps@).take(i + 1)
            =~= crate::sites::sub_objects::step_texts(steps@).take(i as int).push(steps@[i as int]@));
        i = i + 1;
    }
    assert(crate::sites::sub_objects::step_texts(steps@).take(steps.len() as int)
        =~= crate::sites::sub_objects::step_texts(steps@));
    out
}

/// The steps of instructions that are not sectioned, in order.
fn instruction_list(kinds: &RecipeInstructionKinds) -> (r: Vec<String>)
    ensures
        views(r@) == instruction_lines(kinds@),
{
    match kinds {
        RecipeInstructionKinds::String(s) => {
            proof {
                reveal_strlit(". ");
            }
            let pieces = split(s.as_str(), ". ");
            let mut out: Vec<String> = Vec::new();
            let mut i: usize = 0;
            while i < pieces.len()
                invariant
                    i <= pieces.len(),
                    views(out@) == views(pieces@).take(i as int).map_values(
                        |p: Seq<char>| trim_spec(p),
                    ),
                decreases pieces.len() - i,
            {
                let piece = trim(pieces[i].as_str());
                let ghost before = out@;
                out.push(piece);
                assert(views(out@) =~= views(before).push(piece@));
                assert(views(pieces@).take(i + 1).map_values(|p: Seq<char>| trim_spec(p))
                    =~= views(pieces@).take(i as int).map_values(|p: Seq<char>| trim_spec(p)).push(
                    trim_spec(views(pieces@)[i as int]),
                ));
                i = i + 1;
            }
            assert(views(pieces@).take(pieces.len() as int) =~= views(pieces@));
            out
        },
        RecipeInstructionKinds::StringInstruction(v) => crate::sites::sub_objects::copy_strings(v),
        RecipeInstructionKinds::Instruction(v) => step_lines(v),
        RecipeInstructionKinds::NestedInstruction(v) => {
            let ghost groups = v@.map_values(
                |s: Vec<RecipeInstruction>| crate::sites::sub_objects::step_texts(s@),
            );
            let mut out: Vec<String> = Vec::new();
            let mut i: usize = 0;
            while i < v.len()
                invariant
                    i <= v.len(),
                    groups == v@.map_values(
                        |s: Vec<RecipeInstruction>| crate::sites::sub_objects::step_texts(s@),
                    ),
                    views(out@) == groups.take(i as int).flatten(),
                decreases v.len() - i,
            {
                let lines = step_lines(&v[i]);
                let mut j: usize = 0;
                let ghost base = views(out@);
                while j < lines.len()
                    invariant
                        j <= lines.len(),
                        views(out@) == base + views(lines@).take(j as int),
                    decreases lines.len() - j,
                {
                    let line = lines[j].clone();
                    let ghost before = out@;
                    out.push(line);
                    assert(views(out@) =~= views(before).push(line@));
                    assert(views(lines@).take(j + 1) =~= views(lines@).take(j as int).push(
                        lines@[j as int]@,
                    ));
                    j = j + 1;
                }
                assert(views(lines@).take(lines.len() as int) =~= views(lines@));
                assert(groups.take(i + 1) =~= groups.take(i as int).push(groups[i as int]));
                proof {
                    groups.take(i as int).lemma_flatten_push(groups[i as int]);
                }
                i = i + 1;
            }
            assert(groups.take(v.len() as int) =~= groups);
            out
        },
        RecipeInstructionKinds::Sectioned(_) => Vec::new(),
    }
}

impl<'r, T: LdJson> RecipeMarkdownBuilder<'r, T> {
    /// The recipe being rendered.
    pub closed spec fn recipe_spec(&self) -> T {
        *self.recipe
    }

    /// The markdown written so far.
    pub closed spec fn markdown_spec(&self) -> Seq<char> {
        self.markdown@
    }

    /// A builder for `recipe` with nothing written yet.
    pub fn new(recipe: &'r T) -> (r: Self)
        ensures
            r.recipe_spec() == *recipe,
            r.markdown_spec() == Seq::<char>::empty(),
    {
        Self { recipe, markdown: String::new() }
    }

    fn add_title(&mut self)
        requires
            old(self).recipe.holds_recipe(),
        ensures
            final(self).recipe == old(self).recipe,
            final(self).markdown@ == old(self).markdown@ + title_md(old(self).recipe.name_spec()),
    {
        let name = self.recipe.name();
        self.markdown.append("# ");
        self.markdown.append(name.as_str());
        self.markdown.append("\n\n");
    }

    fn add_authors(&mut self)
        requires
            old(self).recipe.holds_recipe(),
            old(self).recipe.author_defined(),
        ensures
            final(self).recipe == old(self).recipe,
            final(self).markdown@ == old(self).markdown@ + authors_md(
                old(self).recipe.author_spec(),
            ),
    {
        let author = self.recipe.author();
        self.markdown.append("By: ");
        self.markdown.append(author.as_str());
        self.markdown.append("\n\n");
    }

    fn add_image(&mut self)
        requires
            old(self).recipe.holds_recipe(),
            old(self).recipe.video_spec() is None ==> old(self).recipe.image_defined(),
        ensures
            final(self).recipe == old(self).recipe,
            final(self).markdown@ == old(self).markdown@ + image_md(
                old(self).recipe.video_spec(),
                old(self).recipe.image_spec(),
            ),
    {
        let link = match self.recipe.video() {
            Some(val) => val,
            None => self.recipe.image(),
        };
        self.markdown.append("![](");
        self.markdown.append(link.as_str());
        self.markdown.append(")\n\n");
    }

    fn add_description(&mut self)
        requires
            old(self).recipe.holds_recipe(),
        ensures
            final(self).recipe == old(self).recipe,
            final(self).markdown@ == old(self).markdown@ + description_md(
                old(self).recipe.description_spec(),
            ),
    {
        let description = self.recipe.description();
        let trimmed = trim(description.as_str());
        self.markdown.append(trimmed.as_str());
        self.markdown.append("\n\n");
    }

    fn add_yield(&mut self)
        requires
            old(self).recipe.holds_recipe(),
            old(self).recipe.yield_defined(),
        ensures
            final(self).recipe == old(self).recipe,
            final(self).markdown@ == old(self).markdown@ + yield_md(
                old(self).recipe.recipe_yield_spec(),
                old(self).recipe.total_time_spec(),
            ),
    {
        let recipe_yield = self.recipe.recipe_yield();
        let total_time = self.recipe.total_time();
        if let (Some(r_yield), Some(r_total_time)) = (recipe_yield, total_time) {
            self.markdown.append("Yields: ");
            self.markdown.append(r_yield.as_str());
            self.markdown.append(" in ");
            self.markdown.append(r_total_time.as_str());
            self.markdown.append("\n\n");
        }
    }

    fn add_ingredients(&mut self)
        requires
            old(self).recipe.holds_recipe(),
        ensures
            final(self).recipe == old(self).recipe,
            final(self).markdown@ == old(self).markdown@ + ingredients_md(
                old(self).recipe.ingredients_spec(),
            ),
    {
        let ghost start = self.markdown@;
        self.markdown.append("## Ingredients\n");
        let items = self.recipe.ingredients();
        let mut i: usize = 0;
        while i < items.len()
            invariant
                i <= items.len(),
                self.recipe == old(self).recipe,
                self.markdown@ == start + "## Ingredients\n"@ + bullet_list(
                    views(items@).take(i as int),
                ),
            decreases items.len() - i,
        {
            assert(views(items@).take(i + 1).drop_last() =~= views(items@).take(i as int));
            let item = trim(items[i].as_str());
            self.markdown.append("- ");
            self.markdown.append(item.as_str());
            self.markdown.append("\n");
            i = i + 1;
            assert(self.markdown@ =~= start + "## Ingredients\n"@ + bullet_list(
                views(items@).take(i as int),
            ));
        }
        assert(views(items@).take(items.len() as int) =~= views(items@));
        self.markdown.append("\n");
        assert(self.markdown@ =~= start + ingredients_md(self.recipe.ingredients_spec()));
    }

    fn add_instructions(&mut self)
        requires
            old(self).recipe.holds_recipe(),
        ensures
            final(self).recipe == old(self).recipe,
            final(self).markdown@ == old(self).markdown@ + instructions_md(
                old(self).recipe.instructions_spec(),
            ),
    {
        let ghost start = self.markdown@;
        self.markdown.append("## Instructions\n\n");
        let kinds = self.recipe.instructions();
        match &kinds {
            RecipeInstructionKinds::Sectioned(sections) => {
                let ghost secs = sections@.map_values(|s: crate::sites::HowToSection| s@);
                let mut i: usize = 0;
                while i < sections.len()
                    invariant
                        i <= sections.len(),
                        self.recipe == old(self).recipe,
                        secs == sections@.map_values(|s: crate::sites::HowToSection| s@),
                        self.markdown@ == start + "## Instructions\n\n"@ + sections_md(
                            secs.take(i as int),
                        ),
                    decreases sections.len() - i,
                {
                    assert(secs.take(i + 1).drop_last() =~= secs.take(i as int));
                    let section = &sections[i];
                    self.markdown.append("### ");
                    self.markdown.append(section.name.as_str());
                    self.markdown.append("\n\n");
                    let lines = step_lines(&section.instructions);
                    push_numbered(&mut self.markdown, &lines);
                    i = i + 1;
                    assert(self.markdown@ =~= start + "## Instructions\n\n"@ + sections_md(
                        secs.take(i as int),
                    ));
                }
                assert(secs.take(sections.len() as int) =~= secs);
            },
            _ => {
                let lines = instruction_list(&kinds);
                push_numbered(&mut self.markdown, &lines);
            },
        }
        self.markdown.append("\n");
        assert(self.markdown@ =~= start + instructions_md(self.recipe.instructions_spec()));
    }

    fn add_source_fragment(&mut self)
        requires
            old(self).recipe.holds_recipe(),
        ensures
            final(self).recipe == old(self).recipe,
            final(self).markdown@ == old(self).markdown@ + source_md(
                old(self).recipe.name_spec(),
            ),
    {
        let name = self.recipe.name();
        self.markdown.append("Source: [");
        self.markdown.append(name.as_str());
        self.markdown.append("]");
    }

    /// Appends the recipe's markdown document to what was written so far and
    /// returns the whole.
    pub fn build(&mut self) -> (r: String)
        requires
            renderable(&old(self).recipe_spec()),
        ensures
            final(self).recipe_spec() == old(self).recipe_spec(),
            final(self).markdown_spec() == old(self).markdown_spec() + recipe_markdown(
                &old(self).recipe_spec(),
            ),
            r@ == final(self).markdown_spec(),
    {
        let ghost start = self.markdown@;
        self.add_title();
        self.add_authors();
        self.add_image();
        self.add_description();
        self.add_yield();
        self.add_ingredients();
        self.add_instructions();
        self.add_source_fragment();
        assert(self.markdown@ =~= start + recipe_markdown(self.recipe));
        self.markdown.clone()
    }
}

/// Every recipe's document opens with its title line and closes with its
/// source line.
pub proof fn lemma_markdown_frame<T: LdJson>(recipe: &T)
    ensures
        title_md(recipe.name_spec()).is_prefix_of(recipe_markdown(recipe)),
        source_md(recipe.name_spec()).is_suffix_of(recipe_markdown(recipe)),
{
    let name = recipe.name_spec();
    let body = authors_md(recipe.author_spec()) + image_md(recipe.video_spec(), recipe.image_spec())
        + description_md(recipe.description_spec()) + yield_md(
        recipe.recipe_yield_spec(),
        recipe.total_time_spec(),
    ) + ingredients_md(recipe.ingredients_spec()) + instructions_md(recipe.instructions_spec());
    assert(recipe_markdown(recipe) =~= title_md(name) + body + source_md(name));
    let md = recipe_markdown(recipe);
    assert(title_md(name) =~= md.subrange(0, title_md(name).len() as int));
    assert(source_md(name) =~= md.subrange(
        (md.len() - source_md(name).len()) as int,
        md.len() as int,
    ));
}

/// Text instructions in which no `". "` occurs are one step: the whole
/// text, trimmed. A `.` that no space follows starts no new step.
pub proof fn lemma_text_without_separator_is_one_step(text: Seq<char>)
    requires
        forall|i: int| !occurs_at(text, ". "@, i),
    ensures
        instruction_lines(InstructionsView::Text(text)) == seq![trim_spec(text)],
{
    reveal_strlit(". ");
    lemma_split_without_pattern(text, ". "@);
    assert(seq![text].map_values(|p: Seq<char>| trim_spec(p)) =~= seq![trim_spec(text)]);
}

/// Text instructions are cut at their first `". "`: the text before it,
/// trimmed, is the first step, and the steps of the text after it follow.
pub proof fn lemma_text_steps_cut_at_separator(first: Seq<char>, rest: Seq<char>)
    requires
        forall|i: int| 0 <= i < first.len() ==> !occurs_at(first + ". "@ + rest, ". "@, i),
    ensures
        instruction_lines(InstructionsView::Text(first + ". "@ + rest)) == seq![trim_spec(first)]
            + instruction_lines(InstructionsView::Text(rest)),
{
    reveal_strlit(". ");
    lemma_split_at_first(first, ". "@, rest);
    let pieces = split_spec(rest, ". "@);
    assert((seq![first] + pieces).map_values(|p: Seq<char>| trim_spec(p)) =~= seq![
        trim_spec(first),
    ] + pieces.map_values(|p: Seq<char>| trim_spec(p)));
}

/// Each line of a numbered list is its number in decimal, `. ` and its item
/// trimmed: the list of the first `k` items is the list of the first
/// `k - 1` followed by `{k}. {item k}\n`, and it begins the list of all the
/// items.
pub proof fn lemma_numbered_list_lines(items: Seq<Seq<char>>, k: int)
    requires
        1 <= k <= items.len(),
    ensures
        numbered_list(items.take(k)) == numbered_list(items.take(k - 1)) + decimal_spec(k as nat)
            + ". "@ + trim_spec(items[k - 1]) + "\n"@,
        numbered_list(items.take(k)).is_prefix_of(numbered_list(items)),
    decreases items.len(),
{
    assert(items.take(k).drop_last() =~= items.take(k - 1));
    assert(items.take(k).last() == items[k - 1]);
    if k == items.len() {
        assert(items.take(k) =~= items);
    } else {
        let shorter = items.drop_last();
        lemma_numbered_list_lines(shorter, k);
        assert(shorter.take(k) =~= items.take(k));
        assert(shorter.take(k - 1) =~= items.take(k - 1));
        let a = numbered_list(items.take(k));
        let b = numbered_list(shorter);
        let whole = numbered_list(items);
        assert(whole == b + numbered_line(items.len(), items.last()));
        assert(whole.subrange(0, a.len() as int) =~= b.subrange(0, a.len() as int));
    }
}

/// Each item is one bullet line, `- ` and the item trimmed, in the order of
/// the items: the list of the first `k` items is the list of the first
/// `k - 1` followed by the line of item `k`, and it begins the list of all
/// the items.
pub proof fn lemma_bullet_list_lines(items: Seq<Seq<char>>, k: int)
    requires
        1 <= k <= items.len(),
    ensures
        bullet_list(items.take(k)) == bullet_list(items.take(k - 1)) + "- "@ + trim_spec(items[k - 1])
            + "\n"@,
        bullet_list(items.take(k)).is_prefix_of(bullet_list(items)),
    decreases items.len(),
{
    assert(items.take(k).drop_last() =~= items.take(k - 1));
    assert(items.take(k).last() == items[k - 1]);
    if k == items.len() {
        assert(items.take(k) =~= items);
    } else {
        let shorter = items.drop_last();
        lemma_bullet_list_lines(shorter, k);
        assert(shorter.take(k) =~= items.take(k));
        assert(shorter.take(k - 1) =~= items.take(k - 1));
        let a = bullet_list(items.take(k));
        let b = bullet_list(shorter);
        let whole = bullet_list(items);
        assert(whole == b + bullet_line(items.last()));
        assert(whole.subrange(0, a.len() as int) =~= b.subrange(0, a.len() as int));
    }
}

} // verus!
