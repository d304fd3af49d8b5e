//! Authors and recipe instructions as schema.org writes them.

use crate::sites::SingleOrArray;
use vstd::prelude::*;

verus! {

/// An author given as an object with a name.
pub struct AuthorObject {
    pub name: String,
}

/// A recipe's author: one or more author objects, or a plain name.
pub enum Author {
    AuthorObject(SingleOrArray<AuthorObject>),
    String(String),
}

/// One step of a recipe.
pub struct RecipeInstruction {
    pub text: String,
}

impl View for RecipeInstruction {
    type V = Seq<char>;

    open spec fn view(&self) -> Seq<char> {
        self.text@
    }
}

impl RecipeInstruction {
    /// The text of the step.
    pub fn simplify(self) -> (r: String)
        ensures
            r@ == self@,
    {
        self.text
    }
}

/// A named section of steps.
pub struct HowToSection {
    pub name: String,
    pub instructions: Vec<RecipeInstruction>,
}

/// The texts of a sequence of steps.
pub open spec fn step_texts(steps: Seq<RecipeInstruction>) -> Seq<Seq<char>> {
    steps.map_values(|s: RecipeInstruction| s@)
}

impl View for HowToSection {
    type V = (Seq<char>, Seq<Seq<char>>);

    open spec fn view(&self) -> (Seq<char>, Seq<Seq<char>>) {
        (self.name@, step_texts(self.instructions@))
    }
}

/// The shapes in which a recipe's instructions arrive.
pub enum RecipeInstructionKinds {
    String(String),
    StringInstruction(Vec<String>),
    Instruction(Vec<RecipeInstruction>),
    NestedInstruction(Vec<Vec<RecipeInstruction>>),
    Sectioned(Vec<HowToSection>),
}

/// The mathematical content of a `RecipeInstructionKinds`.
pub enum InstructionsView {
    Text(Seq<char>),
    Lines(Seq<Seq<char>>),
    Steps(Seq<Seq<char>>),
    NestedSteps(Seq<Seq<Seq<char>>>),
    Sections(Seq<(Seq<char>, Seq<Seq<char>>)>),
}

impl View for RecipeInstructionKinds {
    type V = InstructionsView;

    open spec fn view(&self) -> InstructionsView {
        match self {
            RecipeInstructionKinds::String(s) => InstructionsView::Text(s@),
            RecipeInstructionKinds::StringInstruction(v) => InstructionsView::Lines(
                crate::text::views(v@),
            ),
            RecipeInstructionKinds::Instruction(v) => InstructionsView::Steps(step_texts(v@)),
            RecipeInstructionKinds::NestedInstruction(v) => InstructionsView::NestedSteps(
                v@.map_values(|s: Vec<RecipeInstruction>| step_texts(s@)),
            ),
            RecipeInstructionKinds::Sectioned(v) => InstructionsView::Sections(
                v@.map_values(|s: HowToSection| s@),
            ),
        }
    }
}

/// A copy of a list of strings.
pub fn copy_strings(v: &Vec<String>) -> (r: Vec<String>)
    ensures
        crate::text::views(r@) == crate::text::views(v@),
{
    let mut out: Vec<String> = Vec::new();
    let mut i: usize = 0;
    while i < v.len()
        invariant
            i <= v.len(),
            crate::text::views(out@) == crate::text::views(v@).take(i as int),
        decreases v.len() - i,
    {
        let item = v[i].clone();
        assert(item@ == v@[i as int]@);
        let ghost before = out@;
        out.push(item);
        assert(crate::text::views(out@) =~= crate::text::views(before).push(item@));
        assert(crate::text::views(v@).take(i + 1) =~= crate::text::views(v@).take(i as int).push(
            v@[i as int]@,
        ));
        i = i + 1;
    }
    assert(crate::text::views(v@).take(v.len() as int) =~= crate::text::views(v@));
    out
}

/// A copy of a list of steps.
pub fn copy_steps(v: &Vec<RecipeInstruction>) -> (r: Vec<RecipeInstruction>)
    ensures
        step_texts(r@) == step_texts(v@),
{
    let mut out: Vec<RecipeInstruction> = Vec::new();
    let mut i: usize = 0;
    while i < v.len()
        invariant
            i <= v.len(),
            step_texts(out@) == step_texts(v@).take(i as int),
        decreases v.len() - i,
    {
        let item = RecipeInstruction { text: v[i].text.clone() };
        assert(item@ == v@[i as int]@);
        let ghost before = out@;
        out.push(item);
        assert(step_texts(out@) =~= step_texts(before).push(item@));
        assert(step_texts(v@).take(i + 1) =~= step_texts(v@).take(i as int).push(v@[i as int]@));
        i = i + 1;
    }
    assert(step_texts(v@).take(v.len() as int) =~= step_texts(v@));
    out
}

impl RecipeInstructionKinds {
    /// A copy of these instructions.
    pub fn get(&self) -> (r: RecipeInstructionKinds)
        ensures
            r@ == self@,
    {
        match self {
            RecipeInstructionKinds::String(s) => RecipeInstructionKinds::String(s.clone()),
            RecipeInstructionKinds::StringInstruction(v) => {
                RecipeInstructionKinds::StringInstruction(copy_strings(v))
            },
            RecipeInstructionKinds::Instruction(v) => RecipeInstructionKinds::Instruction(
                copy_steps(v),
            ),
            RecipeInstructionKinds::NestedInstruction(v) => {
                let ghost target = v@.map_values(|s: Vec<RecipeInstruction>| step_texts(s@));
                let mut out: Vec<Vec<RecipeInstruction>> = Vec::new();
                let mut i: usize = 0;
                while i < v.len()
                    invariant
                        i <= v.len(),
                        target == v@.map_values(|s: Vec<RecipeInstruction>| step_texts(s@)),
                        out@.map_values(|s: Vec<RecipeInstruction>| step_texts(s@)) == target.take(
                            i as int,
                        ),
                    decreases v.len() - i,
                {
                    let item = copy_steps(&v[i]);
                    let ghost before = out@;
                    out.push(item);
                    assert(out@.map_values(|s: Vec<RecipeInstruction>| step_texts(s@))
                        =~= before.map_values(|s: Vec<RecipeInstruction>| step_texts(s@)).push(
                        step_texts(item@),
                    ));
                    assert(target.take(i + 1) =~= target.take(i as int).push(target[i as int]));
                    i = i + 1;
                }
                assert(target.take(v.len() as int) =~= target);
                RecipeInstructionKinds::NestedInstruction(out)
            },
            RecipeInstructionKinds::Sectioned(v) => {
                let ghost target = v@.map_values(|s: HowToSection| s@);
                let mut out: Vec<HowToSection> = Vec::new();
                let mut i: usize = 0;
                while i < v.len()
                    invariant
                        i <= v.len(),
                        target == v@.map_values(|s: HowToSection| s@),
                        out@.map_values(|s: HowToSection| s@) == target.take(i as int),
                    decreases v.len() - i,
                {
                    let section = HowToSection {
                        name: v[i].name.clone(),
                        instructions: copy_steps(&v[i].instructions),
                    };
                    let ghost before = out@;
                    assert(section@ == v@[i as int]@);
                    out.push(section);
                    assert(out@.map_values(|s: HowToSection| s@) =~= before.map_values(
                        |s: HowToSection| s@,
                    ).push(section@));
                    assert(target.take(i + 1) =~= target.take(i as int).push(target[i as int]));
                    i = i + 1;
                }
                assert(target.take(v.len() as int) =~= target);
                RecipeInstructionKinds::Sectioned(out)
            },
        }
    }
}

} // verus!
