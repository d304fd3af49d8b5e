use recipe_grabber::ld_md::{LdJson, RecipeMarkdownBuilder};
use recipe_grabber::recipe_document;
use recipe_grabber::sites::faw_types::{self, FoodAndWineRecipe};
use recipe_grabber::sites::nytc_types::{self, NYTCRecipe};
use recipe_grabber::sites::schema_org;
use recipe_grabber::sites::{
    Author, AuthorObject, HowToSection, IdImage, Image, ImageObject, LdRecipe, RecipeInstruction,
    RecipeInstructionKinds, SingleOrArray, TypesOrArray, Video,
};
use recipe_grabber::can_render;
use std::cmp::Ordering;

fn s(text: &str) -> String {
    text.to_string()
}

fn step(text: &str) -> RecipeInstruction {
    RecipeInstruction { text: s(text) }
}

fn img(url: &str, width: Option<usize>) -> ImageObject {
    ImageObject { url: s(url), width, height: None }
}

fn toast() -> LdRecipe {
    LdRecipe {
        name: s("Toast"),
        description: Some(s("  Crisp bread. ")),
        author: Author::AuthorObject(SingleOrArray::Array(vec![
            AuthorObject { name: s("Ann") },
            AuthorObject { name: s("Bob") },
        ])),
        image: Image::ImgArray(vec![
            img("a", Some(100)),
            img("b", Some(300)),
            img("c", None),
            img("d", Some(300)),
            img("e", Some(200)),
        ]),
        total_time: Some(s("5 minutes")),
        recipe_yield: Some(TypesOrArray::String(s("Serves : 2 "))),
        recipe_ingredient: vec![s(" bread "), s("butter")],
        recipe_instructions: RecipeInstructionKinds::String(s("Toast the bread. Butter it. ")),
        video: None,
    }
}

#[test]
fn a_recipe_becomes_markdown() {
    let recipe = toast();
    let mut builder = RecipeMarkdownBuilder::new(&recipe);
    assert_eq!(
        builder.build(),
        "# Toast\n\nBy: Ann\n\n![](d)\n\nCrisp bread.\n\nYields: 2 in 5 minutes\n\n## Ingredients\n- bread\n- butter\n\n## Instructions\n\n1. Toast the bread\n2. Butter it\n3. \n\nSource: [Toast]"
    );
}

#[test]
fn building_twice_appends_twice() {
    let recipe = toast();
    let mut builder = RecipeMarkdownBuilder::new(&recipe);
    let once = builder.build();
    let twice = builder.build();
    assert_eq!(twice, format!("{once}{once}"));
}

#[test]
fn a_video_thumbnail_replaces_the_image_and_no_yield_means_no_yield_line() {
    let mut recipe = toast();
    recipe.video = Some(Video { name: s("v"), description: s("d"), thumbnail_url: s("thumb") });
    recipe.image = Image::Array(vec![]);
    recipe.recipe_yield = None;
    recipe.description = None;
    recipe.author = Author::String(s("Cook"));
    assert!(can_render(&recipe));
    let md = RecipeMarkdownBuilder::new(&recipe).build();
    assert!(md.starts_with("# Toast\n\nBy: Cook\n\n![](thumb)\n\n\n\n## Ingredients\n"));
}

#[test]
fn sectioned_instructions_are_numbered_per_section() {
    let mut recipe = toast();
    recipe.recipe_instructions = RecipeInstructionKinds::Sectioned(vec![
        HowToSection { name: s("Dough"), instructions: vec![step("Mix"), step(" Knead ")] },
        HowToSection { name: s("Bake"), instructions: vec![step("Bake 20 min")] },
    ]);
    let md = RecipeMarkdownBuilder::new(&recipe).build();
    assert!(md.ends_with(
        "## Instructions\n\n### Dough\n\n1. Mix\n2. Knead\n### Bake\n\n1. Bake 20 min\n\nSource: [Toast]"
    ));
}

#[test]
fn other_instruction_shapes_are_numbered_in_order() {
    let mut recipe = toast();
    recipe.recipe_instructions = RecipeInstructionKinds::NestedInstruction(vec![
        vec![step("a"), step("b")],
        vec![],
        vec![step("c")],
    ]);
    let md = RecipeMarkdownBuilder::new(&recipe).build();
    assert!(md.ends_with("## Instructions\n\n1. a\n2. b\n3. c\n\nSource: [Toast]"));
    recipe.recipe_instructions =
        RecipeInstructionKinds::StringInstruction(vec![s(" one "), s("two")]);
    let md = RecipeMarkdownBuilder::new(&recipe).build();
    assert!(md.ends_with("## Instructions\n\n1. one\n2. two\n\nSource: [Toast]"));
    recipe.recipe_instructions = RecipeInstructionKinds::Instruction(
        (1..=11).map(|k| step(&format!("step {k}"))).collect(),
    );
    let md = RecipeMarkdownBuilder::new(&recipe).build();
    assert!(md.contains("\n10. step 10\n11. step 11\n\nSource"));
}

#[test]
fn crlf_becomes_lf_in_the_document() {
    let mut recipe = toast();
    recipe.description = Some(s("line one\r\nline two"));
    let doc = recipe_document(&recipe);
    assert!(doc.contains("line one\nline two"));
    assert!(!doc.contains('\r'));
}

#[test]
fn ld_recipe_reports() {
    let mut recipe = toast();
    assert_eq!(recipe.name(), "Toast");
    assert_eq!(recipe.author(), "Ann");
    assert_eq!(recipe.image(), "d");
    assert_eq!(recipe.recipe_yield(), Some(s("2")));
    assert_eq!(recipe.ingredients(), vec![s("bread"), s("butter")]);
    assert_eq!(recipe.total_time(), Some(s("5 minutes")));
    recipe.recipe_yield = Some(TypesOrArray::Number(4));
    assert_eq!(recipe.recipe_yield(), Some(s("4")));
    recipe.recipe_yield = Some(TypesOrArray::Array(vec![s("6 servings"), s("x")]));
    assert_eq!(recipe.recipe_yield(), Some(s("6 servings")));
    recipe.image = Image::Id(IdImage { id: s("#img") });
    assert_eq!(recipe.image(), "#img");
    recipe.image = Image::Url(img("u", None));
    assert_eq!(recipe.image(), "u");
    recipe.recipe_yield = Some(TypesOrArray::Array(vec![]));
    assert!(!can_render(&recipe));
}

#[test]
fn the_widest_image_is_chosen_the_last_of_equals() {
    let images = Image::ImgArray(vec![img("a", None), img("b", None)]);
    assert_eq!(images.get(), "b");
    let images = Image::ImgArray(vec![img("a", Some(5)), img("b", None)]);
    assert_eq!(images.get(), "a");
    assert_eq!(Image::String(s("x")).get(), "x");
    assert_eq!(Image::Array(vec![s("y"), s("z")]).get(), "y");
}

#[test]
fn image_objects_compare_by_width() {
    assert_eq!(img("a", None).cmp(&img("b", Some(1))), Ordering::Less);
    assert_eq!(img("a", Some(2)).cmp(&img("b", Some(1))), Ordering::Greater);
    assert_eq!(img("a", Some(1)).cmp(&img("b", Some(1))), Ordering::Equal);
    assert_eq!(img("a", None).partial_cmp(&img("b", None)), Some(Ordering::Equal));
}

#[test]
fn instruction_kinds_copy_and_steps_simplify() {
    let k = RecipeInstructionKinds::Sectioned(vec![HowToSection {
        name: s("n"),
        instructions: vec![step("x")],
    }]);
    match k.get() {
        RecipeInstructionKinds::Sectioned(v) => {
            assert_eq!(v[0].name, "n");
            assert_eq!(v[0].instructions[0].text, "x");
        }
        _ => panic!("the copy keeps the shape"),
    }
    assert_eq!(step("t").simplify(), "t");
    let single = SingleOrArray::Single(3);
    assert_eq!(*single.get(), 3);
}

fn nyt() -> NYTCRecipe {
    NYTCRecipe {
        name: s("Ragu"),
        description: s("Rich."),
        author: nytc_types::Author { author_type: s("Person"), name: s("Sam") },
        image: s("i.jpg"),
        total_time: Some(s("PT2H30M")),
        recipe_yield: Some(s("4 servings")),
        recipe_cuisine: Some(s("italian")),
        recipe_category: Some(s("dinner, main course")),
        recipe_ingredient: vec![s("pork")],
        recipe_instructions: vec![nytc_types::RecipeInstruction {
            recipe_instruction_type: s("HowToStep"),
            text: s("Cook it."),
        }],
        video: None,
    }
}

#[test]
fn nytc_types_ragu() {
    let r = nyt();
    assert_eq!(r.clean_total_time(), Some(s("2h 30m")));
    assert_eq!(r.cuisine(), Some(s("#italian")));
    assert_eq!(r.category(), Some(s("#dinner #main_course")));
    let md = RecipeMarkdownBuilder::new(&r).build();
    assert_eq!(
        md,
        "# Ragu\n\nBy: Sam\n\n![](i.jpg)\n\nRich.\n\nYields: 4 servings in 2h 30m\n\n## Ingredients\n- pork\n\n## Instructions\n\n1. Cook it.\n\nSource: [Ragu]"
    );
}

fn hummus() -> FoodAndWineRecipe {
    FoodAndWineRecipe {
        main_entity_of_page: s("p"),
        name: s("Hummus"),
        image: faw_types::Image { url: s("h.jpg") },
        date_published: s("2020"),
        description: s("Smooth\r\n and good."),
        total_time: s("PT0H15M"),
        recipe_yield: s("Serves : 4"),
        recipe_ingredient: vec![s(" chickpeas")],
        recipe_instructions: s("Blend. Serve."),
        recipe_category: vec![s("dip"), s("middle eastern")],
        recipe_cuisine: vec![],
        author: vec![faw_types::Author { name: s("A") }, faw_types::Author { name: s("B") }],
    }
}

#[test]
fn faw_types_hummus() {
    let r = hummus();
    assert_eq!(r.cuisine(), None);
    assert_eq!(r.category(), Some(s("#dip #middle_eastern")));
    assert_eq!(r.cuisines_as_tags(), "");
    assert_eq!(r.description(), "Smooth\n and good.");
    let md = RecipeMarkdownBuilder::new(&r).build();
    assert_eq!(
        md,
        "# Hummus\n\nBy: A, B\n\n![](h.jpg)\n\nSmooth\n and good.\n\nYields: 4 in 0h 15m\n\n## Ingredients\n- chickpeas\n\n## Instructions\n\n1. Blend\n2. Serve\n3. \n\nSource: [Hummus]"
    );
}

#[test]
fn plain_schema_org_recipes() {
    let r = schema_org::LdRecipe {
        name: s("Eggs"),
        description: s("Simple"),
        author: schema_org::SingleOrArray::Single(schema_org::Author {
            author_type: s("Person"),
            name: s("Ed"),
        }),
        image: schema_org::Image::Url(schema_org::ImageObject { url: s("e.png") }),
        total_time: Some(s("PT10M")),
        recipe_yield: schema_org::SingleOrArray::Array(vec![s("Serves : 1")]),
        recipe_ingredient: vec![s("egg ")],
        recipe_instructions: schema_org::StringOrInstruction::String(s("Boil water. Add egg")),
        video: None,
    };
    assert_eq!(r.clean_total_time(), Some(s("10m")));
    let md = RecipeMarkdownBuilder::new(&r).build();
    assert_eq!(
        md,
        "# Eggs\n\nBy: Ed\n\n![](e.png)\n\nSimple\n\nYields: 1 in 10m\n\n## Ingredients\n- egg\n\n## Instructions\n\n1. Boil water\n2. Add egg\n\nSource: [Eggs]"
    );
    let steps = schema_org::StringOrInstruction::String(s(" a . b")).get();
    assert_eq!(steps.len(), 2);
    assert_eq!(steps[0].recipe_instruction_type, "@type");
    assert_eq!(steps[0].text, "a");
    assert_eq!(steps[1].recipe_instruction_type, "@type");
    let given = schema_org::StringOrInstruction::Instruction(vec![schema_org::RecipeInstruction {
        recipe_instruction_type: s("HowToStep"),
        text: s(" x "),
    }])
    .get();
    assert_eq!(given.len(), 1);
    assert_eq!(given[0].recipe_instruction_type, "HowToStep");
    assert_eq!(given[0].text, " x ");
    assert_eq!(schema_org::Image::Array(vec![s("f")]).get(), "f");
}

#[test]
fn full_hummus() {
    let list = faw_types::FoodAndWineLd(vec![
        faw_types::FWEnum::Breadcrumb(recipe_grabber::json::JsonValue::Null),
        faw_types::FWEnum::Recipe(hummus()),
    ]);
    assert!(list.get_recipe().is_some());
    assert_eq!(list.category(), Some(s("#dip #middle_eastern")));
    assert_eq!(list.cuisine(), None);
    let from_list = RecipeMarkdownBuilder::new(&list).build();
    let from_recipe = RecipeMarkdownBuilder::new(&hummus()).build();
    assert_eq!(from_list, from_recipe);
    let empty = faw_types::FoodAndWineLd(vec![]);
    assert!(empty.get_recipe().is_none());
}
