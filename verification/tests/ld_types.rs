use recipe_grabber::ld_types::{Author, Nutrition, Recipe, RecipeInstruction};

fn s(text: &str) -> String {
    text.to_string()
}

fn step(text: &str) -> RecipeInstruction {
    RecipeInstruction {
        context: s("http://schema.org"),
        recipe_instruction_type: s("HowToStep"),
        text: s(text),
    }
}

fn ragu_recipe() -> Recipe {
    Recipe {
        context: s("http://schema.org"),
        recipe_type: s("Recipe"),
        name: s("Slow Cooker Pork Puttanesca Ragù"),
        description: s(r#"This hearty ragù has all the punchy, briny flavors of traditional puttanesca (tomato, anchovies, capers, olives and red-pepper flakes), and introduces pork shoulder to the equation, making a particularly rich and meaty Sunday sauce. Deep flavor is built by starting the dish in a skillet, searing the pork and caramelizing the tomato paste until concentrated. The mixture might look dry as it gets transferred to the slow cooker, but as it cooks, the pork tenderizes and releases its juices. Before serving, add more tomato, along with lemon and parsley, to balance the deep, long-simmered flavors with fresh ones."#),
        author: Author { author_type: s("Person"), name: s("Sarah DiGregorio") },
        image: s("https://static01.nyt.com/images/2018/11/29/dining/sg-slow-cooker-puttanesca-pork-ragu/sg-slow-cooker-puttanesca-pork-ragu-articleLarge.jpg"),
        total_time: Some(s("PT2H")),
        recipe_yield: Some(s("6 to 8 servings")),
        recipe_cuisine: Some(s("italian")),
        recipe_category: Some(s("dinner, weekday, meat, pastas, main course")),
        nutrition: Some(Nutrition {
            context: s("http://schema.org"),
            nutrition_type: s("NutritionInformation"),
            calories: 526,
            unsaturated_fat_content: s("21 grams"),
            carbohydrate_content: s("15 grams"),
            cholesterol_content: None,
            fat_content: s("36 grams"),
            fiber_content: s("4 grams"),
            protein_content: s("36 grams"),
            saturated_fat_content: s("12 grams"),
            sodium_content: s("750 milligrams"),
            sugar_content: s("8 grams"),
            trans_fat_content: None,
        }),
        recipe_ingredient: vec![
            s(r#"3 to 3 1/2 pounds boneless, skinless pork shoulder"#),
            s(r#"Kosher salt"#),
            s(r#"1 tablespoon olive oil, plus more as needed"#),
            s(r#"8 large garlic cloves, roughly chopped"#),
            s(r#"4 anchovy fillets, finely chopped, or 1 tablespoon anchovy paste"#),
            s(r#"2 (6-ounce) cans tomato paste"#),
            s(r#"1/3 cup pitted kalamata olives"#),
            s(r#"1/4 cup drained capers"#),
            s(r#"1 tablespoon red wine vinegar"#),
            s(r#"2 teaspoons red-pepper flakes, plus more to taste"#),
            s(r#"1 teaspoon dried oregano"#),
            s(r#"Freshly ground black pepper"#),
            s(r#"1 (14.5-ounce) can whole or crushed tomatoes"#),
            s(r#"2 tablespoons fresh lemon juice (about 1/2 lemon)"#),
            s(r#"1 cup chopped flat-leaf parsley, lightly packed"#),
            s(r#"Grated Parmigiano-Reggiano, for serving"#),
        ],
        recipe_instructions: vec![
            step(r#"Using a sharp knife, trim and discard the large hunks of fat from the pork shoulder then cut the meat into 4 even pieces. Season the pork generously on all sides with salt. Heat the olive oil in a large skillet over medium-high. Working in two batches if necessary, brown the pork on two sides, about 5 minutes per side. Using tongs, transfer the pork to a 5- to 8-quart slow cooker."#),
            step(r#"Add the garlic and anchovies to the skillet, along with more oil if needed, and cook over medium, stirring, until fragrant, about 2 minutes. Add the tomato paste and cook, stirring constantly and scraping up any browned bits on the bottom of the pan, until fragrant and slightly darkened in color, about 3 minutes. Turn off the heat and stir in the olives, capers, vinegar, red-pepper flakes, oregano and a generous amount of black pepper. (Do not add more salt at this point because anchovies, olives and capers can be quite salty.) Scrape the mixture into the slow cooker with the pork and stir until combined."#),
            step(r#"Cover the slow cooker and cook on low until the pork is fork-tender and the sauce deepens in color, about 10 hours."#),
            step(r#"Using two forks, coarsely shred the pork. Pour the can of tomatoes and juices into the slow cooker, crushing the tomatoes with your hands, if using whole. Add the parsley and lemon juice. Taste and add more red-pepper flakes or salt if necessary."#),
            step(r#"Serve the ragù over polenta or sturdy pasta, like rigatoni or pappardelle, topped with Parmesan to taste. (If serving the ragù with pasta, loosen the ragù with a bit of pasta cooking water, adding it spoonful by spoonful, to help the sauce coat the pasta.)"#),
        ],
        video: None,
    }
}

#[test]
fn ld_types_ragu() {
    let mut as_recipe = ragu_recipe();
    let expected = r#"# Slow Cooker Pork Puttanesca Ragù

By: Sarah DiGregorio

![](https://static01.nyt.com/images/2018/11/29/dining/sg-slow-cooker-puttanesca-pork-ragu/sg-slow-cooker-puttanesca-pork-ragu-articleLarge.jpg)

This hearty ragù has all the punchy, briny flavors of traditional puttanesca (tomato, anchovies, capers, olives and red-pepper flakes), and introduces pork shoulder to the equation, making a particularly rich and meaty Sunday sauce. Deep flavor is built by starting the dish in a skillet, searing the pork and caramelizing the tomato paste until concentrated. The mixture might look dry as it gets transferred to the slow cooker, but as it cooks, the pork tenderizes and releases its juices. Before serving, add more tomato, along with lemon and parsley, to balance the deep, long-simmered flavors with fresh ones.

Yields: 6 to 8 servings in 2h 

#italian #dinner #weekday #meat #pastas #main_course

## Ingredients
- 3 to 3 1/2 pounds boneless, skinless pork shoulder
- Kosher salt
- 1 tablespoon olive oil, plus more as needed
- 8 large garlic cloves, roughly chopped
- 4 anchovy fillets, finely chopped, or 1 tablespoon anchovy paste
- 2 (6-ounce) cans tomato paste
- 1/3 cup pitted kalamata olives
- 1/4 cup drained capers
- 1 tablespoon red wine vinegar
- 2 teaspoons red-pepper flakes, plus more to taste
- 1 teaspoon dried oregano
- Freshly ground black pepper
- 1 (14.5-ounce) can whole or crushed tomatoes
- 2 tablespoons fresh lemon juice (about 1/2 lemon)
- 1 cup chopped flat-leaf parsley, lightly packed
- Grated Parmigiano-Reggiano, for serving


## Instructions
1. Using a sharp knife, trim and discard the large hunks of fat from the pork shoulder then cut the meat into 4 even pieces. Season the pork generously on all sides with salt. Heat the olive oil in a large skillet over medium-high. Working in two batches if necessary, brown the pork on two sides, about 5 minutes per side. Using tongs, transfer the pork to a 5- to 8-quart slow cooker.
2. Add the garlic and anchovies to the skillet, along with more oil if needed, and cook over medium, stirring, until fragrant, about 2 minutes. Add the tomato paste and cook, stirring constantly and scraping up any browned bits on the bottom of the pan, until fragrant and slightly darkened in color, about 3 minutes. Turn off the heat and stir in the olives, capers, vinegar, red-pepper flakes, oregano and a generous amount of black pepper. (Do not add more salt at this point because anchovies, olives and capers can be quite salty.) Scrape the mixture into the slow cooker with the pork and stir until combined.
3. Cover the slow cooker and cook on low until the pork is fork-tender and the sauce deepens in color, about 10 hours.
4. Using two forks, coarsely shred the pork. Pour the can of tomatoes and juices into the slow cooker, crushing the tomatoes with your hands, if using whole. Add the parsley and lemon juice. Taste and add more red-pepper flakes or salt if necessary.
5. Serve the ragù over polenta or sturdy pasta, like rigatoni or pappardelle, topped with Parmesan to taste. (If serving the ragù with pasta, loosen the ragù with a bit of pasta cooking water, adding it spoonful by spoonful, to help the sauce coat the pasta.)


### Nutrition
- calories: 526
- unsaturated fat: 21 grams
- carbohydrate: 15 grams
- cholesterol: 
- fat: 36 grams
- fiber: 4 grams
- protein: 36 grams
- saturated fat: 12 grams
- sodium: 750 milligrams
- sugar: 8 grams
- trans fat: 
        

Source: [Slow Cooker Pork Puttanesca Ragù]"#;
    assert_eq!(expected, as_recipe.as_md());
}

#[test]
fn as_md_makes_time_short_and_categories_tags() {
    let mut recipe = ragu_recipe();
    recipe.total_time = Some(s("PT1H30M"));
    recipe.recipe_category = Some(s("main course, side dish"));
    let _ = recipe.as_md();
    assert_eq!(recipe.total_time, Some(s("1h 30m")));
    assert_eq!(recipe.recipe_category, Some(s("#main_course #side_dish")));
}

#[test]
fn as_md_without_optional_parts() {
    let mut recipe = ragu_recipe();
    recipe.total_time = None;
    recipe.recipe_yield = None;
    recipe.recipe_cuisine = None;
    recipe.recipe_category = None;
    recipe.nutrition = None;
    recipe.recipe_ingredient = vec![s("salt")];
    recipe.recipe_instructions = vec![];
    recipe.description = s("Tasty.");
    let md = recipe.as_md();
    assert!(md.contains(
        "Tasty.\n\nYields:  in \n\n# \n\n## Ingredients\n- salt\n\n\n## Instructions\n\n\n\n\nSource: ["
    ));
}

#[test]
fn nutrition_with_negative_calories() {
    let n = Nutrition {
        context: s(""),
        nutrition_type: s(""),
        calories: -12,
        unsaturated_fat_content: s("a"),
        carbohydrate_content: s("b"),
        cholesterol_content: Some(s("c")),
        fat_content: s("d"),
        fiber_content: s("e"),
        protein_content: s("f"),
        saturated_fat_content: s("g"),
        sodium_content: s("h"),
        sugar_content: s("i"),
        trans_fat_content: Some(s("j")),
    };
    assert_eq!(
        n.as_md(),
        "### Nutrition\n- calories: -12\n- unsaturated fat: a\n- carbohydrate: b\n- cholesterol: c\n- fat: d\n- fiber: e\n- protein: f\n- saturated fat: g\n- sodium: h\n- sugar: i\n- trans fat: j\n        "
    );
}

#[test]
fn nutrition_with_extreme_calories() {
    let mut n = Nutrition {
        context: s(""),
        nutrition_type: s(""),
        calories: i64::MIN,
        unsaturated_fat_content: s(""),
        carbohydrate_content: s(""),
        cholesterol_content: None,
        fat_content: s(""),
        fiber_content: s(""),
        protein_content: s(""),
        saturated_fat_content: s(""),
        sodium_content: s(""),
        sugar_content: s(""),
        trans_fat_content: None,
    };
    assert!(n.as_md().starts_with("### Nutrition\n- calories: -9223372036854775808\n"));
    n.calories = 0;
    assert!(n.as_md().starts_with("### Nutrition\n- calories: 0\n"));
}

#[test]
fn instruction_simplify_gives_text() {
    assert_eq!(step("Stir.").simplify(), "Stir.");
}
