use recipe_grabber::json::JsonValue;
use recipe_grabber::{
    error_page, ld_blocks, ld_json_blocks, ld_recipe_text, search_blocks, search_hits_bad_graph,
    traverse_for_type_recipe, LdBlock, Located, RecipeError,
};

fn strings(texts: &[&str]) -> Vec<String> {
    texts.iter().map(|t| t.to_string()).collect()
}

fn blocks(texts: &[&str]) -> Vec<LdBlock> {
    ld_blocks(&strings(texts))
}

fn found(texts: &[&str]) -> Result<String, RecipeError> {
    traverse_for_type_recipe(&strings(texts))
}

/// The page a failed extraction shows.
fn failure_page(html: &str) -> String {
    match ld_recipe_text(html) {
        Some(Err(e)) => error_page(&e.message()),
        Some(Ok(_)) => panic!("a recipe was found"),
        None => panic!("a graph is not an array"),
    }
}

fn item_name(v: &JsonValue) -> Option<&str> {
    match v.get("name") {
        Some(JsonValue::String(s)) => Some(s.as_str()),
        _ => None,
    }
}

fn tree(text: &str) -> JsonValue {
    match ld_blocks(&strings(&[text])).pop() {
        Some(LdBlock { tree: Ok(v), .. }) => v,
        _ => panic!("the text is JSON"),
    }
}

#[test]
fn will_fail() {
    let actual = failure_page("<html><head><title>x</title></head><body><p>No data</p></body></html>");
    let expected = r#"<p>Whoops! Something went wrong. This worker does not support that url :(.</p>
<hr />
<p>Technical Readout:</p>
<pre>Site contains no Recipe Schema.</pre>"#;
    assert_eq!(actual, expected);
}

#[test]
fn will_fail_2() {
    let json = r#"{"@context":"https://schema.org","@graph":[{"@type":"Organization","@id":"https://butternutbakeryblog.com/#organization","name":"Butternut Bakery","url":"https://butternutbakeryblog.com/","sameAs":["https://www.facebook.com/butternutbakeryblog","https://www.instagram.com/butternutbakery/","https://www.pinterest.com/butternutbakery/"],"logo":{"@type":"ImageObject","@id":"https://butternutbakeryblog.com/#logo","inLanguage":"en-US","url":"https://butternutbakeryblog.com/wp-content/uploads/2018/05/Untitled-5-1.jpg","width":640,"height":340,"caption":"Butternut Bakery"},"image":{"@id":"https://butternutbakeryblog.com/#logo"}},{"@type":"WebSite","@id":"https://butternutbakeryblog.com/#website","url":"https://butternutbakeryblog.com/","name":"Butternut Bakery","description":"A Baking Blog Sharing Indulgent Recipes","publisher":{"@id":"https://butternutbakeryblog.com/#organization"},"potentialAction":[{"@type":"SearchAction","target":"https://butternutbakeryblog.com/?s={search_term_string}","query-input":"required name=search_term_string"}],"inLanguage":"en-US"},{"@type":"ImageObject","@id":"https://butternutbakeryblog.com/flourless-chocolate-cake/#primaryimage","inLanguage":"en-US","url":"https://butternutbakeryblog.com/wp-content/uploads/2020/04/flourless-chocolate-cake.jpg","width":1200,"height":1800,"caption":"flourless chocolate cake sliced on parchment paper"},{"@type":"WebPage","@id":"https://butternutbakeryblog.com/flourless-chocolate-cake/#webpage","url":"https://butternutbakeryblog.com/flourless-chocolate-cake/","name":"Flourless Olive Oil Chocolate Cake | Butternut Bakery","isPartOf":{"@id":"https://butternutbakeryblog.com/#website"},"primaryImageOfPage":{"@id":"https://butternutbakeryblog.com/flourless-chocolate-cake/#primaryimage"},"datePublished":"2020-04-27T03:41:08+00:00","dateModified":"2020-04-27T03:41:10+00:00","inLanguage":"en-US","potentialAction":[{"@type":"ReadAction","target":["https://butternutbakeryblog.com/flourless-chocolate-cake/"]}]},{"@type":"Article","@id":"https://butternutbakeryblog.com/flourless-chocolate-cake/#article","isPartOf":{"@id":"https://butternutbakeryblog.com/flourless-chocolate-cake/#webpage"},"author":{"@id":"https://butternutbakeryblog.com/#/schema/person/bc97cdfa6d8ac72d58a912b59a782147"},"headline":"Flourless Olive Oil Chocolate Cake","datePublished":"2020-04-27T03:41:08+00:00","dateModified":"2020-04-27T03:41:10+00:00","commentCount":"6","publisher":{"@id":"https://butternutbakeryblog.com/#organization"},"image":{"@id":"https://butternutbakeryblog.com/flourless-chocolate-cake/#primaryimage"},"articleSection":"Cakes and Cupcakes,Dairy Free or Vegan,Gluten Free","inLanguage":"en-US","potentialAction":[{"@type":"CommentAction","name":"Comment","target":["https://butternutbakeryblog.com/flourless-chocolate-cake/#respond"]}]},{"@type":["Person"],"@id":"https://butternutbakeryblog.com/#/schema/person/bc97cdfa6d8ac72d58a912b59a782147","name":"Jenna","image":{"@type":"ImageObject","@id":"https://butternutbakeryblog.com/#personlogo","inLanguage":"en-US","url":"https://secure.gravatar.com/avatar/895fe079b97e47c9f1618c05ad517df6?s=96&d=mm&r=g","caption":"Jenna"}}]}"#;
    let html = format!(
        "<html><head><script type=\"application/ld+json\">{json}</script></head><body></body></html>"
    );
    let actual = failure_page(&html);
    let expected = r#"<p>Whoops! Something went wrong. This worker does not support that url :(.</p>
<hr />
<p>Technical Readout:</p>
<pre>Recipe not found in ld+json
{"@context":"https://schema.org","@graph":[{"@type":"Organization","@id":"https://butternutbakeryblog.com/#organization","name":"Butternut Bakery","url":"https://butternutbakeryblog.com/","sameAs":["https://www.facebook.com/butternutbakeryblog","https://www.instagram.com/butternutbakery/","https://www.pinterest.com/butternutbakery/"],"logo":{"@type":"ImageObject","@id":"https://butternutbakeryblog.com/#logo","inLanguage":"en-US","url":"https://butternutbakeryblog.com/wp-content/uploads/2018/05/Untitled-5-1.jpg","width":640,"height":340,"caption":"Butternut Bakery"},"image":{"@id":"https://butternutbakeryblog.com/#logo"}},{"@type":"WebSite","@id":"https://butternutbakeryblog.com/#website","url":"https://butternutbakeryblog.com/","name":"Butternut Bakery","description":"A Baking Blog Sharing Indulgent Recipes","publisher":{"@id":"https://butternutbakeryblog.com/#organization"},"potentialAction":[{"@type":"SearchAction","target":"https://butternutbakeryblog.com/?s={search_term_string}","query-input":"required name=search_term_string"}],"inLanguage":"en-US"},{"@type":"ImageObject","@id":"https://butternutbakeryblog.com/flourless-chocolate-cake/#primaryimage","inLanguage":"en-US","url":"https://butternutbakeryblog.com/wp-content/uploads/2020/04/flourless-chocolate-cake.jpg","width":1200,"height":1800,"caption":"flourless chocolate cake sliced on parchment paper"},{"@type":"WebPage","@id":"https://butternutbakeryblog.com/flourless-chocolate-cake/#webpage","url":"https://butternutbakeryblog.com/flourless-chocolate-cake/","name":"Flourless Olive Oil Chocolate Cake | Butternut Bakery","isPartOf":{"@id":"https://butternutbakeryblog.com/#website"},"primaryImageOfPage":{"@id":"https://butternutbakeryblog.com/flourless-chocolate-cake/#primaryimage"},"datePublished":"2020-04-27T03:41:08+00:00","dateModified":"2020-04-27T03:41:10+00:00","inLanguage":"en-US","potentialAction":[{"@type":"ReadAction","target":["https://butternutbakeryblog.com/flourless-chocolate-cake/"]}]},{"@type":"Article","@id":"https://butternutbakeryblog.com/flourless-chocolate-cake/#article","isPartOf":{"@id":"https://butternutbakeryblog.com/flourless-chocolate-cake/#webpage"},"author":{"@id":"https://butternutbakeryblog.com/#/schema/person/bc97cdfa6d8ac72d58a912b59a782147"},"headline":"Flourless Olive Oil Chocolate Cake","datePublished":"2020-04-27T03:41:08+00:00","dateModified":"2020-04-27T03:41:10+00:00","commentCount":"6","publisher":{"@id":"https://butternutbakeryblog.com/#organization"},"image":{"@id":"https://butternutbakeryblog.com/flourless-chocolate-cake/#primaryimage"},"articleSection":"Cakes and Cupcakes,Dairy Free or Vegan,Gluten Free","inLanguage":"en-US","potentialAction":[{"@type":"CommentAction","name":"Comment","target":["https://butternutbakeryblog.com/flourless-chocolate-cake/#respond"]}]},{"@type":["Person"],"@id":"https://butternutbakeryblog.com/#/schema/person/bc97cdfa6d8ac72d58a912b59a782147","name":"Jenna","image":{"@type":"ImageObject","@id":"https://butternutbakeryblog.com/#personlogo","inLanguage":"en-US","url":"https://secure.gravatar.com/avatar/895fe079b97e47c9f1618c05ad517df6?s=96&d=mm&r=g","caption":"Jenna"}}]}</pre>"#;
    assert_eq!(actual, expected);
}

#[test]
fn blocks_are_the_ld_json_scripts_in_order() {
    let html = r#"<html><head>
<script type="application/ld+json">{"a":1}</script>
<script>var x = 1;</script>
<script type="text/javascript">{"b":2}</script>
</head><body><script type="application/ld+json">[1, 2]</script></body></html>"#;
    let texts = match ld_json_blocks(html) {
        Ok(t) => t,
        Err(_) => panic!("the selector is valid"),
    };
    assert_eq!(texts, vec![r#"{"a":1}"#.to_string(), "[1, 2]".to_string()]);
}

#[test]
fn a_block_typed_recipe_is_found_whole() {
    let r = found(&[r#"{"@type":"WebSite"}"#, r#"{"@type": "Recipe", "name":"Soup"}"#]);
    assert_eq!(r.ok(), Some(r#"{"@type": "Recipe", "name":"Soup"}"#.to_string()));
}

#[test]
fn the_first_recipe_of_a_graph_is_found() {
    let texts = [
        r#"{"@context":"x","@graph":[{"@type":"Person"},{"name":"A", "@type":"Recipe"},{"@type":"Recipe","name":"B"}]}"#,
    ];
    let b = blocks(&texts);
    match search_blocks(&b) {
        Ok(Located::GraphItem(item)) => assert_eq!(item_name(item), Some("A")),
        _ => panic!("the graph holds a recipe"),
    }
    assert_eq!(found(&texts).ok(), Some(r#"{"@type":"Recipe","name":"A"}"#.to_string()));
}

#[test]
fn a_top_level_array_is_searched_as_a_graph() {
    let texts = [r#"[{"@type":"BreadcrumbList"},{"@type":"Recipe","name":"C","n":[1,2.5]}]"#];
    let b = blocks(&texts);
    match search_blocks(&b) {
        Ok(Located::GraphItem(item)) => assert_eq!(item_name(item), Some("C")),
        _ => panic!("the array holds a recipe"),
    }
    assert_eq!(found(&texts).ok(), Some(r#"{"@type":"Recipe","n":[1,2.5],"name":"C"}"#.to_string()));
}

#[test]
fn a_type_list_is_not_a_recipe_type() {
    match found(&[r#"{"@type":["Recipe"]}"#]) {
        Err(RecipeError::RecipeNotFound(context)) => {
            assert_eq!(context, r#"{"@type":["Recipe"]}"#)
        }
        _ => panic!("no block is typed Recipe"),
    }
}

#[test]
fn a_graph_without_recipe_stops_the_search() {
    match found(&[r#"{"@graph":[{"@type":"Person"}]}"#, r#"{"@type":"Recipe"}"#]) {
        Err(e) => assert_eq!(
            e.message(),
            "Recipe not found in ld+json\n{\"@graph\":[{\"@type\":\"Person\"}]}\n{\"@type\":\"Recipe\"}"
        ),
        Ok(_) => panic!("the first graph decides"),
    }
}

#[test]
fn invalid_json_is_reported_with_the_parser_message() {
    let expected = serde_json::from_str::<serde_json::Value>("{not json").unwrap_err().to_string();
    match found(&["{not json", r#"{"@type":"Recipe"}"#]) {
        Err(RecipeError::InvalidJson(m)) => assert_eq!(m, expected),
        _ => panic!("the first block is not JSON"),
    }
}

#[test]
fn an_empty_block_is_invalid_json() {
    match found(&[""]) {
        Err(RecipeError::InvalidJson(m)) => {
            assert_eq!(m, "EOF while parsing a value at line 1 column 0")
        }
        _ => panic!("an empty block is not JSON"),
    }
    let b = blocks(&["", "{}"]);
    assert!(b[0].tree.is_err());
    assert!(b[1].tree.is_ok());
    assert_eq!(b[0].text, "");
}

#[test]
fn blocks_without_graph_or_recipe_are_passed() {
    match found(&[r#"{"@type":"Organization"}"#, r#"{"x":1}"#]) {
        Err(e) => assert_eq!(
            e.message(),
            "Recipe not found in ld+json\n{\"@type\":\"Organization\"}\n{\"x\":1}"
        ),
        Ok(_) => panic!("there is no recipe"),
    }
}

#[test]
fn no_blocks_means_no_schema() {
    match found(&[]) {
        Err(RecipeError::NoRecipeSchema) => {}
        _ => panic!("there are no blocks"),
    }
    let b: Vec<LdBlock> = vec![];
    assert!(matches!(search_blocks(&b), Err(RecipeError::NoRecipeSchema)));
}

#[test]
fn a_graph_that_is_not_an_array_is_flagged() {
    let b = blocks(&[r#"{"@graph":{"@type":"Recipe"}}"#]);
    assert!(search_hits_bad_graph(&b));
    let ok = blocks(&[r#"{"@type":"Recipe"}"#, r#"{"@graph":1}"#]);
    assert!(!search_hits_bad_graph(&ok));
    let html = r#"<script type="application/ld+json">{"@graph":{"@type":"Recipe"}}</script>"#;
    assert!(ld_recipe_text(html).is_none());
}

#[test]
fn a_page_recipe_text_is_found() {
    let html = r#"<html><head><script type="application/ld+json">{"@type":"WebSite"}</script>
<script type="application/ld+json">{"@graph":[{"@type":"Recipe","name":"D"}]}</script></head></html>"#;
    match ld_recipe_text(html) {
        Some(Ok(text)) => assert_eq!(text, r#"{"@type":"Recipe","name":"D"}"#),
        _ => panic!("the page holds a recipe"),
    }
}

#[test]
fn error_messages() {
    assert_eq!(RecipeError::Unknown.message(), "unknown error");
    assert_eq!(RecipeError::InvalidSelector.message(), "Could not parse XPath Selector");
    assert_eq!(RecipeError::InvalidRecipe("bad".to_string()).message(), "bad");
    assert_eq!(error_page("m"), "<p>Whoops! Something went wrong. This worker does not support that url :(.</p>\n<hr />\n<p>Technical Readout:</p>\n<pre>m</pre>");
}

#[test]
fn json_values_answer_member_lookups() {
    let v = tree(r#"{"a":"x","b":[true,null,1.5]}"#);
    assert!(matches!(v.get("a"), Some(JsonValue::String(s)) if s == "x"));
    assert!(v.get("c").is_none());
    assert!(v.get("b").map(|b| b.is_array()).unwrap_or(false));
    assert!(v.get("a").map(|a| a.is_string("x")).unwrap_or(false));
    assert!(!v.is_array());
    assert!(JsonValue::Null.get("a").is_none());
}
