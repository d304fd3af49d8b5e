//! Recipe Grabber: turns the `application/ld+json` recipe data of a web page
//! into a markdown document.
//!
//! The page's `<script type="application/ld+json">` blocks are collected, the
//! block (or the `@graph` item) whose `@type` is `Recipe` is located, and the
//! recipe is rendered as markdown by [`ld_md::RecipeMarkdownBuilder`].

pub mod duration;
pub mod json;
pub mod ld_md;
pub mod ld_types;
pub mod sites;
pub mod text;

use json::{get_spec, is_string_value, json_read, json_write, read_json, write_json, JsonValue};
use ld_md::{recipe_markdown, renderable, LdJson, RecipeMarkdownBuilder};
use sites::LdRecipe;
use text::{
    join, join_spec, lemma_join_prepend, lemma_split_from_nonempty, replace, replace_spec, split_from,
    views,
};
use vstd::prelude::*;

verus! {

/// Why a page gives no recipe.
pub enum RecipeError {
    /// Unknown error.
    Unknown,
    /// The selector of the ld+json blocks is not valid CSS.
    InvalidSelector,
    /// A block is not valid JSON; the parser's message.
    InvalidJson(String),
    /// The blocks hold no recipe; the blocks, one per line.
    RecipeNotFound(String),
    /// The page has no ld+json block.
    NoRecipeSchema,
    /// The recipe's data does not have the recipe's shape; the parser's message.
    InvalidRecipe(String),
}

impl RecipeError {
    /// The message of the error.
    pub open spec fn message_spec(&self) -> Seq<char> {
        match self {
            RecipeError::Unknown => "unknown error"@,
            RecipeError::InvalidSelector => "Could not parse XPath Selector"@,
            RecipeError::InvalidJson(m) => m@,
            RecipeError::RecipeNotFound(context) => "Recipe not found in ld+json\n"@ + context@,
            RecipeError::NoRecipeSchema => "Site contains no Recipe Schema."@,
            RecipeError::InvalidRecipe(m) => m@,
        }
    }

    /// The message of the error, as it is reported.
    pub fn message(&self) -> (r: String)
        ensures
            r@ == self.message_spec(),
    {
        match self {
            RecipeError::Unknown => String::from_str("unknown error"),
            RecipeError::InvalidSelector => String::from_str("Could not parse XPath Selector"),
            RecipeError::InvalidJson(m) => m.clone(),
            RecipeError::RecipeNotFound(context) => {
                let mut out = String::from_str("Recipe not found in ld+json\n");
                out.append(context.as_str());
                out
            },
            RecipeError::NoRecipeSchema => String::from_str("Site contains no Recipe Schema."),
            RecipeError::InvalidRecipe(m) => m.clone(),
        }
    }
}

/// One ld+json block of a page: its text, and the JSON value it parses to
/// or the parser's message.
pub struct LdBlock {
    pub text: String,
    pub tree: Result<JsonValue, String>,
}

impl View for LdBlock {
    type V = (Seq<char>, Result<JsonValue, Seq<char>>);

    open spec fn view(&self) -> (Seq<char>, Result<JsonValue, Seq<char>>) {
        (
            self.text@,
            match self.tree {
                Ok(v) => Ok(v),
                Err(m) => Err(m@),
            },
        )
    }
}

/// Where the recipe was found: a whole block, or an item of a block's graph.
pub enum Located<'a> {
    Block(&'a String),
    GraphItem(&'a JsonValue),
}

/// What the search over the blocks comes to.
pub enum Outcome {
    /// The block at this position is a recipe.
    Block(int),
    /// This item of a block's graph is a recipe.
    GraphItem(JsonValue),
    /// A block has a graph with no recipe in it.
    NotInGraph,
    /// No block is a recipe or has a graph.
    Exhausted,
    /// A block is not valid JSON; the parser's message.
    InvalidJson(Seq<char>),
    /// A block's `@graph` is not an array.
    GraphNotArray,
}

/// The value has `"@type": "Recipe"`.
pub open spec fn typed_recipe(v: JsonValue) -> bool {
    match get_spec(v, "@type"@) {
        Some(t) => is_string_value(t, "Recipe"@),
        None => false,
    }
}

/// The graph of a value: its `@graph` member, or itself when it is an array.
pub open spec fn graph_of(v: JsonValue) -> Option<JsonValue> {
    match get_spec(v, "@graph"@) {
        Some(g) => Some(g),
        None => if v is Array {
            Some(v)
        } else {
            None
        },
    }
}

/// The position of the first recipe among the items.
pub open spec fn first_recipe(items: Seq<JsonValue>) -> Option<int>
    decreases items.len(),
{
    if items.len() == 0 {
        None
    } else if typed_recipe(items[0]) {
        Some(0)
    } else {
        match first_recipe(items.drop_first()) {
            Some(j) => Some(j + 1),
            None => None,
        }
    }
}

/// The views of the blocks.
pub open spec fn block_views(blocks: Seq<LdBlock>) -> Seq<(Seq<char>, Result<JsonValue, Seq<char>>)> {
    blocks.map_values(|b: LdBlock| b@)
}

/// The blocks of the texts: each text, with what `serde_json` reads from it.
pub open spec fn read_blocks(texts: Seq<Seq<char>>) -> Seq<(Seq<char>, Result<JsonValue, Seq<char>>)> {
    texts.map_values(|t: Seq<char>| (t, json_read(t)))
}

/// The search over the blocks from position `i` on: the first block that is
/// a recipe, or whose graph decides, decides.
pub open spec fn outcome_from(blocks: Seq<(Seq<char>, Result<JsonValue, Seq<char>>)>, i: int) -> Outcome
    decreases blocks.len() - i,
{
    if i < 0 || i >= blocks.len() {
        Outcome::Exhausted
    } else {
        match blocks[i].1 {
            Err(e) => Outcome::InvalidJson(e),
            Ok(t) => if typed_recipe(t) {
                Outcome::Block(i)
            } else {
                match graph_of(t) {
                    None => outcome_from(blocks, i + 1),
                    Some(g) => match g {
                        JsonValue::Array(items) => match first_recipe(items@) {
                            Some(j) => Outcome::GraphItem(items@[j]),
                            None => Outcome::NotInGraph,
                        },
                        _ => Outcome::GraphNotArray,
                    },
                }
            },
        }
    }
}

/// The texts of the blocks, one per line.
pub open spec fn blocks_context(blocks: Seq<(Seq<char>, Result<JsonValue, Seq<char>>)>) -> Seq<char> {
    join_spec(blocks.map_values(|b: (Seq<char>, Result<JsonValue, Seq<char>>)| b.0), "\n"@)
}

/// The search over `blocks` gives `r`.
pub open spec fn search_result(
    blocks: Seq<(Seq<char>, Result<JsonValue, Seq<char>>)>,
    r: Result<Located, RecipeError>,
) -> bool {
    match outcome_from(blocks, 0) {
        Outcome::Block(i) => r matches Ok(Located::Block(t)) && t@ == blocks[i].0,
        Outcome::GraphItem(item) => r matches Ok(Located::GraphItem(v)) && *v == item,
        Outcome::NotInGraph => r matches Err(RecipeError::RecipeNotFound(c)) && c@ == blocks_context(
            blocks,
        ),
        Outcome::Exhausted => if blocks_context(blocks).len() == 0 {
            r matches Err(RecipeError::NoRecipeSchema)
        } else {
            r matches Err(RecipeError::RecipeNotFound(c)) && c@ == blocks_context(blocks)
        },
        Outcome::InvalidJson(m) => r matches Err(RecipeError::InvalidJson(e)) && e@ == m,
        Outcome::GraphNotArray => false,
    }
}

/// The recipe text that the ld+json blocks `texts` give is `r`: the text of
/// the block that is a recipe, or the printed graph item that is; or the
/// error of the search.
pub open spec fn recipe_text_result(texts: Seq<Seq<char>>, r: Result<String, RecipeError>) -> bool {
    match outcome_from(read_blocks(texts), 0) {
        Outcome::Block(i) => r matches Ok(s) && s@ == texts[i],
        Outcome::GraphItem(item) => r matches Ok(s) && s@ == json_write(item),
        Outcome::NotInGraph => r matches Err(RecipeError::RecipeNotFound(c)) && c@ == join_spec(
            texts,
            "\n"@,
        ),
        Outcome::Exhausted => if join_spec(texts, "\n"@).len() == 0 {
            r matches Err(RecipeError::NoRecipeSchema)
        } else {
            r matches Err(RecipeError::RecipeNotFound(c)) && c@ == join_spec(texts, "\n"@)
        },
        Outcome::InvalidJson(m) => r matches Err(RecipeError::InvalidJson(e)) && e@ == m,
        Outcome::GraphNotArray => false,
    }
}

/// The texts of the blocks, one per line.
fn context_of(blocks: &Vec<LdBlock>) -> (r: String)
    ensures
        r@ == blocks_context(block_views(blocks@)),
{
    let mut texts: Vec<String> = Vec::new();
    let mut i: usize = 0;
    while i < blocks.len()
        invariant
            i <= blocks.len(),
            views(texts@) == blocks@.take(i as int).map_values(|b: LdBlock| b.text@),
        decreases blocks.len() - i,
    {
        let t = blocks[i].text.clone();
        let ghost before = texts@;
        texts.push(t);
        assert(views(texts@) =~= views(before).push(t@));
        assert(blocks@.take(i + 1).map_values(|b: LdBlock| b.text@) =~= blocks@.take(
            i as int,
        ).map_values(|b: LdBlock| b.text@).push(blocks@[i as int].text@));
        i = i + 1;
    }
    assert(blocks@.take(blocks.len() as int) =~= blocks@);
    assert(block_views(blocks@).map_values(
        |b: (Seq<char>, Result<JsonValue, Seq<char>>)| b.0,
    ) =~= blocks@.map_values(|b: LdBlock| b.text@));
    proof {
        reveal_strlit("\n");
    }
    join(&texts, "\n")
}

/// Whether the value has `"@type": "Recipe"`.
fn is_typed_recipe(v: &JsonValue) -> (r: bool)
    ensures
        r == typed_recipe(*v),
{
    match v.get("@type") {
        Some(t) => t.is_string("Recipe"),
        None => false,
    }
}

/// The graph of a value: its `@graph` member, or itself when it is an array.
fn graph(v: &JsonValue) -> (r: Option<&JsonValue>)
    ensures
        match r {
            Some(g) => graph_of(*v) == Some(*g),
            None => graph_of(*v) is None,
        },
{
    if let Some(g) = v.get("@graph") {
        Some(g)
    } else if v.is_array() {
        Some(v)
    } else {
        None
    }
}

/// The first recipe among the items.
fn find_first_recipe(items: &Vec<JsonValue>) -> (r: Option<usize>)
    ensures
        match r {
            Some(j) => j < items.len() && first_recipe(items@) == Some(j as int),
            None => first_recipe(items@) is None,
        },
{
    let mut i: usize = 0;
    while i < items.len()
        invariant
            i <= items.len(),
            forall|k: int| 0 <= k < i ==> !typed_recipe(#[trigger] items@[k]),
        decreases items.len() - i,
    {
        if is_typed_recipe(&items[i]) {
            proof {
                lemma_first_recipe_at(items@, i as int);
            }
            return Some(i);
        }
        i = i + 1;
    }
    proof {
        lemma_first_recipe_none(items@);
    }
    None
}

proof fn lemma_first_recipe_at(items: Seq<JsonValue>, i: int)
    requires
        0 <= i < items.len(),
        typed_recipe(items[i]),
        forall|k: int| 0 <= k < i ==> !typed_recipe(#[trigger] items[k]),
    ensures
        first_recipe(items) == Some(i),
    decreases i,
{
    if i > 0 {
        let rest = items.drop_first();
        assert forall|k: int| 0 <= k < i - 1 implies !typed_recipe(#[trigger] rest[k]) by {
            assert(rest[k] == items[k + 1]);
        }
        lemma_first_recipe_at(rest, i - 1);
    }
}

proof fn lemma_first_recipe_none(items: Seq<JsonValue>)
    requires
        forall|k: int| 0 <= k < items.len() ==> !typed_recipe(#[trigger] items[k]),
    ensures
        first_recipe(items) is None,
    decreases items.len(),
{
    if items.len() > 0 {
        let rest = items.drop_first();
        assert forall|k: int| 0 <= k < rest.len() implies !typed_recipe(#[trigger] rest[k]) by {
            assert(rest[k] == items[k + 1]);
        }
        lemma_first_recipe_none(rest);
    }
}

/// Each text as a block: the text, with the JSON value `serde_json` reads
/// from it or the parser's message.
pub fn ld_blocks(texts: &[String]) -> (r: Vec<LdBlock>)
    ensures
        block_views(r@) == read_blocks(views(texts@)),
        forall|i: int| 0 <= i < texts@.len() && texts@[i]@.len() == 0 ==> #[trigger] r@[i].tree is Err,
{
    let mut out: Vec<LdBlock> = Vec::new();
    let mut i: usize = 0;
    while i < texts.len()
        invariant
            i <= texts.len(),
            out@.len() == i,
            forall|k: int| 0 <= k < i ==> #[trigger] out@[k]@ == (texts@[k]@, json_read(texts@[k]@)),
            forall|k: int| 0 <= k < i && texts@[k]@.len() == 0 ==> #[trigger] out@[k].tree is Err,
        decreases texts.len() - i,
    {
        let tree = read_json(texts[i].as_str());
        out.push(LdBlock { text: texts[i].clone(), tree });
        i = i + 1;
    }
    assert(block_views(out@) =~= read_blocks(views(texts@)));
    out
}

/// Whether searching `blocks` for the recipe reaches a block whose
/// `@graph` is not an array.
pub fn search_hits_bad_graph(blocks: &Vec<LdBlock>) -> (r: bool)
    ensures
        r == (outcome_from(block_views(blocks@), 0) is GraphNotArray),
{
    let ghost bs = block_views(blocks@);
    let mut i: usize = 0;
    while i < blocks.len()
        invariant
            i <= blocks.len(),
            bs == block_views(blocks@),
            outcome_from(bs, 0) == outcome_from(bs, i as int),
        decreases blocks.len() - i,
    {
        assert(bs[i as int] == blocks@[i as int]@);
        match &blocks[i].tree {
            Err(_) => {
                return false;
            },
            Ok(t) => {
                if is_typed_recipe(t) {
                    return false;
                }
                match graph(t) {
                    None => {},
                    Some(g) => {
                        return !g.is_array();
                    },
                }
            },
        }
        i = i + 1;
    }
    false
}

/// Finds the recipe among the parsed ld+json blocks of a page: the first
/// block whose `@type` is `Recipe`, or the first recipe item of the first
/// block that has a graph (its `@graph` array, or the block itself when it
/// is an array).
pub fn search_blocks(blocks: &Vec<LdBlock>) -> (r: Result<Located, RecipeError>)
    requires
        !(outcome_from(block_views(blocks@), 0) is GraphNotArray),
    ensures
        search_result(block_views(blocks@), r),
{
    let ghost bs = block_views(blocks@);
    let mut i: usize = 0;
    while i < blocks.len()
        invariant
            i <= blocks.len(),
            bs == block_views(blocks@),
            outcome_from(bs, 0) == outcome_from(bs, i as int),
            !(outcome_from(bs, 0) is GraphNotArray),
        decreases blocks.len() - i,
    {
        assert(bs[i as int] == blocks@[i as int]@);
        match &blocks[i].tree {
            Err(e) => {
                return Err(RecipeError::InvalidJson(e.clone()));
            },
            Ok(tree) => {
                if is_typed_recipe(tree) {
                    return Ok(Located::Block(&blocks[i].text));
                }
                match graph(tree) {
                    None => {},
                    Some(JsonValue::Array(items)) => {
                        match find_first_recipe(items) {
                            Some(j) => {
                                return Ok(Located::GraphItem(&items[j]));
                            },
                            None => {
                                return Err(RecipeError::RecipeNotFound(context_of(blocks)));
                            },
                        }
                    },
                    Some(_) => {
                        proof {
                            assert(outcome_from(bs, i as int) is GraphNotArray);
                        }
                        return Err(RecipeError::Unknown);
                    },
                }
            },
        }
        i = i + 1;
    }
    let context = context_of(blocks);
    if context.as_str().is_empty() {
        Err(RecipeError::NoRecipeSchema)
    } else {
        Err(RecipeError::RecipeNotFound(context))
    }
}

/// The texts of the blocks of `texts` are `texts`.
proof fn lemma_read_blocks_context(texts: Seq<Seq<char>>)
    ensures
        blocks_context(read_blocks(texts)) == join_spec(texts, "\n"@),
{
    assert(read_blocks(texts).map_values(|b: (Seq<char>, Result<JsonValue, Seq<char>>)| b.0)
        =~= texts);
}

/// A search that runs out of blocks parsed every block it passed.
proof fn lemma_exhausted_parsed_all(blocks: Seq<(Seq<char>, Result<JsonValue, Seq<char>>)>, i: int)
    requires
        0 <= i,
        outcome_from(blocks, i) is Exhausted,
    ensures
        forall|j: int| i <= j < blocks.len() ==> #[trigger] blocks[j].1 is Ok,
    decreases blocks.len() - i,
{
    if i < blocks.len() {
        lemma_exhausted_parsed_all(blocks, i + 1);
    }
}

/// Finds the recipe among the ld+json blocks of a page and gives its text:
/// the first block whose `@type` is `Recipe`, as it stands, or the first
/// recipe item of the first block that has a graph (its `@graph` array, or
/// the block itself when it is an array), printed by `serde_json`. The
/// site has no recipe schema exactly when it has no block.
pub fn traverse_for_type_recipe(ld_jsons: &[String]) -> (r: Result<String, RecipeError>)
    requires
        !(outcome_from(read_blocks(views(ld_jsons@)), 0) is GraphNotArray),
    ensures
        recipe_text_result(views(ld_jsons@), r),
        r matches Err(RecipeError::NoRecipeSchema) <==> ld_jsons@.len() == 0,
{
    let blocks = ld_blocks(ld_jsons);
    let ghost texts = views(ld_jsons@);
    proof {
        lemma_read_blocks_context(texts);
        reveal_strlit("\n");
        if texts.len() > 0 && outcome_from(read_blocks(texts), 0) is Exhausted {
            lemma_exhausted_parsed_all(read_blocks(texts), 0);
            assert(read_blocks(texts)[0].1 is Ok);
            assert(block_views(blocks@)[0] == blocks@[0]@);
            assert(texts[0].len() > 0);
            if texts.len() > 1 {
                assert(join_spec(texts, "\n"@).len() >= "\n"@.len());
            }
            assert(join_spec(texts, "\n"@).len() > 0);
        }
    }
    let found = search_blocks(&blocks);
    proof {
        if let Outcome::Block(i) = outcome_from(read_blocks(texts), 0) {
            lemma_search_reports_first_recipe(read_blocks(texts), 0);
            assert(read_blocks(texts)[i].0 == texts[i]);
        }
    }
    match found {
        Ok(Located::Block(text)) => Ok(text.clone()),
        Ok(Located::GraphItem(item)) => Ok(write_json(item)),
        Err(e) => Err(e),
    }
}

/// The recipe text of a page: the page's ld+json blocks are selected and
/// searched as `traverse_for_type_recipe` searches them. Nothing when the
/// search reaches a block whose `@graph` is not an array.
pub fn ld_recipe_text(contents: &str) -> (r: Option<Result<String, RecipeError>>)
    ensures
        match html_select_texts(contents@, ld_json_selector()) {
            None => r matches Some(Err(RecipeError::InvalidSelector)),
            Some(texts) => if outcome_from(read_blocks(texts), 0) is GraphNotArray {
                r is None
            } else {
                r matches Some(x) && recipe_text_result(texts, x)
            },
        },
{
    let texts = match ld_json_blocks(contents) {
        Ok(t) => t,
        Err(e) => {
            return Some(Err(e));
        },
    };
    let blocks = ld_blocks(texts.as_slice());
    if search_hits_bad_graph(&blocks) {
        None
    } else {
        Some(traverse_for_type_recipe(texts.as_slice()))
    }
}

/// The texts of the elements of an HTML document that a CSS selector
/// selects, in the order in which `scraper` walks its parsed tree (the
/// order in which the parser created the nodes), each the concatenation of
/// its text nodes; nothing when the selector is not valid CSS.
pub uninterp spec fn html_select_texts(html: Seq<char>, selector: Seq<char>) -> Option<
    Seq<Seq<char>>,
>;

/// Parses `html` with `scraper::Html::parse_document`, parses `selector`
/// with `scraper::Selector::parse`, and collects the text of each selected
/// element (`ElementRef::text`, concatenated). The contract claims that the
/// result depends on the two texts alone, and is nothing exactly when the
/// selector does not parse; what the texts are is left to the name.
#[verifier::external_body]
fn select_texts(html: &str, selector: &str) -> (r: Option<Vec<String>>)
    ensures
        match r {
            Some(v) => html_select_texts(html@, selector@) == Some(views(v@)),
            None => html_select_texts(html@, selector@) is None,
        },
{
    let selector = scraper::Selector::parse(selector).ok()?;
    let document = scraper::Html::parse_document(html);
    Some(document.select(&selector).map(|element| element.text().collect::<String>()).collect())
}

/// The selector of the ld+json blocks of a page.
pub open spec fn ld_json_selector() -> Seq<char> {
    "script[type=\"application/ld+json\"]"@
}

/// The texts of the page's `<script type="application/ld+json">` elements,
/// in the order in which `scraper` walks the parsed page.
pub fn ld_json_blocks(contents: &str) -> (r: Result<Vec<String>, RecipeError>)
    ensures
        match html_select_texts(contents@, ld_json_selector()) {
            Some(texts) => r matches Ok(v) && views(v@) == texts,
            None => r matches Err(RecipeError::InvalidSelector),
        },
{
    match select_texts(contents, "script[type=\"application/ld+json\"]") {
        Some(v) => Ok(v),
        None => Err(RecipeError::InvalidSelector),
    }
}

/// The page shown when no recipe can be extracted.
pub open spec fn error_page_spec(message: Seq<char>) -> Seq<char> {
    "<p>Whoops! Something went wrong. This worker does not support that url :(.</p>\n<hr />\n<p>Technical Readout:</p>\n<pre>"@
        + message + "</pre>"@
}

/// The page shown when no recipe can be extracted, with the error's message.
pub fn error_page(message: &str) -> (r: String)
    ensures
        r@ == error_page_spec(message@),
{
    let mut out = String::from_str(
        "<p>Whoops! Something went wrong. This worker does not support that url :(.</p>\n<hr />\n<p>Technical Readout:</p>\n<pre>",
    );
    out.append(message);
    out.append("</pre>");
    out
}

/// The markdown with each `\r\n` made a `\n`.
pub fn normalize_newlines(markdown: &str) -> (r: String)
    ensures
        r@ == replace_spec(markdown@, "\r\n"@, "\n"@),
{
    proof {
        reveal_strlit("\r\n");
    }
    replace(markdown, "\r\n", "\n")
}

/// Whether the markdown builder can render the recipe: its author, yield
/// and (without a video) image lists are not empty.
pub fn can_render(recipe: &LdRecipe) -> (r: bool)
    ensures
        r == renderable(recipe),
{
    let author_ok = match &recipe.author {
        sites::Author::AuthorObject(sites::SingleOrArray::Array(v)) => v.len() > 0,
        _ => true,
    };
    let yield_ok = match &recipe.recipe_yield {
        Some(sites::TypesOrArray::Array(v)) => v.len() > 0,
        _ => true,
    };
    let image_ok = match &recipe.image {
        sites::Image::Array(v) => v.len() > 0,
        sites::Image::ImgArray(v) => v.len() > 0,
        _ => true,
    };
    author_ok && yield_ok && (recipe.video.is_some() || image_ok)
}

/// The markdown document of a recipe, with `\r\n` line ends made `\n`.
pub fn recipe_document(recipe: &LdRecipe) -> (r: String)
    requires
        renderable(recipe),
    ensures
        r@ == replace_spec(recipe_markdown(recipe), "\r\n"@, "\n"@),
{
    let mut builder = RecipeMarkdownBuilder::new(recipe);
    let markdown = builder.build();
    normalize_newlines(markdown.as_str())
}

/// The first recipe among the items is a recipe, and none comes before it.
pub proof fn lemma_first_recipe(items: Seq<JsonValue>)
    ensures
        first_recipe(items) matches Some(j) ==> 0 <= j < items.len() && typed_recipe(items[j])
            && forall|k: int| 0 <= k < j ==> !typed_recipe(#[trigger] items[k]),
        first_recipe(items) is None ==> forall|k: int|
            0 <= k < items.len() ==> !typed_recipe(#[trigger] items[k]),
    decreases items.len(),
{
    if items.len() > 0 {
        let rest = items.drop_first();
        lemma_first_recipe(rest);
        assert forall|k: int| 0 <= k < rest.len() implies rest[k] == items[k + 1] by {}
        if !typed_recipe(items[0]) {
            match first_recipe(rest) {
                Some(j) => {
                    assert forall|k: int| 0 <= k < j + 1 implies !typed_recipe(
                        #[trigger] items[k],
                    ) by {
                        if k > 0 {
                            assert(items[k] == rest[k - 1]);
                        }
                    }
                },
                None => {
                    assert forall|k: int| 0 <= k < items.len() implies !typed_recipe(
                        #[trigger] items[k],
                    ) by {
                        if k > 0 {
                            assert(items[k] == rest[k - 1]);
                        }
                    }
                },
            }
        }
    }
}

/// The search reports recipes only, and the first: a block it reports has
/// `"@type": "Recipe"` and every block before it parsed and was neither a
/// recipe nor had a graph; a graph item it reports has `"@type": "Recipe"`
/// and comes first among the recipes of the first block with a graph.
pub proof fn lemma_search_reports_first_recipe(
    blocks: Seq<(Seq<char>, Result<JsonValue, Seq<char>>)>,
    i: int,
)
    requires
        0 <= i,
    ensures
        outcome_from(blocks, i) matches Outcome::Block(k) ==> {
            &&& i <= k < blocks.len()
            &&& blocks[k].1 matches Ok(t) && typed_recipe(t)
            &&& forall|j: int|
                i <= j < k ==> (#[trigger] blocks[j].1 matches Ok(u) && !typed_recipe(u)
                    && graph_of(u) is None)
        },
        outcome_from(blocks, i) matches Outcome::GraphItem(v) ==> typed_recipe(v),
    decreases blocks.len() - i,
{
    if i < blocks.len() {
        match blocks[i].1 {
            Err(_) => {},
            Ok(t) => {
                if !typed_recipe(t) {
                    match graph_of(t) {
                        None => {
                            lemma_search_reports_first_recipe(blocks, i + 1);
                        },
                        Some(g) => {
                            if let JsonValue::Array(items) = g {
                                lemma_first_recipe(items@);
                            }
                        },
                    }
                }
            },
        }
    }
}

/// `\r\n` occurs in `t` at position `k`.
pub open spec fn crlf_at(t: Seq<char>, k: int) -> bool {
    0 <= k && k + 1 < t.len() && t[k] == '\r' && t[k + 1] == '\n'
}

/// `t` holds a `\r\n`.
pub open spec fn has_crlf(t: Seq<char>) -> bool {
    exists|k: int| crlf_at(t, k)
}

/// `\r\r\n` occurs in `t` at position `k`.
pub open spec fn cr_crlf_at(t: Seq<char>, k: int) -> bool {
    0 <= k && k + 2 < t.len() && t[k] == '\r' && t[k + 1] == '\r' && t[k + 2] == '\n'
}

/// `t` holds a `\r\r\n`.
pub open spec fn has_cr_crlf(t: Seq<char>) -> bool {
    exists|k: int| cr_crlf_at(t, k)
}

proof fn lemma_concat_no_crlf(a: Seq<char>, b: Seq<char>)
    requires
        !has_crlf(a),
        !has_crlf(b),
        a.len() == 0 || b.len() == 0 || !(a.last() == '\r' && b[0] == '\n'),
    ensures
        !has_crlf(a + b),
{
    let t = a + b;
    assert forall|k: int| !crlf_at(t, k) by {
        if crlf_at(t, k) {
            if k + 1 < a.len() {
                assert(crlf_at(a, k));
            } else if k >= a.len() {
                assert(crlf_at(b, k - a.len()));
            } else {
                assert(t[k] == a.last());
                assert(t[k + 1] == b[0]);
            }
        }
    }
}

proof fn lemma_split_no_crlf(s: Seq<char>, start: int, pos: int)
    requires
        0 <= start <= pos <= s.len(),
        !has_cr_crlf(s),
        forall|k: int| start <= k < pos ==> !crlf_at(s, k),
    ensures
        !has_crlf(join_spec(split_from(s, seq!['\r', '\n'], start, pos), seq!['\n'])),
    decreases s.len() - pos,
{
    let p = seq!['\r', '\n'];
    if pos + 2 > s.len() {
        let piece = s.subrange(start, s.len() as int);
        assert forall|k: int| !crlf_at(piece, k) by {
            if crlf_at(piece, k) {
                assert(crlf_at(s, start + k));
            }
        }
        assert(split_from(s, p, start, pos) == seq![piece]);
    } else if s.subrange(pos, pos + 2) == p {
        let piece = s.subrange(start, pos);
        let rest = split_from(s, p, pos + 2, pos + 2);
        assert(s[pos] == s.subrange(pos, pos + 2)[0]);
        assert(s[pos + 1] == s.subrange(pos, pos + 2)[1]);
        lemma_split_no_crlf(s, pos + 2, pos + 2);
        lemma_split_from_nonempty(s, p, pos + 2, pos + 2);
        lemma_join_prepend(piece, rest, seq!['\n']);
        assert forall|k: int| !crlf_at(piece, k) by {
            if crlf_at(piece, k) {
                assert(crlf_at(s, start + k));
            }
        }
        if piece.len() > 0 && piece.last() == '\r' {
            assert(s[pos - 1] == '\r');
            assert(cr_crlf_at(s, pos - 1));
        }
        lemma_concat_no_crlf(piece, seq!['\n']);
        lemma_concat_no_crlf(piece + seq!['\n'], join_spec(rest, seq!['\n']));
        assert(split_from(s, p, start, pos) == seq![piece] + rest);
    } else {
        assert(!crlf_at(s, pos)) by {
            if crlf_at(s, pos) {
                assert(s.subrange(pos, pos + 2) =~= p);
            }
        }
        lemma_split_no_crlf(s, start, pos + 1);
    }
}

/// Line ends made `\n` leave no `\r\n` behind, unless the text held a
/// `\r` right before a `\r\n`.
pub proof fn lemma_normalized_has_no_crlf(s: Seq<char>)
    requires
        !has_cr_crlf(s),
    ensures
        !has_crlf(replace_spec(s, "\r\n"@, "\n"@)),
{
    reveal_strlit("\r\n");
    reveal_strlit("\n");
    assert("\r\n"@ =~= seq!['\r', '\n']);
    assert("\n"@ =~= seq!['\n']);
    lemma_split_no_crlf(s, 0, 0);
}

} // verus!
