//! The recipe catalogue's data: a recipe, the request a community proposal
//! arrives as, the markdown rendering of a recipe, and the lookup by id.

use vstd::prelude::*;
use crate::clock;
use crate::text::{
    bullet_lines, join_strings, join_with, numbered_lines, push_bullet_lines, push_numbered_lines,
    views_of,
};

verus! {

/// One catalogue entry. Timestamps are wall-clock seconds since the Unix
/// epoch.
pub struct Recipe {
    pub id: String,
    pub title: String,
    pub description: String,
    pub ingredients: Vec<String>,
    pub instructions: Vec<String>,
    pub tags: Vec<String>,
    pub created_at: i64,
    pub updated_at: i64,
}

/// A community proposal as the submission endpoint receives it.
pub struct CreateRecipeRequest {
    pub title: String,
    pub description: String,
    pub ingredients: Vec<String>,
    pub instructions: Vec<String>,
    pub tags: Vec<String>,
}

/// What `uuid::Uuid::new_v5` with the DNS namespace makes of a name, rendered
/// in the hyphenated form: a digest of the name alone.
pub uninterp spec fn uuid_v5_dns_of(name: Seq<char>) -> Seq<char>;

/// Relies on uuid::Uuid::new_v5 (with the DNS namespace) and its Display: a
/// SHA-1 based digest of the name's bytes alone, rendered as the 36-character
/// hyphenated form.
#[verifier::external_body]
fn uuid_v5_dns(name: &str) -> (r: String)
    ensures
        r@ == uuid_v5_dns_of(name@),
        r@.len() == 36,
{
    uuid::Uuid::new_v5(&uuid::Uuid::NAMESPACE_DNS, name.as_bytes()).to_string()
}

/// What chrono renders for a timestamp under `%Y-%m-%d`: a function of the
/// epoch seconds alone (empty outside chrono's representable range).
pub uninterp spec fn date_ymd_of(secs: i64) -> Seq<char>;

/// Relies on chrono's DateTime::from_timestamp and its `%Y-%m-%d` formatting:
/// the rendered date is a function of the epoch seconds alone; for the few
/// timestamps chrono cannot represent, the empty string.
#[verifier::external_body]
fn format_epoch_date(secs: i64) -> (r: String)
    ensures
        r@ == date_ymd_of(secs),
{
    match chrono::DateTime::<chrono::Utc>::from_timestamp(secs, 0) {
        Some(d) => d.format("%Y-%m-%d").to_string(),
        None => String::new(),
    }
}

impl Recipe {
    /// A new entry: the fields as given, both timestamps the wall clock's
    /// reading, and the id derived from title and description alone.
    pub fn new(
        title: String,
        description: String,
        ingredients: Vec<String>,
        instructions: Vec<String>,
        tags: Vec<String>,
    ) -> (r: Recipe)
        ensures
            r.id@ == uuid_v5_dns_of(title@ + "|"@ + description@),
            r.id@.len() == 36,
            r.title == title,
            r.description == description,
            r.ingredients == ingredients,
            r.instructions == instructions,
            r.tags == tags,
            r.created_at == r.updated_at,
    {
        let now = clock::utc_now_secs();
        let mut content = title.clone();
        content.append("|");
        content.append(description.as_str());
        proof {
            assert(content@ =~= title@ + "|"@ + description@);
        }
        let id = uuid_v5_dns(content.as_str());
        Recipe {
            id,
            title,
            description,
            ingredients,
            instructions,
            tags,
            created_at: now,
            updated_at: now,
        }
    }

    /// The markdown rendering of a recipe.
    pub open spec fn spec_to_markdown(self) -> Seq<char> {
        "# "@ + self.title@ + "\n\n"@ + self.description@ + "\n\n"@ + "## Ingredients\n\n"@
            + bullet_lines(views_of(self.ingredients@)) + "\n## Instructions\n\n"@
            + numbered_lines(views_of(self.instructions@), 1) + (
        if self.tags@.len() > 0 {
            "\n## Tags\n\n"@ + "Tags: "@ + join_with(views_of(self.tags@), ", "@) + "\n"@
        } else {
            Seq::<char>::empty()
        }) + "\n---\n*Created: "@ + date_ymd_of(self.created_at) + "*\n"@
    }

    /// Renders the recipe as markdown: title, description, bulleted
    /// ingredients, numbered instructions, the tags if any, and the creation
    /// date.
    pub fn to_markdown(&self) -> (r: String)
        ensures
            r@ == self.spec_to_markdown(),
    {
        let mut md = String::from_str("# ");
        md.append(self.title.as_str());
        md.append("\n\n");
        md.append(self.description.as_str());
        md.append("\n\n");
        md.append("## Ingredients\n\n");
        push_bullet_lines(&mut md, &self.ingredients);
        md.append("\n## Instructions\n\n");
        push_numbered_lines(&mut md, &self.instructions);
        if self.tags.len() > 0 {
            md.append("\n## Tags\n\n");
            md.append("Tags: ");
            let joined = join_strings(&self.tags, ", ");
            md.append(joined.as_str());
            md.append("\n");
        }
        md.append("\n---\n*Created: ");
        let date = format_epoch_date(self.created_at);
        md.append(date.as_str());
        md.append("*\n");
        proof {
            assert(md@ =~= self.spec_to_markdown());
        }
        md
    }
}

/// Position of the first catalogue entry whose id is `id`, if any.
pub fn find_recipe(recipes: &Vec<Recipe>, id: &String) -> (r: Option<usize>)
    ensures
        (r matches Some(i) ==> i < recipes@.len() && recipes@[i as int].id@ == id@ && forall|
            j: int,
        | 0 <= j < i ==> recipes@[j].id@ != id@),
        (r is None ==> forall|j: int| 0 <= j < recipes@.len() ==> recipes@[j].id@ != id@),
{
    let mut i: usize = 0;
    while i < recipes.len()
        invariant
            i <= recipes@.len(),
            forall|j: int| 0 <= j < i ==> recipes@[j].id@ != id@,
        decreases recipes@.len() - i,
    {
        if recipes[i].id.eq(id) {
            return Some(i);
        }
        i += 1;
    }
    None
}

} // verus!
