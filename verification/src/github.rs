//! Forwarding a community recipe proposal as an issue link: the repository
//! configuration, the issue body rendered from the proposal, the
//! percent-encoded issue URL, and the spam scan that guards the endpoint.

use vstd::prelude::*;
use crate::models::CreateRecipeRequest;
use crate::text::{
    bullet_lines, contains_seq, contains_str, join_strings, join_with, numbered_lines,
    push_bullet_lines, push_numbered_lines, views_of,
};

verus! {

/// Where proposals are filed: the owner and repository of the issue tracker.
pub struct GitHubConfig {
    pub owner: String,
    pub repo: String,
}

impl Default for GitHubConfig {
    /// The built-in destination, used when the deployment names no other.
    fn default() -> (r: Self)
        ensures
            r.owner@ == "dev-nolant"@,
            r.repo@ == "gitcooked"@,
    {
        GitHubConfig { owner: String::from_str("dev-nolant"), repo: String::from_str("gitcooked") }
    }
}

/// What `urlencoding::encode` makes of a string: every byte of its UTF-8 form
/// percent-encoded except ASCII alphanumerics and `-`, `_`, `.`, `~`.
pub uninterp spec fn url_encoded(s: Seq<char>) -> Seq<char>;

/// Relies on urlencoding::encode: percent-encodes every byte except ASCII
/// alphanumerics and `-`, `_`, `.`, `~`; the result is a function of the
/// input alone, and an empty input stays empty.
#[verifier::external_body]
fn url_encode(s: &str) -> (r: String)
    ensures
        r@ == url_encoded(s@),
        s@.len() == 0 ==> r@.len() == 0,
{
    urlencoding::encode(s).into_owned()
}

/// What `str::to_lowercase` makes of a string: a function of its characters
/// alone.
pub uninterp spec fn lower_of(s: Seq<char>) -> Seq<char>;

/// Relies on str::to_lowercase: the result depends on the characters alone,
/// and an empty input stays empty.
#[verifier::external_body]
fn lowercase(s: &str) -> (r: String)
    ensures
        r@ == lower_of(s@),
        s@.len() == 0 ==> r@.len() == 0,
{
    s.to_lowercase()
}

/// The address of a new-issue form for the given repository, with the title
/// and body percent-encoded into its query string.
pub open spec fn spec_issue_url(
    owner: Seq<char>,
    repo: Seq<char>,
    title: Seq<char>,
    body: Seq<char>,
) -> Seq<char> {
    "https://github.com/"@ + owner + "/"@ + repo + "/issues/new?title="@ + url_encoded(title)
        + "&body="@ + url_encoded(body)
}

impl GitHubConfig {
    /// The new-issue link for this repository, carrying `title` and `body`.
    pub fn issue_url(&self, title: &str, body: &str) -> (r: String)
        ensures
            r@ == spec_issue_url(self.owner@, self.repo@, title@, body@),
    {
        let mut r = String::from_str("https://github.com/");
        r.append(self.owner.as_str());
        r.append("/");
        r.append(self.repo.as_str());
        r.append("/issues/new?title=");
        let t = url_encode(title);
        r.append(t.as_str());
        r.append("&body=");
        let b = url_encode(body);
        r.append(b.as_str());
        proof {
            assert(r@ =~= spec_issue_url(self.owner@, self.repo@, title@, body@));
        }
        r
    }
}

/// The markdown body of the issue a proposal is forwarded as.
pub open spec fn spec_recipe_issue(req: CreateRecipeRequest) -> Seq<char> {
    "## New Recipe: "@ + req.title@ + "\n\n"@ + "**Description:** "@ + req.description@ + "\n\n"@
        + "### Ingredients\n\n"@ + bullet_lines(views_of(req.ingredients@))
        + "\n### Instructions\n\n"@ + numbered_lines(views_of(req.instructions@), 1) + (
    if req.tags@.len() > 0 {
        "\n### Tags\n\n"@ + join_with(views_of(req.tags@), ", "@) + "\n"@
    } else {
        Seq::<char>::empty()
    }) + "\n---\n"@
        + "Please review and add this recipe to the `/recipes/` directory as a JSON file."@
}

/// Renders the proposal as the markdown body of an issue: title, description,
/// bulleted ingredients, numbered instructions, the tags if any, and a
/// closing review note.
pub fn format_recipe_issue(recipe: &CreateRecipeRequest) -> (r: String)
    ensures
        r@ == spec_recipe_issue(*recipe),
{
    let mut body = String::from_str("## New Recipe: ");
    body.append(recipe.title.as_str());
    body.append("\n\n");
    body.append("**Description:** ");
    body.append(recipe.description.as_str());
    body.append("\n\n");
    body.append("### Ingredients\n\n");
    push_bullet_lines(&mut body, &recipe.ingredients);
    body.append("\n### Instructions\n\n");
    push_numbered_lines(&mut body, &recipe.instructions);
    if recipe.tags.len() > 0 {
        body.append("\n### Tags\n\n");
        let joined = join_strings(&recipe.tags, ", ");
        body.append(joined.as_str());
        body.append("\n");
    }
    body.append("\n---\n");
    body.append("Please review and add this recipe to the `/recipes/` directory as a JSON file.");
    proof {
        assert(body@ =~= spec_recipe_issue(*recipe));
    }
    body
}

/// The phrases whose presence marks a submission as spam.
pub open spec fn spam_keywords() -> Seq<Seq<char>> {
    seq![
        "buy now"@,
        "click here"@,
        "free money"@,
        "viagra"@,
        "casino"@,
        "lottery"@,
        "test submission"@,
    ]
}

/// Some spam phrase occurs in `content`.
pub open spec fn has_spam(content: Seq<char>) -> bool {
    exists|i: int|
        0 <= i < spam_keywords().len() && contains_seq(content, #[trigger] spam_keywords()[i])
}

/// Whether any of the spam phrases occurs in `content`. The scan is literal:
/// the caller hands in the already lowercased submission text.
pub fn is_spam(content: &str) -> (r: bool)
    ensures
        r == has_spam(content@),
{
    if contains_str(content, "buy now") {
        proof {
            assert(spam_keywords()[0] == "buy now"@);
        }
        return true;
    }
    if contains_str(content, "click here") {
        proof {
            assert(spam_keywords()[1] == "click here"@);
        }
        return true;
    }
    if contains_str(content, "free money") {
        proof {
            assert(spam_keywords()[2] == "free money"@);
        }
        return true;
    }
    if contains_str(content, "viagra") {
        proof {
            assert(spam_keywords()[3] == "viagra"@);
        }
        return true;
    }
    if contains_str(content, "casino") {
        proof {
            assert(spam_keywords()[4] == "casino"@);
        }
        return true;
    }
    if contains_str(content, "lottery") {
        proof {
            assert(spam_keywords()[5] == "lottery"@);
        }
        return true;
    }
    if contains_str(content, "test submission") {
        proof {
            assert(spam_keywords()[6] == "test submission"@);
        }
        return true;
    }
    proof {
        assert forall|i: int| 0 <= i < spam_keywords().len() implies !contains_seq(
            content@,
            #[trigger] spam_keywords()[i],
        ) by {
            if i == 0 {
                assert(spam_keywords()[0] == "buy now"@);
            } else if i == 1 {
                assert(spam_keywords()[1] == "click here"@);
            } else if i == 2 {
                assert(spam_keywords()[2] == "free money"@);
            } else if i == 3 {
                assert(spam_keywords()[3] == "viagra"@);
            } else if i == 4 {
                assert(spam_keywords()[4] == "casino"@);
            } else if i == 5 {
                assert(spam_keywords()[5] == "lottery"@);
            } else {
                assert(spam_keywords()[6] == "test submission"@);
            }
        }
    }
    false
}

/// The submission text the spam scan looks at, before lowercasing: title,
/// description and the ingredients, separated by single spaces.
pub open spec fn spec_combined_content(req: CreateRecipeRequest) -> Seq<char> {
    req.title@ + " "@ + req.description@ + " "@ + join_with(views_of(req.ingredients@), " "@)
}

/// The submission text the spam scan looks at.
pub fn combined_content(req: &CreateRecipeRequest) -> (r: String)
    ensures
        r@ == spec_combined_content(*req),
{
    let mut r = req.title.clone();
    r.append(" ");
    r.append(req.description.as_str());
    r.append(" ");
    let joined = join_strings(&req.ingredients, " ");
    r.append(joined.as_str());
    proof {
        assert(r@ =~= spec_combined_content(*req));
    }
    r
}

/// Decides a proposal that passed the rate limiter: a submission whose
/// lowercased text carries a spam phrase is rejected with nothing; any other
/// is answered with the issue link for it, titled after the recipe.
pub fn evaluate_submission(config: &GitHubConfig, req: &CreateRecipeRequest) -> (r: Option<String>)
    ensures
        r is Some <==> !has_spam(lower_of(spec_combined_content(*req))),
        (r matches Some(url) ==> url@ == spec_issue_url(
            config.owner@,
            config.repo@,
            "Recipe: "@ + req.title@,
            spec_recipe_issue(*req),
        )),
{
    let combined = combined_content(req);
    let lowered = lowercase(combined.as_str());
    if is_spam(lowered.as_str()) {
        None
    } else {
        let mut title = String::from_str("Recipe: ");
        title.append(req.title.as_str());
        let body = format_recipe_issue(req);
        Some(config.issue_url(title.as_str(), body.as_str()))
    }
}

} // verus!
