use gitcooked::github::{evaluate_submission, format_recipe_issue, GitHubConfig};
use gitcooked::models::{find_recipe, CreateRecipeRequest, Recipe};

fn sample_request() -> CreateRecipeRequest {
    CreateRecipeRequest {
        title: "Toast".to_string(),
        description: "Crunchy bread".to_string(),
        ingredients: vec!["bread".to_string(), "butter".to_string()],
        instructions: vec!["slice".to_string(), "toast".to_string()],
        tags: vec!["quick".to_string(), "easy".to_string()],
    }
}

fn sample_recipe(created_at: i64) -> Recipe {
    Recipe {
        id: "abc".to_string(),
        title: "Toast".to_string(),
        description: "Crunchy bread".to_string(),
        ingredients: vec!["bread".to_string(), "butter".to_string()],
        instructions: vec!["slice".to_string(), "toast".to_string()],
        tags: vec!["quick".to_string(), "easy".to_string()],
        created_at,
        updated_at: created_at,
    }
}

#[test]
fn issue_body_is_rendered_exactly() {
    let body = format_recipe_issue(&sample_request());
    let expected = "## New Recipe: Toast\n\n\
**Description:** Crunchy bread\n\n\
### Ingredients\n\n\
- bread\n\
- butter\n\
\n### Instructions\n\n\
1. slice\n\
2. toast\n\
\n### Tags\n\nquick, easy\n\
\n---\n\
Please review and add this recipe to the `/recipes/` directory as a JSON file.";
    assert_eq!(body, expected);
}

#[test]
fn issue_body_without_tags_has_no_tags_section() {
    let mut req = sample_request();
    req.tags = vec![];
    let body = format_recipe_issue(&req);
    assert!(!body.contains("### Tags"));
    assert!(body.ends_with(
        "2. toast\n\n---\nPlease review and add this recipe to the `/recipes/` directory as a JSON file."
    ));
}

#[test]
fn numbered_instructions_reach_two_digits() {
    let mut req = sample_request();
    req.instructions = (1..=12).map(|i| format!("step {}", i)).collect();
    let body = format_recipe_issue(&req);
    assert!(body.contains("\n9. step 9\n"));
    assert!(body.contains("\n10. step 10\n"));
    assert!(body.contains("\n12. step 12\n"));
}

#[test]
fn issue_url_is_percent_encoded() {
    let config = GitHubConfig::default();
    assert_eq!(config.owner, "dev-nolant");
    assert_eq!(config.repo, "gitcooked");
    let url = config.issue_url("Recipe: Toast & Jam", "a b");
    assert_eq!(
        url,
        "https://github.com/dev-nolant/gitcooked/issues/new?title=Recipe%3A%20Toast%20%26%20Jam&body=a%20b"
    );
}

#[test]
fn submission_with_spam_keyword_is_rejected() {
    let config = GitHubConfig::default();
    let mut req = sample_request();
    req.description = "BUY NOW while stocks last".to_string();
    assert!(evaluate_submission(&config, &req).is_none());
}

#[test]
fn spam_scan_sees_ingredients_too() {
    let config = GitHubConfig::default();
    let mut req = sample_request();
    req.ingredients = vec!["flour".to_string(), "Free MONEY".to_string()];
    assert!(evaluate_submission(&config, &req).is_none());
}

#[test]
fn spam_scan_is_a_literal_match_on_lowercased_text() {
    assert!(gitcooked::github::is_spam("a quiet casino night"));
    assert!(gitcooked::github::is_spam("lottery"));
    assert!(!gitcooked::github::is_spam("cas ino"));
    // The scan itself is literal; lowercasing happens before it.
    assert!(!gitcooked::github::is_spam("CASINO"));
    assert!(!gitcooked::github::is_spam(""));
}

#[test]
fn clean_submission_yields_issue_url() {
    let config = GitHubConfig::default();
    let req = sample_request();
    let url = evaluate_submission(&config, &req).unwrap();
    assert!(url.starts_with("https://github.com/dev-nolant/gitcooked/issues/new?title=Recipe%3A%20Toast&body="));
    assert!(url.contains("New%20Recipe%3A%20Toast"));
}

#[test]
fn recipe_id_is_the_version_5_uuid_of_title_and_description() {
    let r = Recipe::new(
        "Toast".to_string(),
        "Crunchy bread".to_string(),
        vec![],
        vec![],
        vec![],
    );
    let expected =
        uuid::Uuid::new_v5(&uuid::Uuid::NAMESPACE_DNS, "Toast|Crunchy bread".as_bytes())
            .to_string();
    assert_eq!(r.id, expected);
    assert_eq!(r.id.len(), 36);
    assert_eq!(r.created_at, r.updated_at);
}

#[test]
fn markdown_renders_the_creation_date() {
    let recipe = sample_recipe(0);
    let md = recipe.to_markdown();
    let expected = "# Toast\n\n\
Crunchy bread\n\n\
## Ingredients\n\n\
- bread\n\
- butter\n\
\n## Instructions\n\n\
1. slice\n\
2. toast\n\
\n## Tags\n\nTags: quick, easy\n\
\n---\n*Created: 1970-01-01*\n";
    assert_eq!(md, expected);
}

#[test]
fn markdown_date_follows_the_timestamp() {
    // 2015-05-15 00:00:00 UTC
    let recipe = sample_recipe(1431648000);
    let md = recipe.to_markdown();
    assert!(md.ends_with("\n---\n*Created: 2015-05-15*\n"));
}

#[test]
fn find_recipe_returns_first_match() {
    let mut a = sample_recipe(0);
    a.id = "one".to_string();
    let mut b = sample_recipe(0);
    b.id = "two".to_string();
    let recipes = vec![a, b];
    assert_eq!(find_recipe(&recipes, &"two".to_string()), Some(1));
    assert_eq!(find_recipe(&recipes, &"one".to_string()), Some(0));
    assert_eq!(find_recipe(&recipes, &"three".to_string()), None);
}
