use conan_cleanup::query::{
    get_member, package_ids_in, parse_package_ids, parse_recipe_ids, Json, QueryError, ShapeError,
};

fn shape_error(text: &str, recipes: bool) -> ShapeError {
    let r = if recipes { parse_recipe_ids(text) } else { parse_package_ids(text) };
    match r {
        Err(QueryError::Shape(e)) => e,
        Err(_) => panic!("expected a shape error, got another error"),
        Ok(ids) => panic!("expected a shape error, got {:?}", ids),
    }
}

#[test]
fn recipe_listing_in_item_order() {
    let text = r#"{"error": false, "results": [{"remote": null, "items": [
        {"recipe": {"id": "zlib/1.2.11@conan/stable"}},
        {"recipe": {"id": "boost/1.70.0@conan/stable"}},
        {"recipe": {"id": "zlib/1.2.11@conan/stable"}}]}]}"#;
    let ids = parse_recipe_ids(text).unwrap();
    assert_eq!(ids, vec!["zlib/1.2.11@conan/stable", "boost/1.70.0@conan/stable", "zlib/1.2.11@conan/stable"]);
}

#[test]
fn recipe_listing_empty_items() {
    let ids = parse_recipe_ids(r#"{"results": [{"items": []}]}"#).unwrap();
    assert!(ids.is_empty());
}

#[test]
fn package_listing_of_first_item() {
    let text = r#"{"results": [{"items": [
        {"recipe": {"id": "zlib/1.2.11@conan/stable"},
         "packages": [{"id": "6af9cc7c", "options": {}}, {"id": "1d5e8a3b"}]},
        {"recipe": {"id": "other"}, "packages": [{"id": "ignored"}]}]}]}"#;
    assert_eq!(parse_package_ids(text).unwrap(), vec!["6af9cc7c", "1d5e8a3b"]);
}

#[test]
fn package_listing_without_packages_is_empty() {
    let text = r#"{"results": [{"items": [{"recipe": {"id": "zlib/1.2.11@conan/stable"}}]}]}"#;
    assert!(parse_package_ids(text).unwrap().is_empty());
}

#[test]
fn not_json_is_a_decode_error() {
    assert!(matches!(parse_recipe_ids("not json at all"), Err(QueryError::Decode(_))));
    assert!(matches!(parse_package_ids("{\"results\": ["), Err(QueryError::Decode(_))));
}

#[test]
fn missing_results_is_a_shape_error() {
    assert!(matches!(shape_error(r#"{"error": true}"#, true), ShapeError::MissingResults));
    assert!(matches!(shape_error(r#"{"results": {}}"#, false), ShapeError::MissingResults));
    assert!(matches!(shape_error(r#"[1, 2]"#, true), ShapeError::MissingResults));
}

#[test]
fn missing_result_root_is_a_shape_error() {
    assert!(matches!(shape_error(r#"{"results": []}"#, true), ShapeError::MissingResultRoot));
    assert!(matches!(shape_error(r#"{"results": [3]}"#, false), ShapeError::MissingResultRoot));
}

#[test]
fn missing_items_is_a_shape_error() {
    assert!(matches!(shape_error(r#"{"results": [{}]}"#, true), ShapeError::MissingItems));
    assert!(matches!(shape_error(r#"{"results": [{"items": "x"}]}"#, false), ShapeError::MissingItems));
}

#[test]
fn missing_recipe_is_a_shape_error() {
    assert!(matches!(shape_error(r#"{"results": [{"items": [{}]}]}"#, true), ShapeError::MissingRecipe));
    assert!(matches!(
        shape_error(r#"{"results": [{"items": [{"recipe": "zlib"}]}]}"#, true),
        ShapeError::MissingRecipe
    ));
}

#[test]
fn missing_recipe_id_is_a_shape_error() {
    let text = r#"{"results": [{"items": [{"recipe": {"id": "a"}}, {"recipe": {"name": "b"}}]}]}"#;
    assert!(matches!(shape_error(text, true), ShapeError::MissingRecipeId));
    let text = r#"{"results": [{"items": [{"recipe": {"id": 7}}]}]}"#;
    assert!(matches!(shape_error(text, true), ShapeError::MissingRecipeId));
}

#[test]
fn first_failing_item_decides_the_error() {
    let text = r#"{"results": [{"items": [{"recipe": {}}, {}]}]}"#;
    assert!(matches!(shape_error(text, true), ShapeError::MissingRecipeId));
}

#[test]
fn missing_first_item_is_a_shape_error() {
    assert!(matches!(shape_error(r#"{"results": [{"items": []}]}"#, false), ShapeError::MissingFirstItem));
    assert!(matches!(shape_error(r#"{"results": [{"items": [null]}]}"#, false), ShapeError::MissingFirstItem));
}

#[test]
fn packages_not_a_list_is_a_shape_error() {
    let text = r#"{"results": [{"items": [{"recipe": {"id": "r"}, "packages": {"id": "p"}}]}]}"#;
    assert!(matches!(shape_error(text, false), ShapeError::MissingPackages));
}

#[test]
fn missing_package_id_is_a_shape_error() {
    let text = r#"{"results": [{"items": [{"recipe": {"id": "r"}, "packages": [{"id": "p1"}, {"hash": "p2"}]}]}]}"#;
    assert!(matches!(shape_error(text, false), ShapeError::MissingPackageId));
    let text = r#"{"results": [{"items": [{"recipe": {"id": "r"}, "packages": ["p1"]}]}]}"#;
    assert!(matches!(shape_error(text, false), ShapeError::MissingPackageId));
}

#[test]
fn member_lookup_on_a_built_document() {
    let doc = Json::Object(vec![
        (String::from("a"), Json::Number),
        (String::from("b"), Json::Text(String::from("x"))),
    ]);
    assert!(matches!(get_member(&doc, &String::from("b")), Some(Json::Text(t)) if t == "x"));
    assert!(get_member(&doc, &String::from("c")).is_none());
    assert!(get_member(&Json::Null, &String::from("a")).is_none());
}

#[test]
fn package_ids_of_a_built_document() {
    let recipe = Json::Object(vec![(String::from("id"), Json::Text(String::from("r9")))]);
    let item = Json::Object(vec![
        (String::from("recipe"), recipe),
        (
            String::from("packages"),
            Json::Array(vec![Json::Object(vec![(String::from("id"), Json::Text(String::from("p9")))])]),
        ),
    ]);
    let root = Json::Object(vec![(String::from("items"), Json::Array(vec![item]))]);
    let doc = Json::Object(vec![(String::from("results"), Json::Array(vec![root, Json::Bool(true)]))]);
    assert_eq!(package_ids_in(&doc).ok().unwrap(), vec!["p9"]);
}

#[test]
fn package_listing_without_recipe_is_a_shape_error() {
    let text = r#"{"results":[{"items":[{"packages":[]}]}]}"#;
    assert!(matches!(shape_error(text, false), ShapeError::MissingRecipe));
    let text = r#"{"results":[{"items":[{"recipe": [], "packages":[{"id": "p"}]}]}]}"#;
    assert!(matches!(shape_error(text, false), ShapeError::MissingRecipe));
    let text = r#"{"results":[{"items":[{"recipe": {"name": "r"}}]}]}"#;
    assert!(matches!(shape_error(text, false), ShapeError::MissingRecipeId));
}
