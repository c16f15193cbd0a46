use vstd::prelude::*;

verus! {

/// A JSON document as the cache query output is read: numbers are kept only as such.
#[derive(Debug)]
pub enum Json {
    Null,
    Bool(bool),
    Number,
    Text(String),
    Array(Vec<Json>),
    Object(Vec<(String, Json)>),
}

#[verifier::external_type_specification]
#[verifier::external_body]
pub struct ExJsonError(serde_json::Error);

#[verifier::external_type_specification]
#[verifier::external_body]
pub struct ExJsonValue(serde_json::Value);

/// What serde_json makes of a text: `None` where it is no JSON document.
pub uninterp spec fn json_document(text: Seq<char>) -> Option<Json>;

/// Relies on serde_json::Value's variants: rebuilds the decoded tree as a `Json`, one node for one.
#[verifier::external_body]
fn json_tree(v: serde_json::Value) -> Json {
    match v {
        serde_json::Value::Null => Json::Null,
        serde_json::Value::Bool(b) => Json::Bool(b),
        serde_json::Value::Number(_) => Json::Number,
        serde_json::Value::String(s) => Json::Text(s),
        serde_json::Value::Array(a) => Json::Array(a.into_iter().map(json_tree).collect()),
        serde_json::Value::Object(o) => Json::Object(
            o.into_iter().map(|(k, x)| (k, json_tree(x))).collect(),
        ),
    }
}

/// Relies on serde_json::from_str: decodes a JSON text; the outcome depends on the text alone.
#[verifier::external_body]
fn decode_json(text: &str) -> (r: Result<Json, serde_json::Error>)
    ensures
        json_document(text@) is None <==> r is Err,
        r matches Ok(doc) ==> json_document(text@) == Some(doc),
{
    serde_json::from_str::<serde_json::Value>(text).map(json_tree)
}

/// The value of the first field named `key`.
pub open spec fn field_of(fields: Seq<(String, Json)>, key: Seq<char>) -> Option<Json>
    decreases fields.len(),
{
    if fields.len() == 0 {
        None
    } else if fields[0].0@ == key {
        Some(fields[0].1)
    } else {
        field_of(fields.drop_first(), key)
    }
}

/// `v[key]`: the field `key` of an object; nothing for a missing field or another kind of value.
pub open spec fn member(v: Json, key: Seq<char>) -> Option<Json> {
    match v {
        Json::Object(fields) => field_of(fields@, key),
        _ => None,
    }
}

/// Looks up the field `key` of an object.
pub fn get_member<'a>(v: &'a Json, key: &String) -> (r: Option<&'a Json>)
    ensures
        r is None <==> member(*v, key@) is None,
        r matches Some(j) ==> member(*v, key@) == Some(*j),
{
    match v {
        Json::Object(fields) => {
            let mut i: usize = 0;
            assert(fields@.skip(0) =~= fields@);
            while i < fields.len()
                invariant
                    0 <= i <= fields.len(),
                    member(*v, key@) == field_of(fields@, key@),
                    field_of(fields@, key@) == field_of(fields@.skip(i as int), key@),
                decreases fields.len() - i,
            {
                assert(fields@.skip(i as int).drop_first() =~= fields@.skip(i as int + 1));
                assert(fields@.skip(i as int)[0] == fields@[i as int]);
                let same = fields[i].0.eq(key);
                if same {
                    return Some(&fields[i].1);
                }
                i = i + 1;
            }
            None
        },
        _ => None,
    }
}

/// Which part of the expected shape a query output lacks.
#[derive(Debug)]
pub enum ShapeError {
    /// No top-level "results" array.
    MissingResults,
    /// The "results" array does not start with an object.
    MissingResultRoot,
    /// The first result has no "items" array.
    MissingItems,
    /// An item has no "recipe" object.
    MissingRecipe,
    /// A recipe has no "id" string.
    MissingRecipeId,
    /// The "items" array does not start with an object.
    MissingFirstItem,
    /// The first item's "packages" is not an array.
    MissingPackages,
    /// A package has no "id" string.
    MissingPackageId,
}

/// Why a query output could not be read.
#[derive(Debug)]
pub enum QueryError {
    /// The output file could not be read; the reason as text.
    Unreadable(String),
    /// The output is no JSON document.
    Decode(serde_json::Error),
    /// The document does not have the expected shape.
    Shape(ShapeError),
}

/// The "items" array of the first result.
pub open spec fn items_of(doc: Json) -> Result<Seq<Json>, ShapeError> {
    match member(doc, "results"@) {
        Some(Json::Array(results)) => {
            if results.len() > 0 && results[0] is Object {
                match member(results[0], "items"@) {
                    Some(Json::Array(items)) => Ok(items@),
                    _ => Err(ShapeError::MissingItems),
                }
            } else {
                Err(ShapeError::MissingResultRoot)
            }
        },
        _ => Err(ShapeError::MissingResults),
    }
}

/// The id of an item's recipe (`nested`), or of a package.
pub open spec fn id_in(entry: Json, nested: bool) -> Result<String, ShapeError> {
    if nested {
        match member(entry, "recipe"@) {
            Some(recipe) => {
                if recipe is Object {
                    match member(recipe, "id"@) {
                        Some(Json::Text(id)) => Ok(id),
                        _ => Err(ShapeError::MissingRecipeId),
                    }
                } else {
                    Err(ShapeError::MissingRecipe)
                }
            },
            None => Err(ShapeError::MissingRecipe),
        }
    } else {
        match member(entry, "id"@) {
            Some(Json::Text(id)) => Ok(id),
            _ => Err(ShapeError::MissingPackageId),
        }
    }
}

/// The ids of the first `n` entries, in order; the first failing entry decides the error.
pub open spec fn ids_upto(entries: Seq<Json>, n: nat, nested: bool) -> Result<Seq<String>, ShapeError>
    decreases n,
{
    if n == 0 {
        Ok(Seq::empty())
    } else {
        match ids_upto(entries, (n - 1) as nat, nested) {
            Ok(ids) => match id_in(entries[n - 1], nested) {
                Ok(id) => Ok(ids.push(id)),
                Err(e) => Err(e),
            },
            Err(e) => Err(e),
        }
    }
}

proof fn lemma_error_persists(entries: Seq<Json>, n: nat, m: nat, nested: bool)
    requires
        n <= m <= entries.len(),
        ids_upto(entries, n, nested) is Err,
    ensures
        ids_upto(entries, m, nested) == ids_upto(entries, n, nested),
    decreases m - n,
{
    if n < m {
        lemma_error_persists(entries, n, (m - 1) as nat, nested);
    }
}

/// The recipe ids that a listing of all recipes holds, in item order.
pub open spec fn recipe_ids(doc: Json) -> Result<Seq<String>, ShapeError> {
    match items_of(doc) {
        Ok(items) => ids_upto(items, items.len(), true),
        Err(e) => Err(e),
    }
}

/// The package ids that a listing of one recipe holds: those of the first item, which must
/// name its recipe, none where it has no "packages" field.
pub open spec fn package_ids(doc: Json) -> Result<Seq<String>, ShapeError> {
    match items_of(doc) {
        Ok(items) => {
            if !(items.len() > 0 && items[0] is Object) {
                Err(ShapeError::MissingFirstItem)
            } else {
                match id_in(items[0], true) {
                    Err(e) => Err(e),
                    Ok(_) => match member(items[0], "packages"@) {
                        None => Ok(Seq::empty()),
                        Some(Json::Array(packages)) => ids_upto(packages@, packages.len() as nat, false),
                        Some(_) => Err(ShapeError::MissingPackages),
                    },
                }
            }
        },
        Err(e) => Err(e),
    }
}

/// A list of ids as a sequence, or the shape error.
pub open spec fn id_list(r: Result<Vec<String>, ShapeError>) -> Result<Seq<String>, ShapeError> {
    match r {
        Ok(ids) => Ok(ids@),
        Err(e) => Err(e),
    }
}

/// What a query output amounts to: `None` where it is no JSON document.
pub open spec fn query_outcome(r: Result<Vec<String>, QueryError>) -> Option<Result<Seq<String>, ShapeError>> {
    match r {
        Ok(ids) => Some(Ok(ids@)),
        Err(QueryError::Shape(e)) => Some(Err(e)),
        Err(_) => None,
    }
}

fn items_in(doc: &Json) -> (r: Result<&Vec<Json>, ShapeError>)
    ensures
        match items_of(*doc) {
            Ok(items) => r matches Ok(v) && v@ == items,
            Err(e) => r == Err::<&Vec<Json>, ShapeError>(e),
        },
{
    let results = match get_member(doc, &"results".to_owned()) {
        Some(Json::Array(results)) => results,
        _ => return Err(ShapeError::MissingResults),
    };
    if results.len() == 0 {
        return Err(ShapeError::MissingResultRoot);
    }
    let root = &results[0];
    if !matches!(root, Json::Object(_)) {
        return Err(ShapeError::MissingResultRoot);
    }
    match get_member(root, &"items".to_owned()) {
        Some(Json::Array(items)) => Ok(items),
        _ => Err(ShapeError::MissingItems),
    }
}

fn entry_id(entry: &Json, nested: bool) -> (r: Result<String, ShapeError>)
    ensures
        r == id_in(*entry, nested),
{
    let holder = if nested {
        match get_member(entry, &"recipe".to_owned()) {
            Some(recipe) => {
                if !matches!(recipe, Json::Object(_)) {
                    return Err(ShapeError::MissingRecipe);
                }
                recipe
            },
            None => return Err(ShapeError::MissingRecipe),
        }
    } else {
        entry
    };
    match get_member(holder, &"id".to_owned()) {
        Some(Json::Text(id)) => Ok(id.clone()),
        _ => {
            if nested {
                Err(ShapeError::MissingRecipeId)
            } else {
                Err(ShapeError::MissingPackageId)
            }
        },
    }
}

fn entry_ids(entries: &Vec<Json>, nested: bool) -> (r: Result<Vec<String>, ShapeError>)
    ensures
        id_list(r) == ids_upto(entries@, entries@.len(), nested),
{
    let mut ids: Vec<String> = Vec::new();
    let mut i: usize = 0;
    while i < entries.len()
        invariant
            0 <= i <= entries.len(),
            ids_upto(entries@, i as nat, nested) == Ok::<Seq<String>, ShapeError>(ids@),
        decreases entries.len() - i,
    {
        let id = match entry_id(&entries[i], nested) {
            Ok(id) => id,
            Err(e) => {
                proof {
                    lemma_error_persists(entries@, (i + 1) as nat, entries@.len(), nested);
                }
                return Err(e);
            },
        };
        ids.push(id);
        i = i + 1;
    }
    Ok(ids)
}

/// The recipe ids of a decoded listing of all recipes.
pub fn recipe_ids_in(doc: &Json) -> (r: Result<Vec<String>, ShapeError>)
    ensures
        id_list(r) == recipe_ids(*doc),
{
    let items = items_in(doc)?;
    entry_ids(items, true)
}

/// The package ids of a decoded listing of one recipe.
pub fn package_ids_in(doc: &Json) -> (r: Result<Vec<String>, ShapeError>)
    ensures
        id_list(r) == package_ids(*doc),
{
    let items = items_in(doc)?;
    if items.len() == 0 || !matches!(&items[0], Json::Object(_)) {
        return Err(ShapeError::MissingFirstItem);
    }
    if let Err(e) = entry_id(&items[0], true) {
        return Err(e);
    }
    match get_member(&items[0], &"packages".to_owned()) {
        None => Ok(Vec::new()),
        Some(Json::Array(packages)) => entry_ids(packages, false),
        Some(_) => Err(ShapeError::MissingPackages),
    }
}

/// Reads a listing of all recipes: the recipe ids in the order listed.
pub fn parse_recipe_ids(text: &str) -> (r: Result<Vec<String>, QueryError>)
    ensures
        query_outcome(r) == match json_document(text@) {
            Some(doc) => Some(recipe_ids(doc)),
            None => None,
        },
        !(r matches Err(QueryError::Unreadable(_))),
{
    match decode_json(text) {
        Ok(doc) => match recipe_ids_in(&doc) {
            Ok(ids) => Ok(ids),
            Err(e) => Err(QueryError::Shape(e)),
        },
        Err(e) => Err(QueryError::Decode(e)),
    }
}

/// Reads a listing of one recipe: the ids of its cached packages.
pub fn parse_package_ids(text: &str) -> (r: Result<Vec<String>, QueryError>)
    ensures
        query_outcome(r) == match json_document(text@) {
            Some(doc) => Some(package_ids(doc)),
            None => None,
        },
        !(r matches Err(QueryError::Unreadable(_))),
{
    match decode_json(text) {
        Ok(doc) => match package_ids_in(&doc) {
            Ok(ids) => Ok(ids),
            Err(e) => Err(QueryError::Shape(e)),
        },
        Err(e) => Err(QueryError::Decode(e)),
    }
}

} // verus!
