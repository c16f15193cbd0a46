use vstd::prelude::*;

verus! {

/// One section of a manifest: its name (none for the leading unnamed section) and its
/// key/value entries in file order.
pub struct IniSection {
    pub name: Option<String>,
    pub entries: Vec<(String, String)>,
}

#[verifier::external_type_specification]
#[verifier::external_body]
pub struct ExIniParseError(ini::ParseError);

/// What rust-ini makes of a text: its sections in file order, `None` where it rejects the text.
pub uninterp spec fn ini_document(text: Seq<char>) -> Option<Seq<IniSection>>;

/// Relies on ini::Ini::load_from_str: parses an INI text; the outcome depends on the text alone.
#[verifier::external_body]
fn decode_ini(text: &str) -> (r: Result<Vec<IniSection>, ini::ParseError>)
    ensures
        ini_document(text@) is None <==> r is Err,
        r matches Ok(sections) ==> ini_document(text@) == Some(sections@),
{
    ini::Ini::load_from_str(text).map(|doc| doc.iter().map(|(name, props)| IniSection {
        name: name.map(|n| n.to_owned()),
        entries: props.iter().map(|(k, v)| (k.to_owned(), v.to_owned())).collect(),
    }).collect())
}

/// Name of the section that lists a project's whole dependency closure.
pub open spec fn closure_section() -> Seq<char> {
    "full_requires"@
}

/// File name of a project's manifest.
pub open spec fn manifest_name() -> Seq<char> {
    "conaninfo.txt"@
}

/// The first section called `name`.
pub open spec fn first_named(sections: Seq<IniSection>, name: Seq<char>) -> Option<IniSection>
    decreases sections.len(),
{
    if sections.len() == 0 {
        None
    } else if sections[0].name matches Some(n) && n@ == name {
        Some(sections[0])
    } else {
        first_named(sections.drop_first(), name)
    }
}

/// The values of a section's entries, in order; keys play no part.
pub open spec fn values_of(entries: Seq<(String, String)>) -> Seq<String> {
    entries.map_values(|e: (String, String)| e.1)
}

/// The package ids that a manifest's sections require: `None` without the closure section.
pub open spec fn required_packages(sections: Seq<IniSection>) -> Option<Seq<String>> {
    match first_named(sections, closure_section()) {
        Some(section) => Some(values_of(section.entries@)),
        None => None,
    }
}

/// Why a manifest contributes nothing.
#[derive(Debug)]
pub enum ManifestError {
    /// The text is no INI document.
    Parse(ini::ParseError),
    /// The named section is absent.
    MissingSection(String),
}

/// Whether a file of this name is a project manifest.
pub fn is_manifest_file_name(name: &str) -> (r: bool)
    ensures
        r == (name@ == manifest_name()),
{
    let expected = "conaninfo.txt".to_owned();
    name.to_owned() == expected
}

/// The values of the closure section of a parsed manifest, or `None` where it has none.
pub fn required_packages_in(sections: &Vec<IniSection>) -> (r: Option<Vec<String>>)
    ensures
        match required_packages(sections@) {
            Some(ids) => r matches Some(v) && v@ == ids,
            None => r is None,
        },
{
    let wanted = "full_requires".to_owned();
    let mut i: usize = 0;
    assert(sections@.skip(0) =~= sections@);
    while i < sections.len()
        invariant
            0 <= i <= sections.len(),
            wanted@ == closure_section(),
            first_named(sections@, closure_section()) == first_named(sections@.skip(i as int), closure_section()),
        decreases sections.len() - i,
    {
        assert(sections@.skip(i as int).drop_first() =~= sections@.skip(i as int + 1));
        assert(sections@.skip(i as int)[0] == sections@[i as int]);
        let section = &sections[i];
        let found = match &section.name {
            Some(n) => n.eq(&wanted),
            None => false,
        };
        if found {
            let mut values: Vec<String> = Vec::new();
            let mut k: usize = 0;
            while k < section.entries.len()
                invariant
                    0 <= k <= section.entries.len(),
                    values@ =~= values_of(section.entries@.take(k as int)),
                decreases section.entries.len() - k,
            {
                values.push(section.entries[k].1.clone());
                k = k + 1;
                assert(section.entries@.take(k as int) =~= section.entries@.take(k - 1 as int).push(section.entries@[k - 1]));
            }
            assert(section.entries@.take(k as int) =~= section.entries@);
            return Some(values);
        }
        i = i + 1;
    }
    None
}

/// Reads one manifest: the package ids that its closure section lists, in file order.
pub fn parse_required_packages(text: &str) -> (r: Result<Vec<String>, ManifestError>)
    ensures
        match ini_document(text@) {
            None => r matches Err(ManifestError::Parse(_)),
            Some(sections) => match required_packages(sections) {
                Some(ids) => r matches Ok(v) && v@ == ids,
                None => r matches Err(ManifestError::MissingSection(n)) && n@ == closure_section(),
            },
        },
{
    match decode_ini(text) {
        Ok(sections) => match required_packages_in(&sections) {
            Some(ids) => Ok(ids),
            None => Err(ManifestError::MissingSection("full_requires".to_owned())),
        },
        Err(e) => Err(ManifestError::Parse(e)),
    }
}

} // verus!
