//! Reading the description file (`*.mod.json`) of a mod: its name, author and
//! version, which the launcher lists and by which it enables a mod.

use vstd::prelude::*;

verus! {

/// A member of a JSON object: its key, and its text where the value is a JSON string.
pub type Member = (String, Option<String>);

pub open spec fn opt_text(o: Option<String>) -> Option<Seq<char>> {
    match o {
        Some(s) => Some(s@),
        None => None,
    }
}

pub open spec fn member_view(m: Member) -> (Seq<char>, Option<Seq<char>>) {
    (m.0@, opt_text(m.1))
}

pub open spec fn members_view(ms: Seq<Member>) -> Seq<(Seq<char>, Option<Seq<char>>)> {
    ms.map_values(|m: Member| member_view(m))
}

/// What `serde_json` reads from a text as a JSON value, seen as an object:
/// `None` where the text is no JSON object, else its members in the order in
/// which the parsed map yields them, each value reduced to its text where it is
/// a JSON string and to `None` otherwise.
pub uninterp spec fn json_object_members(text: Seq<char>) -> Option<Seq<(Seq<char>, Option<Seq<char>>)>>;

#[verifier::external_type_specification]
#[verifier::external_body]
pub struct ExJsonError(serde_json::Error);

/// Calls `serde_json::from_str::<serde_json::Value>` on `text` and, where the
/// result is `Value::Object`, hands out the object's members, each value by
/// `Value::as_str`. The contract claims only that the outcome is the named
/// function `json_object_members` of the text.
#[verifier::external_body]
fn parse_object_members(text: &str) -> (r: Option<Vec<Member>>)
    ensures
        match r {
            Some(v) => json_object_members(text@) == Some(members_view(v@)),
            None => json_object_members(text@) is None,
        },
{
    match serde_json::from_str::<serde_json::Value>(text) {
        Ok(serde_json::Value::Object(map)) => Some(
            map.into_iter().map(|(key, value)| (key, value.as_str().map(str::to_owned))).collect(),
        ),
        Ok(_) => None,
        Err(_) => None,
    }
}

/// The value of the first member with the given key, or `None` where no member has it.
pub open spec fn lookup(ms: Seq<(Seq<char>, Option<Seq<char>>)>, key: Seq<char>) -> Option<Option<Seq<char>>>
    decreases ms.len(),
{
    if ms.len() == 0 {
        None
    } else if ms[0].0 == key {
        Some(ms[0].1)
    } else {
        lookup(ms.drop_first(), key)
    }
}

/// Why a description file yields no entry where the launcher cannot go on.
#[derive(Debug, Clone, Copy, PartialEq, Eq, Structural)]
pub enum ManifestError {
    /// The text is no JSON object: the launcher passes over it.
    NotAnObject,
    /// The object lacks a member that the launcher indexes.
    MissingField,
}

/// Name, version and author of a mod, as its description file gives them.
#[derive(Debug)]
pub struct ModEntry {
    pub name: String,
    pub author: String,
    pub version: String,
}

pub open spec fn entry_view(e: ModEntry) -> (Seq<char>, Seq<char>, Seq<char>) {
    (e.name@, e.author@, e.version@)
}

/// The value of the member `key`, found by walking the members in order.
pub fn member_value(members: &Vec<Member>, key: &str) -> (r: Option<Option<String>>)
    ensures
        match r {
            None => lookup(members_view(members@), key@) is None,
            Some(v) => lookup(members_view(members@), key@) == Some(opt_text(v)),
        },
{
    let k: String = key.to_owned();
    let ghost all = members_view(members@);
    let mut i: usize = 0;
    assert(all.skip(0) =~= all);
    while i < members.len()
        invariant
            i <= members.len(),
            all == members_view(members@),
            k@ == key@,
            lookup(all, key@) == lookup(all.skip(i as int), key@),
        decreases members.len() - i,
    {
        let ghost rest = all.skip(i as int);
        assert(rest[0] == member_view(members@[i as int]));
        if members[i].0 == k {
            return match &members[i].1 {
                Some(s) => Some(Some(s.clone())),
                None => Some(None),
            };
        }
        assert(rest.drop_first() =~= all.skip(i + 1));
        i = i + 1;
    }
    assert(all.skip(i as int).len() == 0);
    None
}

/// The contents of a list of strings.
pub open spec fn strings_view(v: Seq<String>) -> Seq<Seq<char>> {
    v.map_values(|s: String| s@)
}

/// What the launcher reads as a mod's name from a description file.
pub open spec fn manifest_name_of(text: Seq<char>) -> Result<Option<Seq<char>>, ManifestError> {
    match json_object_members(text) {
        None => Err(ManifestError::NotAnObject),
        Some(ms) => match lookup(ms, "Name"@) {
            None => Err(ManifestError::MissingField),
            Some(v) => Ok(v),
        },
    }
}

/// What the launcher reads as a mod's entry from a description file.
pub open spec fn mod_entry_of(text: Seq<char>) -> Result<Option<(Seq<char>, Seq<char>, Seq<char>)>, ManifestError> {
    match json_object_members(text) {
        None => Err(ManifestError::NotAnObject),
        Some(ms) => match (lookup(ms, "Name"@), lookup(ms, "Author"@), lookup(ms, "Version"@)) {
            (Some(n), Some(a), Some(v)) => match (n, a, v) {
                (Some(n), Some(a), Some(v)) => Ok(Some((n, a, v))),
                _ => Ok(None),
            },
            _ => Err(ManifestError::MissingField),
        },
    }
}

/// The entries that the mod list shows for the given description files, in
/// their order: a text that is no JSON object, or whose name, author or version
/// is no JSON string, is passed over; the first object that lacks one of these
/// members ends the list with `MissingField`.
pub open spec fn entries_of(texts: Seq<Seq<char>>) -> Result<Seq<(Seq<char>, Seq<char>, Seq<char>)>, ManifestError>
    decreases texts.len(),
{
    if texts.len() == 0 {
        Ok(Seq::empty())
    } else {
        match entries_of(texts.drop_last()) {
            Err(e) => Err(e),
            Ok(es) => match mod_entry_of(texts.last()) {
                Ok(Some(e)) => Ok(es.push(e)),
                Ok(None) => Ok(es),
                Err(ManifestError::NotAnObject) => Ok(es),
                Err(ManifestError::MissingField) => Err(ManifestError::MissingField),
            },
        }
    }
}

/// Once a prefix of the files ends the list with an error, the whole list ends with it.
proof fn lemma_entries_error_sticks(texts: Seq<Seq<char>>, k: int)
    requires
        0 <= k <= texts.len(),
        entries_of(texts.take(k)) is Err,
    ensures
        entries_of(texts) == entries_of(texts.take(k)),
    decreases texts.len(),
{
    if k == texts.len() {
        assert(texts.take(k) =~= texts);
    } else {
        assert(texts.drop_last().take(k) =~= texts.take(k));
        lemma_entries_error_sticks(texts.drop_last(), k);
    }
}

/// Reads the name of a mod from its description file: `Ok(Some(name))` where
/// the file is a JSON object whose member `Name` is a string, `Ok(None)` where
/// that member is another JSON value.
pub fn manifest_name(text: &str) -> (r: Result<Option<String>, ManifestError>)
    ensures
        match r {
            Ok(n) => manifest_name_of(text@) == Ok::<Option<Seq<char>>, ManifestError>(opt_text(n)),
            Err(e) => manifest_name_of(text@) == Err::<Option<Seq<char>>, ManifestError>(e),
        },
{
    match parse_object_members(text) {
        None => Err(ManifestError::NotAnObject),
        Some(members) => match member_value(&members, "Name") {
            None => Err(ManifestError::MissingField),
            Some(v) => Ok(v),
        },
    }
}

/// Reads the entry of a mod from its description file.
pub fn mod_entry(text: &str) -> (r: Result<Option<ModEntry>, ManifestError>)
    ensures
        match r {
            Ok(Some(e)) => mod_entry_of(text@) == Ok::<_, ManifestError>(Some(entry_view(e))),
            Ok(None) => mod_entry_of(text@) == Ok::<Option<(Seq<char>, Seq<char>, Seq<char>)>, ManifestError>(None),
            Err(e) => mod_entry_of(text@) == Err::<Option<(Seq<char>, Seq<char>, Seq<char>)>, ManifestError>(e),
        },
{
    match parse_object_members(text) {
        None => Err(ManifestError::NotAnObject),
        Some(members) => {
            let name = member_value(&members, "Name");
            let author = member_value(&members, "Author");
            let version = member_value(&members, "Version");
            match (name, author, version) {
                (Some(name), Some(author), Some(version)) => match (name, author, version) {
                    (Some(name), Some(author), Some(version)) => Ok(Some(ModEntry { name, author, version })),
                    _ => Ok(None),
                },
                _ => Err(ManifestError::MissingField),
            }
        },
    }
}

/// The entries of the mod list, in the order of the description files.
pub fn mod_entries(texts: &Vec<String>) -> (r: Result<Vec<ModEntry>, ManifestError>)
    ensures
        match r {
            Ok(es) => entries_of(strings_view(texts@)) == Ok::<_, ManifestError>(es@.map_values(|e: ModEntry| entry_view(e))),
            Err(e) => entries_of(strings_view(texts@)) == Err::<Seq<(Seq<char>, Seq<char>, Seq<char>)>, ManifestError>(e),
        },
{
    let ghost all = strings_view(texts@);
    let mut out: Vec<ModEntry> = Vec::new();
    let mut i: usize = 0;
    assert(all.take(0) =~= Seq::<Seq<char>>::empty());
    assert(out@.map_values(|e: ModEntry| entry_view(e)) =~= Seq::<(Seq<char>, Seq<char>, Seq<char>)>::empty());
    while i < texts.len()
        invariant
            i <= texts.len(),
            all == strings_view(texts@),
            entries_of(all.take(i as int)) == Ok::<_, ManifestError>(out@.map_values(|e: ModEntry| entry_view(e))),
        decreases texts.len() - i,
    {
        let ghost before = out@;
        assert(all.take(i + 1).drop_last() =~= all.take(i as int));
        assert(all.take(i + 1).last() == texts@[i as int]@);
        match mod_entry(texts[i].as_str()) {
            Ok(Some(e)) => {
                out.push(e);
                assert(out@.map_values(|e: ModEntry| entry_view(e)) =~= before.map_values(|e: ModEntry| entry_view(e)).push(entry_view(e)));
            },
            Ok(None) => {},
            Err(ManifestError::NotAnObject) => {},
            Err(ManifestError::MissingField) => {
                proof {
                    lemma_entries_error_sticks(all, i + 1);
                }
                return Err(ManifestError::MissingField);
            },
        }
        i = i + 1;
    }
    assert(all.take(i as int) =~= all);
    Ok(out)
}

} // verus!

verus! {

/// The entry that a description file puts in the mod list, where it gives one.
pub open spec fn shown_entry(text: Seq<char>) -> Option<(Seq<char>, Seq<char>, Seq<char>)> {
    match mod_entry_of(text) {
        Ok(Some(e)) => Some(e),
        _ => None,
    }
}

/// A description file that is a JSON object lacking `Name`, `Author` or `Version`.
pub open spec fn lacks_field(text: Seq<char>) -> bool {
    mod_entry_of(text) == Err::<Option<(Seq<char>, Seq<char>, Seq<char>)>, ManifestError>(ManifestError::MissingField)
}

/// The mod list holds one row for every file that gives an entry, in the order
/// of the files, and nothing else; it fails exactly when some file is an object
/// lacking one of the three members (`k` is the first such file, or the end).
pub proof fn entries_are_every_given_entry(texts: Seq<Seq<char>>, k: int)
    requires
        0 <= k <= texts.len(),
        forall|j: int| 0 <= j < k ==> !lacks_field(#[trigger] texts[j]),
        k < texts.len() ==> lacks_field(texts[k]),
    ensures
        k == texts.len() ==> entries_of(texts) == Ok::<_, ManifestError>(texts.filter_map(|t: Seq<char>| shown_entry(t))),
        k < texts.len() ==> entries_of(texts) == Err::<Seq<(Seq<char>, Seq<char>, Seq<char>)>, ManifestError>(ManifestError::MissingField),
    decreases texts.len(),
{
    if texts.len() == 0 {
    } else {
        let dl = texts.drop_last();
        if k == texts.len() {
            assert forall|j: int| 0 <= j < k - 1 implies !lacks_field(#[trigger] dl[j]) by {
                assert(dl[j] == texts[j]);
            }
            entries_are_every_given_entry(dl, k - 1);
            assert(!lacks_field(texts.last()));
            let f = |t: Seq<char>| shown_entry(t);
            match shown_entry(texts.last()) {
                Some(e) => {
                    assert(dl.filter_map(f) + seq![e] =~= dl.filter_map(f).push(e));
                },
                None => {},
            }
        } else {
            assert forall|j: int| 0 <= j < k implies !lacks_field(#[trigger] dl[j]) by {
                assert(dl[j] == texts[j]);
            }
            if k == texts.len() - 1 {
                entries_are_every_given_entry(dl, k);
                assert(texts.last() == texts[k]);
            } else {
                assert(dl[k] == texts[k]);
                entries_are_every_given_entry(dl, k);
            }
        }
    }
}

} // verus!
