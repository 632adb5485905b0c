//! Targeted local discovery of Steam libraries, and the identity rules every
//! Curated Catalog document must keep.
//!
//! Reading the catalog documents and the Steam library files is the host's
//! work; the tokens, library order and identity checks are decided here.
use crate::text::{chars_of, decimal, decimal_chars, same_text, string_from_chars};
use vstd::prelude::*;

verus! {

/// The supported schema version of both catalog documents.
pub const CATALOG_SCHEMA_VERSION: u32 = 1;

/// Explicit roots for limited, targeted local discovery.
#[derive(Debug)]
pub struct TargetedDiscoverySources {
    pub steam_roots: Vec<String>,
}

/// The tokens read so far, whether a token is open, the open token, and
/// whether a backslash is pending, scanning a document left to right.
pub open spec fn token_state(text: Seq<char>) -> (Seq<Seq<char>>, bool, Seq<char>, bool)
    decreases text.len(),
{
    if text.len() == 0 {
        (Seq::empty(), false, Seq::empty(), false)
    } else {
        let (tokens, inside, token, escaped) = token_state(text.drop_last());
        let c = text.last();
        if !inside {
            if c == '"' {
                (tokens, true, Seq::empty(), false)
            } else {
                (tokens, false, token, false)
            }
        } else if escaped {
            if c == '\\' || c == '"' {
                (tokens, true, token.push(c), false)
            } else {
                (tokens, true, token.push('\\').push(c), false)
            }
        } else if c == '"' {
            (tokens.push(token), false, Seq::empty(), false)
        } else if c == '\\' {
            (tokens, true, token, true)
        } else {
            (tokens, true, token.push(c), false)
        }
    }
}

/// The double-quoted tokens of a Valve key-value document, with `\\` and `\"`
/// unescaped, other backslashes kept, and an unterminated last token kept.
pub open spec fn quoted_token_list(text: Seq<char>) -> Seq<Seq<char>> {
    let (tokens, inside, token, escaped) = token_state(text);
    if inside {
        tokens.push(if escaped { token.push('\\') } else { token })
    } else {
        tokens
    }
}

/// The character sequences of a list of texts.
pub open spec fn text_views(items: Seq<String>) -> Seq<Seq<char>> {
    items.map_values(|item: String| item@)
}

/// Reads the double-quoted tokens of a Valve key-value document.
pub fn quoted_tokens(document: &str) -> (res: Vec<String>)
    ensures
        text_views(res@) == quoted_token_list(document@),
{
    let text = chars_of(document);
    let mut tokens: Vec<String> = Vec::new();
    let mut inside = false;
    let mut token: Vec<char> = Vec::new();
    let mut escaped = false;
    let mut index: usize = 0;
    while index < text.len()
        invariant
            text@ == document@,
            index <= text@.len(),
            text_views(tokens@) == token_state(text@.subrange(0, index as int)).0,
            inside == token_state(text@.subrange(0, index as int)).1,
            token@ == token_state(text@.subrange(0, index as int)).2,
            escaped == token_state(text@.subrange(0, index as int)).3,
        decreases text@.len() - index,
    {
        let c = text[index];
        proof {
            let prefix = text@.subrange(0, index + 1);
            assert(prefix.drop_last() =~= text@.subrange(0, index as int));
            assert(prefix.last() == c);
        }
        let ghost before = tokens@;
        if !inside {
            if c == '"' {
                inside = true;
                token = Vec::new();
            }
            escaped = false;
        } else if escaped {
            if c == '\\' || c == '"' {
                token.push(c);
            } else {
                token.push('\\');
                token.push(c);
            }
            escaped = false;
        } else if c == '"' {
            tokens.push(string_from_chars(&token));
            assert(text_views(tokens@) =~= text_views(before).push(token@));
            inside = false;
            token = Vec::new();
        } else if c == '\\' {
            escaped = true;
        } else {
            token.push(c);
        }
        index = index + 1;
    }
    assert(text@.subrange(0, index as int) =~= text@);
    if inside {
        if escaped {
            token.push('\\');
        }
        let ghost before = tokens@;
        tokens.push(string_from_chars(&token));
        assert(text_views(tokens@) =~= text_views(before).push(token@));
    }
    tokens
}

/// The values that follow each occurrence of a key among the first `count` tokens.
pub open spec fn values_after(tokens: Seq<Seq<char>>, key: Seq<char>, count: int) -> Seq<Seq<char>>
    decreases count,
{
    if count <= 1 {
        Seq::empty()
    } else if tokens[count - 2] == key {
        values_after(tokens, key, count - 1).push(tokens[count - 1])
    } else {
        values_after(tokens, key, count - 1)
    }
}

/// Every token that directly follows a token equal to the key.
pub fn quoted_values_for_key(document: &str, key: &str) -> (res: Vec<String>)
    ensures
        text_views(res@) == values_after(quoted_token_list(document@), key@, quoted_token_list(document@).len() as int),
{
    let tokens = quoted_tokens(document);
    let ghost views = quoted_token_list(document@);
    let mut values: Vec<String> = Vec::new();
    let mut index: usize = 1;
    proof {
        assert(text_views(values@) =~= values_after(views, key@, 1));
    }
    while index < tokens.len()
        invariant
            1 <= index,
            index <= tokens@.len() || tokens@.len() == 0,
            text_views(tokens@) == views,
            text_views(values@) == values_after(views, key@, if tokens@.len() == 0 { 0 } else { index as int }),
        decreases tokens@.len() - index,
    {
        proof {
            assert(text_views(tokens@)[index - 1] == tokens@[index - 1]@);
            assert(text_views(tokens@)[index as int] == tokens@[index as int]@);
        }
        let ghost before = values@;
        if same_text(tokens[index - 1].as_str(), key) {
            values.push(tokens[index].clone());
            assert(text_views(values@) =~= text_views(before).push(tokens@[index as int]@));
        }
        index = index + 1;
    }
    proof {
        if tokens@.len() == 0 {
            assert(values_after(views, key@, 0) =~= Seq::<Seq<char>>::empty());
        }
    }
    values
}

/// Whether a text occurs among the first `count` texts.
pub open spec fn listed_among(paths: Seq<Seq<char>>, path: Seq<char>, count: int) -> bool {
    exists|i: int| 0 <= i < count && #[trigger] paths[i] == path
}

/// Whether a list of texts holds no text twice.
pub open spec fn all_distinct(paths: Seq<Seq<char>>) -> bool {
    forall|i: int, j: int| 0 <= i < j < paths.len() ==> #[trigger] paths[i] != #[trigger] paths[j]
}

fn push_unique_path(paths: &mut Vec<String>, path: String)
    requires
        all_distinct(text_views(old(paths)@)),
    ensures
        all_distinct(text_views(final(paths)@)),
        listed_among(text_views(old(paths)@), path@, old(paths)@.len() as int) ==> final(paths)@ == old(paths)@,
        !listed_among(text_views(old(paths)@), path@, old(paths)@.len() as int) ==> final(paths)@ == old(paths)@.push(
            path,
        ),
{
    let mut index: usize = 0;
    while index < paths.len()
        invariant
            index <= paths@.len(),
            paths@ == old(paths)@,
            all_distinct(text_views(old(paths)@)),
            forall|i: int| 0 <= i < index ==> (#[trigger] paths@[i])@ != path@,
        decreases paths@.len() - index,
    {
        if same_text(paths[index].as_str(), path.as_str()) {
            assert(text_views(paths@)[index as int] == path@);
            return;
        }
        index = index + 1;
    }
    proof {
        assert forall|i: int| 0 <= i < old(paths)@.len() implies #[trigger] text_views(old(paths)@)[i] != path@ by {
            assert(text_views(old(paths)@)[i] == old(paths)@[i]@);
        }
    }
    let ghost before = paths@;
    paths.push(path);
    proof {
        assert(text_views(paths@) =~= text_views(before).push(path@));
    }
}

/// The library paths a Steam root's `libraryfolders.vdf` declares: every value
/// of a `path` key, in document order.
pub open spec fn declared_library_paths(document: Option<String>) -> Seq<Seq<char>> {
    match document {
        Some(text) => values_after(quoted_token_list(text@), "path"@, quoted_token_list(text@).len() as int),
        None => Seq::empty(),
    }
}

/// A list with each text kept only where it first occurs.
pub open spec fn first_occurrences(items: Seq<Seq<char>>) -> Seq<Seq<char>>
    decreases items.len(),
{
    if items.len() == 0 {
        Seq::empty()
    } else {
        let earlier = first_occurrences(items.drop_last());
        if earlier.contains(items.last()) {
            earlier
        } else {
            earlier.push(items.last())
        }
    }
}

/// Keeping first occurrences keeps every text of the list, each once, and
/// nothing else.
pub proof fn first_occurrences_keep_each_text_once(items: Seq<Seq<char>>)
    ensures
        forall|text: Seq<char>| #[trigger] first_occurrences(items).contains(text) <==> items.contains(text),
        all_distinct(first_occurrences(items)),
    decreases items.len(),
{
    if items.len() > 0 {
        first_occurrences_keep_each_text_once(items.drop_last());
        let earlier = first_occurrences(items.drop_last());
        let rest = items.drop_last();
        assert forall|text: Seq<char>| #[trigger] items.contains(text) <==> (rest.contains(text) || text == items.last()) by {
            if items.contains(text) {
                let k = choose|k: int| 0 <= k < items.len() && items[k] == text;
                if k < items.len() - 1 {
                    assert(rest[k] == text);
                }
            }
            if rest.contains(text) {
                let k = choose|k: int| 0 <= k < rest.len() && rest[k] == text;
                assert(items[k] == text);
            }
            if text == items.last() {
                assert(items[items.len() - 1] == text);
            }
        }
        assert forall|text: Seq<char>| #[trigger] first_occurrences(items).contains(text) <==> (earlier.contains(text)
            || text == items.last()) by {
            if !earlier.contains(items.last()) {
                let grown = earlier.push(items.last());
                if grown.contains(text) {
                    let k = choose|k: int| 0 <= k < grown.len() && grown[k] == text;
                    if k < earlier.len() {
                        assert(earlier[k] == text);
                    }
                }
                if earlier.contains(text) {
                    let k = choose|k: int| 0 <= k < earlier.len() && earlier[k] == text;
                    assert(grown[k] == text);
                }
                if text == items.last() {
                    assert(grown[earlier.len() as int] == text);
                }
            }
        }
        assert forall|text: Seq<char>| #[trigger] first_occurrences(items).contains(text) <==> items.contains(text) by {
            assert(items.contains(text) <==> (rest.contains(text) || text == items.last()));
            assert(first_occurrences(items).contains(text) <==> (earlier.contains(text) || text == items.last()));
            assert(earlier.contains(text) <==> rest.contains(text));
        }
        if !earlier.contains(items.last()) {
            let grown = earlier.push(items.last());
            assert forall|i: int, j: int| 0 <= i < j < grown.len() implies #[trigger] grown[i] != #[trigger] grown[j] by {
                if j == grown.len() - 1 {
                    assert(earlier[i] == grown[i]);
                    if grown[i] == grown[j] {
                        assert(earlier.contains(items.last()));
                    }
                } else {
                    assert(earlier[i] == grown[i] && earlier[j] == grown[j]);
                }
            }
        }
    }
}

/// Each Steam root followed by the library paths its document declares.
pub open spec fn library_candidates(roots: Seq<(String, Option<String>)>) -> Seq<Seq<char>>
    decreases roots.len(),
{
    if roots.len() == 0 {
        Seq::empty()
    } else {
        library_candidates(roots.drop_last()) + seq![roots.last().0@] + declared_library_paths(roots.last().1)
    }
}

/// Whether a path is one of the first `count` Steam roots or a library one of
/// them declares.
pub open spec fn from_steam_roots(roots: Seq<(String, Option<String>)>, count: int, path: Seq<char>) -> bool {
    exists|i: int|
        0 <= i < count && (path == (#[trigger] roots[i]).0@ || declared_library_paths(roots[i].1).contains(path))
}

/// A list that only grew at its end still lists what it listed.
proof fn lemma_still_listed(before: Seq<String>, after: Seq<String>, path: Seq<char>)
    requires
        before.len() <= after.len(),
        forall|k: int| 0 <= k < before.len() ==> after[k] == before[k],
        listed_among(text_views(before), path, before.len() as int),
    ensures
        listed_among(text_views(after), path, after.len() as int),
{
    let k = choose|k: int| 0 <= k < before.len() && #[trigger] text_views(before)[k] == path;
    assert(text_views(after)[k] == after[k]@);
}

/// The Steam library folders to search: each Steam root, then the library
/// paths its `libraryfolders.vdf` declares, each folder once, in first-seen
/// order. A root whose library file could not be read contributes itself only.
pub fn steam_library_roots(roots: &Vec<(String, Option<String>)>) -> (res: Vec<String>)
    ensures
        all_distinct(text_views(res@)),
        forall|i: int| 0 <= i < roots@.len() ==> listed_among(text_views(res@), (#[trigger] roots@[i]).0@, res@.len() as int),
        forall|i: int, k: int|
            0 <= i < roots@.len() && 0 <= k < declared_library_paths(roots@[i].1).len() ==> listed_among(
                text_views(res@),
                #[trigger] declared_library_paths(roots@[i].1)[k],
                res@.len() as int,
            ),
        forall|m: int| 0 <= m < res@.len() ==> from_steam_roots(roots@, roots@.len() as int, (#[trigger] res@[m])@),
        text_views(res@) == first_occurrences(library_candidates(roots@)),
{
    let mut libraries: Vec<String> = Vec::new();
    proof {
        assert(text_views(libraries@) =~= first_occurrences(library_candidates(roots@.take(0))));
    }
    let mut index: usize = 0;
    while index < roots.len()
        invariant
            index <= roots@.len(),
            all_distinct(text_views(libraries@)),
            forall|i: int| 0 <= i < index ==> listed_among(text_views(libraries@), (#[trigger] roots@[i]).0@, libraries@.len() as int),
            forall|i: int, k: int|
                0 <= i < index && 0 <= k < declared_library_paths(roots@[i].1).len() ==> listed_among(
                    text_views(libraries@),
                    #[trigger] declared_library_paths(roots@[i].1)[k],
                    libraries@.len() as int,
                ),
            forall|m: int| 0 <= m < libraries@.len() ==> from_steam_roots(roots@, index as int, (#[trigger] libraries@[m])@),
            text_views(libraries@) == first_occurrences(library_candidates(roots@.take(index as int))),
        decreases roots@.len() - index,
    {
        let (root, document) = &roots[index];
        let ghost before = libraries@;
        let ghost base = library_candidates(roots@.take(index as int));
        push_unique_path(&mut libraries, root.clone());
        proof {
            let grown = base.push(root@);
            assert(grown.drop_last() =~= base);
            assert(listed_among(text_views(before), root@, before.len() as int) == first_occurrences(base).contains(root@));
            assert(text_views(libraries@) =~= first_occurrences(grown));
            assert forall|i: int| 0 <= i < index + 1 implies listed_among(
                text_views(libraries@),
                (#[trigger] roots@[i]).0@,
                libraries@.len() as int,
            ) by {
                if i < index {
                    lemma_still_listed(before, libraries@, roots@[i].0@);
                } else if listed_among(text_views(before), root@, before.len() as int) {
                    lemma_still_listed(before, libraries@, root@);
                } else {
                    assert(text_views(libraries@)[before.len() as int] == root@);
                }
            }
            assert forall|i: int, k: int|
                0 <= i < index && 0 <= k < declared_library_paths(roots@[i].1).len() implies listed_among(
                    text_views(libraries@),
                    #[trigger] declared_library_paths(roots@[i].1)[k],
                    libraries@.len() as int,
                ) by {
                lemma_still_listed(before, libraries@, declared_library_paths(roots@[i].1)[k]);
            }
            assert forall|m: int| 0 <= m < libraries@.len() implies from_steam_roots(
                roots@,
                index + 1,
                (#[trigger] libraries@[m])@,
            ) by {
                if m < before.len() {
                    assert(libraries@[m] == before[m]);
                    let i = choose|i: int|
                        0 <= i < index && ((before[m])@ == (#[trigger] roots@[i]).0@ || declared_library_paths(
                            roots@[i].1,
                        ).contains(before[m]@));
                    assert(0 <= i < index + 1);
                } else {
                    assert(libraries@[m]@ == roots@[index as int].0@);
                }
            }
        }
        match document {
            Some(document) => {
                let declared = quoted_values_for_key(document.as_str(), "path");
                let ghost paths = declared_library_paths(roots@[index as int].1);
                assert(text_views(declared@) == paths);
                let mut position: usize = 0;
                proof {
                    assert(base.push(root@) + paths.take(0) =~= base.push(root@));
                }
                while position < declared.len()
                    invariant
                        position <= declared@.len(),
                        index < roots@.len(),
                        base == library_candidates(roots@.take(index as int)),
                        text_views(libraries@) == first_occurrences(base.push(roots@[index as int].0@) + paths.take(position as int)),
                        text_views(declared@) == paths,
                        paths == declared_library_paths(roots@[index as int].1),
                        all_distinct(text_views(libraries@)),
                        forall|i: int| 0 <= i < index + 1 ==> listed_among(
                            text_views(libraries@),
                            (#[trigger] roots@[i]).0@,
                            libraries@.len() as int,
                        ),
                        forall|i: int, k: int|
                            0 <= i < index && 0 <= k < declared_library_paths(roots@[i].1).len() ==> listed_among(
                                text_views(libraries@),
                                #[trigger] declared_library_paths(roots@[i].1)[k],
                                libraries@.len() as int,
                            ),
                        forall|k: int| 0 <= k < position ==> listed_among(text_views(libraries@), #[trigger] paths[k], libraries@.len() as int),
                        forall|m: int| 0 <= m < libraries@.len() ==> from_steam_roots(roots@, index + 1, (#[trigger] libraries@[m])@),
                    decreases declared@.len() - position,
                {
                    let ghost earlier = libraries@;
                    let ghost path = declared@[position as int]@;
                    assert(path == paths[position as int]);
                    let ghost start = base.push(roots@[index as int].0@);
                    push_unique_path(&mut libraries, declared[position].clone());
                    proof {
                        let grown = start + paths.take(position + 1);
                        assert(grown.drop_last() =~= start + paths.take(position as int));
                        assert(grown.last() == path);
                        assert(listed_among(text_views(earlier), path, earlier.len() as int) == first_occurrences(
                            start + paths.take(position as int),
                        ).contains(path));
                        assert(text_views(libraries@) =~= first_occurrences(grown));
                        assert forall|i: int| 0 <= i < index + 1 implies listed_among(
                            text_views(libraries@),
                            (#[trigger] roots@[i]).0@,
                            libraries@.len() as int,
                        ) by {
                            lemma_still_listed(earlier, libraries@, roots@[i].0@);
                        }
                        assert forall|i: int, k: int|
                            0 <= i < index && 0 <= k < declared_library_paths(roots@[i].1).len() implies listed_among(
                                text_views(libraries@),
                                #[trigger] declared_library_paths(roots@[i].1)[k],
                                libraries@.len() as int,
                            ) by {
                            lemma_still_listed(earlier, libraries@, declared_library_paths(roots@[i].1)[k]);
                        }
                        assert forall|k: int| 0 <= k < position + 1 implies listed_among(
                            text_views(libraries@),
                            #[trigger] paths[k],
                            libraries@.len() as int,
                        ) by {
                            if k < position {
                                lemma_still_listed(earlier, libraries@, paths[k]);
                            } else if listed_among(text_views(earlier), path, earlier.len() as int) {
                                lemma_still_listed(earlier, libraries@, path);
                            } else {
                                assert(text_views(libraries@)[earlier.len() as int] == path);
                            }
                        }
                        assert forall|m: int| 0 <= m < libraries@.len() implies from_steam_roots(
                            roots@,
                            index + 1,
                            (#[trigger] libraries@[m])@,
                        ) by {
                            if m < earlier.len() {
                                assert(libraries@[m] == earlier[m]);
                            } else {
                                assert(libraries@[m]@ == path);
                                assert(paths.contains(path));
                            }
                        }
                    }
                    position = position + 1;
                }
            },
            None => {
                assert(declared_library_paths(roots@[index as int].1).len() == 0);
            },
        }
        proof {
            let paths = declared_library_paths(roots@[index as int].1);
            assert(roots@.take(index + 1).drop_last() =~= roots@.take(index as int));
            assert(roots@.take(index + 1).last() == roots@[index as int]);
            assert(paths.take(paths.len() as int) =~= paths);
            assert(library_candidates(roots@.take(index + 1)) =~= base.push(roots@[index as int].0@) + paths);
            assert(text_views(libraries@) == first_occurrences(library_candidates(roots@.take(index + 1))));
        }
        proof {
            assert forall|m: int| 0 <= m < libraries@.len() implies from_steam_roots(
                roots@,
                index + 1,
                (#[trigger] libraries@[m])@,
            ) by {}
        }
        index = index + 1;
    }
    assert(roots@.take(roots@.len() as int) =~= roots@);
    libraries
}

/// The identity fields of one catalog Primary Sim.
#[derive(Debug)]
pub struct CatalogSimIdentity {
    pub id: String,
    pub steam_app_id: Option<u32>,
}

/// Why a Curated Catalog document was refused.
#[derive(Debug, PartialEq, Eq)]
pub enum DiscoveryCatalogError {
    InvalidDocument(String),
    InvalidSupportingApplicationDocument(String),
    UnsupportedSchema(u32),
    UnsupportedSupportingApplicationSchema(u32),
    DuplicateSimId { id: String, first_index: usize, duplicate_index: usize },
    DuplicateSteamAppId { app_id: u32, first_location: String, duplicate_location: String },
}

/// Whether the first `count` sims have distinct ids and distinct Steam App IDs.
pub open spec fn identities_distinct(sims: Seq<CatalogSimIdentity>, count: int) -> bool {
    &&& forall|i: int, j: int| 0 <= i < j < count ==> (#[trigger] sims[i]).id@ != (#[trigger] sims[j]).id@
    &&& forall|i: int, j: int|
        0 <= i < j < count && (#[trigger] sims[i]).steam_app_id is Some ==> sims[i].steam_app_id != (#[trigger] sims[j]).steam_app_id
}

/// Where a sim's Steam App ID is declared in the catalog document.
pub open spec fn app_id_location(index: int) -> Seq<char> {
    "sims["@ + crate::text::decimal(index as nat) + "].steamAppId"@
}

fn app_id_location_text(index: usize) -> (res: String)
    ensures
        res@ == app_id_location(index as int),
{
    let mut text = chars_of("sims[");
    let mut digits = decimal_chars(index as u128);
    text.append(&mut digits);
    let mut tail = chars_of("].steamAppId");
    text.append(&mut tail);
    string_from_chars(&text)
}

/// Accepts catalog documents of the supported schema whose sims have
/// distinct ids and distinct Steam App IDs; a duplicate is reported with the
/// positions of both declarations.
pub fn validate_catalog_documents(
    sim_schema_version: u32,
    sims: &Vec<CatalogSimIdentity>,
    application_schema_version: u32,
) -> (res: Result<(), DiscoveryCatalogError>)
    ensures
        sim_schema_version != CATALOG_SCHEMA_VERSION ==> res == Err::<(), DiscoveryCatalogError>(
            DiscoveryCatalogError::UnsupportedSchema(sim_schema_version),
        ),
        res is Ok <==> sim_schema_version == CATALOG_SCHEMA_VERSION && identities_distinct(sims@, sims@.len() as int)
            && application_schema_version == CATALOG_SCHEMA_VERSION,
        res matches Err(DiscoveryCatalogError::DuplicateSimId { id, first_index, duplicate_index }) ==> first_index
            < duplicate_index && duplicate_index < sims@.len() && sims@[first_index as int].id@ == id@
            && sims@[duplicate_index as int].id@ == id@,
        res matches Err(DiscoveryCatalogError::DuplicateSteamAppId { app_id, first_location, duplicate_location })
            ==> exists|i: int, j: int| 0 <= i < j < sims@.len() && (#[trigger] sims@[i]).steam_app_id == Some(app_id)
            && (#[trigger] sims@[j]).steam_app_id == Some(app_id) && first_location@ == app_id_location(i)
            && duplicate_location@ == app_id_location(j),
{
    if sim_schema_version != CATALOG_SCHEMA_VERSION {
        return Err(DiscoveryCatalogError::UnsupportedSchema(sim_schema_version));
    }
    let mut index: usize = 0;
    while index < sims.len()
        invariant
            index <= sims@.len(),
            identities_distinct(sims@, index as int),
            sim_schema_version == CATALOG_SCHEMA_VERSION,
        decreases sims@.len() - index,
    {
        let mut earlier: usize = 0;
        while earlier < index
            invariant
                earlier <= index < sims@.len(),
                identities_distinct(sims@, index as int),
                sim_schema_version == CATALOG_SCHEMA_VERSION,
                forall|k: int| 0 <= k < earlier ==> (#[trigger] sims@[k]).id@ != sims@[index as int].id@,
            decreases index - earlier,
        {
            if same_text(sims[earlier].id.as_str(), sims[index].id.as_str()) {
                return Err(
                    DiscoveryCatalogError::DuplicateSimId {
                        id: sims[index].id.clone(),
                        first_index: earlier,
                        duplicate_index: index,
                    },
                );
            }
            earlier = earlier + 1;
        }
        match sims[index].steam_app_id {
            Some(app_id) => {
                let mut earlier: usize = 0;
                while earlier < index
                    invariant
                        earlier <= index < sims@.len(),
                        sims@[index as int].steam_app_id == Some(app_id),
                        sim_schema_version == CATALOG_SCHEMA_VERSION,
                        forall|k: int| 0 <= k < earlier ==> (#[trigger] sims@[k]).steam_app_id != Some(app_id),
                    decreases index - earlier,
                {
                    if sims[earlier].steam_app_id == Some(app_id) {
                        return Err(
                            DiscoveryCatalogError::DuplicateSteamAppId {
                                app_id,
                                first_location: app_id_location_text(earlier),
                                duplicate_location: app_id_location_text(index),
                            },
                        );
                    }
                    earlier = earlier + 1;
                }
            },
            None => {},
        }
        index = index + 1;
    }
    if application_schema_version != CATALOG_SCHEMA_VERSION {
        return Err(DiscoveryCatalogError::UnsupportedSupportingApplicationSchema(application_schema_version));
    }
    Ok(())
}

/// The install directory a Steam app manifest declares: the value of its
/// first `installdir` key.
pub fn manifest_install_directory(manifest: &str) -> (res: Option<String>)
    ensures
        ({
            let values = values_after(
                quoted_token_list(manifest@),
                "installdir"@,
                quoted_token_list(manifest@).len() as int,
            );
            match res {
                Some(directory) => values.len() > 0 && directory@ == values[0],
                None => values.len() == 0,
            }
        }),
{
    let values = quoted_values_for_key(manifest, "installdir");
    if values.len() == 0 {
        None
    } else {
        proof {
            assert(text_views(values@)[0] == values@[0]@);
        }
        Some(values[0].clone())
    }
}

fn joined_text(parts: &Vec<Vec<char>>) -> (res: String)
    ensures
        res@ == parts@.fold_left(Seq::<char>::empty(), |acc: Seq<char>, part: Vec<char>| acc + part@),
{
    let mut characters: Vec<char> = Vec::new();
    let mut index: usize = 0;
    while index < parts.len()
        invariant
            index <= parts@.len(),
            characters@ == parts@.subrange(0, index as int).fold_left(
                Seq::<char>::empty(),
                |acc: Seq<char>, part: Vec<char>| acc + part@,
            ),
        decreases parts@.len() - index,
    {
        proof {
            assert(parts@.subrange(0, index + 1).drop_last() =~= parts@.subrange(0, index as int));
        }
        let mut part = parts[index].clone();
        characters.append(&mut part);
        index = index + 1;
    }
    proof {
        assert(parts@.subrange(0, parts@.len() as int) =~= parts@);
    }
    string_from_chars(&characters)
}

impl DiscoveryCatalogError {
    /// The sentence that reports this refusal.
    pub fn message(&self) -> (res: String)
        ensures
            res@ == match *self {
                DiscoveryCatalogError::InvalidDocument(detail) => "sim catalog is invalid: "@ + detail@,
                DiscoveryCatalogError::InvalidSupportingApplicationDocument(detail) => "Supporting Application catalog is invalid: "@
                    + detail@,
                DiscoveryCatalogError::UnsupportedSchema(version) => "sim catalog schema version "@ + decimal(version as nat)
                    + " is unsupported"@,
                DiscoveryCatalogError::UnsupportedSupportingApplicationSchema(version) => "Supporting Application catalog schema version "@
                    + decimal(version as nat) + " is unsupported"@,
                DiscoveryCatalogError::DuplicateSimId { id, first_index, duplicate_index } => "duplicate sim id '"@ + id@
                    + "' at sims["@ + decimal(duplicate_index as nat) + "].id; first declared at sims["@ + decimal(
                    first_index as nat,
                ) + "].id"@,
                DiscoveryCatalogError::DuplicateSteamAppId { app_id, first_location, duplicate_location } =>
                    "duplicate Steam App ID "@ + decimal(app_id as nat) + " at "@ + duplicate_location@
                    + "; first declared at "@ + first_location@,
            },
    {
        let parts: Vec<Vec<char>> = match self {
            DiscoveryCatalogError::InvalidDocument(detail) => vec![chars_of("sim catalog is invalid: "), chars_of(detail.as_str())],
            DiscoveryCatalogError::InvalidSupportingApplicationDocument(detail) => vec![
                chars_of("Supporting Application catalog is invalid: "),
                chars_of(detail.as_str()),
            ],
            DiscoveryCatalogError::UnsupportedSchema(version) => vec![
                chars_of("sim catalog schema version "),
                decimal_chars(*version as u128),
                chars_of(" is unsupported"),
            ],
            DiscoveryCatalogError::UnsupportedSupportingApplicationSchema(version) => vec![
                chars_of("Supporting Application catalog schema version "),
                decimal_chars(*version as u128),
                chars_of(" is unsupported"),
            ],
            DiscoveryCatalogError::DuplicateSimId { id, first_index, duplicate_index } => vec![
                chars_of("duplicate sim id '"),
                chars_of(id.as_str()),
                chars_of("' at sims["),
                decimal_chars(*duplicate_index as u128),
                chars_of("].id; first declared at sims["),
                decimal_chars(*first_index as u128),
                chars_of("].id"),
            ],
            DiscoveryCatalogError::DuplicateSteamAppId { app_id, first_location, duplicate_location } => vec![
                chars_of("duplicate Steam App ID "),
                decimal_chars(*app_id as u128),
                chars_of(" at "),
                chars_of(duplicate_location.as_str()),
                chars_of("; first declared at "),
                chars_of(first_location.as_str()),
            ],
        };
        let res = joined_text(&parts);
        proof {
            reveal_with_fuel(Seq::fold_left, 8);
        }
        res
    }
}

} // verus!
