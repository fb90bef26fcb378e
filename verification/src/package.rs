//! Package manifests, as far as the assembly of the runtime reads them.

use crate::json::{get_keys, get_text, parse_value};
use vstd::prelude::*;

verus! {

/// What is read of a `package.json`: the name and the version where they are
/// strings, and the names under each kind of dependency where that is an object.
pub struct Manifest {
    pub name: Option<String>,
    pub version: Option<String>,
    pub dependencies: Option<Vec<String>>,
    pub optional_dependencies: Option<Vec<String>>,
    pub peer_dependencies: Option<Vec<String>>,
}

/// A manifest as a mathematical value.
pub struct ManifestModel {
    pub name: Option<Seq<char>>,
    pub version: Option<Seq<char>>,
    pub dependencies: Option<Seq<Seq<char>>>,
    pub optional_dependencies: Option<Seq<Seq<char>>>,
    pub peer_dependencies: Option<Seq<Seq<char>>>,
}

impl View for Manifest {
    type V = ManifestModel;

    open spec fn view(&self) -> ManifestModel {
        ManifestModel {
            name: crate::json::text_view(self.name),
            version: crate::json::text_view(self.version),
            dependencies: crate::json::texts_view(self.dependencies),
            optional_dependencies: crate::json::texts_view(self.optional_dependencies),
            peer_dependencies: crate::json::texts_view(self.peer_dependencies),
        }
    }
}

/// The manifest that a JSON document stands for.
pub open spec fn manifest_in(document: crate::json::JsonModel) -> ManifestModel {
    ManifestModel {
        name: crate::json::text_member(document, "name"@),
        version: crate::json::text_member(document, "version"@),
        dependencies: crate::json::keys_member(document, "dependencies"@),
        optional_dependencies: crate::json::keys_member(document, "optionalDependencies"@),
        peer_dependencies: crate::json::keys_member(document, "peerDependencies"@),
    }
}

/// Reads a manifest. A text that is no JSON document is rejected with the
/// parser's message. A list has exactly the names that are members in the document.
pub fn read_manifest(text: &str) -> (result: Result<Manifest, String>)
    ensures
        match result {
            Ok(manifest) => {
                let document = crate::json::parsed_json(text@)->Ok_0;
                &&& crate::json::parsed_json(text@) is Ok
                &&& manifest@ == manifest_in(document)
                &&& forall|name: Seq<char>| #[trigger]
                    listed(manifest@.dependencies).contains(name) <==> lists(
                        document,
                        "dependencies"@,
                        name,
                    )
                &&& forall|name: Seq<char>| #[trigger]
                    listed(manifest@.optional_dependencies).contains(name) <==> lists(
                        document,
                        "optionalDependencies"@,
                        name,
                    )
                &&& forall|name: Seq<char>| #[trigger]
                    listed(manifest@.peer_dependencies).contains(name) <==> lists(
                        document,
                        "peerDependencies"@,
                        name,
                    )
            },
            Err(message) => crate::json::parsed_json(text@) is Err && message@
                == crate::json::parsed_json(text@)->Err_0,
        },
{
    match parse_value(text) {
        Ok(document) => {
            let manifest = Manifest {
                name: get_text(&document, "name"),
                version: get_text(&document, "version"),
                dependencies: get_keys(&document, "dependencies"),
                optional_dependencies: get_keys(&document, "optionalDependencies"),
                peer_dependencies: get_keys(&document, "peerDependencies"),
            };
            proof {
                let model = crate::json::json_model(document);
                names_are_members(model, "dependencies"@, manifest.dependencies);
                names_are_members(model, "optionalDependencies"@, manifest.optional_dependencies);
                names_are_members(model, "peerDependencies"@, manifest.peer_dependencies);
            }
            Ok(manifest)
        },
        Err(message) => Err(message),
    }
}

/// The names that are read under `kind` are the members of the object there.
proof fn names_are_members(
    document: crate::json::JsonModel,
    kind: Seq<char>,
    names: Option<Vec<String>>,
)
    requires
        crate::json::texts_view(names) == crate::json::keys_member(document, kind),
        names matches Some(keys) ==> forall|name: Seq<char>|
            crate::text::views(keys@).contains(name) <==> #[trigger] document.member(
                kind,
            )->0.member(name) is Some,
    ensures
        forall|name: Seq<char>| #[trigger]
            listed(crate::json::texts_view(names)).contains(name) <==> lists(document, kind, name),
{
    assert forall|name: Seq<char>| #[trigger]
        listed(crate::json::texts_view(names)).contains(name) <==> lists(
        document,
        kind,
        name,
    ) by {
        let member = document.member(kind)->0.member(name);
        assert(names is None ==> !listed(crate::json::texts_view(names)).contains(name));
    }
}

/// The names of a list that may be missing.
pub open spec fn listed(names: Option<Seq<Seq<char>>>) -> Seq<Seq<char>> {
    match names {
        Some(names) => names,
        None => seq![],
    }
}

impl ManifestModel {
    /// Every name that the package depends on: plain, optional and peer
    /// dependencies, in this order.
    pub open spec fn dependency_names(self) -> Seq<Seq<char>> {
        listed(self.dependencies) + listed(self.optional_dependencies) + listed(
            self.peer_dependencies,
        )
    }

    /// The first plain dependency.
    pub open spec fn first_dependency(self) -> Option<Seq<char>> {
        if listed(self.dependencies).len() > 0 {
            Some(listed(self.dependencies)[0])
        } else {
            None
        }
    }
}

/// Appends the names of a list that may be missing.
fn append_names(names: &mut Vec<String>, more: &Option<Vec<String>>)
    ensures
        crate::text::views(final(names)@) == crate::text::views(old(names)@) + listed(
            crate::json::texts_view(*more),
        ),
{
    if let Some(list) = more {
        let mut i: usize = 0;
        while i < list.len()
            invariant
                i <= list.len(),
                crate::text::views(names@) == crate::text::views(old(names)@) + crate::text::views(
                    list@,
                ).take(i as int),
            decreases list.len() - i,
        {
            let ghost before = crate::text::views(names@);
            names.push(list[i].clone());
            proof {
                let all = crate::text::views(list@);
                assert(crate::text::views(names@) == before.push(all[i as int]));
                assert(all.take(i + 1) == all.take(i as int).push(all[i as int]));
            }
            i = i + 1;
        }
        assert(crate::text::views(list@).take(list@.len() as int) == crate::text::views(list@));
    }
}

impl Manifest {
    /// Every name that the package depends on: plain, optional and peer
    /// dependencies, in this order.
    pub fn dependency_names(&self) -> (names: Vec<String>)
        ensures
            crate::text::views(names@) == self@.dependency_names(),
    {
        let mut names: Vec<String> = Vec::new();
        append_names(&mut names, &self.dependencies);
        append_names(&mut names, &self.optional_dependencies);
        append_names(&mut names, &self.peer_dependencies);
        names
    }

    /// The first plain dependency.
    pub fn first_dependency(&self) -> (name: Option<String>)
        ensures
            crate::json::text_view(name) == self@.first_dependency(),
    {
        match &self.dependencies {
            Some(names) => if names.len() > 0 {
                Some(names[0].clone())
            } else {
                None
            },
            None => None,
        }
    }
}

/// The node version to download where the configuration names none.
pub const NODE_VERSION_FALLBACK: &'static str = "24.19.0";

/// The node version to download: the configured one if there is one.
pub fn node_version_or_fallback(configured: Option<String>) -> (version: String)
    ensures
        version@ == match configured {
            Some(version) => version@,
            None => NODE_VERSION_FALLBACK@,
        },
{
    match configured {
        Some(version) => version,
        None => NODE_VERSION_FALLBACK.to_owned(),
    }
}

/// The node version that a configuration text names, where it is a JSON
/// document with a text under `nodeVersion`.
pub open spec fn configured_node_version(text: Seq<char>) -> Option<Seq<char>> {
    match crate::json::parsed_json(text) {
        Ok(document) => crate::json::text_member(document, "nodeVersion"@),
        Err(message) => None,
    }
}

/// The node version to download, from the configuration text if it could be
/// read. Nothing that is wrong with the configuration is an error here.
pub fn read_node_version(config: Option<&str>) -> (version: String)
    ensures
        version@ == match config {
            Some(text) => match configured_node_version(text@) {
                Some(version) => version,
                None => NODE_VERSION_FALLBACK@,
            },
            None => NODE_VERSION_FALLBACK@,
        },
{
    let mut configured: Option<String> = None;
    if let Some(text) = config {
        if let Ok(document) = parse_value(text) {
            configured = get_text(&document, "nodeVersion");
        }
    }
    node_version_or_fallback(configured)
}

/// Whether a document is an object that has, under `kind`, an object with a
/// member `name`.
pub open spec fn lists(document: crate::json::JsonModel, kind: Seq<char>, name: Seq<char>) -> bool {
    match document {
        crate::json::JsonModel::Object { members, .. } => members.contains_key(kind)
            && match members[kind] {
            crate::json::JsonModel::Object { members, .. } => members.contains_key(name),
            _ => false,
        },
        _ => false,
    }
}

/// Whether a document is an object that has the text `text` under `key`.
pub open spec fn holds_text(
    document: crate::json::JsonModel,
    key: Seq<char>,
    text: Seq<char>,
) -> bool {
    match document {
        crate::json::JsonModel::Object { members, .. } => members.contains_key(key) && members[key]
            == crate::json::JsonModel::Text(text),
        _ => false,
    }
}

/// Whether a list that may be missing has a name.
pub open spec fn has_name(names: Option<Vec<String>>, name: Seq<char>) -> bool {
    match names {
        Some(names) => exists|i: int| 0 <= i < names@.len() && (#[trigger] names@[i])@ == name,
        None => false,
    }
}

/// How many names a list has that may be missing.
pub open spec fn name_count(names: Option<Vec<String>>) -> int {
    match names {
        Some(names) => names@.len() as int,
        None => 0,
    }
}

proof fn listed_or_not(names: Option<Vec<String>>, name: Seq<char>)
    ensures
        listed(crate::json::texts_view(names)).contains(name) == has_name(names, name),
{
    if let Some(list) = names {
        let texts = crate::text::views(list@);
        if texts.contains(name) {
            let i = choose|i: int| 0 <= i < texts.len() && texts[i] == name;
            assert(list@[i]@ == name);
        }
        if has_name(names, name) {
            let i = choose|i: int| 0 <= i < list@.len() && (#[trigger] list@[i])@ == name;
            assert(texts[i] == name);
        }
    }
}

/// A package depends on exactly the names in its three lists, whichever of these
/// it has: a list that is missing does not matter to the others.
pub proof fn every_kind_of_dependency_counts(
    manifest: Manifest,
    names: Vec<String>,
    name: Seq<char>,
)
    requires
        call_ensures(Manifest::dependency_names, (&manifest,), names),
    ensures
        has_name(Some(names), name) <==> has_name(manifest.dependencies, name) || has_name(
            manifest.optional_dependencies,
            name,
        ) || has_name(manifest.peer_dependencies, name),
{
    let plain = listed(crate::json::texts_view(manifest.dependencies));
    let optional = listed(crate::json::texts_view(manifest.optional_dependencies));
    let peer = listed(crate::json::texts_view(manifest.peer_dependencies));
    let all = plain + optional + peer;
    listed_or_not(Some(names), name);
    listed_or_not(manifest.dependencies, name);
    listed_or_not(manifest.optional_dependencies, name);
    listed_or_not(manifest.peer_dependencies, name);
    if plain.contains(name) {
        let i = choose|i: int| 0 <= i < plain.len() && plain[i] == name;
        assert(all[i] == name);
    }
    if optional.contains(name) {
        let i = choose|i: int| 0 <= i < optional.len() && optional[i] == name;
        assert(all[plain.len() + i] == name);
    }
    if peer.contains(name) {
        let i = choose|i: int| 0 <= i < peer.len() && peer[i] == name;
        assert(all[plain.len() + optional.len() + i] == name);
    }
    if all.contains(name) {
        let i = choose|i: int| 0 <= i < all.len() && all[i] == name;
        if i < plain.len() {
            assert(plain[i] == name);
        } else if i < plain.len() + optional.len() {
            assert(optional[i - plain.len()] == name);
        } else {
            assert(peer[i - plain.len() - optional.len()] == name);
        }
    }
}

/// The names come in the order of the lists, the plain dependencies first, then
/// the optional ones, then the peers, and none is left out or added.
pub proof fn dependencies_come_in_order(manifest: Manifest, names: Vec<String>)
    requires
        call_ensures(Manifest::dependency_names, (&manifest,), names),
    ensures
        ({
            let plain = name_count(manifest.dependencies);
            let optional = name_count(manifest.optional_dependencies);
            let peer = name_count(manifest.peer_dependencies);
            &&& names@.len() == plain + optional + peer
            &&& forall|i: int|
                0 <= i < plain ==> (#[trigger] names@[i])@ == manifest.dependencies->0@[i]@
            &&& forall|i: int|
                plain <= i < plain + optional ==> (#[trigger] names@[i])@
                    == manifest.optional_dependencies->0@[i - plain]@
            &&& forall|i: int|
                plain + optional <= i < names@.len() ==> (#[trigger] names@[i])@
                    == manifest.peer_dependencies->0@[i - plain - optional]@
        }),
{
    let texts = crate::text::views(names@);
    assert(texts.len() == names@.len());
    assert(forall|i: int| 0 <= i < names@.len() ==> texts[i] == (#[trigger] names@[i])@);
}

/// The first plain dependency is the first name that the package depends on,
/// where it has plain dependencies. Other dependencies do not stand in for it.
pub proof fn first_dependency_is_plain(manifest: Manifest, name: Option<String>, names: Vec<String>)
    requires
        call_ensures(Manifest::first_dependency, (&manifest,), name),
        call_ensures(Manifest::dependency_names, (&manifest,), names),
    ensures
        name is Some <==> name_count(manifest.dependencies) > 0,
        name is Some ==> name->0@ == manifest.dependencies->0@[0]@ && name->0@ == names@[0]@,
{
    dependencies_come_in_order(manifest, names);
}

/// The names that a `package.json` gives to the walk are exactly the members of
/// its objects `dependencies`, `optionalDependencies` and `peerDependencies`,
/// whichever of the three it has.
pub proof fn names_of_a_manifest_text(
    text: &str,
    manifest: Manifest,
    names: Vec<String>,
    name: Seq<char>,
)
    requires
        call_ensures(read_manifest, (text,), Ok::<Manifest, String>(manifest)),
        call_ensures(Manifest::dependency_names, (&manifest,), names),
    ensures
        ({
            let document = crate::json::parsed_json(text@)->Ok_0;
            has_name(Some(names), name) <==> lists(document, "dependencies"@, name) || lists(
                document,
                "optionalDependencies"@,
                name,
            ) || lists(document, "peerDependencies"@, name)
        }),
{
    every_kind_of_dependency_counts(manifest, names, name);
    listed_or_not(manifest.dependencies, name);
    listed_or_not(manifest.optional_dependencies, name);
    listed_or_not(manifest.peer_dependencies, name);
}

/// A text is read as a manifest exactly where it is a JSON document. The name and
/// the version are the texts under `name` and `version`, and no other value there
/// counts.
pub proof fn manifest_of_a_text(text: &str, result: Result<Manifest, String>, value: Seq<char>)
    requires
        call_ensures(read_manifest, (text,), result),
    ensures
        match crate::json::parsed_json(text@) {
            Ok(document) => {
                &&& result is Ok
                &&& crate::json::text_view(result->Ok_0.name) == Some(value) <==> holds_text(
                    document,
                    "name"@,
                    value,
                )
                &&& crate::json::text_view(result->Ok_0.version) == Some(value) <==> holds_text(
                    document,
                    "version"@,
                    value,
                )
            },
            Err(message) => result is Err && result->Err_0@ == message,
        },
{
}

/// The node version is the text under `nodeVersion` in the configuration, whatever
/// that text is, and else 24.19.0: where there is no configuration, where it is no
/// JSON document, and where it has no text there.
pub proof fn node_version_of_a_text(config: Option<&str>, version: String, configured: Seq<char>)
    requires
        call_ensures(read_node_version, (config,), version),
    ensures
        match config {
            Some(text) => match crate::json::parsed_json(text@) {
                Ok(document) => {
                    &&& holds_text(document, "nodeVersion"@, configured) ==> version@ == configured
                    &&& (forall|value: Seq<char>|
                        !#[trigger] holds_text(document, "nodeVersion"@, value)) ==> version@
                        == "24.19.0"@
                },
                Err(message) => version@ == "24.19.0"@,
            },
            None => version@ == "24.19.0"@,
        },
{
    if let Some(text) = config {
        if let Ok(document) = crate::json::parsed_json(text@) {
            if let Some(value) = crate::json::text_member(document, "nodeVersion"@) {
                assert(holds_text(document, "nodeVersion"@, value));
            }
        }
    }
}

} // verus!
