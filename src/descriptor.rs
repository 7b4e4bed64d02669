//! The version descriptor and the merge of an inheritance chain into one
//! flat descriptor.

use crate::rules::JsonRule;
use vstd::prelude::*;

verus! {

/// A downloadable artifact.
#[derive(Clone, Debug)]
pub struct JsonDownload {
    pub url: Option<String>,
    pub sha1: Option<String>,
    pub size: Option<i32>,
    pub path: Option<String>,
}

/// The downloads of a library: its main artifact and, keyed by classifier
/// name, its per-platform artifacts.
#[derive(Clone, Debug)]
pub struct JsonDownloads {
    pub artifact: JsonDownload,
    pub classifiers: Option<Vec<(String, JsonDownload)>>,
}

/// Entry-name prefixes left out when a native bundle is extracted.
#[derive(Clone, Debug)]
pub struct JsonExtract {
    pub exclude: Vec<String>,
}

/// A declared dependency. `natives` maps a platform key to a classifier
/// name.
#[derive(Clone, Debug)]
pub struct JsonLibrary {
    pub name: String,
    pub url: Option<String>,
    pub natives: Option<Vec<(String, String)>>,
    pub rules: Option<Vec<JsonRule>>,
    pub extract: Option<JsonExtract>,
    pub checksums: Option<Vec<String>>,
    pub downloads: Option<JsonDownloads>,
    pub is_client_requirement: bool,
}

/// The asset index that a version refers to.
#[derive(Clone, Debug)]
pub struct JsonAssetsIndex {
    pub id: String,
    pub sha1: String,
    pub size: i32,
    pub total_size: i32,
    pub url: String,
    pub known: bool,
}

/// The value of a conditional argument: one string or several.
#[derive(Clone, Debug)]
pub enum ArgumentValue {
    Single(String),
    List(Vec<String>),
}

/// An argument that is emitted only where its rules include it.
#[derive(Clone, Debug)]
pub struct JsonAdvanceArgument {
    pub rules: Vec<JsonRule>,
    pub value: ArgumentValue,
}

/// One entry of a structured argument list.
#[derive(Clone, Debug)]
pub enum JsonArgument {
    Plain(String),
    Advanced(JsonAdvanceArgument),
}

/// The structured argument lists; an absent list is empty.
#[derive(Clone, Debug)]
pub struct JsonArguments {
    pub jvm: Vec<JsonArgument>,
    pub game: Vec<JsonArgument>,
}

/// A version descriptor. Timestamps are seconds since the Unix epoch.
/// `arguments_old` is the legacy single-string argument blob; when it is
/// non-empty it takes precedence over `arguments`. `override_` names the
/// parent descriptor. `downloads` is a keyed map held as a list of entries
/// in which an earlier entry shadows a later one with the same key.
#[derive(Clone, Debug)]
pub struct JsonVersion {
    pub id: String,
    pub time: i64,
    pub release_time: i64,
    pub type_: Option<String>,
    pub arguments_old: Option<String>,
    pub arguments: JsonArguments,
    pub minimum_launcher_version: Option<i64>,
    pub libraries: Vec<JsonLibrary>,
    pub asset_index: Option<JsonAssetsIndex>,
    pub override_: Option<String>,
    pub jar: Option<String>,
    pub assets: Option<String>,
    pub main_class: String,
    pub downloads: Vec<(String, JsonDownload)>,
}

/// Why an inheritance chain cannot be resolved.
#[derive(Clone, Debug)]
pub enum MergeError {
    /// The chain holds no descriptor.
    EmptyChain,
    /// A descriptor names a parent that is not the next link of the chain.
    MissingAncestor(String),
    /// A descriptor that names no parent is followed by further links.
    UnlinkedAncestor(String),
}

/// The value that a keyed entry list gives a key: that of its first entry
/// with the key.
pub open spec fn lookup_download(entries: Seq<(String, JsonDownload)>, key: Seq<char>) -> Option<
    JsonDownload,
>
    decreases entries.len(),
{
    if entries.len() == 0 {
        None
    } else if entries[0].0@ == key {
        Some(entries[0].1)
    } else {
        lookup_download(entries.drop_first(), key)
    }
}

/// The first present value of a sequence of options.
pub open spec fn first_present<T>(s: Seq<Option<T>>) -> Option<T>
    decreases s.len(),
{
    if s.len() == 0 {
        None
    } else if s[0] is Some {
        s[0]
    } else {
        first_present(s.drop_first())
    }
}

/// The libraries of a chain: the root's first, the leaf's last.
pub open spec fn chain_libraries(c: Seq<JsonVersion>) -> Seq<JsonLibrary>
    decreases c.len(),
{
    if c.len() == 0 {
        Seq::empty()
    } else {
        chain_libraries(c.drop_first()) + c[0].libraries@
    }
}

/// The JVM-side arguments of a chain, the root's first.
pub open spec fn chain_jvm(c: Seq<JsonVersion>) -> Seq<JsonArgument>
    decreases c.len(),
{
    if c.len() == 0 {
        Seq::empty()
    } else {
        chain_jvm(c.drop_first()) + c[0].arguments.jvm@
    }
}

/// The game-side arguments of a chain, the root's first.
pub open spec fn chain_game(c: Seq<JsonVersion>) -> Seq<JsonArgument>
    decreases c.len(),
{
    if c.len() == 0 {
        Seq::empty()
    } else {
        chain_game(c.drop_first()) + c[0].arguments.game@
    }
}

/// The download that a chain gives a key: the leaf-most link that has the
/// key decides.
pub open spec fn chain_download(c: Seq<JsonVersion>, key: Seq<char>) -> Option<JsonDownload>
    decreases c.len(),
{
    if c.len() == 0 {
        None
    } else if lookup_download(c[0].downloads@, key) is Some {
        lookup_download(c[0].downloads@, key)
    } else {
        chain_download(c.drop_first(), key)
    }
}

/// Whether `r` is the flat descriptor of chain `c` (leaf first): identity,
/// timestamps and main class of the leaf; each optional scalar from the
/// leaf-most link that has it; lists concatenated root first; downloads keyed leaf-most first; no
/// parent reference left.
pub open spec fn is_resolution(c: Seq<JsonVersion>, r: JsonVersion) -> bool {
    &&& c.len() > 0
    &&& r.id == c[0].id
    &&& r.time == c[0].time
    &&& r.release_time == c[0].release_time
    &&& r.type_ == first_present(c.map_values(|v: JsonVersion| v.type_))
    &&& r.arguments_old == first_present(c.map_values(|v: JsonVersion| v.arguments_old))
    &&& r.minimum_launcher_version == first_present(
        c.map_values(|v: JsonVersion| v.minimum_launcher_version),
    )
    &&& r.asset_index == first_present(c.map_values(|v: JsonVersion| v.asset_index))
    &&& r.jar == first_present(c.map_values(|v: JsonVersion| v.jar))
    &&& r.assets == first_present(c.map_values(|v: JsonVersion| v.assets))
    &&& r.main_class == c[0].main_class
    &&& r.libraries@ == chain_libraries(c)
    &&& r.arguments.jvm@ == chain_jvm(c)
    &&& r.arguments.game@ == chain_game(c)
    &&& forall|k: Seq<char>| lookup_download(r.downloads@, k) == chain_download(c, k)
    &&& r.override_ is None
}

/// Whether each link of the chain names the next one as its parent, and
/// the last names none.
pub open spec fn is_linked_chain(c: Seq<JsonVersion>) -> bool {
    &&& c.len() > 0
    &&& forall|i: int|
        0 <= i < c.len() - 1 ==> (#[trigger] c[i].override_ matches Some(p) && p@ == c[i
            + 1].id@)
    &&& c.last().override_ is None
}

proof fn lemma_lookup_append(a: Seq<(String, JsonDownload)>, b: Seq<(String, JsonDownload)>, key: Seq<char>)
    ensures
        lookup_download(a + b, key) == (if lookup_download(a, key) is Some {
            lookup_download(a, key)
        } else {
            lookup_download(b, key)
        }),
    decreases a.len(),
{
    if a.len() > 0 {
        assert((a + b).drop_first() =~= a.drop_first() + b);
        lemma_lookup_append(a.drop_first(), b, key);
    } else {
        assert(a + b =~= b);
    }
}

/// Whether `r` is `child` merged into its flattened `parent`: scalars of
/// the child win where present, lists are the parent's followed by the
/// child's, the child's downloads shadow the parent's, and no parent
/// reference is left.
pub open spec fn is_merge(child: JsonVersion, parent: JsonVersion, r: JsonVersion) -> bool {
    &&& r.id == child.id
    &&& r.time == child.time
    &&& r.release_time == child.release_time
    &&& r.type_ == (if child.type_ is Some { child.type_ } else { parent.type_ })
    &&& r.arguments_old == (if child.arguments_old is Some {
        child.arguments_old
    } else {
        parent.arguments_old
    })
    &&& r.minimum_launcher_version == (if child.minimum_launcher_version is Some {
        child.minimum_launcher_version
    } else {
        parent.minimum_launcher_version
    })
    &&& r.asset_index == (if child.asset_index is Some {
        child.asset_index
    } else {
        parent.asset_index
    })
    &&& r.jar == (if child.jar is Some { child.jar } else { parent.jar })
    &&& r.assets == (if child.assets is Some { child.assets } else { parent.assets })
    &&& r.main_class == child.main_class
    &&& r.libraries@ == parent.libraries@ + child.libraries@
    &&& r.arguments.jvm@ == parent.arguments.jvm@ + child.arguments.jvm@
    &&& r.arguments.game@ == parent.arguments.game@ + child.arguments.game@
    &&& forall|k: Seq<char>|
        lookup_download(r.downloads@, k) == (if lookup_download(child.downloads@, k) is Some {
            lookup_download(child.downloads@, k)
        } else {
            lookup_download(parent.downloads@, k)
        })
    &&& r.override_ is None
}

/// Merges a descriptor into its already flattened parent: identity and
/// main class are the child's, optional scalars of the child win where
/// present, lists are the parent's followed by the
/// child's, and the child's downloads shadow the parent's.
pub fn merge_pair(child: JsonVersion, parent: JsonVersion) -> (r: JsonVersion)
    ensures
        is_merge(child, parent, r),
{
    let mut child = child;
    let mut parent = parent;
    let type_ = match child.type_ {
        Some(t) => Some(t),
        None => parent.type_,
    };
    let arguments_old = match child.arguments_old {
        Some(a) => Some(a),
        None => parent.arguments_old,
    };
    let minimum_launcher_version = match child.minimum_launcher_version {
        Some(m) => Some(m),
        None => parent.minimum_launcher_version,
    };
    let asset_index = match child.asset_index {
        Some(a) => Some(a),
        None => parent.asset_index,
    };
    let jar = match child.jar {
        Some(j) => Some(j),
        None => parent.jar,
    };
    let assets = match child.assets {
        Some(a) => Some(a),
        None => parent.assets,
    };
    let mut libraries = parent.libraries;
    libraries.append(&mut child.libraries);
    let mut jvm = parent.arguments.jvm;
    jvm.append(&mut child.arguments.jvm);
    let mut game = parent.arguments.game;
    game.append(&mut child.arguments.game);
    let ghost child_downloads = child.downloads@;
    let ghost parent_downloads = parent.downloads@;
    let mut downloads = child.downloads;
    downloads.append(&mut parent.downloads);
    proof {
        assert forall|k: Seq<char>|
            lookup_download(downloads@, k) == (if lookup_download(child_downloads, k) is Some {
                lookup_download(child_downloads, k)
            } else {
                lookup_download(parent_downloads, k)
            }) by {
            lemma_lookup_append(child_downloads, parent_downloads, k);
        }
    }
    JsonVersion {
        id: child.id,
        time: child.time,
        release_time: child.release_time,
        type_,
        arguments_old,
        arguments: JsonArguments { jvm, game },
        minimum_launcher_version,
        libraries,
        asset_index,
        override_: None,
        jar,
        assets,
        main_class: child.main_class,
        downloads,
    }
}

/// A single descriptor resolves to itself without its parent reference.
proof fn lemma_resolution_single(v: JsonVersion, r: JsonVersion)
    requires
        r.id == v.id,
        r.time == v.time,
        r.release_time == v.release_time,
        r.type_ == v.type_,
        r.arguments_old == v.arguments_old,
        r.minimum_launcher_version == v.minimum_launcher_version,
        r.asset_index == v.asset_index,
        r.jar == v.jar,
        r.assets == v.assets,
        r.main_class == v.main_class,
        r.libraries == v.libraries,
        r.arguments == v.arguments,
        r.downloads == v.downloads,
        r.override_ is None,
    ensures
        is_resolution(seq![v], r),
{
    let c = seq![v];
    assert(c.drop_first() =~= Seq::<JsonVersion>::empty());
    reveal_with_fuel(first_present, 2);
    assert(c.map_values(|v: JsonVersion| v.type_).drop_first() =~= Seq::<Option<String>>::empty());
    assert(c.map_values(|v: JsonVersion| v.arguments_old).drop_first()
        =~= Seq::<Option<String>>::empty());
    assert(c.map_values(|v: JsonVersion| v.minimum_launcher_version).drop_first()
        =~= Seq::<Option<i64>>::empty());
    assert(c.map_values(|v: JsonVersion| v.asset_index).drop_first()
        =~= Seq::<Option<JsonAssetsIndex>>::empty());
    assert(c.map_values(|v: JsonVersion| v.jar).drop_first() =~= Seq::<Option<String>>::empty());
    assert(c.map_values(|v: JsonVersion| v.assets).drop_first()
        =~= Seq::<Option<String>>::empty());
    assert(c[0] == v);
    assert(c.map_values(|v: JsonVersion| v.type_)[0] == v.type_);
    assert(c.map_values(|v: JsonVersion| v.arguments_old)[0] == v.arguments_old);
    assert(c.map_values(|v: JsonVersion| v.minimum_launcher_version)[0]
        == v.minimum_launcher_version);
    assert(c.map_values(|v: JsonVersion| v.asset_index)[0] == v.asset_index);
    assert(c.map_values(|v: JsonVersion| v.jar)[0] == v.jar);
    assert(c.map_values(|v: JsonVersion| v.assets)[0] == v.assets);
    assert(chain_libraries(c.drop_first()) =~= Seq::<JsonLibrary>::empty());
    assert(chain_libraries(c) =~= v.libraries@);
    assert(chain_jvm(c.drop_first()) =~= Seq::<JsonArgument>::empty());
    assert(chain_jvm(c) =~= v.arguments.jvm@);
    assert(chain_game(c.drop_first()) =~= Seq::<JsonArgument>::empty());
    assert(chain_game(c) =~= v.arguments.game@);
    assert forall|k: Seq<char>| lookup_download(r.downloads@, k) == chain_download(c, k) by {
        assert(chain_download(c.drop_first(), k) is None);
    }
}

/// Prepending a link to a resolved chain resolves the longer chain.
proof fn lemma_resolution_step(child: JsonVersion, rest: Seq<JsonVersion>, parent: JsonVersion, r: JsonVersion)
    requires
        is_resolution(rest, parent),
        is_merge(child, parent, r),
    ensures
        is_resolution(seq![child] + rest, r),
{
    let c = seq![child] + rest;
    assert(c.drop_first() =~= rest);
    assert(c[0] == child);
    assert(c.map_values(|v: JsonVersion| v.type_).drop_first() =~= rest.map_values(
        |v: JsonVersion| v.type_,
    ));
    assert(c.map_values(|v: JsonVersion| v.arguments_old).drop_first() =~= rest.map_values(
        |v: JsonVersion| v.arguments_old,
    ));
    assert(c.map_values(|v: JsonVersion| v.minimum_launcher_version).drop_first()
        =~= rest.map_values(|v: JsonVersion| v.minimum_launcher_version));
    assert(c.map_values(|v: JsonVersion| v.asset_index).drop_first() =~= rest.map_values(
        |v: JsonVersion| v.asset_index,
    ));
    assert(c.map_values(|v: JsonVersion| v.jar).drop_first() =~= rest.map_values(
        |v: JsonVersion| v.jar,
    ));
    assert(c.map_values(|v: JsonVersion| v.assets).drop_first() =~= rest.map_values(
        |v: JsonVersion| v.assets,
    ));
    assert forall|k: Seq<char>| lookup_download(r.downloads@, k) == chain_download(c, k) by {
        assert(lookup_download(parent.downloads@, k) == chain_download(rest, k));
        assert(chain_download(c, k) == (if lookup_download(child.downloads@, k) is Some {
            lookup_download(child.downloads@, k)
        } else {
            chain_download(rest, k)
        }));
    }
}

/// Resolves an inheritance chain, leaf first, into one flat descriptor.
/// Succeeds exactly when every link names the next one as its parent and
/// the last names none.
pub fn resolve(chain: Vec<JsonVersion>) -> (r: Result<JsonVersion, MergeError>)
    ensures
        r is Ok <==> is_linked_chain(chain@),
        r matches Ok(v) ==> is_resolution(chain@, v),
        r matches Err(MergeError::EmptyChain) <==> chain@.len() == 0,
        r matches Err(MergeError::MissingAncestor(p)) ==> exists|i: int|
            0 <= i < chain@.len() && #[trigger] chain@[i].override_ == Some(p) && (i
                == chain@.len() - 1 || chain@[i + 1].id@ != p@),
        r matches Err(MergeError::UnlinkedAncestor(name)) ==> exists|i: int|
            0 <= i < chain@.len() - 1 && #[trigger] chain@[i].override_ is None && chain@[i
                + 1].id == name,
{
    let n = chain.len();
    if n == 0 {
        return Err(MergeError::EmptyChain);
    }
    let mut i: usize = 0;
    while i < n
        invariant
            n == chain@.len(),
            i <= n,
            forall|j: int|
                0 <= j < i ==> (#[trigger] chain@[j].override_ matches Some(p) && j + 1 < n
                    && p@ == chain@[j + 1].id@) || (chain@[j].override_ is None && j == n - 1),
        decreases n - i,
    {
        match &chain[i].override_ {
            Some(p) => {
                if i + 1 >= n || !(chain[i + 1].id == *p) {
                    return Err(MergeError::MissingAncestor(p.clone()));
                }
            },
            None => {
                if i + 1 < n {
                    return Err(MergeError::UnlinkedAncestor(chain[i + 1].id.clone()));
                }
            },
        }
        i = i + 1;
    }
    let ghost whole = chain@;
    let mut rest = chain;
    let last = rest.pop().unwrap();
    let mut acc = JsonVersion { override_: None, ..last };
    proof {
        lemma_resolution_single(last, acc);
        assert(whole.skip(n - 1) =~= seq![last]);
    }
    while rest.len() > 0
        invariant
            rest@ == whole.take(rest@.len() as int),
            rest@.len() < whole.len(),
            is_resolution(whole.skip(rest@.len() as int), acc),
        decreases rest@.len(),
    {
        let ghost m = rest@.len() as int;
        let child = rest.pop().unwrap();
        let ghost parent = acc;
        acc = merge_pair(child, acc);
        proof {
            lemma_resolution_step(child, whole.skip(m), parent, acc);
            assert(seq![child] + whole.skip(m) =~= whole.skip(m - 1));
            assert(rest@ =~= whole.take(m - 1));
        }
    }
    proof {
        assert(whole.skip(0) =~= whole);
        assert(is_linked_chain(whole)) by {
            assert forall|j: int| 0 <= j < whole.len() - 1 implies (#[trigger] whole[j].override_ matches Some(p) && p@ == whole[j + 1].id@) by {
            }
        }
    }
    Ok(acc)
}

/// Merging is associative over a three-link chain: resolving `[a, b, c]`
/// directly gives the same libraries and the same keyed downloads as
/// resolving `[a, m]`, where `m` resolves `[b, c]`.
pub proof fn lemma_merge_associative(
    a: JsonVersion,
    b: JsonVersion,
    c: JsonVersion,
    m: JsonVersion,
    direct: JsonVersion,
    staged: JsonVersion,
)
    requires
        is_resolution(seq![b, c], m),
        is_resolution(seq![a, b, c], direct),
        is_resolution(seq![a, m], staged),
    ensures
        direct.libraries@ == staged.libraries@,
        forall|k: Seq<char>|
            lookup_download(direct.downloads@, k) == lookup_download(staged.downloads@, k),
{
    let abc = seq![a, b, c];
    let am = seq![a, m];
    assert(abc.drop_first() =~= seq![b, c]);
    assert(am.drop_first() =~= seq![m]);
    let single = seq![m];
    assert(single.drop_first() =~= Seq::<JsonVersion>::empty());
    assert(single[0] == m);
    assert(chain_libraries(single.drop_first()) =~= Seq::<JsonLibrary>::empty());
    assert(chain_libraries(single) =~= m.libraries@);
    assert forall|k: Seq<char>|
        lookup_download(direct.downloads@, k) == lookup_download(staged.downloads@, k) by {
        assert(chain_download(single.drop_first(), k) is None);
        assert(chain_download(single, k) == lookup_download(m.downloads@, k));
        assert(abc[0] == a && am[0] == a);
        assert(lookup_download(m.downloads@, k) == chain_download(seq![b, c], k));
        assert(chain_download(abc, k) == chain_download(am, k));
    }
}

impl JsonVersion {
    /// Merges this descriptor, as the child, into `json`, its flattened
    /// parent.
    pub fn set_to_json(self, json: &mut JsonVersion)
        ensures
            is_merge(self, *old(json), *final(json)),
    {
        let mut parent = JsonVersion {
            id: String::new(),
            time: 0,
            release_time: 0,
            type_: None,
            arguments_old: None,
            arguments: JsonArguments { jvm: Vec::new(), game: Vec::new() },
            minimum_launcher_version: None,
            libraries: Vec::new(),
            asset_index: None,
            override_: None,
            jar: None,
            assets: None,
            main_class: String::new(),
            downloads: Vec::new(),
        };
        core::mem::swap(&mut parent, json);
        *json = merge_pair(self, parent);
    }
}

} // verus!
