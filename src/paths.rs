//! Path resolution: dependency coordinates to repository paths, and
//! native bundles to their per-platform archives.

use crate::descriptor::{lookup_download, JsonDownload, JsonLibrary};
use crate::substitution::{find_value, lookup_value};
use vstd::prelude::*;
use vstd::string::StrSliceExecFns;
use vstd::string::StringExecFns;

verus! {

/// Why a dependency cannot be resolved to a path.
#[derive(Clone, Debug)]
pub enum ResolveError {
    /// The coordinate has fewer than three `:`-separated segments.
    MalformedCoordinate(String),
    /// The platform key (second) has no archive among the classifiers of
    /// the dependency with this coordinate (first).
    UnsupportedPlatform(String, String),
}

/// The segments of `s` between occurrences of `sep`.
pub open spec fn split_on(s: Seq<char>, sep: char) -> Seq<Seq<char>>
    decreases s.len(),
{
    if s.len() == 0 {
        seq![Seq::empty()]
    } else {
        let init = split_on(s.drop_last(), sep);
        if s.last() == sep {
            init.push(Seq::empty())
        } else {
            init.update(init.len() - 1, init.last().push(s.last()))
        }
    }
}

/// A group with its dots turned into path separators.
pub open spec fn group_dir(g: Seq<char>) -> Seq<char> {
    g.map_values(|c: char| if c == '.' { '/' } else { c })
}

/// The repository path of a coordinate's segments:
/// `group/artifact/version/artifact-version[-classifier].jar`.
pub open spec fn coordinate_path(parts: Seq<Seq<char>>) -> Seq<char> {
    group_dir(parts[0]) + seq!['/'] + parts[1] + seq!['/'] + parts[2] + seq!['/'] + parts[1]
        + seq!['-'] + parts[2] + (if parts.len() > 3 {
        seq!['-'] + parts[3]
    } else {
        Seq::empty()
    }) + seq!['.', 'j', 'a', 'r']
}

/// Splits a string at every `:`.
pub fn split_coordinate(s: &str) -> (r: Vec<String>)
    ensures
        r@.map_values(|x: String| x@) == split_on(s@, ':'),
{
    let n = s.unicode_len();
    let mut parts: Vec<String> = Vec::new();
    let mut start: usize = 0;
    let mut i: usize = 0;
    proof {
        assert(s@.take(0) =~= Seq::<char>::empty());
        assert(s@.subrange(0, 0) =~= Seq::<char>::empty());
        assert(parts@.map_values(|x: String| x@).push(Seq::empty()) =~= seq![Seq::<char>::empty()]);
    }
    while i < n
        invariant
            n == s@.len(),
            start <= i <= n,
            split_on(s@.take(i as int), ':') == parts@.map_values(|x: String| x@).push(
                s@.subrange(start as int, i as int),
            ),
        decreases n - i,
    {
        let c = s.get_char(i);
        let ghost t = s@.take(i + 1);
        proof {
            assert(t.drop_last() =~= s@.take(i as int));
            assert(t.last() == c);
        }
        if c == ':' {
            let piece = String::from_str(s.substring_char(start, i));
            let ghost prev = parts@;
            parts.push(piece);
            start = i + 1;
            proof {
                assert(parts@.map_values(|x: String| x@) =~= prev.map_values(|x: String| x@).push(piece@));
                assert(s@.subrange(start as int, i + 1) =~= Seq::<char>::empty());
                assert(split_on(t, ':') =~= parts@.map_values(|x: String| x@).push(
                    s@.subrange(start as int, i + 1),
                ));
            }
        } else {
            proof {
                assert(s@.subrange(start as int, i + 1) =~= s@.subrange(start as int, i as int).push(c));
                assert(split_on(t, ':') =~= parts@.map_values(|x: String| x@).push(
                    s@.subrange(start as int, i + 1),
                ));
            }
        }
        i = i + 1;
    }
    let last = String::from_str(s.substring_char(start, n));
    let ghost before = parts@;
    parts.push(last);
    proof {
        assert(s@.take(n as int) =~= s@);
        assert(parts@.map_values(|x: String| x@) =~= before.map_values(|x: String| x@).push(last@));
    }
    parts
}

fn append_group_dir(out: &mut String, g: &str)
    ensures
        final(out)@ == old(out)@ + group_dir(g@),
{
    let ghost start = out@;
    let n = g.unicode_len();
    let mut i: usize = 0;
    proof {
        reveal_strlit("/");
    }
    while i < n
        invariant
            n == g@.len(),
            i <= n,
            out@ == start + group_dir(g@.take(i as int)),
            "/"@ == seq!['/'],
        decreases n - i,
    {
        let c = g.get_char(i);
        if c == '.' {
            out.append("/");
        } else {
            out.append(g.substring_char(i, i + 1));
        }
        proof {
            assert(group_dir(g@.take(i + 1)) =~= group_dir(g@.take(i as int)).push(
                if c == '.' { '/' } else { c },
            ));
        }
        i = i + 1;
    }
    proof {
        assert(g@.take(n as int) =~= g@);
    }
}

/// Resolves a coordinate `group:artifact:version[:classifier]` to its
/// repository path; fails when it has fewer than three segments.
pub fn lib_name_to_path(name: String) -> (r: Result<String, ResolveError>)
    ensures
        split_on(name@, ':').len() >= 3 <==> r is Ok,
        r matches Ok(p) ==> p@ == coordinate_path(split_on(name@, ':')),
        r matches Err(e) ==> e == ResolveError::MalformedCoordinate(name),
{
    let parts = split_coordinate(name.as_str());
    let ghost pv = parts@.map_values(|x: String| x@);
    if parts.len() < 3 {
        return Err(ResolveError::MalformedCoordinate(name));
    }
    proof {
        assert(pv[0] == parts@[0]@);
        assert(pv[1] == parts@[1]@);
        assert(pv[2] == parts@[2]@);
        reveal_strlit("/");
        reveal_strlit("-");
        reveal_strlit(".jar");
    }
    let mut out = String::new();
    append_group_dir(&mut out, parts[0].as_str());
    out.append("/");
    out.append(parts[1].as_str());
    out.append("/");
    out.append(parts[2].as_str());
    out.append("/");
    out.append(parts[1].as_str());
    out.append("-");
    out.append(parts[2].as_str());
    if parts.len() > 3 {
        proof {
            assert(pv[3] == parts@[3]@);
        }
        out.append("-");
        out.append(parts[3].as_str());
    }
    out.append(".jar");
    proof {
        assert(out@ =~= coordinate_path(pv));
    }
    Ok(out)
}

/// The archive path that a dependency's classifier maps give a platform
/// key: key to classifier name through `natives`, classifier name to
/// artifact through the download classifiers, and the artifact's path.
pub open spec fn classifier_archive(dep: JsonLibrary, key: Seq<char>) -> Option<String> {
    match dep.natives {
        None => None,
        Some(m) => match lookup_value(m@, key) {
            None => None,
            Some(c) => match dep.downloads {
                None => None,
                Some(d) => match d.classifiers {
                    None => None,
                    Some(cl) => match lookup_download(cl@, c@) {
                        None => None,
                        Some(dl) => dl.path,
                    },
                },
            },
        },
    }
}

/// Looks a key up in a keyed list of downloads; gives the position of the
/// entry that decides.
pub fn find_download(entries: &Vec<(String, JsonDownload)>, key: &String) -> (r: Option<usize>)
    ensures
        r matches Some(k) ==> k < entries@.len() && lookup_download(entries@, key@) == Some(
            entries@[k as int].1,
        ),
        r is None ==> lookup_download(entries@, key@) is None,
{
    let mut i: usize = 0;
    proof {
        assert(entries@.skip(0) =~= entries@);
    }
    while i < entries.len()
        invariant
            i <= entries@.len(),
            lookup_download(entries@, key@) == lookup_download(entries@.skip(i as int), key@),
        decreases entries@.len() - i,
    {
        proof {
            assert(entries@.skip(i as int).drop_first() =~= entries@.skip(i + 1));
        }
        if entries[i].0 == *key {
            return Some(i);
        }
        i = i + 1;
    }
    None
}

/// Resolves the archive of a native bundle for a platform key. Without a
/// classifier map the coordinate decides; with one, both lookups must
/// succeed.
pub fn native_archive_path(dep: &JsonLibrary, platform_key: &str) -> (r: Result<String, ResolveError>)
    ensures
        dep.natives is None ==> (split_on(dep.name@, ':').len() >= 3 <==> r is Ok),
        dep.natives is None ==> (r matches Ok(p) ==> p@ == coordinate_path(
            split_on(dep.name@, ':'),
        )),
        dep.natives is None ==> (r matches Err(e) ==> e == ResolveError::MalformedCoordinate(
            dep.name,
        )),
        dep.natives is Some ==> (r is Ok <==> classifier_archive(*dep, platform_key@) is Some),
        dep.natives is Some ==> (r matches Ok(p) ==> p == classifier_archive(
            *dep,
            platform_key@,
        )->0),
        dep.natives is Some ==> (r matches Err(e) ==> (e matches ResolveError::UnsupportedPlatform(
            c,
            k,
        ) && c == dep.name && k@ == platform_key@)),
{
    match &dep.natives {
        None => lib_name_to_path(dep.name.clone()),
        Some(m) => {
            let unsupported = ResolveError::UnsupportedPlatform(
                dep.name.clone(),
                String::from_str(platform_key),
            );
            let classifier = match find_value(m, platform_key) {
                Some(c) => c,
                None => {
                    return Err(unsupported);
                },
            };
            match &dep.downloads {
                Some(d) => match &d.classifiers {
                    Some(cl) => match find_download(cl, &classifier) {
                        Some(k) => match &cl[k].1.path {
                            Some(p) => Ok(p.clone()),
                            None => Err(unsupported),
                        },
                        None => Err(unsupported),
                    },
                    None => Err(unsupported),
                },
                None => Err(unsupported),
            }
        },
    }
}

} // verus!
