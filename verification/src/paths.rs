//! Remapping of toolchain-relative source paths onto a local checkout.
//!
//! A remark generated against a prebuilt toolchain anchors its locations
//! under a marker directory followed by a build identifier. When a local
//! checkout of the toolchain sources is configured, that marker-plus-
//! identifier segment is replaced by the checkout path; every other path
//! passes through unchanged.

use crate::model::DebugLocation;
use crate::model::DebugLocationV;
use crate::model::Location;
use crate::model::LocationV;
use crate::model::RemarkLoadOptions;
use crate::model::RemarkLoadOptionsV;
use crate::strings::first_index_of;
use crate::strings::forward_slashes;
use crate::strings::replace_backslashes;
use crate::strings::starts_with;
use crate::strings::str_find_char;
use crate::strings::str_starts_with;
use vstd::prelude::*;

verus! {

/// The marker prefix under which a prebuilt toolchain's remarks anchor
/// their source paths.
pub open spec fn rustc_marker() -> Seq<char> {
    seq!['/', 'r', 'u', 's', 't', 'c', '/']
}

/// `root` extended by the relative path `rel`, with exactly one path
/// separator between them; an absolute `rel` or an empty `root` stands
/// alone.
pub open spec fn join_path(root: Seq<char>, rel: Seq<char>) -> Seq<char> {
    if rel.len() > 0 && rel[0] == '/' {
        rel
    } else if root.len() == 0 {
        rel
    } else if root[root.len() - 1] == '/' {
        root + rel
    } else {
        root + seq!['/'] + rel
    }
}

/// The remapped form of `path`: when a toolchain source root is configured
/// and `path` starts with the marker followed by an identifier segment
/// that a separator closes, the marker and identifier give way to the
/// root, and every backslash of the result becomes a forward slash; any
/// other path is returned unchanged.
pub open spec fn normalize_path_spec(root_opt: Option<Seq<char>>, path: Seq<char>) -> Seq<char> {
    match root_opt {
        Option::None => path,
        Option::Some(root) => {
            if starts_with(path, rustc_marker()) {
                let rest = path.skip(rustc_marker().len() as int);
                match first_index_of(rest, '/') {
                    Option::Some(i) => forward_slashes(join_path(root, rest.skip(i + 1))),
                    Option::None => path,
                }
            } else {
                path
            }
        },
    }
}

/// Whether `s` begins with the toolchain marker.
fn starts_with_marker(s: &str) -> (r: bool)
    ensures
        r == starts_with(s@, rustc_marker()),
{
    proof {
        reveal_strlit("/rustc/");
        assert("/rustc/"@ =~= rustc_marker());
    }
    str_starts_with(s, "/rustc/")
}

/// Joins a configured root and a relative path with one separator.
pub fn join_exec(root: &String, rel: &str) -> (r: String)
    ensures
        r@ == join_path(root@, rel@),
{
    let nrel = rel.unicode_len();
    if nrel > 0 && rel.get_char(0) == '/' {
        return String::from_str(rel);
    }
    let nroot = root.as_str().unicode_len();
    if nroot == 0 {
        return String::from_str(rel);
    }
    let mut r = root.clone();
    if root.as_str().get_char(nroot - 1) != '/' {
        r.push('/');
        proof {
            assert(r@ =~= root@ + seq!['/']);
        }
    }
    r.append(rel);
    r
}

/// Rewrites a toolchain-relative path onto the configured local checkout;
/// a path without the marker, or a load without a configured root, keeps
/// the path as it came.
pub fn normalize_path(options: &RemarkLoadOptions, path: String) -> (r: String)
    ensures
        r@ == normalize_path_spec(options@.rustc_source_root, path@),
{
    match &options.rustc_source_root {
        Option::None => path,
        Option::Some(root) => {
            let s = path.as_str();
            if !starts_with_marker(s) {
                return path;
            }
            let n = s.unicode_len();
            let rest = s.substring_char(7, n);
            match str_find_char(rest, '/') {
                Option::None => path,
                Option::Some(i) => {
                    let nrest = rest.unicode_len();
                    let rel = rest.substring_char(i + 1, nrest);
                    let joined = join_exec(root, rel);
                    proof {
                        assert(rest@.skip(i + 1) =~= rel@);
                    }
                    replace_backslashes(joined.as_str())
                },
            }
        },
    }
}

/// The verified image of turning a decoded location into a displayed one:
/// the file path remapped, line and column kept.
pub open spec fn debug_loc_spec(opts: RemarkLoadOptionsV, loc: DebugLocationV) -> LocationV {
    LocationV {
        file: normalize_path_spec(opts.rustc_source_root, loc.file),
        line: loc.line,
        column: loc.column,
    }
}

/// Turns a location as decoded from a document into the location a remark
/// carries, remapping its file path.
pub fn parse_debug_loc(options: &RemarkLoadOptions, location: DebugLocation) -> (r: Location)
    ensures
        r@ == debug_loc_spec(options@, location@),
{
    let file = normalize_path(options, location.file);
    Location { file, line: location.line, column: location.column }
}

} // verus!
