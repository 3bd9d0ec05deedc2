//! The acceptance policy: which candidate remarks become visible.
//!
//! A candidate is rejected when remarks outside the local tree are not
//! wanted and its location is absolute or does not resolve to a file under
//! the source directory, or when its name is explicitly excluded. The
//! filesystem probe itself is the caller's: the policy consumes its
//! outcome as a plain boolean.

use crate::model::RemarkLoadOptions;
use crate::model::RemarkLoadOptionsV;
use crate::paths::join_path;
use crate::strings::str_eq;
use vstd::prelude::*;

verus! {

/// Whether a location's file path is absolute: it begins with a root path
/// separator.
pub open spec fn is_absolute(file: Seq<char>) -> bool {
    file.len() > 0 && file[0] == '/'
}

/// Whether `name` is one of the excluded remark names.
pub open spec fn name_excluded(filter_kind: Seq<Seq<char>>, name: Seq<char>) -> bool {
    exists|i: int| 0 <= i < filter_kind.len() && filter_kind[i] == name
}

/// The acceptance policy. `file_exists` reports whether the location's
/// path, resolved under the source directory, names an existing regular
/// file; it is consulted only when external remarks are not wanted and
/// the path is relative.
pub open spec fn accepts(
    opts: RemarkLoadOptionsV,
    name: Seq<char>,
    file: Seq<char>,
    file_exists: bool,
) -> bool {
    (opts.external || (!is_absolute(file) && file_exists)) && !name_excluded(
        opts.filter_kind,
        name,
    )
}

/// Whether a remark named `name` and located at `file` is kept, given the
/// outcome `file_exists` of the filesystem probe.
pub fn accept_candidate(
    options: &RemarkLoadOptions,
    name: &String,
    file: &String,
    file_exists: bool,
) -> (r: bool)
    ensures
        r == accepts(options@, name@, file@, file_exists),
{
    if !options.external {
        let f = file.as_str();
        if f.unicode_len() > 0 && f.get_char(0) == '/' {
            return false;
        }
        if !file_exists {
            return false;
        }
    }
    let mut i: usize = 0;
    while i < options.filter_kind.len()
        invariant
            forall|k: int| 0 <= k < i ==> options.filter_kind.deep_view()[k] != name@,
            i <= options.filter_kind.len(),
        decreases options.filter_kind.len() - i,
    {
        if str_eq(options.filter_kind[i].as_str(), name.as_str()) {
            assert(options@.filter_kind[i as int] == options.filter_kind[i as int].deep_view());
            assert(options@.filter_kind[i as int] == name@);
            return false;
        }
        i = i + 1;
    }
    assert(!name_excluded(options@.filter_kind, name@));
    true
}

/// With external remarks rejected, an absolute location or one whose
/// probed path names no file suppresses the remark; with them accepted,
/// the location plays no part and only the name exclusion decides.
pub proof fn lemma_external_filtering(
    opts: RemarkLoadOptionsV,
    name: Seq<char>,
    file: Seq<char>,
    file_exists: bool,
)
    ensures
        !opts.external && is_absolute(file) ==> !accepts(opts, name, file, file_exists),
        !opts.external && !file_exists ==> !accepts(opts, name, file, file_exists),
        opts.external ==> accepts(opts, name, file, file_exists) == !name_excluded(
            opts.filter_kind,
            name,
        ),
{
}

/// An excluded name always suppresses a remark, whatever its location,
/// the probe's outcome, or the external setting.
pub proof fn lemma_excluded_name_suppresses(
    opts: RemarkLoadOptionsV,
    name: Seq<char>,
    file: Seq<char>,
    file_exists: bool,
)
    requires
        name_excluded(opts.filter_kind, name),
    ensures
        !accepts(opts, name, file, file_exists),
{
}

/// The path the filesystem probe asks about: the location's file resolved
/// under the source directory.
pub open spec fn probe_path_spec(opts: RemarkLoadOptionsV, file: Seq<char>) -> Seq<char> {
    join_path(opts.source_dir, file)
}

/// Whether the policy needs a filesystem probe for a location at `file`:
/// only a relative path of a load that rejects external remarks is looked
/// up on disk.
pub open spec fn needs_probe(opts: RemarkLoadOptionsV, file: Seq<char>) -> bool {
    !opts.external && !is_absolute(file)
}

} // verus!
