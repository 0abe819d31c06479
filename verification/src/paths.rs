//! Paths, held as strings, and the checks made on a destination the user typed.
use vstd::prelude::*;
use crate::text::{ascii_lower, eq_ignore_ascii_case, str_eq, trim, trimmed};

verus! {

/// One component of a path, as `std::path::Component` splits it.
#[derive(Clone, Debug)]
pub enum PathPart {
    Prefix(String),
    RootDir,
    CurDir,
    ParentDir,
    Normal(String),
}

/// A path component by the characters it holds.
pub enum PartView {
    Prefix(Seq<char>),
    RootDir,
    CurDir,
    ParentDir,
    Normal(Seq<char>),
}

impl View for PathPart {
    type V = PartView;

    open spec fn view(&self) -> PartView {
        match self {
            PathPart::Prefix(s) => PartView::Prefix(s@),
            PathPart::RootDir => PartView::RootDir,
            PathPart::CurDir => PartView::CurDir,
            PathPart::ParentDir => PartView::ParentDir,
            PathPart::Normal(s) => PartView::Normal(s@),
        }
    }
}

/// The components of a path by the characters they hold.
pub open spec fn part_views(parts: Seq<PathPart>) -> Seq<PartView> {
    parts.map_values(|x: PathPart| x@)
}

/// What `Path::components` yields for a path.
pub uninterp spec fn spec_path_components(p: Seq<char>) -> Seq<PartView>;

/// What `Path::is_absolute` answers for a path.
pub uninterp spec fn spec_path_is_absolute(p: Seq<char>) -> bool;

/// What `Path::join` gives for a base and a second path.
pub uninterp spec fn spec_path_join(base: Seq<char>, rest: Seq<char>) -> Seq<char>;

/// What `Path::file_name` gives for a path.
pub uninterp spec fn spec_path_file_name(p: Seq<char>) -> Option<Seq<char>>;

/// `Path::components` from std, each component carried over as its text.
#[verifier::external_body]
pub fn path_components(p: &str) -> (r: Vec<PathPart>)
    ensures
        part_views(r@) == spec_path_components(p@),
{
    let mut parts = Vec::new();
    for c in std::path::Path::new(p).components() {
        parts.push(match c {
            std::path::Component::Prefix(x) => PathPart::Prefix(x.as_os_str().to_string_lossy().into_owned()),
            std::path::Component::RootDir => PathPart::RootDir,
            std::path::Component::CurDir => PathPart::CurDir,
            std::path::Component::ParentDir => PathPart::ParentDir,
            std::path::Component::Normal(x) => PathPart::Normal(x.to_string_lossy().into_owned()),
        });
    }
    parts
}

/// `Path::is_absolute` from std.
#[verifier::external_body]
pub fn path_is_absolute(p: &str) -> (r: bool)
    ensures
        r == spec_path_is_absolute(p@),
{
    std::path::Path::new(p).is_absolute()
}

/// Whether no component is a prefix (a Windows drive or share).
pub open spec fn no_prefix(parts: Seq<PartView>) -> bool {
    forall|i: int| 0 <= i < parts.len() ==> !(#[trigger] parts[i] is Prefix)
}

/// Whether no component is a prefix or the root.
pub open spec fn no_prefix_or_root(parts: Seq<PartView>) -> bool {
    forall|i: int| 0 <= i < parts.len() ==> !(#[trigger] parts[i] is Prefix) && !(parts[i] is RootDir)
}

/// The components other than `.`.
pub open spec fn without_cur_dir(parts: Seq<PartView>) -> Seq<PartView> {
    parts.filter(|x: PartView| !(x is CurDir))
}

proof fn lemma_without_cur_dir_no_parent(parts: Seq<PartView>)
    requires
        !has_parent_part(parts),
    ensures
        !has_parent_part(without_cur_dir(parts)),
    decreases parts.len(),
{
    reveal(Seq::filter);
    if parts.len() > 0 {
        let init = parts.drop_last();
        assert(!has_parent_part(init)) by {
            if has_parent_part(init) {
                let k = choose|k: int| 0 <= k < init.len() && #[trigger] init[k] == PartView::ParentDir;
                assert(parts[k] == init[k]);
            }
        }
        lemma_without_cur_dir_no_parent(init);
        let sub = without_cur_dir(init);
        let f = without_cur_dir(parts);
        assert(parts.last() == parts[parts.len() - 1]);
        if !(parts.last() is CurDir) {
            assert(f == sub.push(parts.last()));
            assert forall|i: int| 0 <= i < f.len() implies #[trigger] f[i] != PartView::ParentDir by {
                if i < sub.len() {
                    assert(f[i] == sub[i]);
                }
            }
        } else {
            assert(f == sub);
        }
    }
}

/// `Path::join` from std, read back as a string. As std documents it
/// (`PathBuf::push`), an absolute path replaces the base; a path with
/// neither prefix nor root extends the base, so its components follow the
/// base's, with `.` dropped as `Path::components` drops it inside a path.
/// The second clause is stated only for a base with components and no
/// prefix; what Windows does with prefixes is left unsaid.
#[verifier::external_body]
pub fn path_join(base: &str, rest: &str) -> (r: String)
    ensures
        r@ == spec_path_join(base@, rest@),
        spec_path_is_absolute(rest@) ==> r@ == rest@,
        spec_path_components(base@).len() > 0 && no_prefix(spec_path_components(base@))
            && no_prefix_or_root(spec_path_components(rest@))
            ==> spec_path_components(r@) == spec_path_components(base@) + without_cur_dir(spec_path_components(rest@)),
{
    std::path::Path::new(base).join(rest).to_string_lossy().into_owned()
}

/// `Path::file_name` from std, read back as a string.
#[verifier::external_body]
pub fn path_file_name(p: &str) -> (r: Option<String>)
    ensures
        match r {
            Some(s) => spec_path_file_name(p@) == Some(s@),
            None => spec_path_file_name(p@) is None,
        },
{
    match std::path::Path::new(p).file_name() {
        Some(name) => Some(name.to_string_lossy().into_owned()),
        None => None,
    }
}

/// What `Path::parent` gives for a path.
pub uninterp spec fn spec_path_parent(p: Seq<char>) -> Option<Seq<char>>;

/// `Path::parent` from std, read back as a string.
#[verifier::external_body]
pub fn path_parent(p: &str) -> (r: Option<String>)
    ensures
        match r {
            Some(s) => spec_path_parent(p@) == Some(s@),
            None => spec_path_parent(p@) is None,
        },
{
    match std::path::Path::new(p).parent() {
        Some(dir) => Some(dir.to_string_lossy().into_owned()),
        None => None,
    }
}

/// The file name of a path, or the empty string where it has none.
pub open spec fn file_name_or_empty(p: Seq<char>) -> Seq<char> {
    match spec_path_file_name(p) {
        Some(n) => n,
        None => Seq::empty(),
    }
}

/// The file name of a path, or the empty string where it has none.
pub fn file_name_or_empty_of(p: &str) -> (r: String)
    ensures
        r@ == file_name_or_empty(p@),
{
    match path_file_name(p) {
        Some(n) => n,
        None => String::new(),
    }
}

/// Whether some component is `..`.
pub open spec fn has_parent_part(parts: Seq<PartView>) -> bool {
    exists|i: int| 0 <= i < parts.len() && #[trigger] parts[i] == PartView::ParentDir
}

/// Whether a path prefix names a drive: `X:` or `\\?\X:` with `X` a letter.
pub open spec fn drive_prefix(x: Seq<char>) -> bool {
    ||| x.len() == 2 && x[1] == ':'
    ||| x.len() == 6 && x[0] == '\\' && x[1] == '\\' && x[2] == '?' && x[3] == '\\' && x[5] == ':'
}

/// Whether two components name the same thing: drive prefixes regardless of
/// the drive letter's ASCII case (`c:` is `C:`), everything else exactly.
pub open spec fn part_same(a: PartView, b: PartView) -> bool {
    match (a, b) {
        (PartView::Prefix(x), PartView::Prefix(y)) => if drive_prefix(x) && drive_prefix(y) {
            ascii_lower(x) == ascii_lower(y)
        } else {
            x == y
        },
        _ => a == b,
    }
}

/// Whether the components `base` come first in `p`, whole component by whole
/// component.
pub open spec fn parts_prefix(base: Seq<PartView>, p: Seq<PartView>) -> bool {
    base.len() <= p.len() && forall|i: int| 0 <= i < base.len() ==> part_same(#[trigger] base[i], p[i])
}

/// Whether path `p` lies under path `base`, by whole components.
pub open spec fn path_starts_with(p: Seq<char>, base: Seq<char>) -> bool {
    parts_prefix(spec_path_components(base), spec_path_components(p))
}

fn is_drive_prefix(x: &str) -> (r: bool)
    ensures
        r == drive_prefix(x@),
{
    let n = x.unicode_len();
    if n == 2 {
        x.get_char(1) == ':'
    } else if n == 6 {
        x.get_char(0) == '\\' && x.get_char(1) == '\\' && x.get_char(2) == '?' && x.get_char(3) == '\\'
            && x.get_char(5) == ':'
    } else {
        false
    }
}

fn part_eq(a: &PathPart, b: &PathPart) -> (r: bool)
    ensures
        r == part_same(a@, b@),
{
    match (a, b) {
        (PathPart::Prefix(x), PathPart::Prefix(y)) => {
            if is_drive_prefix(x.as_str()) && is_drive_prefix(y.as_str()) {
                eq_ignore_ascii_case(x.as_str(), y.as_str())
            } else {
                str_eq(x.as_str(), y.as_str())
            }
        },
        (PathPart::RootDir, PathPart::RootDir) => true,
        (PathPart::CurDir, PathPart::CurDir) => true,
        (PathPart::ParentDir, PathPart::ParentDir) => true,
        (PathPart::Normal(x), PathPart::Normal(y)) => str_eq(x.as_str(), y.as_str()),
        _ => false,
    }
}

fn contains_parent(parts: &Vec<PathPart>) -> (r: bool)
    ensures
        r == has_parent_part(part_views(parts@)),
{
    let ghost views = part_views(parts@);
    let mut i: usize = 0;
    while i < parts.len()
        invariant
            i <= parts@.len(),
            views == part_views(parts@),
            forall|j: int| 0 <= j < i ==> views[j] != PartView::ParentDir,
        decreases parts@.len() - i,
    {
        if let PathPart::ParentDir = parts[i] {
            assert(views[i as int] == PartView::ParentDir);
            return true;
        }
        i += 1;
    }
    false
}

/// Whether the components `base` come first in `p`, compared with `part_same`.
pub fn parts_start_with(p: &Vec<PathPart>, base: &Vec<PathPart>) -> (r: bool)
    ensures
        r == parts_prefix(part_views(base@), part_views(p@)),
{
    let ghost pv = part_views(p@);
    let ghost bv = part_views(base@);
    assert(pv.len() == p@.len() && bv.len() == base@.len());
    if base.len() > p.len() {
        return false;
    }
    let mut i: usize = 0;
    while i < base.len()
        invariant
            base@.len() <= p@.len(),
            i <= base@.len(),
            pv == part_views(p@),
            bv == part_views(base@),
            forall|j: int| 0 <= j < i ==> part_same(#[trigger] bv[j], pv[j]),
        decreases base@.len() - i,
    {
        if !part_eq(&base[i], &p[i]) {
            assert(!part_same(bv[i as int], pv[i as int]));
            return false;
        }
        i += 1;
    }
    true
}

/// Whether `p` lies under `base`, comparing whole components (`part_same`).
pub fn starts_with(p: &str, base: &str) -> (r: bool)
    ensures
        r == path_starts_with(p@, base@),
{
    let pp = path_components(p);
    let bp = path_components(base);
    parts_start_with(&pp, &bp)
}

/// Whether two paths name the same place: as many components, each naming
/// the same thing (`part_same`).
pub open spec fn same_path(a: Seq<char>, b: Seq<char>) -> bool {
    let x = spec_path_components(a);
    let y = spec_path_components(b);
    x.len() == y.len() && forall|i: int| 0 <= i < x.len() ==> part_same(#[trigger] x[i], y[i])
}

proof fn lemma_part_same_symmetric(a: PartView, b: PartView)
    ensures
        part_same(a, b) == part_same(b, a),
{
}

/// Whether two paths name the same place, component by component.
pub fn paths_equal(a: &str, b: &str) -> (r: bool)
    ensures
        r == same_path(a@, b@),
{
    let ab = starts_with(a, b);
    let ba = starts_with(b, a);
    proof {
        let x = spec_path_components(a@);
        let y = spec_path_components(b@);
        assert forall|i: int| 0 <= i < x.len() && i < y.len() implies part_same(#[trigger] x[i], y[i]) == part_same(y[i], x[i]) by {
            lemma_part_same_symmetric(x[i], y[i]);
        }
    }
    ab && ba
}

/// Every path names the same place as itself.
pub proof fn lemma_same_path_reflexive(a: Seq<char>)
    ensures
        same_path(a, a),
{
}

/// Message for a destination that is empty once trimmed.
pub open spec fn msg_empty() -> Seq<char> {
    "destination is empty"@
}

/// Message for a destination holding a `..` component.
pub open spec fn msg_parent() -> Seq<char> {
    "destination may not contain '..'"@
}

/// Message for an absolute destination outside the watched folder.
pub open spec fn msg_external() -> Seq<char> {
    "external destinations are disabled"@
}

/// Where a typed destination leads: relative names resolve inside the watched
/// folder; absolute ones are taken as they are, but only inside the watched
/// folder unless external destinations are allowed; `..` is refused anywhere.
pub open spec fn spec_resolve_destination_path(
    watch_dir: Seq<char>,
    destination: Seq<char>,
    allow_external: bool,
) -> Result<Seq<char>, Seq<char>> {
    let t = trimmed(destination);
    spec_destination_verdict(
        t,
        spec_path_components(t),
        spec_path_is_absolute(t),
        path_starts_with(t, watch_dir),
        spec_path_join(watch_dir, t),
        allow_external,
    )
}

/// The verdict on a trimmed destination `t`, from its components, whether it
/// is absolute, whether it lies under the watched folder, and what it gives
/// joined onto the watched folder.
pub open spec fn spec_destination_verdict(
    t: Seq<char>,
    parts: Seq<PartView>,
    absolute: bool,
    inside_watch: bool,
    joined: Seq<char>,
    allow_external: bool,
) -> Result<Seq<char>, Seq<char>> {
    if t.len() == 0 {
        Err(msg_empty())
    } else if has_parent_part(parts) {
        Err(msg_parent())
    } else if absolute {
        if !allow_external && !inside_watch {
            Err(msg_external())
        } else {
            Ok(t)
        }
    } else {
        Ok(joined)
    }
}

/// The verdict on a trimmed destination, given what the path functions say of it.
pub fn destination_verdict(
    t: &str,
    parts: &Vec<PathPart>,
    absolute: bool,
    inside_watch: bool,
    joined: String,
    allow_external: bool,
) -> (r: Result<String, String>)
    ensures
        match r {
            Ok(p) => spec_destination_verdict(t@, part_views(parts@), absolute, inside_watch, joined@, allow_external)
                == Ok::<Seq<char>, Seq<char>>(p@),
            Err(e) => spec_destination_verdict(t@, part_views(parts@), absolute, inside_watch, joined@, allow_external)
                == Err::<Seq<char>, Seq<char>>(e@),
        },
{
    if t.is_empty() {
        return Err("destination is empty".to_owned());
    }
    if contains_parent(parts) {
        return Err("destination may not contain '..'".to_owned());
    }
    if absolute {
        if !allow_external && !inside_watch {
            return Err("external destinations are disabled".to_owned());
        }
        return Ok(t.to_owned());
    }
    Ok(joined)
}

/// The folder a typed destination leads to, or why it is refused. A folder
/// given back is the watched folder joined with the trimmed destination; a
/// relative destination (without prefix or root) stays inside the watched
/// folder, adding only its own components, none of them `..`.
pub fn resolve_destination_path(watch_dir: &str, destination: &str, allow_external: bool) -> (r: Result<String, String>)
    ensures
        match r {
            Ok(p) => spec_resolve_destination_path(watch_dir@, destination@, allow_external) == Ok::<Seq<char>, Seq<char>>(p@),
            Err(e) => spec_resolve_destination_path(watch_dir@, destination@, allow_external) == Err::<Seq<char>, Seq<char>>(e@),
        },
        r matches Ok(p) ==> p@ == spec_path_join(watch_dir@, trimmed(destination@)),
        r matches Ok(p) ==> ({
            let t = trimmed(destination@);
            let w = spec_path_components(watch_dir@);
            (w.len() > 0 && no_prefix(w) && no_prefix_or_root(spec_path_components(t)))
                ==> {
                &&& spec_path_components(p@) == w + without_cur_dir(spec_path_components(t))
                &&& path_starts_with(p@, watch_dir@)
                &&& !has_parent_part(without_cur_dir(spec_path_components(t)))
            }
        }),
{
    let t = trim(destination);
    let parts = path_components(t);
    let absolute = path_is_absolute(t);
    let inside_watch = starts_with(t, watch_dir);
    let joined = path_join(watch_dir, t);
    proof {
        let tc = spec_path_components(t@);
        let w = spec_path_components(watch_dir@);
        let extra = without_cur_dir(tc);
        if w.len() > 0 && no_prefix(w) && no_prefix_or_root(tc) {
            let pc = w + extra;
            assert forall|i: int| 0 <= i < w.len() implies part_same(#[trigger] w[i], pc[i]) by {
                assert(pc[i] == w[i]);
            }
            if !has_parent_part(tc) {
                lemma_without_cur_dir_no_parent(tc);
            }
        }
    }
    destination_verdict(t, &parts, absolute, inside_watch, joined, allow_external)
}

/// A refused destination is never handed on: every path this gives back holds
/// no `..` component, and when external destinations are off, an absolute one
/// lies under the watched folder.
pub proof fn law_resolved_destination_is_confined(watch_dir: Seq<char>, destination: Seq<char>, allow_external: bool)
    ensures
        match spec_resolve_destination_path(watch_dir, destination, allow_external) {
            Ok(p) => {
                &&& !has_parent_part(spec_path_components(trimmed(destination)))
                &&& trimmed(destination).len() > 0
                &&& (spec_path_is_absolute(trimmed(destination)) ==> p == trimmed(destination))
                &&& (spec_path_is_absolute(trimmed(destination)) && !allow_external ==> path_starts_with(p, watch_dir))
                &&& (!spec_path_is_absolute(trimmed(destination)) ==> p == spec_path_join(watch_dir, trimmed(destination)))
            },
            Err(_) => true,
        },
{
}

/// What a typed destination gives, case by case over the trimmed text `t`:
/// a non-empty relative destination without `..` is accepted as the watched
/// folder joined with it; a non-empty absolute one without `..` is accepted
/// as it is when it lies under the watched folder or external destinations
/// are allowed. Nothing else is refused but an empty destination, one with
/// `..`, and an absolute one outside the watched folder while external
/// destinations are off, each with its own message.
pub proof fn law_destination_refusals_are_the_documented_ones(watch_dir: Seq<char>, destination: Seq<char>, allow_external: bool)
    ensures
        ({
            let t = trimmed(destination);
            let parts = spec_path_components(t);
            let r = spec_resolve_destination_path(watch_dir, destination, allow_external);
            &&& (t.len() > 0 && !spec_path_is_absolute(t) && !has_parent_part(parts))
                ==> r == Ok::<Seq<char>, Seq<char>>(spec_path_join(watch_dir, t))
            &&& (t.len() > 0 && spec_path_is_absolute(t) && !has_parent_part(parts)
                && (allow_external || path_starts_with(t, watch_dir)))
                ==> r == Ok::<Seq<char>, Seq<char>>(t)
            &&& t.len() == 0 ==> r == Err::<Seq<char>, Seq<char>>("destination is empty"@)
            &&& (t.len() > 0 && has_parent_part(parts))
                ==> r == Err::<Seq<char>, Seq<char>>("destination may not contain '..'"@)
            &&& (t.len() > 0 && !has_parent_part(parts) && spec_path_is_absolute(t) && !allow_external
                && !path_starts_with(t, watch_dir))
                ==> r == Err::<Seq<char>, Seq<char>>("external destinations are disabled"@)
        }),
{
}

} // verus!
