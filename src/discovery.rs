//! Recursive discovery of `.blp` sources in a directory tree, skipping the
//! version-control and build-output directories.
use vstd::prelude::*;

verus! {

/// What a directory entry turned out to be when it was inspected.
pub enum EntryKind {
    /// A directory, with its own entries in listing order.
    Directory(Vec<DirEntry>),
    /// A regular file.
    File,
    /// A symbolic link (not followed).
    Symlink,
    /// Anything else (socket, device, ...).
    Other,
    /// The entry's type could not be read.
    Unknown,
}

/// One entry of a directory listing.
pub struct DirEntry {
    /// The entry's name, or `None` where it is not valid UTF-8.
    pub name: Option<String>,
    pub kind: EntryKind,
}

/// Names of directories that are never searched.
pub open spec fn is_excluded_name(n: Seq<char>) -> bool {
    n == seq!['.', 'g', 'i', 't'] || n == seq!['t', 'a', 'r', 'g', 'e', 't']
}

/// The suffix of a Blueprint source file.
pub open spec fn source_suffix() -> Seq<char> {
    seq!['.', 'b', 'l', 'p']
}

/// True when `n` ends with the source suffix.
pub open spec fn is_source_name(n: Seq<char>) -> bool {
    n.len() >= 4 && n.subrange(n.len() - 4, n.len() as int) == source_suffix()
}

/// `parent/name`.
pub open spec fn joined(parent: Seq<char>, name: Seq<char>) -> Seq<char> {
    parent + seq!['/'] + name
}

/// The paths found under `prefix` by a depth-first walk of `entries`, in
/// listing order.
pub open spec fn discovered(prefix: Seq<char>, entries: Seq<DirEntry>) -> Seq<Seq<char>>
    decreases entries,
{
    if entries.len() == 0 {
        seq![]
    } else {
        let e = entries.last();
        let before = discovered(prefix, entries.drop_last());
        match e.name {
            None => before,
            Some(n) => match e.kind {
                EntryKind::Directory(children) => if is_excluded_name(n@) {
                    before
                } else {
                    before + discovered(joined(prefix, n@), children@)
                },
                EntryKind::File | EntryKind::Symlink => if is_source_name(n@) {
                    before.push(joined(prefix, n@))
                } else {
                    before
                },
                _ => before,
            },
        }
    }
}

/// True for the names of directories that are never searched.
pub fn is_excluded_dir(name: &str) -> (r: bool)
    ensures
        r == is_excluded_name(name@),
{
    let n = name.unicode_len();
    if n == 4 {
        let r = name.get_char(0) == '.' && name.get_char(1) == 'g' && name.get_char(2) == 'i'
            && name.get_char(3) == 't';
        assert(r ==> name@ =~= seq!['.', 'g', 'i', 't']);
        r
    } else if n == 6 {
        let r = name.get_char(0) == 't' && name.get_char(1) == 'a' && name.get_char(2) == 'r'
            && name.get_char(3) == 'g' && name.get_char(4) == 'e' && name.get_char(5) == 't';
        assert(r ==> name@ =~= seq!['t', 'a', 'r', 'g', 'e', 't']);
        r
    } else {
        false
    }
}

/// True for the names of Blueprint source files.
pub fn is_source_file(name: &str) -> (r: bool)
    ensures
        r == is_source_name(name@),
{
    let n = name.unicode_len();
    if n < 4 {
        return false;
    }
    let r = name.get_char(n - 4) == '.' && name.get_char(n - 3) == 'b' && name.get_char(n - 2)
        == 'l' && name.get_char(n - 1) == 'p';
    assert(r ==> name@.subrange(n - 4, n as int) =~= source_suffix());
    assert(name@.subrange(n - 4, n as int) == source_suffix() ==> name@.subrange(
        n - 4,
        n as int,
    )[0] == '.');
    r
}

/// `parent/name`.
pub fn join_path(parent: &str, name: &str) -> (r: String)
    ensures
        r@ == joined(parent@, name@),
{
    let r = String::from_str(parent).concat("/").concat(name);
    proof {
        reveal_strlit("/");
    }
    r
}

/// Looks for `.blp` files in the listing `entries` of the directory
/// `start_path`, descending into every subdirectory but `.git` and `target`.
/// Each path found is the parent path joined with the entry's name. Entries
/// whose name is not UTF-8 or whose type could not be read are passed over.
pub fn search_blps(start_path: &str, entries: &Vec<DirEntry>) -> (r: Vec<String>)
    ensures
        r.deep_view() == discovered(start_path@, entries@),
        forall|k: int| 0 <= k < r@.len() ==> is_source_name(#[trigger] r@[k]@),
    decreases entries@,
{
    let mut paths: Vec<String> = Vec::new();
    let mut i: usize = 0;
    while i < entries.len()
        invariant
            i <= entries.len(),
            paths.deep_view() == discovered(start_path@, entries@.take(i as int)),
        decreases entries.len() - i,
    {
        let e = &entries[i];
        assert(entries@.take(i + 1).drop_last() =~= entries@.take(i as int));
        match &e.name {
            None => {},
            Some(n) => match &e.kind {
                EntryKind::Directory(children) => {
                    if !is_excluded_dir(n.as_str()) {
                        let sub_path = join_path(start_path, n.as_str());
                        let found = search_blps(sub_path.as_str(), children);
                        let ghost before = paths.deep_view();
                        let mut j: usize = 0;
                        while j < found.len()
                            invariant
                                j <= found.len(),
                                paths.deep_view() == before + found.deep_view().take(j as int),
                            decreases found.len() - j,
                        {
                            let item = found[j].clone();
                            assert(found.deep_view()[j as int] == item@);
                            let ghost mid = paths@;
                            paths.push(item);
                            assert(paths@ =~= mid.push(item));
                            assert(mid.map(|k: int, t: String| t.deep_view()) == before
                                + found.deep_view().take(j as int));
                            assert(paths.deep_view() =~= (before + found.deep_view().take(
                                j as int,
                            )).push(item@));
                            assert(found.deep_view().take(j + 1) =~= found.deep_view().take(
                                j as int,
                            ).push(found.deep_view()[j as int]));
                            assert(paths.deep_view() =~= before + found.deep_view().take(
                                j + 1,
                            ));
                            j = j + 1;
                        }
                        assert(found.deep_view().take(j as int) =~= found.deep_view());
                    }
                },
                EntryKind::File | EntryKind::Symlink => {
                    if is_source_file(n.as_str()) {
                        let ghost before = paths.deep_view();
                        paths.push(join_path(start_path, n.as_str()));
                        assert(paths.deep_view() =~= before.push(joined(start_path@, n@)));
                    }
                },
                _ => {},
            },
        }
        i = i + 1;
    }
    assert(entries@.take(i as int) =~= entries@);
    proof {
        lemma_discovered_counts(start_path@, entries@);
        assert forall|k: int| 0 <= k < paths@.len() implies is_source_name(#[trigger] paths@[k]@) by {
            assert(paths@[k]@ == paths.deep_view()[k]);
        }
    }
    paths
}

/// The number of source files anywhere in `entries`, excluded directories
/// included (entries with undecodable names are not counted, nor anything
/// below them).
pub open spec fn count_sources(entries: Seq<DirEntry>) -> nat
    decreases entries,
{
    if entries.len() == 0 {
        0
    } else {
        let e = entries.last();
        let before = count_sources(entries.drop_last());
        match e.name {
            None => before,
            Some(n) => match e.kind {
                EntryKind::Directory(children) => before + count_sources(children@),
                EntryKind::File | EntryKind::Symlink => if is_source_name(n@) {
                    before + 1
                } else {
                    before
                },
                _ => before,
            },
        }
    }
}

/// The number of source files that lie inside an excluded directory.
pub open spec fn count_shadowed(entries: Seq<DirEntry>) -> nat
    decreases entries,
{
    if entries.len() == 0 {
        0
    } else {
        let e = entries.last();
        let before = count_shadowed(entries.drop_last());
        match e.name {
            None => before,
            Some(n) => match e.kind {
                EntryKind::Directory(children) => if is_excluded_name(n@) {
                    before + count_sources(children@)
                } else {
                    before + count_shadowed(children@)
                },
                _ => before,
            },
        }
    }
}

/// Two listings that differ at most in what excluded directories hold: the
/// same names in the same order, the same kinds, and the same contents in
/// every directory that is searched.
pub open spec fn same_outside_excluded(a: Seq<DirEntry>, b: Seq<DirEntry>) -> bool
    decreases a,
{
    if a.len() != b.len() {
        false
    } else if a.len() == 0 {
        true
    } else {
        let x = a.last();
        let y = b.last();
        same_outside_excluded(a.drop_last(), b.drop_last()) && x.name == y.name && match (
            x.kind,
            y.kind,
        ) {
            (EntryKind::Directory(c), EntryKind::Directory(d)) => match x.name {
                Some(n) => is_excluded_name(n@) || same_outside_excluded(c@, d@),
                None => true,
            },
            (EntryKind::File, EntryKind::File) => true,
            (EntryKind::Symlink, EntryKind::Symlink) => true,
            (EntryKind::Other, EntryKind::Other) => true,
            (EntryKind::Unknown, EntryKind::Unknown) => true,
            _ => false,
        }
    }
}

proof fn lemma_joined_keeps_suffix(parent: Seq<char>, name: Seq<char>)
    requires
        is_source_name(name),
    ensures
        is_source_name(joined(parent, name)),
{
    let p = joined(parent, name);
    assert(p.subrange(p.len() - 4, p.len() as int) =~= name.subrange(
        name.len() - 4,
        name.len() as int,
    ));
}

proof fn lemma_discovered_counts(prefix: Seq<char>, entries: Seq<DirEntry>)
    ensures
        discovered(prefix, entries).len() + count_shadowed(entries) == count_sources(entries),
        forall|k: int|
            0 <= k < discovered(prefix, entries).len() ==> is_source_name(
                #[trigger] discovered(prefix, entries)[k],
            ),
    decreases entries,
{
    if entries.len() > 0 {
        let e = entries.last();
        lemma_discovered_counts(prefix, entries.drop_last());
        if let Some(n) = e.name {
            match e.kind {
                EntryKind::Directory(children) => {
                    lemma_discovered_counts(joined(prefix, n@), children@);
                },
                EntryKind::File | EntryKind::Symlink => {
                    if is_source_name(n@) {
                        lemma_joined_keeps_suffix(prefix, n@);
                    }
                },
                _ => {},
            }
        }
    }
}

/// In a tree where no excluded directory holds a source file, discovery
/// returns exactly as many paths as there are source files, and each of them
/// ends with `.blp`.
pub proof fn lemma_discover_finds_every_source(prefix: Seq<char>, entries: Seq<DirEntry>)
    requires
        count_shadowed(entries) == 0,
    ensures
        discovered(prefix, entries).len() == count_sources(entries),
        forall|k: int|
            0 <= k < discovered(prefix, entries).len() ==> is_source_name(
                #[trigger] discovered(prefix, entries)[k],
            ),
{
    lemma_discovered_counts(prefix, entries);
}

/// What an excluded directory holds never reaches the result: two trees that
/// differ only inside excluded directories give the same paths.
pub proof fn lemma_excluded_contents_ignored(
    prefix: Seq<char>,
    a: Seq<DirEntry>,
    b: Seq<DirEntry>,
)
    requires
        same_outside_excluded(a, b),
    ensures
        discovered(prefix, a) == discovered(prefix, b),
    decreases a,
{
    if a.len() > 0 {
        lemma_excluded_contents_ignored(prefix, a.drop_last(), b.drop_last());
        let x = a.last();
        let y = b.last();
        if let Some(n) = x.name {
            match (x.kind, y.kind) {
                (EntryKind::Directory(c), EntryKind::Directory(d)) => {
                    if !is_excluded_name(n@) {
                        lemma_excluded_contents_ignored(joined(prefix, n@), c@, d@);
                    }
                },
                _ => {},
            }
        }
    }
}

} // verus!
