//! The plugin catalog: every archive of the accepted suffix family under a
//! profile's resource directory, at any depth.

use vstd::prelude::*;
use vstd::string::*;
use crate::extension::{classified, pattern_match, PluginExtension, EXT_PLUGIN_PATTERN};
use crate::metadata::{optional_identity, parsed_identity, Identity, PluginMetadata};

verus! {

/// Size and modification time of a file, as the file system reported them.
#[derive(Debug, Clone, Copy, PartialEq, Eq, Structural)]
pub struct FileMeta {
    pub size: u64,
    pub modified: u64,
}

/// What a directory listing says a node is.
#[derive(Debug, Clone, Copy, PartialEq, Eq, Structural)]
pub enum NodeKind {
    File,
    Directory,
    Other,
}

/// A snapshot of a file or directory, with everything below it.
#[derive(Debug)]
pub struct FsNode {
    /// Full path, as it is handed on to whoever opens the file.
    pub path: String,
    /// The last component of the path.
    pub name: String,
    pub kind: NodeKind,
    pub filemeta: FileMeta,
    /// The nodes directly below a directory, in listing order.
    pub children: Vec<FsNode>,
}

/// Why no catalog entry could be made.
#[derive(Debug, Clone, Copy, PartialEq, Eq, Structural)]
pub enum CatalogError {
    /// The path is absent or of the wrong kind.
    NotFound,
    /// The file name has no suffix.
    InvalidExtension,
}

/// One discovered archive.
#[derive(Debug, Clone)]
pub struct PluginEntry {
    pub path: String,
    pub extension: Option<PluginExtension>,
    pub meta: Option<PluginMetadata>,
    pub filemeta: FileMeta,
}

/// The mathematical value of a catalog entry.
pub struct EntryView {
    pub path: Seq<char>,
    pub extension: Option<PluginExtension>,
    pub meta: Option<Identity>,
    pub filemeta: FileMeta,
}

impl View for PluginEntry {
    type V = EntryView;

    open spec fn view(&self) -> EntryView {
        EntryView {
            path: self.path@,
            extension: self.extension,
            meta: optional_identity(self.meta),
            filemeta: self.filemeta,
        }
    }
}

/// The views of a list of entries.
pub open spec fn entry_views(entries: Seq<PluginEntry>) -> Seq<EntryView> {
    Seq::new(entries.len(), |i: int| entries[i]@)
}

/// Position of the last `.` in a file name, or -1 where there is none.
pub open spec fn last_dot(name: Seq<char>) -> int
    decreases name.len(),
{
    if name.len() == 0 {
        -1
    } else if name.last() == '.' {
        name.len() - 1
    } else {
        last_dot(name.drop_last())
    }
}

/// The suffix of a file name: what follows its last `.`, unless that `.` is
/// the first character or there is none.
pub open spec fn file_extension(name: Seq<char>) -> Option<Seq<char>> {
    let dot = last_dot(name);
    if dot <= 0 {
        None
    } else {
        Some(name.subrange(dot + 1, name.len() as int))
    }
}

/// The stem of a file name: what precedes the `.` of its suffix, or the whole
/// name where it has no suffix.
pub open spec fn file_stem(name: Seq<char>) -> Seq<char> {
    let dot = last_dot(name);
    if dot <= 0 {
        name
    } else {
        name.subrange(0, dot)
    }
}

/// `last_dot` finds a `.` after which no other follows, and -1 only where the
/// name holds none.
pub proof fn lemma_last_dot(name: Seq<char>)
    ensures
        -1 <= last_dot(name) < name.len(),
        last_dot(name) >= 0 ==> name[last_dot(name)] == '.',
        forall|i: int| last_dot(name) < i < name.len() ==> name[i] != '.',
    decreases name.len(),
{
    if name.len() > 0 && name.last() != '.' {
        let front = name.drop_last();
        lemma_last_dot(front);
        assert forall|i: int| last_dot(name) < i < name.len() implies name[i] != '.' by {
            if i < front.len() {
                assert(front[i] == name[i]);
            }
        }
    }
}

/// A text that may be absent, as a mathematical value.
pub open spec fn optional_text(text: Option<String>) -> Option<Seq<char>> {
    match text {
        Some(t) => Some(t@),
        None => None,
    }
}

/// Splits a file name into stem and suffix.
pub fn split_file_name(name: &str) -> (parts: (String, Option<String>))
    ensures
        parts.0@ == file_stem(name@),
        optional_text(parts.1) == file_extension(name@),
{
    let n: usize = name.unicode_len();
    let mut dot: Option<usize> = None;
    let mut i: usize = 0;
    proof {
        assert(name@.take(0) =~= Seq::<char>::empty());
    }
    while i < n
        invariant
            n == name@.len(),
            i <= n,
            match dot {
                Some(d) => d < i && last_dot(name@.take(i as int)) == d,
                None => last_dot(name@.take(i as int)) == -1,
            },
        decreases n - i,
    {
        proof {
            assert(name@.take(i as int + 1).drop_last() =~= name@.take(i as int));
        }
        if name.get_char(i) == '.' {
            dot = Some(i);
        }
        i = i + 1;
    }
    proof {
        assert(name@.take(n as int) =~= name@);
    }
    match dot {
        Some(d) => {
            if d == 0 {
                (name.to_owned(), None)
            } else {
                let stem = name.substring_char(0, d).to_owned();
                let ext = name.substring_char(d + 1, n).to_owned();
                (stem, Some(ext))
            }
        },
        None => (name.to_owned(), None),
    }
}

/// The entry that a file of the given name stands for; none where the name
/// has no suffix.
pub open spec fn entry_for(path: Seq<char>, name: Seq<char>, filemeta: FileMeta) -> Option<
    EntryView,
> {
    match file_extension(name) {
        Some(ext) => Some(
            EntryView {
                path,
                extension: classified(pattern_match(EXT_PLUGIN_PATTERN@, ext), ext),
                meta: parsed_identity(file_stem(name)),
                filemeta,
            },
        ),
        None => None,
    }
}

/// The entries that a file contributes to the catalog: its own, if its suffix
/// belongs to the family.
pub open spec fn file_entries(path: Seq<char>, name: Seq<char>, filemeta: FileMeta) -> Seq<
    EntryView,
> {
    match entry_for(path, name, filemeta) {
        Some(e) => if e.extension is Some {
            seq![e]
        } else {
            Seq::<EntryView>::empty()
        },
        None => Seq::<EntryView>::empty(),
    }
}

/// The catalog of everything at and below `node`, in listing order.
pub open spec fn catalog_of(node: FsNode) -> Seq<EntryView>
    decreases node, 0nat,
{
    match node.kind {
        NodeKind::File => file_entries(node.path@, node.name@, node.filemeta),
        NodeKind::Directory => catalog_of_first(node.children@, node.children@.len()),
        NodeKind::Other => Seq::<EntryView>::empty(),
    }
}

/// The catalog of the first `n` of `nodes`, one after the other.
pub open spec fn catalog_of_first(nodes: Seq<FsNode>, n: nat) -> Seq<EntryView>
    decreases nodes, n,
{
    if n == 0 || n > nodes.len() {
        Seq::<EntryView>::empty()
    } else {
        catalog_of_first(nodes, (n - 1) as nat) + catalog_of(nodes[n - 1])
    }
}

impl PluginEntry {
    /// Makes the entry of one file from its path, its name and what the file
    /// system said of it. The suffix of the name is classified and the stem is
    /// parsed as an identity; a stem that is no identity leaves the entry
    /// without one.
    pub fn new(path: String, name: &str, is_file: bool, filemeta: FileMeta) -> (entry: Result<
        PluginEntry,
        CatalogError,
    >)
        ensures
            match entry {
                Ok(e) => is_file && entry_for(path@, name@, filemeta) == Some(e@),
                Err(CatalogError::NotFound) => !is_file,
                Err(CatalogError::InvalidExtension) => is_file && entry_for(
                    path@,
                    name@,
                    filemeta,
                ) is None,
            },
    {
        if !is_file {
            return Err(CatalogError::NotFound);
        }
        let (stem, ext) = split_file_name(name);
        match ext {
            Some(ext) => {
                let extension = PluginExtension::new(ext.as_str());
                let meta = PluginMetadata::parse(stem.as_str());
                Ok(PluginEntry { path, extension, meta, filemeta })
            },
            None => Err(CatalogError::InvalidExtension),
        }
    }

    /// Catalogs the resource directory of a profile. The directory must be
    /// there: a profile without one, or with something else in its place, has
    /// no catalog.
    pub fn from_profile(resources: Option<&FsNode>) -> (found: Result<
        Vec<PluginEntry>,
        CatalogError,
    >)
        ensures
            match found {
                Ok(entries) => resources is Some && resources->0.kind == NodeKind::Directory
                    && entry_views(entries@) == catalog_of(*resources->0),
                Err(e) => e == CatalogError::NotFound && !(resources is Some
                    && resources->0.kind == NodeKind::Directory),
            },
    {
        match resources {
            Some(root) => Self::scan_dir(root),
            None => Err(CatalogError::NotFound),
        }
    }

    /// Catalogs a directory: every file at any depth below it whose suffix
    /// belongs to the family, in listing order. Files of other suffixes, and
    /// files without one, are passed over. Fails only where `root` is no
    /// directory.
    pub fn scan_dir(root: &FsNode) -> (found: Result<Vec<PluginEntry>, CatalogError>)
        ensures
            match found {
                Ok(entries) => root.kind == NodeKind::Directory && entry_views(entries@)
                    == catalog_of(*root),
                Err(e) => e == CatalogError::NotFound && root.kind != NodeKind::Directory,
            },
    {
        match root.kind {
            NodeKind::Directory => Ok(Self::scan_node(root)),
            _ => Err(CatalogError::NotFound),
        }
    }

    /// Catalogs one node and what lies below it.
    pub fn scan_node(node: &FsNode) -> (entries: Vec<PluginEntry>)
        ensures
            entry_views(entries@) == catalog_of(*node),
        decreases node,
    {
        let mut plugins: Vec<PluginEntry> = Vec::new();
        match node.kind {
            NodeKind::File => {
                let made = Self::new(node.path.clone(), node.name.as_str(), true, node.filemeta);
                match made {
                    Ok(entry) => {
                        if entry.extension.is_some() {
                            plugins.push(entry);
                            assert(entry_views(plugins@) =~= seq![entry@]);
                        } else {
                            assert(entry_views(plugins@) =~= Seq::<EntryView>::empty());
                        }
                    },
                    Err(_) => {
                        assert(entry_views(plugins@) =~= Seq::<EntryView>::empty());
                    },
                }
            },
            NodeKind::Directory => {
                let n: usize = node.children.len();
                let mut i: usize = 0;
                assert(entry_views(plugins@) =~= Seq::<EntryView>::empty());
                while i < n
                    invariant
                        n == node.children@.len(),
                        i <= n,
                        entry_views(plugins@) == catalog_of_first(node.children@, i as nat),
                    decreases n - i,
                {
                    let mut below = Self::scan_node(&node.children[i]);
                    let ghost before = plugins@;
                    let ghost added = below@;
                    plugins.append(&mut below);
                    proof {
                        assert(entry_views(before + added) =~= entry_views(before) + entry_views(
                            added,
                        ));
                    }
                    i = i + 1;
                }
            },
            NodeKind::Other => {
                assert(entry_views(plugins@) =~= Seq::<EntryView>::empty());
            },
        }
        plugins
    }
}

/// Whether `f` is `node` itself or lies below it, at any depth.
pub open spec fn lies_under(f: FsNode, node: FsNode) -> bool
    decreases node,
{
    f == node || (node.kind == NodeKind::Directory && exists|i: int|
        0 <= i < node.children@.len() && lies_under(f, #[trigger] node.children@[i]))
}

/// Whether a file name has a suffix that the family pattern matches.
pub open spec fn in_family(name: Seq<char>) -> bool {
    file_extension(name) is Some && pattern_match(EXT_PLUGIN_PATTERN@, file_extension(name)->0)
        == Some(true)
}

/// Whether `e` is the entry of the file `f`, whose suffix belongs to the
/// family.
pub open spec fn is_family_file(f: FsNode, e: EntryView) -> bool {
    &&& f.kind == NodeKind::File
    &&& in_family(f.name@)
    &&& entry_for(f.path@, f.name@, f.filemeta) == Some(e)
}

/// The catalog holds nothing but entries of files that lie under the scanned
/// node and whose suffix belongs to the family.
pub proof fn lemma_catalog_sound(node: FsNode, k: int)
    requires
        0 <= k < catalog_of(node).len(),
    ensures
        exists|f: FsNode| lies_under(f, node) && is_family_file(f, catalog_of(node)[k]),
    decreases node, 0nat,
{
    let e = catalog_of(node)[k];
    match node.kind {
        NodeKind::File => {
            assert(lies_under(node, node) && is_family_file(node, e));
        },
        NodeKind::Directory => {
            let i = lemma_catalog_of_first_sound(node.children@, node.children@.len(), k);
            lemma_catalog_sound(node.children@[i], catalog_of(node.children@[i]).index_of(e));
            let f = choose|f: FsNode|
                lies_under(f, node.children@[i]) && is_family_file(f, e);
            assert(lies_under(f, node));
        },
        NodeKind::Other => {},
    }
}

/// An entry in the catalog of the first `n` nodes is in the catalog of one of
/// them.
pub proof fn lemma_catalog_of_first_sound(nodes: Seq<FsNode>, n: nat, k: int) -> (i: int)
    requires
        n <= nodes.len(),
        0 <= k < catalog_of_first(nodes, n).len(),
    ensures
        0 <= i < n,
        catalog_of(nodes[i]).contains(catalog_of_first(nodes, n)[k]),
    decreases n,
{
    let front = catalog_of_first(nodes, (n - 1) as nat);
    if k < front.len() {
        lemma_catalog_of_first_sound(nodes, (n - 1) as nat, k)
    } else {
        assert(catalog_of(nodes[n - 1])[k - front.len()] == catalog_of_first(nodes, n)[k]);
        n - 1
    }
}

/// The catalog of the first `n` nodes holds the catalog of each of them.
pub proof fn lemma_catalog_of_first_complete(nodes: Seq<FsNode>, n: nat, i: int, e: EntryView)
    requires
        n <= nodes.len(),
        0 <= i < n,
        catalog_of(nodes[i]).contains(e),
    ensures
        catalog_of_first(nodes, n).contains(e),
    decreases n,
{
    let front = catalog_of_first(nodes, (n - 1) as nat);
    let last = catalog_of(nodes[n - 1]);
    if i < n - 1 {
        lemma_catalog_of_first_complete(nodes, (n - 1) as nat, i, e);
        let k = front.index_of(e);
        assert((front + last)[k] == e);
    } else {
        let k = last.index_of(e);
        assert((front + last)[front.len() + k] == e);
    }
}

/// The catalog holds the entry of every file under the scanned node whose
/// suffix belongs to the family, however deep the file lies.
pub proof fn lemma_catalog_complete(node: FsNode, f: FsNode, e: EntryView)
    requires
        lies_under(f, node),
        is_family_file(f, e),
    ensures
        catalog_of(node).contains(e),
    decreases node,
{
    if f == node {
        assert(catalog_of(node)[0] == e);
    } else {
        let i = choose|i: int|
            0 <= i < node.children@.len() && lies_under(f, #[trigger] node.children@[i]);
        lemma_catalog_complete(node.children@[i], f, e);
        lemma_catalog_of_first_complete(node.children@, node.children@.len(), i, e);
    }
}

} // verus!
