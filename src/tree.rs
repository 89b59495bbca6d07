use vstd::prelude::*;
use vstd::multiset::Multiset;
use crate::order::{lemma_lex_reflexive, lemma_lex_total, lemma_lex_transitive, lex_le, text_le};

verus! {

broadcast use vstd::seq_lib::group_to_multiset_ensures;

/// One filesystem entry as enumerated.
#[derive(Debug, PartialEq, Eq)]
pub struct FileNode {
    /// Base name.
    pub name: String,
    /// Full path.
    pub path: String,
    pub is_directory: bool,
    /// The entries of a directory that was expanded; `None` when it was not
    /// (which says nothing about whether it is empty), and for files.
    pub children: Option<Vec<FileNode>>,
    /// Length in bytes; files only.
    pub size: Option<u64>,
    /// Modification time in seconds since the epoch, when the system gave one.
    pub modified: Option<u64>,
}

/// What a directory listing reports of one entry.
#[derive(Debug, PartialEq, Eq)]
pub struct EntryInfo {
    pub name: String,
    pub path: String,
    pub is_directory: bool,
    /// Length in bytes as the metadata gives it.
    pub len: u64,
    pub modified: Option<u64>,
}

/// The text `s` in lower case, as `str::to_lowercase` gives it.
pub uninterp spec fn lower_of(s: Seq<char>) -> Seq<char>;

/// Relies on `str::to_lowercase`: the result depends on the text alone.
#[verifier::external_body]
fn lowercase(s: &str) -> (r: String)
    ensures
        r@ == lower_of(s@),
{
    s.to_lowercase()
}

/// Listing order: directories before files, then by lower-cased name.
pub open spec fn node_le(a: FileNode, b: FileNode) -> bool {
    if a.is_directory != b.is_directory {
        a.is_directory
    } else {
        lex_le(lower_of(a.name@), lower_of(b.name@))
    }
}

/// `s` is in listing order.
pub open spec fn in_listing_order(s: Seq<FileNode>) -> bool {
    forall|i: int, j: int| 0 <= i < j < s.len() ==> node_le(#[trigger] s[i], #[trigger] s[j])
}

proof fn lemma_node_total(a: FileNode, b: FileNode)
    ensures
        node_le(a, b) || node_le(b, a),
{
    lemma_lex_total(lower_of(a.name@), lower_of(b.name@));
}

proof fn lemma_node_reflexive(a: FileNode)
    ensures
        node_le(a, a),
{
    lemma_lex_reflexive(lower_of(a.name@));
}

proof fn lemma_node_transitive(a: FileNode, b: FileNode, c: FileNode)
    requires
        node_le(a, b),
        node_le(b, c),
    ensures
        node_le(a, c),
{
    if a.is_directory == b.is_directory && b.is_directory == c.is_directory {
        lemma_lex_transitive(lower_of(a.name@), lower_of(b.name@), lower_of(c.name@));
    }
}

/// Whether `a` may stand before `b` in a listing.
pub fn listed_before_or_with(a: &FileNode, b: &FileNode) -> (r: bool)
    ensures
        r == node_le(*a, *b),
{
    if a.is_directory != b.is_directory {
        a.is_directory
    } else {
        let x = lowercase(a.name.as_str());
        let y = lowercase(b.name.as_str());
        text_le(x.as_str(), y.as_str())
    }
}

/// The node for an entry: directories keep the children handed in and carry
/// no size; files carry their length and no children.
pub open spec fn node_of(e: EntryInfo, children: Option<Vec<FileNode>>) -> FileNode {
    FileNode {
        name: e.name,
        path: e.path,
        is_directory: e.is_directory,
        children: if e.is_directory { children } else { None },
        size: if e.is_directory { None } else { Some(e.len) },
        modified: e.modified,
    }
}

impl FileNode {
    /// Builds the node of a listed entry.
    pub fn from_entry(e: EntryInfo, children: Option<Vec<FileNode>>) -> (r: FileNode)
        ensures
            r == node_of(e, children),
    {
        let is_directory = e.is_directory;
        FileNode {
            name: e.name,
            path: e.path,
            is_directory,
            children: if is_directory { children } else { None },
            size: if is_directory { None } else { Some(e.len) },
            modified: e.modified,
        }
    }
}

/// Whether a listing expands the entry: directories only, and only when the
/// listing is recursive.
pub fn expands(is_directory: bool, recursive: bool) -> (r: bool)
    ensures
        r == (is_directory && recursive),
{
    is_directory && recursive
}

/// `r` holds the nodes of `s` found at the positions `p`, each position once,
/// and nodes that compare equal stand in `r` in the order of their positions.
pub open spec fn stable_arrangement(s: Seq<FileNode>, r: Seq<FileNode>, p: Seq<int>) -> bool {
    &&& p.len() == r.len()
    &&& forall|k: int| 0 <= k < r.len() ==> 0 <= #[trigger] p[k] < s.len() && r[k] == s[p[k]]
    &&& forall|a: int, b: int| 0 <= a < b < r.len() ==> #[trigger] p[a] != #[trigger] p[b]
    &&& forall|a: int, b: int| 0 <= a < b < r.len() && node_le(#[trigger] r[b], #[trigger] r[a]) ==> p[a] < p[b]
}

/// Puts one directory level into listing order. The result holds the same
/// nodes; nodes that compare equal keep their relative order.
pub fn order_level(nodes: Vec<FileNode>) -> (r: Vec<FileNode>)
    ensures
        in_listing_order(r@),
        r@.to_multiset() == nodes@.to_multiset(),
        exists|p: Seq<int>| stable_arrangement(nodes@, r@, p),
{
    let ghost orig = nodes@;
    let ghost n = orig.len() as int;
    let ghost mut pos: Seq<int> = Seq::new(orig.len(), |i: int| i);
    let ghost mut opos: Seq<int> = Seq::empty();
    let mut rest = nodes;
    let mut out: Vec<FileNode> = Vec::new();
    while rest.len() > 0
        invariant
            in_listing_order(out@),
            forall|i: int, j: int| 0 <= i < out@.len() && 0 <= j < rest@.len()
                ==> node_le(#[trigger] out@[i], #[trigger] rest@[j]),
            out@.to_multiset().add(rest@.to_multiset()) == orig.to_multiset(),
            n == orig.len(),
            pos.len() == rest@.len(),
            forall|k: int| 0 <= k < rest@.len() ==> 0 <= #[trigger] pos[k] < n && rest@[k] == orig[pos[k]],
            forall|k: int, l: int| 0 <= k < l < rest@.len() ==> #[trigger] pos[k] < #[trigger] pos[l],
            stable_arrangement(orig, out@, opos),
            forall|a: int, k: int| 0 <= a < out@.len() && 0 <= k < rest@.len() ==> #[trigger] opos[a] != #[trigger] pos[k],
            forall|a: int, k: int| 0 <= a < out@.len() && 0 <= k < rest@.len()
                && node_le(#[trigger] rest@[k], #[trigger] out@[a]) ==> opos[a] < pos[k],
        decreases rest.len(),
    {
        // find the first least node
        let mut m: usize = 0;
        let mut j: usize = 1;
        proof {
            lemma_node_reflexive(rest@[0]);
        }
        while j < rest.len()
            invariant
                0 <= m < j <= rest.len(),
                forall|k: int| 0 <= k < j ==> node_le(rest@[m as int], #[trigger] rest@[k]),
                forall|k: int| 0 <= k < m ==> !node_le(#[trigger] rest@[k], rest@[m as int]),
            decreases rest.len() - j,
        {
            if !listed_before_or_with(&rest[m], &rest[j]) {
                proof {
                    lemma_node_total(rest@[m as int], rest@[j as int]);
                    assert forall|k: int| 0 <= k < j implies node_le(rest@[j as int], #[trigger] rest@[k]) by {
                        lemma_node_transitive(rest@[j as int], rest@[m as int], rest@[k]);
                    }
                    assert forall|k: int| 0 <= k < j implies !node_le(#[trigger] rest@[k], rest@[j as int]) by {
                        if node_le(rest@[k], rest@[j as int]) {
                            if k < m {
                                lemma_node_transitive(rest@[k], rest@[j as int], rest@[m as int]);
                            } else {
                                lemma_node_transitive(rest@[m as int], rest@[k], rest@[j as int]);
                            }
                        }
                    }
                    lemma_node_reflexive(rest@[j as int]);
                }
                m = j;
            }
            j = j + 1;
        }
        let ghost old_rest = rest@;
        let ghost old_out = out@;
        let ghost old_pos = pos;
        let ghost old_opos = opos;
        let x = rest.remove(m);
        proof {
            assert(old_rest.remove(m as int).to_multiset() =~= old_rest.to_multiset().remove(x));
            assert(old_out.push(x).to_multiset() =~= old_out.to_multiset().insert(x));
            assert(old_rest.to_multiset().count(x) > 0) by {
                assert(old_rest.contains(x)) by {
                    assert(old_rest[m as int] == x);
                }
            }
            assert(old_out.push(x).to_multiset().add(old_rest.remove(m as int).to_multiset())
                =~= old_out.to_multiset().add(old_rest.to_multiset()));
            pos = old_pos.remove(m as int);
            opos = old_opos.push(old_pos[m as int]);
        }
        out.push(x);
        proof {
            assert forall|i: int, k: int| 0 <= i < out@.len() && 0 <= k < rest@.len()
                implies node_le(#[trigger] out@[i], #[trigger] rest@[k]) by {
                if k < m {
                    assert(rest@[k] == old_rest[k]);
                } else {
                    assert(rest@[k] == old_rest[k + 1]);
                }
            }
            assert forall|k: int| 0 <= k < rest@.len() implies 0 <= #[trigger] pos[k] < n && rest@[k] == orig[pos[k]] by {
                if k < m {
                    assert(rest@[k] == old_rest[k]);
                } else {
                    assert(rest@[k] == old_rest[k + 1]);
                }
            }
            assert forall|k: int, l: int| 0 <= k < l < rest@.len() implies #[trigger] pos[k] < #[trigger] pos[l] by {
                let k0 = if k < m { k } else { k + 1 };
                let l0 = if l < m { l } else { l + 1 };
                assert(old_pos[k0] < old_pos[l0]);
            }
            assert forall|k: int| 0 <= k < out@.len() implies (0 <= #[trigger] opos[k] < orig.len() && out@[k] == orig[opos[k]]) by {
                if k < old_out.len() {
                    assert(out@[k] == old_out[k]);
                    assert(opos[k] == old_opos[k]);
                    assert(0 <= old_opos[k] < orig.len() && old_out[k] == orig[old_opos[k]]);
                } else {
                    assert(0 <= old_pos[m as int] < n && old_rest[m as int] == orig[old_pos[m as int]]);
                    assert(opos[k] == old_pos[m as int]);
                    assert(out@[k] == old_rest[m as int]);
                }
            }
            assert forall|a: int, b: int| 0 <= a < b < out@.len() implies #[trigger] opos[a] != #[trigger] opos[b] by {
                if b == old_out.len() {
                    assert(old_opos[a] != old_pos[m as int]);
                }
            }
            assert forall|a: int, b: int| 0 <= a < b < out@.len() && node_le(#[trigger] out@[b], #[trigger] out@[a])
                implies opos[a] < opos[b] by {
                if b == old_out.len() {
                    assert(out@[b] == old_rest[m as int]);
                    assert(out@[a] == old_out[a]);
                } else {
                    assert(out@[b] == old_out[b]);
                    assert(out@[a] == old_out[a]);
                }
            }
            assert(stable_arrangement(orig, out@, opos));
            assert forall|a: int, k: int| 0 <= a < out@.len() && 0 <= k < rest@.len() implies #[trigger] opos[a] != #[trigger] pos[k] by {
                let k0 = if k < m { k } else { k + 1 };
                assert(pos[k] == old_pos[k0]);
                if a < old_out.len() {
                    assert(old_opos[a] != old_pos[k0]);
                } else {
                    if k0 < m {
                        assert(old_pos[k0] < old_pos[m as int]);
                    } else {
                        assert(old_pos[m as int] < old_pos[k0]);
                    }
                }
            }
            assert forall|a: int, k: int| 0 <= a < out@.len() && 0 <= k < rest@.len()
                && node_le(#[trigger] rest@[k], #[trigger] out@[a]) implies opos[a] < pos[k] by {
                let k0 = if k < m { k } else { k + 1 };
                assert(pos[k] == old_pos[k0]);
                assert(rest@[k] == old_rest[k0]);
                if a < old_out.len() {
                    assert(out@[a] == old_out[a]);
                } else {
                    assert(out@[a] == old_rest[m as int]);
                    if k0 < m {
                        assert(!node_le(old_rest[k0], old_rest[m as int]));
                    } else {
                        assert(old_pos[m as int] < old_pos[k0]);
                    }
                }
            }
        }
    }
    assert(rest@.to_multiset() =~= Multiset::empty());
    assert(out@.to_multiset() =~= out@.to_multiset().add(Multiset::empty()));
    assert(stable_arrangement(orig, out@, opos));
    out
}

/// The nodes of one level: entry `i` with the `i`-th expansion handed in, if any.
pub open spec fn level_nodes(entries: Seq<EntryInfo>, expanded: Seq<Option<Vec<FileNode>>>) -> Seq<FileNode> {
    Seq::new(entries.len(), |i: int| node_of(entries[i], if i < expanded.len() { expanded[i] } else { None }))
}

/// Builds one directory level from its entries and the children of those that
/// were expanded (by position), in listing order; entries that compare equal
/// keep the order of the listing. No directory of the result carries a size.
pub fn assemble_level(entries: Vec<EntryInfo>, expanded: Vec<Option<Vec<FileNode>>>) -> (r: Vec<FileNode>)
    ensures
        in_listing_order(r@),
        r@.to_multiset() == level_nodes(entries@, expanded@).to_multiset(),
        exists|p: Seq<int>| stable_arrangement(level_nodes(entries@, expanded@), r@, p),
        forall|i: int| 0 <= i < r@.len() && (#[trigger] r@[i]).is_directory ==> r@[i].size is None,
{
    let ghost all = level_nodes(entries@, expanded@);
    let ghost orig_e = entries@;
    let ghost orig_x = expanded@;
    let n = entries.len();
    let mut entries = entries;
    let mut expanded = expanded;
    let mut nodes: Vec<FileNode> = Vec::new();
    let mut k: usize = 0;
    while entries.len() > 0
        invariant
            k + entries@.len() == orig_e.len(),
            orig_e.len() == n,
            entries@ == orig_e.subrange(k as int, orig_e.len() as int),
            k <= orig_x.len() ==> expanded@ == orig_x.subrange(k as int, orig_x.len() as int),
            k > orig_x.len() ==> expanded@.len() == 0,
            all == level_nodes(orig_e, orig_x),
            nodes@ == all.subrange(0, k as int),
        decreases entries.len(),
    {
        let e = entries.remove(0);
        let children = if expanded.len() > 0 { expanded.remove(0) } else { None };
        let node = FileNode::from_entry(e, children);
        nodes.push(node);
        k = k + 1;
        assert(nodes@ =~= all.subrange(0, k as int));
    }
    assert(nodes@ =~= all);
    let r = order_level(nodes);
    assert forall|i: int| 0 <= i < r@.len() && (#[trigger] r@[i]).is_directory implies r@[i].size is None by {
        assert(r@.to_multiset().count(r@[i]) > 0);
        assert(all.contains(r@[i]));
    }
    r
}

} // verus!
