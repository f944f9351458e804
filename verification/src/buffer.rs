//! The logical buffer and the span map, and their construction from the
//! modelled DOM subtree.
//!
//! Extraction walks the subtree, accumulates the rendered text into a flat
//! buffer, and records, for each text run, the logical range it occupies
//! paired with the DOM position range it came from.  The recorded logical
//! ranges partition the buffer exactly: consecutive, in order, covering
//! offset 0 through the content length.

use vstd::prelude::*;
use vstd::string::StrSliceExecFns;
use vstd::string::StringExecFns;

use crate::dom::DomNode;
use crate::dom::DomPosition;
use crate::dom::node_at;
use crate::dom::node_path_valid;
use crate::dom::node_text;
use crate::dom::nodes_text;
use crate::dom::lemma_nodes_text_take_succ;
use crate::editor::Bound;
use crate::editor::BoundTup;

verus! {

/// A range of logical buffer offsets.
pub type BufferRange = BoundTup<usize>;

/// Whether one endpoint lies within a buffer of length `n`.
pub open spec fn bound_within(b: Bound<usize>, n: nat) -> bool {
    match b {
        Bound::Unbounded => true,
        Bound::Included(x) => x <= n,
        Bound::Excluded(x) => x <= n,
    }
}

/// The `BufferRange` invariant: both endpoints lie within `[0, n]`, and if
/// both are concrete the start does not pass the end.
pub open spec fn range_wf(r: BufferRange, n: nat) -> bool {
    &&& bound_within(r.0, n)
    &&& bound_within(r.1, n)
    &&& match (r.0, r.1) {
        (Bound::Included(s), Bound::Included(e)) => s <= e,
        (Bound::Included(s), Bound::Excluded(e)) => s <= e,
        (Bound::Excluded(s), Bound::Included(e)) => s <= e,
        (Bound::Excluded(s), Bound::Excluded(e)) => s <= e,
        _ => true,
    }
}

/// The logical content: the flat text plus its ordered formatting spans.
pub struct Buffer {
    /// The flat logical text content.
    pub content: String,
    /// The formatting or structural regions, as logical ranges.
    pub spans: Vec<BufferRange>,
}

impl Buffer {
    /// Every span's bounds lie within the content.
    pub open spec fn wf(&self) -> bool {
        forall|i: int|
            0 <= i < self.spans@.len() ==> range_wf(#[trigger] self.spans@[i], self.content@.len())
    }
}

/// One association between a logical buffer range and the DOM position range
/// it renders at.
pub struct SpanEntry {
    /// The logical range, as bounds over buffer offsets.
    pub logical: BufferRange,
    /// The DOM range, as bounds over positions in the extracted subtree.
    pub dom: BoundTup<DomPosition>,
}

/// The non-owning mapping between logical ranges and DOM position ranges.
/// It must be rebuilt whenever the host mutates the subtree it was extracted
/// from.
pub struct HtmlSpanMap {
    /// The associations, in logical order.
    pub entries: Vec<SpanEntry>,
}

/// Whether the logical ranges of `es` tile the buffer exactly from offset
/// `from` to offset `to`: each entry is a concrete `[Included, Excluded)`
/// range, each begins where the previous one ended, and the last ends at
/// `to`.
pub open spec fn entries_cover(es: Seq<SpanEntry>, from: nat, to: nat) -> bool
    decreases es.len(),
{
    if es.len() == 0 {
        from == to
    } else {
        match es[0].logical {
            (Bound::Included(l), Bound::Excluded(r)) => {
                &&& l == from
                &&& l <= r
                &&& entries_cover(es.subrange(1, es.len() as int), r as nat, to)
            },
            _ => false,
        }
    }
}

/// Whether one span entry correctly associates a text run with its place in
/// the tree: under the path prefix `prefix`, the entry's DOM range names a
/// text node of `n` in full, and that node's characters are exactly the
/// entry's logical slice of `content`.
pub open spec fn run_entry_ok(n: DomNode, prefix: Seq<usize>, content: Seq<char>, e: SpanEntry) -> bool {
    match (e.logical, e.dom) {
        ((Bound::Included(l), Bound::Excluded(r)), (Bound::Included(ps), Bound::Excluded(pe))) => {
            &&& pe.path@ == ps.path@
            &&& ps.offset == 0
            &&& prefix.len() <= ps.path@.len()
            &&& ps.path@.subrange(0, prefix.len() as int) == prefix
            &&& {
                let rel = ps.path@.subrange(prefix.len() as int, ps.path@.len() as int);
                &&& node_path_valid(n, rel)
                &&& node_at(n, rel) matches DomNode::Text(t) && {
                    &&& pe.offset == t@.len()
                    &&& l <= r <= content.len()
                    &&& t@ == content.subrange(l as int, r as int)
                }
            }
        },
        _ => false,
    }
}

/// The DOM path an entry's start position records.
pub open spec fn entry_path(e: SpanEntry) -> Seq<usize> {
    e.dom.0->Included_0.path@
}

/// Strict lexicographic order on child-index paths: document order for
/// paths that lead to distinct text nodes.
pub open spec fn path_lt(a: Seq<usize>, b: Seq<usize>) -> bool
    decreases a.len(),
{
    if a.len() == 0 {
        b.len() > 0
    } else if b.len() == 0 {
        false
    } else if a[0] != b[0] {
        a[0] < b[0]
    } else {
        path_lt(a.subrange(1, a.len() as int), b.subrange(1, b.len() as int))
    }
}

/// Paths that agree up to position `p` and diverge there order by the index
/// at `p`.
pub proof fn lemma_path_lt_at(a: Seq<usize>, b: Seq<usize>, p: int)
    requires
        0 <= p < a.len(),
        p < b.len(),
        a.subrange(0, p) == b.subrange(0, p),
        a[p] < b[p],
    ensures
        path_lt(a, b),
    decreases p,
{
    if p == 0 {
    } else {
        assert(a.subrange(0, p)[0] == a[0]);
        assert(b.subrange(0, p)[0] == b[0]);
        let a1 = a.subrange(1, a.len() as int);
        let b1 = b.subrange(1, b.len() as int);
        assert(a1.subrange(0, p - 1) =~= b1.subrange(0, p - 1)) by {
            assert forall|j: int| 0 <= j < p - 1 implies #[trigger] a1.subrange(0, p - 1)[j]
                == b1.subrange(0, p - 1)[j] by {
                assert(a.subrange(0, p)[j + 1] == a[j + 1]);
                assert(b.subrange(0, p)[j + 1] == b[j + 1]);
            }
        }
        assert(a1[p - 1] == a[p]);
        assert(b1[p - 1] == b[p]);
        lemma_path_lt_at(a1, b1, p - 1);
    }
}

impl HtmlSpanMap {
    /// The map's keys partition a buffer of length `n` exactly.
    pub open spec fn wf(&self, n: nat) -> bool {
        entries_cover(self.entries@, 0, n)
    }

    /// Every entry resolves, in the tree it was extracted from, to the text
    /// node that renders exactly its logical slice of `content`, and the
    /// recorded DOM paths are strictly increasing in document order — so
    /// entry `i` names exactly the `i`-th text run of the tree: the
    /// bidirectional association between buffer offsets and DOM positions.
    pub open spec fn maps_tree(&self, root: DomNode, content: Seq<char>) -> bool {
        &&& forall|i: int|
            0 <= i < self.entries@.len() ==> run_entry_ok(
                root,
                Seq::empty(),
                content,
                #[trigger] self.entries@[i],
            )
        &&& forall|i: int|
            0 <= i < self.entries@.len() - 1 ==> path_lt(
                entry_path(#[trigger] self.entries@[i]),
                entry_path(self.entries@[i + 1]),
            )
    }
}

/// Two tilings that meet at `mid` concatenate into one.
pub proof fn lemma_entries_cover_concat(
    a: Seq<SpanEntry>,
    b: Seq<SpanEntry>,
    from: nat,
    mid: nat,
    to: nat,
)
    requires
        entries_cover(a, from, mid),
        entries_cover(b, mid, to),
    ensures
        entries_cover(a + b, from, to),
    decreases a.len(),
{
    if a.len() == 0 {
        assert(a + b =~= b);
    } else {
        assert((a + b)[0] == a[0]);
        assert((a + b).subrange(1, (a + b).len() as int) =~= a.subrange(1, a.len() as int) + b);
        match a[0].logical {
            (Bound::Included(l), Bound::Excluded(r)) => {
                lemma_entries_cover_concat(a.subrange(1, a.len() as int), b, r as nat, mid, to);
            },
            _ => {
                assert(false);
            },
        }
    }
}

/// A tiling's endpoints are ordered, and every entry's range lies within it.
pub proof fn lemma_entries_cover_wf(es: Seq<SpanEntry>, from: nat, to: nat)
    requires
        entries_cover(es, from, to),
    ensures
        from <= to,
        forall|i: int| 0 <= i < es.len() ==> range_wf(#[trigger] es[i].logical, to),
    decreases es.len(),
{
    if es.len() == 0 {
    } else {
        match es[0].logical {
            (Bound::Included(l), Bound::Excluded(r)) => {
                let tail = es.subrange(1, es.len() as int);
                lemma_entries_cover_wf(tail, r as nat, to);
                assert(range_wf(es[0].logical, to));
                assert forall|i: int| 1 <= i < es.len() implies range_wf(
                    #[trigger] es[i].logical,
                    to,
                ) by {
                    assert(es[i] == tail[i - 1]);
                }
            },
            _ => {
                assert(false);
            },
        }
    }
}

/// Copy a path of child indices.
fn clone_path(p: &Vec<usize>) -> (r: Vec<usize>)
    ensures
        r@ == p@,
{
    let mut r: Vec<usize> = Vec::new();
    let mut i: usize = 0;
    while i < p.len()
        invariant
            i <= p@.len(),
            r@ == p@.subrange(0, i as int),
        decreases p@.len() - i,
    {
        r.push(p[i]);
        proof {
            assert(p@.subrange(0, i + 1 as int) =~= p@.subrange(0, i as int).push(p@[i as int]));
        }
        i = i + 1;
    }
    proof {
        assert(p@.subrange(0, p@.len() as int) =~= p@);
    }
    r
}

/// Walk `n`, appending its rendered text to `content` and recording one span
/// entry per text run.  `path` carries the child indices from the extraction
/// root down to `n`; it is restored before returning.
#[verifier::loop_isolation(false)]
fn extract_into(n: &DomNode, path: &mut Vec<usize>, content: &mut String, entries: &mut Vec<
    SpanEntry,
>)
    ensures
        final(content)@ == old(content)@ + node_text(*n),
        final(path)@ == old(path)@,
        final(entries)@.len() >= old(entries)@.len(),
        final(entries)@.subrange(0, old(entries)@.len() as int) == old(entries)@,
        entries_cover(
            final(entries)@.subrange(old(entries)@.len() as int, final(entries)@.len() as int),
            old(content)@.len(),
            final(content)@.len(),
        ),
        forall|k: int|
            old(entries)@.len() <= k < final(entries)@.len() ==> run_entry_ok(
                *n,
                old(path)@,
                final(content)@,
                #[trigger] final(entries)@[k],
            ),
        forall|k: int|
            old(entries)@.len() <= k < final(entries)@.len() - 1 ==> path_lt(
                entry_path(#[trigger] final(entries)@[k]),
                entry_path(final(entries)@[k + 1]),
            ),
    decreases *n,
{
    match n {
        DomNode::Text(s) => {
            let start = content.as_str().unicode_len();
            let run_len = s.as_str().unicode_len();
            content.append(s.as_str());
            let end = content.as_str().unicode_len();
            let entry = SpanEntry {
                logical: (Bound::Included(start), Bound::Excluded(end)),
                dom: (
                    Bound::Included(DomPosition { path: clone_path(path), offset: 0 }),
                    Bound::Excluded(DomPosition { path: clone_path(path), offset: run_len }),
                ),
            };
            entries.push(entry);
            proof {
                let suffix = entries@.subrange(old(entries)@.len() as int, entries@.len() as int);
                assert(suffix =~= seq![entry]);
                assert(seq![entry][0] == entry);
                assert(seq![entry].subrange(1, 1) =~= Seq::<SpanEntry>::empty());
                assert(entries_cover(Seq::<SpanEntry>::empty(), end as nat, end as nat));
                assert(entries_cover(seq![entry], start as nat, end as nat));
                assert(start as nat == old(content)@.len());
                assert(end as nat == content@.len());
                assert(entries@.subrange(0, old(entries)@.len() as int) =~= old(entries)@);
                let ps = entry.dom.0->Included_0;
                assert(ps.path@.subrange(0, old(path)@.len() as int) =~= old(path)@);
                assert(ps.path@.subrange(old(path)@.len() as int, ps.path@.len() as int) =~= Seq::<
                    usize,
                >::empty());
                assert(node_at(*n, Seq::<usize>::empty()) == *n);
                assert(content@.subrange(start as int, end as int) =~= s@);
                assert(run_entry_ok(*n, old(path)@, content@, entry));
            }
        },
        DomNode::Element(e) => {
            let ghost base_content = content@;
            let ghost base_entries = entries@;
            let mut i: usize = 0;
            while i < e.children.len()
                invariant
                    i <= e.children@.len(),
                    path@ == old(path)@,
                    content@ == base_content + nodes_text(e.children@.subrange(0, i as int)),
                    entries@.len() >= base_entries.len(),
                    entries@.subrange(0, base_entries.len() as int) == base_entries,
                    entries_cover(
                        entries@.subrange(base_entries.len() as int, entries@.len() as int),
                        base_content.len(),
                        content@.len(),
                    ),
                    forall|k: int|
                        base_entries.len() <= k < entries@.len() ==> run_entry_ok(
                            *n,
                            old(path)@,
                            content@,
                            #[trigger] entries@[k],
                        ),
                    forall|k: int|
                        base_entries.len() <= k < entries@.len() ==> (entry_path(
                            #[trigger] entries@[k],
                        ).len() > old(path)@.len() && entry_path(entries@[k])[old(
                            path,
                        )@.len() as int] < i),
                    forall|k: int|
                        base_entries.len() <= k < entries@.len() - 1 ==> path_lt(
                            entry_path(#[trigger] entries@[k]),
                            entry_path(entries@[k + 1]),
                        ),
                decreases e.children@.len() - i,
            {
                let ghost pre_content = content@;
                let ghost pre_entries = entries@;
                path.push(i);
                proof {
                    assert(*e == (*n)->Element_0);
                    assert(decreases_to!(*n => (*n)->Element_0.children[i as int]));
                }
                extract_into(&e.children[i], path, content, entries);
                path.pop();
                proof {
                    assert(path@ =~= old(path)@);
                    lemma_nodes_text_take_succ(e.children@, i as int);
                    let pre_delta = pre_entries.subrange(
                        base_entries.len() as int,
                        pre_entries.len() as int,
                    );
                    let step_delta = entries@.subrange(
                        pre_entries.len() as int,
                        entries@.len() as int,
                    );
                    let full_delta = entries@.subrange(
                        base_entries.len() as int,
                        entries@.len() as int,
                    );
                    assert(entries@.subrange(0, base_entries.len() as int) =~= base_entries);
                    assert(entries@.subrange(base_entries.len() as int, pre_entries.len() as int)
                        =~= pre_delta);
                    assert(full_delta =~= entries@.subrange(
                        base_entries.len() as int,
                        pre_entries.len() as int,
                    ) + step_delta);
                    lemma_entries_cover_concat(
                        pre_delta,
                        step_delta,
                        base_content.len(),
                        pre_content.len(),
                        content@.len(),
                    );
                    let pushed = old(path)@.push(i as usize);
                    assert forall|k: int| base_entries.len() <= k < entries@.len() implies run_entry_ok(
                        *n,
                        old(path)@,
                        content@,
                        #[trigger] entries@[k],
                    ) by {
                        let ent = entries@[k];
                        if k < pre_entries.len() {
                            assert(ent == pre_entries[k]);
                            assert(run_entry_ok(*n, old(path)@, pre_content, ent));
                            let l = ent.logical.0->Included_0;
                            let r = ent.logical.1->Excluded_0;
                            assert(content@.subrange(l as int, r as int) =~= pre_content.subrange(
                                l as int,
                                r as int,
                            ));
                        } else {
                            assert(run_entry_ok(e.children@[i as int], pushed, content@, ent));
                            let ps = ent.dom.0->Included_0;
                            assert(ps.path@.subrange(0, pushed.len() as int) == pushed);
                            assert(ps.path@.subrange(0, old(path)@.len() as int) =~= old(
                                path,
                            )@);
                            let rel_outer = ps.path@.subrange(
                                old(path)@.len() as int,
                                ps.path@.len() as int,
                            );
                            let rel_inner = ps.path@.subrange(
                                pushed.len() as int,
                                ps.path@.len() as int,
                            );
                            assert(ps.path@[old(path)@.len() as int] == pushed[old(
                                path,
                            )@.len() as int]);
                            assert(rel_outer[0] == i as usize);
                            assert(rel_outer.subrange(1, rel_outer.len() as int) =~= rel_inner);
                            assert(node_path_valid(*n, rel_outer));
                            assert(node_at(*n, rel_outer) == node_at(
                                e.children@[i as int],
                                rel_inner,
                            ));
                        }
                    }
                    let plen = old(path)@.len() as int;
                    assert forall|k: int| base_entries.len() <= k < entries@.len() implies (
                    entry_path(#[trigger] entries@[k]).len() > plen && entry_path(entries@[k])[plen]
                        < i + 1) by {
                        if k < pre_entries.len() {
                            assert(entries@[k] == pre_entries[k]);
                        } else {
                            assert(run_entry_ok(
                                e.children@[i as int],
                                pushed,
                                content@,
                                entries@[k],
                            ));
                            let ps = entries@[k].dom.0->Included_0;
                            assert(ps.path@.subrange(0, pushed.len() as int) == pushed);
                            assert(ps.path@.subrange(0, pushed.len() as int)[plen] == ps.path@[
                                plen
                            ]);
                            assert(ps.path@[plen] == pushed[plen]);
                        }
                    }
                    assert forall|k: int| base_entries.len() <= k < entries@.len() - 1 implies
                    path_lt(entry_path(#[trigger] entries@[k]), entry_path(entries@[k + 1])) by {
                        if k + 1 < pre_entries.len() {
                            assert(entries@[k] == pre_entries[k]);
                            assert(entries@[k + 1] == pre_entries[k + 1]);
                        } else if k >= pre_entries.len() {
                        } else {
                            let a = entry_path(entries@[k]);
                            let b = entry_path(entries@[k + 1]);
                            assert(entries@[k] == pre_entries[k]);
                            assert(run_entry_ok(*n, old(path)@, pre_content, pre_entries[k]));
                            assert(run_entry_ok(
                                e.children@[i as int],
                                pushed,
                                content@,
                                entries@[k + 1],
                            ));
                            let psa = pre_entries[k].dom.0->Included_0;
                            let psb = entries@[k + 1].dom.0->Included_0;
                            assert(psa.path@.subrange(0, plen) == old(path)@);
                            assert(psb.path@.subrange(0, pushed.len() as int) == pushed);
                            assert(psb.path@.subrange(0, plen) =~= old(path)@) by {
                                assert forall|j: int| 0 <= j < plen implies psb.path@.subrange(
                                    0,
                                    plen,
                                )[j] == old(path)@[j] by {
                                    assert(psb.path@.subrange(0, pushed.len() as int)[j]
                                        == psb.path@[j]);
                                    assert(pushed[j] == old(path)@[j]);
                                }
                            }
                            assert(psb.path@.subrange(0, pushed.len() as int)[plen] == psb.path@[
                                plen
                            ]);
                            assert(b[plen] == pushed[plen]);
                            assert(a[plen] < i);
                            assert(a.subrange(0, plen) == b.subrange(0, plen));
                            lemma_path_lt_at(a, b, plen);
                        }
                    }
                }
                i = i + 1;
            }
            proof {
                assert(e.children@.subrange(0, e.children@.len() as int) =~= e.children@);
            }
        },
    }
}

/// Build the logical buffer and the span map from the given subtree.  The
/// buffer's content reproduces the subtree's rendered text exactly; the
/// buffer's spans are the map's keys, and they tile the content from offset
/// 0 to its length.
pub fn extract(root: &DomNode) -> (r: (Buffer, HtmlSpanMap))
    ensures
        r.0.content@ == node_text(*root),
        r.0.wf(),
        r.1.wf(r.0.content@.len()),
        r.0.spans@.len() == r.1.entries@.len(),
        forall|i: int|
            0 <= i < r.1.entries@.len() ==> r.0.spans@[i] == #[trigger] r.1.entries@[i].logical,
        r.1.maps_tree(*root, r.0.content@),
{
    let mut content = String::new();
    let mut entries: Vec<SpanEntry> = Vec::new();
    let mut path: Vec<usize> = Vec::new();
    extract_into(root, &mut path, &mut content, &mut entries);
    proof {
        assert(entries@.subrange(0, entries@.len() as int) =~= entries@);
        assert(content@ =~= Seq::<char>::empty() + node_text(*root));
        lemma_entries_cover_wf(entries@, 0, content@.len());
    }
    let mut spans: Vec<BufferRange> = Vec::new();
    let mut i: usize = 0;
    while i < entries.len()
        invariant
            i <= entries@.len(),
            spans@.len() == i,
            forall|j: int| 0 <= j < i ==> spans@[j] == #[trigger] entries@[j].logical,
            entries@.subrange(0, entries@.len() as int) =~= entries@,
            entries_cover(entries@, 0, content@.len()),
            content@ == node_text(*root),
        decreases entries@.len() - i,
    {
        spans.push(entries[i].logical);
        i = i + 1;
    }
    proof {
        lemma_entries_cover_wf(entries@, 0, content@.len());
        assert forall|j: int| 0 <= j < spans@.len() implies range_wf(
            #[trigger] spans@[j],
            content@.len(),
        ) by {
            assert(spans@[j] == entries@[j].logical);
            assert(range_wf(entries@[j].logical, content@.len()));
        }
    }
    (Buffer { content, spans }, HtmlSpanMap { entries })
}

} // verus!
