//! A value model of a directory tree, and the routes that publishing such a
//! tree adds to a route table: one GET route per file, at "/" followed by the
//! file's path relative to the published root.

use vstd::prelude::*;
use crate::router::{ActionView, RouteKey};

verus! {

/// One entry of a directory tree: a regular file, or a directory with the
/// entries directly inside it.
pub enum FsNode {
    File { name: String },
    Dir { name: String, entries: Vec<FsNode> },
}

/// The route table after publishing `node`, where `fs_prefix` is the
/// filesystem path of the directory the node sits in (with a trailing
/// separator) and `rel_prefix` is that directory's path relative to the
/// published root (empty at the root, with a trailing separator otherwise).
pub open spec fn routes_after_node(
    m: Map<RouteKey, ActionView>,
    node: FsNode,
    fs_prefix: Seq<char>,
    rel_prefix: Seq<char>,
) -> Map<RouteKey, ActionView>
    decreases node,
{
    match node {
        FsNode::File { name } => m.insert(
            ("GET"@, seq!['/'] + rel_prefix + name@),
            ActionView::ServeFile { file_path: fs_prefix + name@ },
        ),
        FsNode::Dir { name, entries } => routes_after_entries(
            m,
            entries@,
            fs_prefix + name@ + seq!['/'],
            rel_prefix + name@ + seq!['/'],
        ),
    }
}

/// The route table after publishing each entry of `s` in order.
pub open spec fn routes_after_entries(
    m: Map<RouteKey, ActionView>,
    s: Seq<FsNode>,
    fs_prefix: Seq<char>,
    rel_prefix: Seq<char>,
) -> Map<RouteKey, ActionView>
    decreases s,
{
    if s.len() == 0 {
        m
    } else {
        routes_after_entries(
            routes_after_node(m, s[0], fs_prefix, rel_prefix),
            s.drop_first(),
            fs_prefix,
            rel_prefix,
        )
    }
}

/// The route table after publishing the directory `root`: every file beneath
/// it is bound at "/" followed by its root-relative path, and the actions
/// serve the file at the root's filesystem path followed by that same
/// relative path.
pub open spec fn publish_spec(m: Map<RouteKey, ActionView>, root: FsNode) -> Map<RouteKey, ActionView>
    recommends
        root is Dir,
{
    routes_after_entries(m, root->Dir_entries@, root->Dir_name@ + seq!['/'], Seq::empty())
}

/// The route table after publishing each directory of `roots` in order.
pub open spec fn publish_all_spec(m: Map<RouteKey, ActionView>, roots: Seq<FsNode>) -> Map<
    RouteKey,
    ActionView,
>
    decreases roots,
{
    if roots.len() == 0 {
        m
    } else {
        publish_all_spec(publish_spec(m, roots[0]), roots.drop_first())
    }
}

/// Whether `node`, sitting directly inside the reference directory, contains
/// a file whose path relative to that directory is `rel_path`.
pub open spec fn node_contains_file(node: FsNode, rel_path: Seq<char>) -> bool
    decreases node,
{
    match node {
        FsNode::File { name } => rel_path == name@,
        FsNode::Dir { name, entries } => {
            let pre = name@ + seq!['/'];
            &&& rel_path.len() >= pre.len()
            &&& rel_path.take(pre.len() as int) == pre
            &&& entries_contain_file(entries@, rel_path.skip(pre.len() as int))
        },
    }
}

/// Whether one of the entries `s` contains a file at `rel_path`.
pub open spec fn entries_contain_file(s: Seq<FsNode>, rel_path: Seq<char>) -> bool
    decreases s,
{
    exists|i: int| 0 <= i < s.len() && node_contains_file(s[i], rel_path)
}

/// The route keys that publishing `node` binds: one GET key per file, at "/"
/// followed by the file's path relative to the published root.
pub open spec fn node_endpoints(node: FsNode, rel_prefix: Seq<char>) -> Set<RouteKey>
    decreases node,
{
    match node {
        FsNode::File { name } => set![("GET"@, seq!['/'] + rel_prefix + name@)],
        FsNode::Dir { name, entries } => entries_endpoints(entries@, rel_prefix + name@ + seq!['/']),
    }
}

/// The route keys that publishing the entries `s` binds.
pub open spec fn entries_endpoints(s: Seq<FsNode>, rel_prefix: Seq<char>) -> Set<RouteKey>
    decreases s,
{
    if s.len() == 0 {
        Set::empty()
    } else {
        node_endpoints(s[0], rel_prefix).union(entries_endpoints(s.drop_first(), rel_prefix))
    }
}

/// Every key that publishing a node binds is a GET key whose path starts
/// with "/" followed by the relative prefix.
proof fn lemma_endpoints_shape_node(node: FsNode, rel: Seq<char>)
    ensures
        forall|k: RouteKey| #[trigger] node_endpoints(node, rel).contains(k) ==> k.0 == "GET"@
            && k.1.len() >= 1 + rel.len() && k.1.take(1 + rel.len() as int) == seq!['/'] + rel,
    decreases node,
{
    match node {
        FsNode::File { name } => {
            assert((seq!['/'] + rel + name@).take(1 + rel.len() as int) =~= seq!['/'] + rel);
        },
        FsNode::Dir { name, entries } => {
            let rel2 = rel + name@ + seq!['/'];
            lemma_endpoints_shape_entries(entries@, rel2);
            assert forall|k: RouteKey| #[trigger] node_endpoints(node, rel).contains(k) implies k.0
                == "GET"@ && k.1.len() >= 1 + rel.len() && k.1.take(1 + rel.len() as int)
                == seq!['/'] + rel by {
                assert(entries_endpoints(entries@, rel2).contains(k));
                assert(k.1.take(1 + rel2.len() as int) == seq!['/'] + rel2);
                assert(k.1.take(1 + rel.len() as int) =~= seq!['/'] + rel);
            }
        },
    }
}

/// Every key that publishing the entries `s` binds is a GET key whose path
/// starts with "/" followed by the relative prefix.
proof fn lemma_endpoints_shape_entries(s: Seq<FsNode>, rel: Seq<char>)
    ensures
        forall|k: RouteKey| #[trigger] entries_endpoints(s, rel).contains(k) ==> k.0 == "GET"@
            && k.1.len() >= 1 + rel.len() && k.1.take(1 + rel.len() as int) == seq!['/'] + rel,
    decreases s,
{
    if s.len() > 0 {
        lemma_endpoints_shape_node(s[0], rel);
        lemma_endpoints_shape_entries(s.drop_first(), rel);
        assert forall|k: RouteKey| #[trigger] entries_endpoints(s, rel).contains(k) implies k.0
            == "GET"@ && k.1.len() >= 1 + rel.len() && k.1.take(1 + rel.len() as int) == seq!['/']
            + rel by {
            assert(node_endpoints(s[0], rel).contains(k) || entries_endpoints(
                s.drop_first(),
                rel,
            ).contains(k));
        }
    }
}

/// Publishing a node binds exactly its endpoints, on top of what was there.
proof fn lemma_publish_dom_node(
    m: Map<RouteKey, ActionView>,
    node: FsNode,
    fs: Seq<char>,
    rel: Seq<char>,
)
    ensures
        routes_after_node(m, node, fs, rel).dom() == m.dom() + node_endpoints(node, rel),
    decreases node,
{
    match node {
        FsNode::File { name } => {
            assert(routes_after_node(m, node, fs, rel).dom() =~= m.dom() + node_endpoints(
                node,
                rel,
            ));
        },
        FsNode::Dir { name, entries } => {
            lemma_publish_dom_entries(m, entries@, fs + name@ + seq!['/'], rel + name@ + seq!['/']);
        },
    }
}

/// Publishing the entries `s` binds exactly their endpoints, on top of what
/// was there.
proof fn lemma_publish_dom_entries(
    m: Map<RouteKey, ActionView>,
    s: Seq<FsNode>,
    fs: Seq<char>,
    rel: Seq<char>,
)
    ensures
        routes_after_entries(m, s, fs, rel).dom() == m.dom() + entries_endpoints(s, rel),
    decreases s,
{
    if s.len() == 0 {
        assert(routes_after_entries(m, s, fs, rel).dom() =~= m.dom() + entries_endpoints(s, rel));
    } else {
        let m1 = routes_after_node(m, s[0], fs, rel);
        lemma_publish_dom_node(m, s[0], fs, rel);
        lemma_publish_dom_entries(m1, s.drop_first(), fs, rel);
        assert(routes_after_entries(m, s, fs, rel).dom() =~= m.dom() + entries_endpoints(s, rel));
    }
}

/// At each key that publishing a node binds, the route table holds the
/// action that serves the file at the node's filesystem prefix followed by
/// the key's root-relative part; every other binding is untouched.
proof fn lemma_publish_val_node(
    m: Map<RouteKey, ActionView>,
    node: FsNode,
    fs: Seq<char>,
    rel: Seq<char>,
)
    ensures
        forall|k: RouteKey| #[trigger] node_endpoints(node, rel).contains(k)
            ==> routes_after_node(m, node, fs, rel)[k] == (ActionView::ServeFile {
            file_path: fs + k.1.skip(1 + rel.len() as int),
        }),
        forall|k: RouteKey| m.dom().contains(k) && !node_endpoints(node, rel).contains(k)
            ==> routes_after_node(m, node, fs, rel)[k] == m[k],
    decreases node,
{
    match node {
        FsNode::File { name } => {
            assert((seq!['/'] + rel + name@).skip(1 + rel.len() as int) =~= name@);
        },
        FsNode::Dir { name, entries } => {
            let fs2 = fs + name@ + seq!['/'];
            let rel2 = rel + name@ + seq!['/'];
            lemma_endpoints_shape_entries(entries@, rel2);
            lemma_publish_val_entries(m, entries@, fs2, rel2);
            assert forall|k: RouteKey| #[trigger] node_endpoints(node, rel).contains(k) implies
                routes_after_node(m, node, fs, rel)[k] == (ActionView::ServeFile {
                file_path: fs + k.1.skip(1 + rel.len() as int),
            }) by {
                assert(entries_endpoints(entries@, rel2).contains(k));
                assert(k.1.take(1 + rel2.len() as int) == seq!['/'] + rel2);
                assert forall|i: int| 0 <= i < 1 + rel2.len() implies k.1[i] == (seq!['/']
                    + rel2)[i] by {
                    assert(k.1.take(1 + rel2.len() as int)[i] == (seq!['/'] + rel2)[i]);
                }
                assert(fs2 + k.1.skip(1 + rel2.len() as int) =~= fs + k.1.skip(
                    1 + rel.len() as int,
                ));
            }
        },
    }
}

/// At each key that publishing the entries `s` binds, the route table holds
/// the file-serving action determined by that key; every other binding is
/// untouched.
proof fn lemma_publish_val_entries(
    m: Map<RouteKey, ActionView>,
    s: Seq<FsNode>,
    fs: Seq<char>,
    rel: Seq<char>,
)
    ensures
        forall|k: RouteKey| #[trigger] entries_endpoints(s, rel).contains(k)
            ==> routes_after_entries(m, s, fs, rel)[k] == (ActionView::ServeFile {
            file_path: fs + k.1.skip(1 + rel.len() as int),
        }),
        forall|k: RouteKey| m.dom().contains(k) && !entries_endpoints(s, rel).contains(k)
            ==> routes_after_entries(m, s, fs, rel)[k] == m[k],
    decreases s,
{
    if s.len() > 0 {
        let m1 = routes_after_node(m, s[0], fs, rel);
        lemma_publish_dom_node(m, s[0], fs, rel);
        lemma_publish_val_node(m, s[0], fs, rel);
        lemma_publish_val_entries(m1, s.drop_first(), fs, rel);
    }
}

/// A file of the tree gives rise to its endpoint.
proof fn lemma_file_endpoint_node(node: FsNode, rel: Seq<char>, rp: Seq<char>)
    requires
        node_contains_file(node, rp),
    ensures
        node_endpoints(node, rel).contains(("GET"@, seq!['/'] + rel + rp)),
    decreases node,
{
    match node {
        FsNode::File { name } => {},
        FsNode::Dir { name, entries } => {
            let pre = name@ + seq!['/'];
            let rel2 = rel + pre;
            let rp2 = rp.skip(pre.len() as int);
            lemma_file_endpoint_entries(entries@, rel2, rp2);
            assert(rp =~= pre + rp2);
            assert(seq!['/'] + rel2 + rp2 =~= seq!['/'] + rel + rp);
            assert(rel + name@ + seq!['/'] == rel2);
        },
    }
}

/// A file among the entries `s` gives rise to its endpoint.
proof fn lemma_file_endpoint_entries(s: Seq<FsNode>, rel: Seq<char>, rp: Seq<char>)
    requires
        entries_contain_file(s, rp),
    ensures
        entries_endpoints(s, rel).contains(("GET"@, seq!['/'] + rel + rp)),
    decreases s,
{
    let i = choose|i: int| 0 <= i < s.len() && node_contains_file(s[i], rp);
    if i == 0 {
        lemma_file_endpoint_node(s[0], rel, rp);
    } else {
        assert(s.drop_first()[i - 1] == s[i]);
        assert(entries_contain_file(s.drop_first(), rp));
        lemma_file_endpoint_entries(s.drop_first(), rel, rp);
    }
}

/// Every endpoint that publishing a node binds comes from a file of the
/// tree at the corresponding relative path.
proof fn lemma_endpoint_file_node(node: FsNode, rel: Seq<char>)
    ensures
        forall|k: RouteKey| #[trigger] node_endpoints(node, rel).contains(k)
            ==> exists|rp: Seq<char>|
            node_contains_file(node, rp) && k.1 == seq!['/'] + rel + rp,
    decreases node,
{
    match node {
        FsNode::File { name } => {
            assert forall|k: RouteKey| #[trigger] node_endpoints(node, rel).contains(k) implies
                exists|rp: Seq<char>| node_contains_file(node, rp) && k.1 == seq!['/'] + rel
                + rp by {
                assert(node_contains_file(node, name@) && k.1 == seq!['/'] + rel + name@);
            }
        },
        FsNode::Dir { name, entries } => {
            let pre = name@ + seq!['/'];
            let rel2 = rel + pre;
            lemma_endpoint_file_entries(entries@, rel2);
            assert forall|k: RouteKey| #[trigger] node_endpoints(node, rel).contains(k) implies
                exists|rp: Seq<char>| node_contains_file(node, rp) && k.1 == seq!['/'] + rel
                + rp by {
                assert(rel + name@ + seq!['/'] == rel2);
                assert(entries_endpoints(entries@, rel2).contains(k));
                let rp2 = choose|rp2: Seq<char>|
                    entries_contain_file(entries@, rp2) && k.1 == seq!['/'] + rel2 + rp2;
                let rp = pre + rp2;
                assert(rp.take(pre.len() as int) =~= pre);
                assert(rp.skip(pre.len() as int) =~= rp2);
                assert(node_contains_file(node, rp));
                assert(k.1 =~= seq!['/'] + rel + rp);
            }
        },
    }
}

/// Every endpoint that publishing the entries `s` binds comes from a file
/// among them at the corresponding relative path.
proof fn lemma_endpoint_file_entries(s: Seq<FsNode>, rel: Seq<char>)
    ensures
        forall|k: RouteKey| #[trigger] entries_endpoints(s, rel).contains(k)
            ==> exists|rp: Seq<char>|
            entries_contain_file(s, rp) && k.1 == seq!['/'] + rel + rp,
    decreases s,
{
    if s.len() > 0 {
        lemma_endpoint_file_node(s[0], rel);
        lemma_endpoint_file_entries(s.drop_first(), rel);
        assert forall|k: RouteKey| #[trigger] entries_endpoints(s, rel).contains(k) implies
            exists|rp: Seq<char>| entries_contain_file(s, rp) && k.1 == seq!['/'] + rel + rp by {
            if node_endpoints(s[0], rel).contains(k) {
                let rp = choose|rp: Seq<char>|
                    node_contains_file(s[0], rp) && k.1 == seq!['/'] + rel + rp;
                assert(entries_contain_file(s, rp));
            } else {
                assert(entries_endpoints(s.drop_first(), rel).contains(k));
                let rp = choose|rp: Seq<char>|
                    entries_contain_file(s.drop_first(), rp) && k.1 == seq!['/'] + rel + rp;
                let j = choose|j: int|
                    0 <= j < s.drop_first().len() && node_contains_file(s.drop_first()[j], rp);
                assert(s.drop_first()[j] == s[j + 1]);
                assert(entries_contain_file(s, rp));
            }
        }
    }
}

/// Publishing a directory registers exactly one GET route per file beneath
/// it, at "/" followed by the file's root-relative path, bound to the action
/// that serves the root's filesystem path followed by that same relative
/// path; it binds nothing else and leaves every other route as it was.
pub proof fn lemma_publish_registers_files(m: Map<RouteKey, ActionView>, root: FsNode)
    requires
        root is Dir,
    ensures
        forall|rp: Seq<char>| #[trigger] entries_contain_file(root->Dir_entries@, rp) ==> {
            &&& publish_spec(m, root).dom().contains(("GET"@, seq!['/'] + rp))
            &&& publish_spec(m, root)[("GET"@, seq!['/'] + rp)] == (ActionView::ServeFile {
                file_path: root->Dir_name@ + seq!['/'] + rp,
            })
        },
        publish_spec(m, root).dom() == m.dom() + entries_endpoints(
            root->Dir_entries@,
            Seq::empty(),
        ),
        forall|k: RouteKey|
            #[trigger] entries_endpoints(root->Dir_entries@, Seq::empty()).contains(k)
            ==> exists|rp: Seq<char>|
            entries_contain_file(root->Dir_entries@, rp) && k == ("GET"@, seq!['/'] + rp),
        forall|k: RouteKey| m.dom().contains(k) && !entries_endpoints(
            root->Dir_entries@,
            Seq::empty(),
        ).contains(k) ==> publish_spec(m, root)[k] == m[k],
{
    let s = root->Dir_entries@;
    let fs = root->Dir_name@ + seq!['/'];
    let rel = Seq::<char>::empty();
    lemma_publish_dom_entries(m, s, fs, rel);
    lemma_publish_val_entries(m, s, fs, rel);
    lemma_endpoint_file_entries(s, rel);
    assert forall|rp: Seq<char>| #[trigger] entries_contain_file(s, rp) implies {
        &&& publish_spec(m, root).dom().contains(("GET"@, seq!['/'] + rp))
        &&& publish_spec(m, root)[("GET"@, seq!['/'] + rp)] == (ActionView::ServeFile {
            file_path: fs + rp,
        })
    } by {
        lemma_file_endpoint_entries(s, rel, rp);
        assert(seq!['/'] + rel + rp =~= seq!['/'] + rp);
        assert((seq!['/'] + rp).skip(1 + rel.len() as int) =~= rp);
    }
    assert forall|k: RouteKey| #[trigger] entries_endpoints(s, rel).contains(k) implies
        exists|rp: Seq<char>| entries_contain_file(s, rp) && k == ("GET"@, seq!['/'] + rp) by {
        lemma_endpoints_shape_entries(s, rel);
        let rp = choose|rp: Seq<char>| entries_contain_file(s, rp) && k.1 == seq!['/'] + rel + rp;
        assert(seq!['/'] + rel + rp =~= seq!['/'] + rp);
        assert(k == ("GET"@, seq!['/'] + rp));
    }
}

/// When two published directories both contain a file at the same relative
/// path, the route at that path is bound to whichever directory was
/// published last.
pub proof fn lemma_last_published_root_wins(
    m: Map<RouteKey, ActionView>,
    root1: FsNode,
    root2: FsNode,
    rp: Seq<char>,
)
    requires
        root1 is Dir,
        root2 is Dir,
        entries_contain_file(root1->Dir_entries@, rp),
        entries_contain_file(root2->Dir_entries@, rp),
    ensures
        publish_all_spec(m, seq![root1, root2]).dom().contains(("GET"@, seq!['/'] + rp)),
        publish_all_spec(m, seq![root1, root2])[("GET"@, seq!['/'] + rp)]
            == (ActionView::ServeFile { file_path: root2->Dir_name@ + seq!['/'] + rp }),
{
    let two = seq![root1, root2];
    let m1 = publish_spec(m, root1);
    assert(two[0] == root1);
    assert(seq![root2][0] == root2);
    assert(two.drop_first() =~= seq![root2]);
    assert(seq![root2].drop_first() =~= Seq::<FsNode>::empty());
    assert(publish_all_spec(m, two) == publish_all_spec(m1, seq![root2]));
    assert(publish_all_spec(m1, seq![root2]) == publish_all_spec(
        publish_spec(m1, root2),
        Seq::<FsNode>::empty(),
    ));
    assert(publish_all_spec(publish_spec(m1, root2), Seq::<FsNode>::empty()) == publish_spec(
        m1,
        root2,
    ));
    lemma_publish_registers_files(m1, root2);
}

} // verus!
