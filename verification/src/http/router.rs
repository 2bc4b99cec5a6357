//! The route tree: a trie over path segments with static, `:param` and `*`
//! children, whose nodes hold one handler per method.
//!
//! Nodes live in an arena; the root is node 0, and every child of a node
//! has a larger index than the node itself.

use vstd::prelude::*;
use crate::http::request::Method;
use crate::strmap::StrMap;
use crate::text::texts;

verus! {

/// What a route leads to: handlers are kept by the caller and named here by
/// their index.
pub type HandlerId = usize;

// ── path segments ───────────────────────────────────────────────────────────

/// Scans a path left to right: the segments finished so far and the one
/// being read.
pub open spec fn seg_scan(s: Seq<char>) -> (Seq<Seq<char>>, Seq<char>)
    decreases s.len(),
{
    if s.len() == 0 {
        (Seq::empty(), Seq::empty())
    } else {
        let (done, cur) = seg_scan(s.drop_last());
        if s.last() == '/' {
            (if cur.len() > 0 {
                done.push(cur)
            } else {
                done
            }, Seq::empty())
        } else {
            (done, cur.push(s.last()))
        }
    }
}

/// The non-empty `/`-separated segments of a path.
pub open spec fn path_segments(s: Seq<char>) -> Seq<Seq<char>> {
    let (done, cur) = seg_scan(s);
    if cur.len() > 0 {
        done.push(cur)
    } else {
        done
    }
}

/// Splits a path into its non-empty `/`-separated segments.
pub fn path_segments_of(path: &str) -> (r: Vec<String>)
    ensures
        texts(r@) == path_segments(path@),
{
    let v = crate::text::chars_of(path);
    let n = v.len();
    let mut out: Vec<String> = Vec::new();
    let mut start: usize = 0;
    let mut i: usize = 0;
    assert(v@.subrange(0, 0) =~= v@.take(0));
    while i < n
        invariant
            n == v@.len(),
            start <= i <= n,
            seg_scan(v@.take(i as int)) == (texts(out@), v@.subrange(start as int, i as int)),
        decreases n - i,
    {
        let ghost pre = v@.take(i as int);
        let ghost old_out = out@;
        assert(v@.take(i + 1).drop_last() =~= pre);
        if v[i] == '/' {
            if i > start {
                let seg = crate::text::string_of(&v, start, i);
                out.push(seg);
                assert(texts(out@) =~= texts(old_out).push(seg@));
            }
            start = i + 1;
            assert(v@.subrange(start as int, i + 1) =~= Seq::<char>::empty());
        } else {
            assert(v@.subrange(start as int, i + 1) =~= v@.subrange(start as int, i as int).push(
                v@[i as int],
            ));
        }
        i += 1;
    }
    assert(v@.take(n as int) =~= v@);
    if n > start {
        let ghost old_out = out@;
        let seg = crate::text::string_of(&v, start, n);
        out.push(seg);
        assert(texts(out@) =~= texts(old_out).push(seg@));
    }
    out
}

// ── the arena model ─────────────────────────────────────────────────────────

/// What a node holds: its static children (segment text and node index, in
/// insertion order), its `:param` child (parameter name and node index), its
/// `*` child, and its handlers by method.
pub ghost struct NodeModel {
    pub children: Seq<(Seq<char>, int)>,
    pub param: Option<(Seq<char>, int)>,
    pub wildcard: Option<int>,
    pub handlers: Seq<((u8, Seq<char>), HandlerId)>,
}

/// A node with no children and no handlers.
pub open spec fn empty_node() -> NodeModel {
    NodeModel { children: Seq::empty(), param: None, wildcard: None, handlers: Seq::empty() }
}

/// Every child of node `i` is a later node of the arena.
pub open spec fn node_wf(a: Seq<NodeModel>, i: int) -> bool {
    &&& forall|j: int|
        0 <= j < a[i].children.len() ==> i < #[trigger] a[i].children[j].1 < a.len()
    &&& (a[i].param matches Some(p) ==> i < p.1 < a.len())
    &&& (a[i].wildcard matches Some(w) ==> i < w < a.len())
}

/// The arena has a root, and every child index points forward within it.
pub open spec fn arena_wf(a: Seq<NodeModel>) -> bool {
    &&& a.len() > 0
    &&& forall|i: int| 0 <= i < a.len() ==> #[trigger] node_wf(a, i)
}

/// The node that the first static child with key `k` leads to.
pub open spec fn child_index(ch: Seq<(Seq<char>, int)>, k: Seq<char>) -> Option<int>
    decreases ch.len(),
{
    if ch.len() == 0 {
        None
    } else if ch[0].0 == k {
        Some(ch[0].1)
    } else {
        child_index(ch.drop_first(), k)
    }
}

/// The handler registered for method `m`.
pub open spec fn handler_for(hs: Seq<((u8, Seq<char>), HandlerId)>, m: (u8, Seq<char>)) -> Option<
    HandlerId,
>
    decreases hs.len(),
{
    if hs.len() == 0 {
        None
    } else if hs[0].0 == m {
        Some(hs[0].1)
    } else {
        handler_for(hs.drop_first(), m)
    }
}

/// The handlers after registering `h` for `m`: it replaces the handler of
/// `m` in place, or goes last.
pub open spec fn handlers_insert(
    hs: Seq<((u8, Seq<char>), HandlerId)>,
    m: (u8, Seq<char>),
    h: HandlerId,
) -> Seq<((u8, Seq<char>), HandlerId)>
    decreases hs.len(),
{
    if hs.len() == 0 {
        seq![(m, h)]
    } else if hs[0].0 == m {
        hs.update(0, (m, h))
    } else {
        seq![hs[0]] + handlers_insert(hs.drop_first(), m, h)
    }
}

/// A `*` segment.
pub open spec fn is_wild(seg: Seq<char>) -> bool {
    seg == seq!['*']
}

/// A `:name` segment (and not `*`).
pub open spec fn is_param(seg: Seq<char>) -> bool {
    !is_wild(seg) && seg.len() > 0 && seg[0] == ':'
}

/// The arena after registering `h` for `m` on the route `segs` below node `i`.
pub open spec fn ins(
    a: Seq<NodeModel>,
    i: int,
    segs: Seq<Seq<char>>,
    m: (u8, Seq<char>),
    h: HandlerId,
) -> Seq<NodeModel>
    decreases segs.len(),
{
    if segs.len() == 0 {
        a.update(i, NodeModel { handlers: handlers_insert(a[i].handlers, m, h), ..a[i] })
    } else {
        let seg = segs[0];
        let rest = segs.drop_first();
        let fresh = a.len() as int;
        if is_wild(seg) {
            match a[i].wildcard {
                Some(c) => ins(a, c, rest, m, h),
                None => ins(
                    a.update(i, NodeModel { wildcard: Some(fresh), ..a[i] }).push(empty_node()),
                    fresh,
                    rest,
                    m,
                    h,
                ),
            }
        } else if is_param(seg) {
            match a[i].param {
                Some(p) => ins(a, p.1, rest, m, h),
                None => ins(
                    a.update(i, NodeModel { param: Some((seg.drop_first(), fresh)), ..a[i] }).push(
                        empty_node(),
                    ),
                    fresh,
                    rest,
                    m,
                    h,
                ),
            }
        } else {
            match child_index(a[i].children, seg) {
                Some(c) => ins(a, c, rest, m, h),
                None => ins(
                    a.update(
                        i,
                        NodeModel { children: a[i].children.push((seg, fresh)), ..a[i] },
                    ).push(empty_node()),
                    fresh,
                    rest,
                    m,
                    h,
                ),
            }
        }
    }
}

/// Segments joined with `/`.
pub open spec fn join_slash(s: Seq<Seq<char>>) -> Seq<char>
    decreases s.len(),
{
    if s.len() == 0 {
        Seq::empty()
    } else if s.len() == 1 {
        s[0]
    } else {
        join_slash(s.drop_last()) + seq!['/'] + s.last()
    }
}

/// Matching `segs` below node `i`, with the parameters bound so far: the
/// node reached and the parameters bound on the way. A static child is
/// tried first, then the `:param` child, then the `*` child, which takes all
/// remaining segments under the parameter `*`.
pub open spec fn find_spec(
    a: Seq<NodeModel>,
    i: int,
    segs: Seq<Seq<char>>,
    params: Map<Seq<char>, Seq<char>>,
) -> Option<(int, Map<Seq<char>, Seq<char>>)>
    decreases segs.len(),
{
    if segs.len() == 0 {
        Some((i, params))
    } else {
        let seg = segs[0];
        let rest = segs.drop_first();
        let by_static = match child_index(a[i].children, seg) {
            Some(c) => find_spec(a, c, rest, params),
            None => None,
        };
        if by_static is Some {
            by_static
        } else {
            let by_param = match a[i].param {
                Some(p) => find_spec(a, p.1, rest, params.insert(p.0, seg)),
                None => None,
            };
            if by_param is Some {
                by_param
            } else {
                match a[i].wildcard {
                    Some(w) => Some((w, params.insert(seq!['*'], join_slash(segs)))),
                    None => None,
                }
            }
        }
    }
}

/// The handler and parameters that a request with method `m` and path
/// segments `segs` is routed to.
pub open spec fn route_spec(a: Seq<NodeModel>, m: (u8, Seq<char>), segs: Seq<Seq<char>>) -> Option<
    (HandlerId, Map<Seq<char>, Seq<char>>),
> {
    match find_spec(a, 0, segs, Map::empty()) {
        Some((n, params)) => match handler_for(a[n].handlers, m) {
            Some(h) => Some((h, params)),
            None => None,
        },
        None => None,
    }
}

/// Whether the path reaches a node that has any handler.
pub open spec fn has_path_spec(a: Seq<NodeModel>, segs: Seq<Seq<char>>) -> bool {
    match find_spec(a, 0, segs, Map::empty()) {
        Some((n, _)) => a[n].handlers.len() > 0,
        None => false,
    }
}

// ── lemmas about the model ──────────────────────────────────────────────────

proof fn lemma_handlers_insert(
    hs: Seq<((u8, Seq<char>), HandlerId)>,
    m: (u8, Seq<char>),
    h: HandlerId,
)
    ensures
        handler_for(handlers_insert(hs, m, h), m) == Some(h),
        forall|m2: (u8, Seq<char>)|
            m2 != m ==> #[trigger] handler_for(handlers_insert(hs, m, h), m2) == handler_for(
                hs,
                m2,
            ),
        handlers_insert(hs, m, h).len() > 0,
    decreases hs.len(),
{
    if hs.len() == 0 {
        let r = seq![(m, h)];
        assert(r.drop_first() =~= Seq::<((u8, Seq<char>), HandlerId)>::empty());
        assert forall|m2: (u8, Seq<char>)| m2 != m implies #[trigger] handler_for(
            handlers_insert(hs, m, h),
            m2,
        ) == handler_for(hs, m2) by {
            assert(handler_for(r.drop_first(), m2) is None);
        }
    } else if hs[0].0 == m {
        let r = hs.update(0, (m, h));
        assert(r.drop_first() =~= hs.drop_first());
        assert forall|m2: (u8, Seq<char>)| m2 != m implies #[trigger] handler_for(
            handlers_insert(hs, m, h),
            m2,
        ) == handler_for(hs, m2) by {
            assert(handler_for(r, m2) == handler_for(r.drop_first(), m2));
        }
    } else {
        lemma_handlers_insert(hs.drop_first(), m, h);
        let r = seq![hs[0]] + handlers_insert(hs.drop_first(), m, h);
        assert(r.drop_first() =~= handlers_insert(hs.drop_first(), m, h));
        assert forall|m2: (u8, Seq<char>)| m2 != m implies #[trigger] handler_for(
            handlers_insert(hs, m, h),
            m2,
        ) == handler_for(hs, m2) by {
            assert(handler_for(handlers_insert(hs.drop_first(), m, h), m2) == handler_for(
                hs.drop_first(),
                m2,
            ));
        }
    }
}

proof fn lemma_child_index_push(ch: Seq<(Seq<char>, int)>, k: Seq<char>, v: int, k2: Seq<char>)
    ensures
        child_index(ch, k2) matches Some(x) ==> child_index(ch.push((k, v)), k2) == Some(x),
        child_index(ch, k2) is None && k2 == k ==> child_index(ch.push((k, v)), k2) == Some(v),
        child_index(ch, k2) is None && k2 != k ==> child_index(ch.push((k, v)), k2) is None,
    decreases ch.len(),
{
    if ch.len() == 0 {
        assert(ch.push((k, v)).drop_first() =~= Seq::<(Seq<char>, int)>::empty());
        assert(child_index(ch.push((k, v)).drop_first(), k2) is None);
    } else {
        assert(ch.push((k, v)).drop_first() =~= ch.drop_first().push((k, v)));
        lemma_child_index_push(ch.drop_first(), k, v, k2);
    }
}

proof fn lemma_child_index_in(ch: Seq<(Seq<char>, int)>, k: Seq<char>)
    ensures
        child_index(ch, k) matches Some(x) ==> exists|j: int| 0 <= j < ch.len() && ch[j].1 == x,
    decreases ch.len(),
{
    if ch.len() > 0 && ch[0].0 != k {
        lemma_child_index_in(ch.drop_first(), k);
        if child_index(ch, k) is Some {
            let j = choose|j: int|
                0 <= j < ch.drop_first().len() && ch.drop_first()[j].1 == child_index(
                    ch,
                    k,
                )->Some_0;
            assert(ch[j + 1] == ch.drop_first()[j]);
        }
    }
}

/// The node a static, `:param` or `*` step leads to lies within the arena,
/// after its parent.
proof fn lemma_child_in_arena(a: Seq<NodeModel>, i: int, k: Seq<char>)
    requires
        arena_wf(a),
        0 <= i < a.len(),
    ensures
        child_index(a[i].children, k) matches Some(c) ==> i < c < a.len(),
{
    assert(node_wf(a, i));
    lemma_child_index_in(a[i].children, k);
}

/// Adding a fresh node as a child of node `i` keeps the arena well formed.
proof fn lemma_extend_wf(a: Seq<NodeModel>, i: int, n: NodeModel)
    requires
        arena_wf(a),
        0 <= i < a.len(),
        n.handlers == a[i].handlers,
        (forall|j: int|
            0 <= j < n.children.len() ==> i < #[trigger] n.children[j].1 <= a.len()),
        (n.param matches Some(p) ==> i < p.1 <= a.len()),
        (n.wildcard matches Some(w) ==> i < w <= a.len()),
    ensures
        arena_wf(a.update(i, n).push(empty_node())),
{
    let b = a.update(i, n).push(empty_node());
    assert forall|j: int| 0 <= j < b.len() implies #[trigger] node_wf(b, j) by {
        if j < a.len() && j != i {
            assert(node_wf(a, j));
            assert(b[j] == a[j]);
        }
    }
}

/// Registering a route keeps the arena well formed, only grows it, and
/// leaves the nodes before the starting node alone.
proof fn lemma_ins_wf(
    a: Seq<NodeModel>,
    i: int,
    segs: Seq<Seq<char>>,
    m: (u8, Seq<char>),
    h: HandlerId,
)
    requires
        arena_wf(a),
        0 <= i < a.len(),
    ensures
        arena_wf(ins(a, i, segs, m, h)),
        ins(a, i, segs, m, h).len() >= a.len(),
        forall|j: int| 0 <= j < i ==> #[trigger] ins(a, i, segs, m, h)[j] == a[j],
    decreases segs.len(),
{
    let b = ins(a, i, segs, m, h);
    if segs.len() == 0 {
        assert(node_wf(a, i));
        assert forall|j: int| 0 <= j < b.len() implies #[trigger] node_wf(b, j) by {
            assert(node_wf(a, j));
        }
    } else {
        let seg = segs[0];
        let rest = segs.drop_first();
        let fresh = a.len() as int;
        assert(node_wf(a, i));
        if is_wild(seg) {
            match a[i].wildcard {
                Some(c) => {
                    lemma_ins_wf(a, c, rest, m, h);
                },
                None => {
                    let n = NodeModel { wildcard: Some(fresh), ..a[i] };
                    lemma_extend_wf(a, i, n);
                    lemma_ins_wf(a.update(i, n).push(empty_node()), fresh, rest, m, h);
                },
            }
        } else if is_param(seg) {
            match a[i].param {
                Some(p) => {
                    lemma_ins_wf(a, p.1, rest, m, h);
                },
                None => {
                    let n = NodeModel { param: Some((seg.drop_first(), fresh)), ..a[i] };
                    lemma_extend_wf(a, i, n);
                    lemma_ins_wf(a.update(i, n).push(empty_node()), fresh, rest, m, h);
                },
            }
        } else {
            lemma_child_in_arena(a, i, seg);
            match child_index(a[i].children, seg) {
                Some(c) => {
                    lemma_ins_wf(a, c, rest, m, h);
                },
                None => {
                    let n = NodeModel { children: a[i].children.push((seg, fresh)), ..a[i] };
                    assert forall|j: int| 0 <= j < n.children.len() implies i
                        < #[trigger] n.children[j].1 <= a.len() by {
                        if j < a[i].children.len() {
                            assert(n.children[j] == a[i].children[j]);
                        }
                    }
                    lemma_extend_wf(a, i, n);
                    lemma_ins_wf(a.update(i, n).push(empty_node()), fresh, rest, m, h);
                },
            }
        }
    }
}

/// A route whose segments are all static.
pub open spec fn all_static(segs: Seq<Seq<char>>) -> bool {
    forall|k: int| 0 <= k < segs.len() ==> !is_wild(#[trigger] segs[k]) && !is_param(segs[k])
}

proof fn lemma_static_find(
    a: Seq<NodeModel>,
    i: int,
    segs: Seq<Seq<char>>,
    m: (u8, Seq<char>),
    h: HandlerId,
    params: Map<Seq<char>, Seq<char>>,
)
    requires
        arena_wf(a),
        0 <= i < a.len(),
        all_static(segs),
    ensures
        find_spec(ins(a, i, segs, m, h), i, segs, params) matches Some((n, p)) && p == params
            && 0 <= n < ins(a, i, segs, m, h).len() && handler_for(
            ins(a, i, segs, m, h)[n].handlers,
            m,
        ) == Some(h),
    decreases segs.len(),
{
    let b = ins(a, i, segs, m, h);
    lemma_ins_wf(a, i, segs, m, h);
    if segs.len() == 0 {
        lemma_handlers_insert(a[i].handlers, m, h);
    } else {
        let seg = segs[0];
        let rest = segs.drop_first();
        let fresh = a.len() as int;
        assert(!is_wild(segs[0]) && !is_param(segs[0]));
        assert(node_wf(a, i));
        assert(all_static(rest)) by {
            assert forall|k: int| 0 <= k < rest.len() implies !is_wild(#[trigger] rest[k])
                && !is_param(rest[k]) by {
                assert(rest[k] == segs[k + 1]);
            }
        }
        lemma_child_in_arena(a, i, seg);
        match child_index(a[i].children, seg) {
            Some(c) => {
                lemma_static_find(a, c, rest, m, h, params);
                lemma_ins_wf(a, c, rest, m, h);
                assert(b[i] == a[i]);
            },
            None => {
                let n = NodeModel { children: a[i].children.push((seg, fresh)), ..a[i] };
                let a1 = a.update(i, n).push(empty_node());
                assert forall|j: int| 0 <= j < n.children.len() implies i
                    < #[trigger] n.children[j].1 <= a.len() by {
                    if j < a[i].children.len() {
                        assert(n.children[j] == a[i].children[j]);
                    }
                }
                lemma_extend_wf(a, i, n);
                lemma_static_find(a1, fresh, rest, m, h, params);
                lemma_ins_wf(a1, fresh, rest, m, h);
                assert(b[i] == a1[i]);
                lemma_child_index_push(a[i].children, seg, fresh, seg);
            },
        }
    }
}

/// The parameters that a route's segments bind from a request's segments:
/// each `:name` segment binds `name` to the request's segment in its place
/// (a later binding of a name replaces an earlier one).
pub open spec fn bind_params(
    params: Map<Seq<char>, Seq<char>>,
    pattern: Seq<Seq<char>>,
    req: Seq<Seq<char>>,
) -> Map<Seq<char>, Seq<char>>
    decreases pattern.len(),
{
    if pattern.len() == 0 {
        params
    } else if is_param(pattern[0]) {
        bind_params(
            params.insert(pattern[0].drop_first(), req[0]),
            pattern.drop_first(),
            req.drop_first(),
        )
    } else {
        bind_params(params, pattern.drop_first(), req.drop_first())
    }
}

/// A request's segments fit a route without `*`: as many segments, and
/// equal wherever the route's segment is static.
pub open spec fn segments_fit(pattern: Seq<Seq<char>>, req: Seq<Seq<char>>) -> bool {
    &&& req.len() == pattern.len()
    &&& forall|k: int|
        0 <= k < pattern.len() ==> !is_wild(#[trigger] pattern[k]) && (!is_param(pattern[k])
            ==> req[k] == pattern[k])
}

proof fn lemma_fresh_find(
    a: Seq<NodeModel>,
    i: int,
    pattern: Seq<Seq<char>>,
    req: Seq<Seq<char>>,
    m: (u8, Seq<char>),
    h: HandlerId,
    params: Map<Seq<char>, Seq<char>>,
)
    requires
        arena_wf(a),
        0 <= i < a.len(),
        a[i].children.len() == 0,
        a[i].param is None,
        a[i].wildcard is None,
        segments_fit(pattern, req),
    ensures
        find_spec(ins(a, i, pattern, m, h), i, req, params) matches Some((n, p)) && p
            == bind_params(params, pattern, req) && 0 <= n < ins(a, i, pattern, m, h).len()
            && handler_for(ins(a, i, pattern, m, h)[n].handlers, m) == Some(h),
    decreases pattern.len(),
{
    let b = ins(a, i, pattern, m, h);
    lemma_ins_wf(a, i, pattern, m, h);
    if pattern.len() == 0 {
        lemma_handlers_insert(a[i].handlers, m, h);
    } else {
        let seg = pattern[0];
        let rest = pattern.drop_first();
        let rrest = req.drop_first();
        let fresh = a.len() as int;
        assert(!is_wild(pattern[0]));
        assert(segments_fit(rest, rrest)) by {
            assert forall|k: int| 0 <= k < rest.len() implies !is_wild(#[trigger] rest[k]) && (
            !is_param(rest[k]) ==> rrest[k] == rest[k]) by {
                assert(rest[k] == pattern[k + 1]);
                assert(rrest[k] == req[k + 1]);
            }
        }
        if is_param(seg) {
            let n = NodeModel { param: Some((seg.drop_first(), fresh)), ..a[i] };
            let a1 = a.update(i, n).push(empty_node());
            lemma_extend_wf(a, i, n);
            lemma_fresh_find(a1, fresh, rest, rrest, m, h, params.insert(seg.drop_first(), req[0]));
            lemma_ins_wf(a1, fresh, rest, m, h);
            assert(b == ins(a1, fresh, rest, m, h));
            assert(b[i] == a1[i]);
            assert(child_index(b[i].children, req[0]) is None);
        } else {
            assert(req[0] == seg);
            let n = NodeModel { children: a[i].children.push((seg, fresh)), ..a[i] };
            let a1 = a.update(i, n).push(empty_node());
            assert forall|j: int| 0 <= j < n.children.len() implies i
                < #[trigger] n.children[j].1 <= a.len() by {
            }
            lemma_extend_wf(a, i, n);
            lemma_fresh_find(a1, fresh, rest, rrest, m, h, params);
            lemma_ins_wf(a1, fresh, rest, m, h);
            assert(b == ins(a1, fresh, rest, m, h));
            assert(b[i] == a1[i]);
            lemma_child_index_push(a[i].children, seg, fresh, seg);
        }
    }
}

/// On a router with one route, a request whose path fits the route is
/// routed to the route's handler, with each `:name` segment of the route
/// bound to the request's segment in its place.
pub proof fn law_route_binds_params(
    pattern: Seq<Seq<char>>,
    req: Seq<Seq<char>>,
    m: (u8, Seq<char>),
    h: HandlerId,
)
    requires
        segments_fit(pattern, req),
    ensures
        route_spec(ins(seq![empty_node()], 0, pattern, m, h), m, req) == Some(
            (h, bind_params(Map::empty(), pattern, req)),
        ),
{
    let a = seq![empty_node()];
    assert(arena_wf(a)) by {
        assert forall|i: int| 0 <= i < a.len() implies #[trigger] node_wf(a, i) by {
        }
    }
    lemma_fresh_find(a, 0, pattern, req, m, h, Map::empty());
}

/// Once a handler is registered for a method on a route made only of static
/// segments, a request with that method and path is routed to that handler,
/// with no parameters, and the path counts as having a handler.
pub proof fn law_route_after_add_static(
    a: Seq<NodeModel>,
    m: (u8, Seq<char>),
    path: Seq<char>,
    h: HandlerId,
)
    requires
        arena_wf(a),
        all_static(path_segments(path)),
    ensures
        route_spec(ins(a, 0, path_segments(path), m, h), m, path_segments(path)) == Some(
            (h, Map::<Seq<char>, Seq<char>>::empty()),
        ),
        has_path_spec(ins(a, 0, path_segments(path), m, h), path_segments(path)),
{
    let segs = path_segments(path);
    lemma_static_find(a, 0, segs, m, h, Map::empty());
    let b = ins(a, 0, segs, m, h);
    let n = find_spec(b, 0, segs, Map::empty())->Some_0.0;
    if b[n].handlers.len() == 0 {
        assert(handler_for(b[n].handlers, m) is None);
    }
}

/// Whether some route in the tree below node `i` matches `segs`: the
/// segments follow static children whose keys they equal, `:param` children
/// whatever they hold, or end at a `*` child, which takes all that is left.
pub open spec fn tree_matches(a: Seq<NodeModel>, i: int, segs: Seq<Seq<char>>) -> bool
    decreases segs.len(),
{
    if segs.len() == 0 {
        true
    } else {
        ||| (child_index(a[i].children, segs[0]) matches Some(c) && tree_matches(
            a,
            c,
            segs.drop_first(),
        ))
        ||| (a[i].param matches Some(p) && tree_matches(a, p.1, segs.drop_first()))
        ||| a[i].wildcard is Some
    }
}

/// Matching finds a node exactly when some route of the tree matches the
/// path: when a static child matches a segment but leads nowhere further
/// down, matching goes back and tries the `:param` child, then the `*`
/// child, so that no matching route is missed (after `/users/me` and
/// `/users/:id/posts`, `/users/me/posts` is found through `:id`).
pub proof fn law_find_is_complete(
    a: Seq<NodeModel>,
    i: int,
    segs: Seq<Seq<char>>,
    params: Map<Seq<char>, Seq<char>>,
)
    ensures
        find_spec(a, i, segs, params) is Some <==> tree_matches(a, i, segs),
    decreases segs.len(),
{
    if segs.len() > 0 {
        let seg = segs[0];
        let rest = segs.drop_first();
        if let Some(c) = child_index(a[i].children, seg) {
            law_find_is_complete(a, c, rest, params);
        }
        if let Some(p) = a[i].param {
            law_find_is_complete(a, p.1, rest, params.insert(p.0, seg));
        }
    }
}

/// A path has a handler exactly when some method is routed on it: on every
/// routing tree, `has_path` holds of a path exactly when `find` succeeds on
/// it for some method.
pub proof fn law_has_path_iff_some_method(a: Seq<NodeModel>, path: Seq<char>)
    ensures
        has_path_spec(a, path_segments(path)) <==> exists|m: (u8, Seq<char>)|
            (#[trigger] route_spec(a, m, path_segments(path))) is Some,
{
    let segs = path_segments(path);
    if let Some((n, _)) = find_spec(a, 0, segs, Map::empty()) {
        let hs = a[n].handlers;
        if hs.len() > 0 {
            assert(handler_for(hs, hs[0].0) == Some(hs[0].1));
            assert(route_spec(a, hs[0].0, segs) is Some);
        } else {
            assert forall|m: (u8, Seq<char>)| !(#[trigger] route_spec(a, m, segs) is Some) by {
                assert(handler_for(hs, m) is None);
            }
        }
    }
}

// ── the executable tree ─────────────────────────────────────────────────────

struct Node {
    children: Vec<(String, usize)>,
    param_child: Option<(String, usize)>,
    wildcard_child: Option<usize>,
    handlers: Vec<(Method, HandlerId)>,
}

spec fn children_view(ch: Seq<(String, usize)>) -> Seq<(Seq<char>, int)> {
    ch.map_values(|p: (String, usize)| (p.0@, p.1 as int))
}

spec fn handlers_view(hs: Seq<(Method, HandlerId)>) -> Seq<((u8, Seq<char>), HandlerId)> {
    hs.map_values(|p: (Method, HandlerId)| (p.0@, p.1))
}

impl View for Node {
    type V = NodeModel;

    closed spec fn view(&self) -> NodeModel {
        NodeModel {
            children: children_view(self.children@),
            param: match self.param_child {
                Some(p) => Some((p.0@, p.1 as int)),
                None => None,
            },
            wildcard: match self.wildcard_child {
                Some(w) => Some(w as int),
                None => None,
            },
            handlers: handlers_view(self.handlers@),
        }
    }
}

spec fn arena_view(v: Seq<Node>) -> Seq<NodeModel> {
    v.map_values(|n: Node| n@)
}

impl Node {
    fn empty() -> (n: Node)
        ensures
            n@ == empty_node(),
    {
        let n = Node {
            children: Vec::new(),
            param_child: None,
            wildcard_child: None,
            handlers: Vec::new(),
        };
        assert(n@.children =~= Seq::<(Seq<char>, int)>::empty());
        assert(n@.handlers =~= Seq::<((u8, Seq<char>), HandlerId)>::empty());
        n
    }
}

fn child_lookup(ch: &Vec<(String, usize)>, seg: &str) -> (r: Option<usize>)
    ensures
        match r {
            Some(c) => child_index(children_view(ch@), seg@) == Some(c as int),
            None => child_index(children_view(ch@), seg@) is None,
        },
{
    let ghost cv = children_view(ch@);
    let mut i: usize = 0;
    assert(cv.skip(0) =~= cv);
    while i < ch.len()
        invariant
            i <= ch@.len(),
            cv == children_view(ch@),
            child_index(cv, seg@) == child_index(cv.skip(i as int), seg@),
        decreases ch@.len() - i,
    {
        assert(cv.skip(i as int).drop_first() =~= cv.skip(i + 1));
        if crate::text::str_eq(ch[i].0.as_str(), seg) {
            return Some(ch[i].1);
        }
        i += 1;
    }
    None
}

fn handler_lookup(hs: &Vec<(Method, HandlerId)>, m: &Method) -> (r: Option<HandlerId>)
    ensures
        r == handler_for(handlers_view(hs@), m@),
{
    let ghost hv = handlers_view(hs@);
    let mut i: usize = 0;
    assert(hv.skip(0) =~= hv);
    while i < hs.len()
        invariant
            i <= hs@.len(),
            hv == handlers_view(hs@),
            handler_for(hv, m@) == handler_for(hv.skip(i as int), m@),
        decreases hs@.len() - i,
    {
        assert(hv.skip(i as int).drop_first() =~= hv.skip(i + 1));
        if hs[i].0.same(m) {
            return Some(hs[i].1);
        }
        i += 1;
    }
    None
}

proof fn lemma_handlers_insert_at(
    hs: Seq<((u8, Seq<char>), HandlerId)>,
    m: (u8, Seq<char>),
    h: HandlerId,
    i: int,
)
    requires
        0 <= i <= hs.len(),
        forall|j: int| 0 <= j < i ==> hs[j].0 != m,
        i < hs.len() ==> hs[i].0 == m,
    ensures
        handlers_insert(hs, m, h) == if i < hs.len() {
            hs.update(i, (m, h))
        } else {
            hs.push((m, h))
        },
    decreases i,
{
    if i == 0 {
        if hs.len() == 0 {
            assert(seq![(m, h)] =~= hs.push((m, h)));
        }
    } else {
        lemma_handlers_insert_at(hs.drop_first(), m, h, i - 1);
        if i < hs.len() {
            assert(seq![hs[0]] + hs.drop_first().update(i - 1, (m, h)) =~= hs.update(i, (m, h)));
        } else {
            assert(seq![hs[0]] + hs.drop_first().push((m, h)) =~= hs.push((m, h)));
        }
    }
}

fn handlers_set(hs: &mut Vec<(Method, HandlerId)>, m: Method, h: HandlerId)
    ensures
        handlers_view(final(hs)@) == handlers_insert(handlers_view(old(hs)@), m@, h),
{
    let ghost hv = handlers_view(hs@);
    let ghost mv = m@;
    let mut i: usize = 0;
    while i < hs.len()
        invariant
            i <= hs@.len(),
            hs@ == old(hs)@,
            hv == handlers_view(hs@),
            mv == m@,
            forall|j: int| 0 <= j < i ==> hv[j].0 != mv,
        decreases hs@.len() - i,
    {
        assert(hv[i as int] == (hs@[i as int].0@, hs@[i as int].1));
        if hs[i].0.same(&m) {
            proof {
                lemma_handlers_insert_at(hv, mv, h, i as int);
            }
            hs.set(i, (m, h));
            assert(handlers_view(hs@) =~= hv.update(i as int, (mv, h)));
            return ;
        }
        i += 1;
    }
    proof {
        lemma_handlers_insert_at(hv, mv, h, i as int);
    }
    hs.push((m, h));
    assert(handlers_view(hs@) =~= hv.push((mv, h)));
}

/// The texts of `segs[from..]` joined with `/`.
fn join_from(segs: &Vec<String>, from: usize) -> (r: String)
    requires
        from < segs@.len(),
    ensures
        r@ == join_slash(texts(segs@).skip(from as int)),
{
    let ghost t = texts(segs@);
    let n = segs.len();
    let mut acc = segs[from].clone();
    let mut j = from + 1;
    assert(t.subrange(from as int, j as int) =~= seq![t[from as int]]);
    while j < segs.len()
        invariant
            from < j <= segs@.len(),
            t == texts(segs@),
            acc@ == join_slash(t.subrange(from as int, j as int)),
        decreases segs@.len() - j,
    {
        let ghost before = acc@;
        crate::text::push_char(&mut acc, '/');
        acc.append(segs[j].as_str());
        assert(t.subrange(from as int, j + 1).drop_last() =~= t.subrange(from as int, j as int));
        assert(acc@ =~= before + seq!['/'] + t[j as int]);
        j += 1;
    }
    assert(t.subrange(from as int, segs@.len() as int) =~= t.skip(from as int));
    acc
}

spec fn arena_ok(nodes: Seq<Node>) -> bool {
    arena_wf(arena_view(nodes))
}

fn segment_kind(seg: &str) -> (r: (u8, Vec<char>))
    ensures
        r.1@ == seg@,
        r.0 == 0 ==> is_wild(seg@),
        r.0 == 1 ==> is_param(seg@),
        r.0 == 2 ==> !is_wild(seg@) && !is_param(seg@),
        r.0 <= 2,
{
    let v = crate::text::chars_of(seg);
    if v.len() == 1 && v[0] == '*' {
        assert(seg@ =~= seq!['*']);
        (0, v)
    } else if v.len() > 0 && v[0] == ':' {
        (1, v)
    } else {
        (2, v)
    }
}

fn arena_insert(nodes: &mut Vec<Node>, segs: &Vec<String>, m: Method, h: HandlerId)
    requires
        arena_ok(old(nodes)@),
    ensures
        arena_ok(final(nodes)@),
        arena_view(final(nodes)@) == ins(arena_view(old(nodes)@), 0, texts(segs@), m@, h),
{
    let ghost s = texts(segs@);
    let ghost goal = ins(arena_view(nodes@), 0, s, m@, h);
    let mut cur: usize = 0;
    let mut k: usize = 0;
    assert(s.skip(0) =~= s);
    while k < segs.len()
        invariant
            k <= segs@.len(),
            s == texts(segs@),
            arena_ok(nodes@),
            cur < nodes@.len(),
            goal == ins(arena_view(nodes@), cur as int, s.skip(k as int), m@, h),
        decreases segs@.len() - k,
    {
        let ghost a = arena_view(nodes@);
        let ghost rest = s.skip(k as int).drop_first();
        assert(rest =~= s.skip(k + 1));
        assert(s.skip(k as int)[0] == segs@[k as int]@);
        assert(a[cur as int] == nodes@[cur as int]@);
        assert(node_wf(a, cur as int));
        let fresh = nodes.len();
        let (kind, chars) = segment_kind(segs[k].as_str());
        if kind == 0 {
            match nodes[cur].wildcard_child {
                Some(c) => {
                    cur = c;
                },
                None => {
                    let mut node = Node::empty();
                    nodes.set_and_swap(cur, &mut node);
                    node.wildcard_child = Some(fresh);
                    let ghost nm = node@;
                    nodes.set(cur, node);
                    nodes.push(Node::empty());
                    assert(nm == NodeModel { wildcard: Some(fresh as int), ..a[cur as int] });
                    assert(arena_view(nodes@) =~= a.update(cur as int, nm).push(empty_node()));
                    proof {
                        lemma_extend_wf(a, cur as int, nm);
                    }
                    cur = fresh;
                },
            }
        } else if kind == 1 {
            match &nodes[cur].param_child {
                Some((_, c)) => {
                    cur = *c;
                },
                None => {
                    let name = crate::text::string_of(&chars, 1, chars.len());
                    assert(name@ =~= segs@[k as int]@.drop_first());
                    let mut node = Node::empty();
                    nodes.set_and_swap(cur, &mut node);
                    node.param_child = Some((name, fresh));
                    let ghost nm = node@;
                    nodes.set(cur, node);
                    nodes.push(Node::empty());
                    assert(arena_view(nodes@) =~= a.update(cur as int, nm).push(empty_node()));
                    proof {
                        lemma_extend_wf(a, cur as int, nm);
                    }
                    cur = fresh;
                },
            }
        } else {
            proof {
                lemma_child_in_arena(a, cur as int, segs@[k as int]@);
            }
            match child_lookup(&nodes[cur].children, segs[k].as_str()) {
                Some(c) => {
                    cur = c;
                },
                None => {
                    let key = segs[k].clone();
                    let mut node = Node::empty();
                    nodes.set_and_swap(cur, &mut node);
                    let ghost old_children = node.children@;
                    node.children.push((key, fresh));
                    let ghost nm = node@;
                    assert(nm.children =~= a[cur as int].children.push(
                        (segs@[k as int]@, fresh as int),
                    ));
                    nodes.set(cur, node);
                    nodes.push(Node::empty());
                    assert(arena_view(nodes@) =~= a.update(cur as int, nm).push(empty_node()));
                    proof {
                        assert forall|j: int| 0 <= j < nm.children.len() implies cur
                            < #[trigger] nm.children[j].1 <= a.len() by {
                            if j < a[cur as int].children.len() {
                                assert(nm.children[j] == a[cur as int].children[j]);
                            }
                        }
                        lemma_extend_wf(a, cur as int, nm);
                    }
                    cur = fresh;
                },
            }
        }
        k += 1;
    }
    let ghost a = arena_view(nodes@);
    assert(a[cur as int] == nodes@[cur as int]@);
    let mut node = Node::empty();
    nodes.set_and_swap(cur, &mut node);
    handlers_set(&mut node.handlers, m, h);
    let ghost nm = node@;
    nodes.set(cur, node);
    assert(arena_view(nodes@) =~= a.update(
        cur as int,
        NodeModel { handlers: handlers_insert(a[cur as int].handlers, m@, h), ..a[cur as int] },
    ));
    proof {
        let b = arena_view(nodes@);
        assert(node_wf(a, cur as int));
        assert forall|j: int| 0 <= j < b.len() implies #[trigger] node_wf(b, j) by {
            assert(node_wf(a, j));
        }
    }
}

fn find_in(
    nodes: &Vec<Node>,
    i: usize,
    segs: &Vec<String>,
    k: usize,
    params: StrMap<String>,
) -> (r: Option<(usize, StrMap<String>)>)
    requires
        arena_ok(nodes@),
        i < nodes@.len(),
        k <= segs@.len(),
    ensures
        match r {
            Some((n, p)) => find_spec(arena_view(nodes@), i as int, texts(segs@).skip(k as int), params@)
                == Some((n as int, p@)) && n < nodes@.len(),
            None => find_spec(arena_view(nodes@), i as int, texts(segs@).skip(k as int), params@) is None,
        },
    decreases segs@.len() - k,
{
    let ghost a = arena_view(nodes@);
    let ghost s = texts(segs@).skip(k as int);
    if k == segs.len() {
        assert(s.len() == 0);
        return Some((i, params));
    }
    assert(s[0] == segs@[k as int]@);
    assert(s.drop_first() =~= texts(segs@).skip(k + 1));
    assert(a[i as int] == nodes@[i as int]@);
    assert(node_wf(a, i as int));
    let seg = segs[k].as_str();
    proof {
        lemma_child_in_arena(a, i as int, seg@);
    }
    match child_lookup(&nodes[i].children, seg) {
        Some(c) => {
            let found = find_in(nodes, c, segs, k + 1, params.duplicate());
            if found.is_some() {
                return found;
            }
        },
        None => {},
    }
    match &nodes[i].param_child {
        Some((name, c)) => {
            let mut p2 = params.duplicate();
            p2.insert(name.clone(), segs[k].clone());
            let found = find_in(nodes, *c, segs, k + 1, p2);
            if found.is_some() {
                return found;
            }
        },
        None => {},
    }
    match nodes[i].wildcard_child {
        Some(w) => {
            let joined = join_from(segs, k);
            let mut p3 = params;
            p3.insert("*".to_string(), joined);
            proof {
                reveal_strlit("*");
            }
            assert("*"@ =~= seq!['*']);
            Some((w, p3))
        },
        None => None,
    }
}

// ── the router ──────────────────────────────────────────────────────────────

/// The result of routing a request: the handler and the path parameters
/// bound on the way (`:name` segments, and `*` for a wildcard's remainder).
pub struct RouteMatch {
    pub handler: HandlerId,
    pub params: StrMap<String>,
}

/// The route tree.
///
/// Supports static routes (`/api/users`), parameter routes
/// (`/api/users/:id`) and wildcards (`/static/*`).
pub struct Router {
    nodes: Vec<Node>,
}

impl Router {
    #[verifier::type_invariant]
    spec fn inv(&self) -> bool {
        arena_ok(self.nodes@)
    }

    /// The tree as an arena of nodes; the root is node 0.
    pub closed spec fn model(&self) -> Seq<NodeModel> {
        arena_view(self.nodes@)
    }

    /// A router with no routes.
    pub fn new() -> (r: Router)
        ensures
            r.model() == seq![empty_node()],
            arena_wf(r.model()),
    {
        let mut nodes: Vec<Node> = Vec::new();
        nodes.push(Node::empty());
        assert(arena_view(nodes@) =~= seq![empty_node()]);
        assert(node_wf(arena_view(nodes@), 0));
        Router { nodes }
    }

    /// Registers `handler` for `method` on the route `path`.
    pub fn add(&mut self, method: Method, path: &str, handler: HandlerId)
        ensures
            final(self).model() == ins(old(self).model(), 0, path_segments(path@), method@, handler),
            arena_wf(final(self).model()),
    {
        proof {
            use_type_invariant(&*self);
        }
        let segs = path_segments_of(path);
        let mut nodes: Vec<Node> = Vec::new();
        nodes.push(Node::empty());
        assert(arena_view(nodes@) =~= seq![empty_node()]);
        assert(node_wf(arena_view(nodes@), 0));
        std::mem::swap(&mut nodes, &mut self.nodes);
        arena_insert(&mut nodes, &segs, method, handler);
        self.nodes = nodes;
    }

    /// Registers a `GET` route.
    pub fn get(&mut self, path: &str, handler: HandlerId)
        ensures
            final(self).model() == ins(old(self).model(), 0, path_segments(path@), Method::Get@, handler),
            arena_wf(final(self).model()),
    {
        self.add(Method::Get, path, handler);
    }

    /// Registers a `POST` route.
    pub fn post(&mut self, path: &str, handler: HandlerId)
        ensures
            final(self).model() == ins(old(self).model(), 0, path_segments(path@), Method::Post@, handler),
            arena_wf(final(self).model()),
    {
        self.add(Method::Post, path, handler);
    }

    /// Registers a `PUT` route.
    pub fn put(&mut self, path: &str, handler: HandlerId)
        ensures
            final(self).model() == ins(old(self).model(), 0, path_segments(path@), Method::Put@, handler),
            arena_wf(final(self).model()),
    {
        self.add(Method::Put, path, handler);
    }

    /// Registers a `PATCH` route.
    pub fn patch(&mut self, path: &str, handler: HandlerId)
        ensures
            final(self).model() == ins(old(self).model(), 0, path_segments(path@), Method::Patch@, handler),
            arena_wf(final(self).model()),
    {
        self.add(Method::Patch, path, handler);
    }

    /// Registers a `DELETE` route.
    pub fn delete(&mut self, path: &str, handler: HandlerId)
        ensures
            final(self).model() == ins(old(self).model(), 0, path_segments(path@), Method::Delete@, handler),
            arena_wf(final(self).model()),
    {
        self.add(Method::Delete, path, handler);
    }

    /// A group of routes that share the path prefix `prefix`.
    pub fn group(&self, prefix: &str) -> (g: RouteGroup)
        ensures
            g.prefix@ == prefix@,
    {
        RouteGroup { prefix: prefix.to_string() }
    }

    /// Routes a request: the handler registered for `method` at the node that
    /// `path` reaches, with the parameters bound on the way.
    pub fn find(&self, method: &Method, path: &str) -> (r: Option<RouteMatch>)
        ensures
            match r {
                Some(rm) => route_spec(self.model(), method@, path_segments(path@)) == Some(
                    (rm.handler, rm.params@),
                ),
                None => route_spec(self.model(), method@, path_segments(path@)) is None,
            },
    {
        proof {
            use_type_invariant(self);
        }
        let segs = path_segments_of(path);
        assert(texts(segs@).skip(0) =~= texts(segs@));
        match find_in(&self.nodes, 0, &segs, 0, StrMap::new()) {
            Some((n, params)) => {
                assert(arena_view(self.nodes@)[n as int] == self.nodes@[n as int]@);
                match handler_lookup(&self.nodes[n].handlers, method) {
                    Some(h) => Some(RouteMatch { handler: h, params }),
                    None => None,
                }
            },
            None => None,
        }
    }

    /// Whether `path` reaches a node with a handler for any method (which
    /// tells a 405 from a 404).
    pub fn has_path(&self, path: &str) -> (b: bool)
        ensures
            b == has_path_spec(self.model(), path_segments(path@)),
    {
        proof {
            use_type_invariant(self);
        }
        let segs = path_segments_of(path);
        assert(texts(segs@).skip(0) =~= texts(segs@));
        match find_in(&self.nodes, 0, &segs, 0, StrMap::new()) {
            Some((n, _)) => {
                assert(arena_view(self.nodes@)[n as int] == self.nodes@[n as int]@);
                self.nodes[n].handlers.len() > 0
            },
            None => false,
        }
    }
}

impl Default for Router {
    /// A router with no routes.
    fn default() -> (r: Router)
        ensures
            r.model() == seq![empty_node()],
    {
        Router::new()
    }
}

/// A path prefix shared by a group of routes.
pub struct RouteGroup {
    pub prefix: String,
}

impl RouteGroup {
    fn full_path(&self, path: &str) -> (r: String)
        ensures
            r@ == self.prefix@ + path@,
    {
        let mut full = self.prefix.clone();
        full.append(path);
        full
    }

    /// Registers a `GET` route at the group's prefix followed by `path`.
    pub fn get(&self, router: &mut Router, path: &str, handler: HandlerId)
        ensures
            final(router).model() == ins(
                old(router).model(),
                0,
                path_segments(self.prefix@ + path@),
                Method::Get@,
                handler,
            ),
    {
        let full = self.full_path(path);
        router.get(full.as_str(), handler);
    }

    /// Registers a `POST` route at the group's prefix followed by `path`.
    pub fn post(&self, router: &mut Router, path: &str, handler: HandlerId)
        ensures
            final(router).model() == ins(
                old(router).model(),
                0,
                path_segments(self.prefix@ + path@),
                Method::Post@,
                handler,
            ),
    {
        let full = self.full_path(path);
        router.post(full.as_str(), handler);
    }

    /// Registers a `PUT` route at the group's prefix followed by `path`.
    pub fn put(&self, router: &mut Router, path: &str, handler: HandlerId)
        ensures
            final(router).model() == ins(
                old(router).model(),
                0,
                path_segments(self.prefix@ + path@),
                Method::Put@,
                handler,
            ),
    {
        let full = self.full_path(path);
        router.put(full.as_str(), handler);
    }

    /// Registers a `PATCH` route at the group's prefix followed by `path`.
    pub fn patch(&self, router: &mut Router, path: &str, handler: HandlerId)
        ensures
            final(router).model() == ins(
                old(router).model(),
                0,
                path_segments(self.prefix@ + path@),
                Method::Patch@,
                handler,
            ),
    {
        let full = self.full_path(path);
        router.patch(full.as_str(), handler);
    }

    /// Registers a `DELETE` route at the group's prefix followed by `path`.
    pub fn delete(&self, router: &mut Router, path: &str, handler: HandlerId)
        ensures
            final(router).model() == ins(
                old(router).model(),
                0,
                path_segments(self.prefix@ + path@),
                Method::Delete@,
                handler,
            ),
    {
        let full = self.full_path(path);
        router.delete(full.as_str(), handler);
    }

    /// A nested group whose prefix is this group's prefix followed by `sub_prefix`.
    pub fn group(&self, sub_prefix: &str) -> (g: RouteGroup)
        ensures
            g.prefix@ == self.prefix@ + sub_prefix@,
    {
        RouteGroup { prefix: self.full_path(sub_prefix) }
    }
}

} // verus!
