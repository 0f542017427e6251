//! The router: a table of route templates, each with a densely allocated
//! identifier, and a table of per-identifier, per-method handlers. Requests
//! are dispatched to the most specific matching template; misses become 404
//! and 405 responses.
use vstd::prelude::*;
use core::marker::PhantomData;
use crate::handler::Handler;
use crate::request::{Method, Params, ReqRep, Request};
use crate::response::{
    rep_status_only, HttpResponse, RespRep, STATUS_METHOD_NOT_ALLOWED, STATUS_NOT_FOUND,
};
use crate::template::{
    beats, collect_params, lemma_beats_total, lemma_beats_trans, lemma_same_shape_refl,
    lemma_same_shape_sym, lemma_same_shape_trans, parse_template, same_shape, segs_match,
    shapes_equal, spec_parse_template, spec_split, split_path, template_beats, template_matches,
    params_of, SegRep, Segment,
};

verus! {

/// The error a fallible registration returns when the `(template, method)`
/// pair already has a handler.
pub struct RouteConflict;

/// The request as a matched handler sees it: the captured path parameters
/// injected as ambient metadata.
pub open spec fn rep_with_params(req: ReqRep, ps: Seq<(Seq<char>, Seq<char>)>) -> ReqRep {
    ReqRep {
        method: req.method,
        path: req.path,
        query: req.query,
        headers: req.headers,
        body: req.body,
        params: ps,
        peer: req.peer,
    }
}

/// A router: route templates, identified by their index, and one handler per
/// (template, method) pair. Construction mutates it; serving only reads it.
pub struct Router<S, H> {
    templates: Vec<Vec<Segment>>,
    entries: Vec<(usize, Method, H)>,
    marker: PhantomData<S>,
}

impl<S, H> Router<S, H> {
    /// The registered templates; a route identifier is an index into this
    /// sequence.
    pub closed spec fn spec_templates(&self) -> Seq<Seq<SegRep>> {
        self.templates.deep_view()
    }

    /// The registered (route identifier, method, handler) triples.
    pub closed spec fn spec_entries(&self) -> Seq<(usize, Method, H)> {
        self.entries@
    }

    /// Structurally identical templates share one identifier, identifiers
    /// point into the template table, and a (template, method) pair holds at
    /// most one handler.
    #[verifier::type_invariant]
    pub open spec fn wf(&self) -> bool {
        &&& forall|k: int|
            0 <= k < self.spec_entries().len() ==> (#[trigger] self.spec_entries()[k]).0
                < self.spec_templates().len()
        &&& forall|i: int, j: int|
            0 <= i < j < self.spec_templates().len() ==> !same_shape(
                #[trigger] self.spec_templates()[i],
                #[trigger] self.spec_templates()[j],
            )
        &&& forall|k1: int, k2: int|
            0 <= k1 < k2 < self.spec_entries().len() ==> !((#[trigger] self.spec_entries()[k1]).0
                == (#[trigger] self.spec_entries()[k2]).0 && self.spec_entries()[k1].1
                == self.spec_entries()[k2].1)
    }

    /// Whether some handler is registered for a template of this shape and
    /// this method.
    pub open spec fn spec_has_route(&self, shape: Seq<SegRep>, method: Method) -> bool {
        exists|k: int|
            0 <= k < self.spec_entries().len() && (#[trigger] self.spec_entries()[k]).1 == method
                && same_shape(self.spec_templates()[self.spec_entries()[k].0 as int], shape)
    }

    /// Whether template `i` is registered and matches the path split into
    /// `segs`.
    pub open spec fn spec_matched(&self, segs: Seq<Seq<char>>, i: int) -> bool {
        0 <= i < self.spec_templates().len() && segs_match(self.spec_templates()[i], segs)
    }

    /// Whether template `i` is the most specific registered match for the
    /// path split into `segs`.
    pub open spec fn spec_best(&self, segs: Seq<Seq<char>>, i: int) -> bool {
        self.spec_matched(segs, i) && forall|j: int|
            #[trigger] self.spec_matched(segs, j) && j != i ==> beats(
                self.spec_templates()[i],
                self.spec_templates()[j],
            )
    }

    /// The entry serving (route identifier, method), if one is registered.
    pub open spec fn spec_entry_index(&self, tid: int, method: Method) -> Option<int> {
        if exists|k: int|
            0 <= k < self.spec_entries().len() && (#[trigger] self.spec_entries()[k]).0 == tid
                && self.spec_entries()[k].1 == method {
            Some(
                choose|k: int|
                    0 <= k < self.spec_entries().len() && (#[trigger] self.spec_entries()[k]).0
                        == tid && self.spec_entries()[k].1 == method,
            )
        } else {
            None
        }
    }

    /// An empty router.
    pub fn new() -> (r: Self)
        ensures
            r.spec_templates() =~= Seq::<Seq<SegRep>>::empty(),
            r.spec_entries() =~= Seq::<(usize, Method, H)>::empty(),
    {
        let r = Router { templates: Vec::new(), entries: Vec::new(), marker: PhantomData };
        proof {
            assert(r.spec_templates() =~= Seq::<Seq<SegRep>>::empty());
        }
        r
    }

    /// The identifier of the registered template with this shape, if any.
    fn find_template(&self, t: &Vec<Segment>) -> (r: Option<usize>)
        ensures
            match r {
                Some(tid) => tid < self.spec_templates().len() && same_shape(
                    self.spec_templates()[tid as int],
                    t.deep_view(),
                ),
                None => forall|i: int|
                    0 <= i < self.spec_templates().len() ==> !same_shape(
                        #[trigger] self.spec_templates()[i],
                        t.deep_view(),
                    ),
            },
    {
        let n = self.templates.len();
        for i in 0..n
            invariant
                n == self.templates.len(),
                forall|j: int|
                    0 <= j < i ==> !same_shape(#[trigger] self.spec_templates()[j], t.deep_view()),
        {
            proof {
                assert(self.spec_templates()[i as int] == self.templates@[i as int].deep_view());
            }
            if shapes_equal(&self.templates[i], t) {
                return Some(i);
            }
        }
        None
    }

    /// The index of the entry serving (tid, method), if any.
    fn find_entry(&self, tid: usize, method: Method) -> (r: Option<usize>)
        ensures
            match r {
                Some(k) => self.spec_entry_index(tid as int, method) == Some(k as int) && k
                    < self.spec_entries().len() && self.spec_entries()[k as int].0 == tid
                    && self.spec_entries()[k as int].1 == method,
                None => self.spec_entry_index(tid as int, method) is None,
            },
    {
        proof {
            use_type_invariant(&*self);
        }
        let n = self.entries.len();
        for k in 0..n
            invariant
                n == self.entries.len(),
                self.wf(),
                forall|j: int|
                    0 <= j < k ==> !((#[trigger] self.spec_entries()[j]).0 == tid
                        && self.spec_entries()[j].1 == method),
        {
            if self.entries[k].0 == tid && self.entries[k].1 == method {
                proof {
                    let w = choose|j: int|
                        0 <= j < self.spec_entries().len() && (#[trigger] self.spec_entries()[j]).0
                            == tid as int && self.spec_entries()[j].1 == method;
                    assert(0 <= w < self.spec_entries().len() && self.spec_entries()[w].0
                        == tid as int && self.spec_entries()[w].1 == method);
                    if w != k {
                        assert(false);
                    }
                }
                return Some(k);
            }
        }
        None
    }

    /// Two most-specific matches are the same match.
    pub proof fn lemma_best_unique(&self, segs: Seq<Seq<char>>, i1: int, i2: int)
        requires
            self.wf(),
            self.spec_best(segs, i1),
            self.spec_best(segs, i2),
        ensures
            i1 == i2,
    {
        if i1 != i2 {
            assert(beats(self.spec_templates()[i1], self.spec_templates()[i2]));
            assert(beats(self.spec_templates()[i2], self.spec_templates()[i1]));
            if i1 < i2 {
                assert(!same_shape(self.spec_templates()[i1], self.spec_templates()[i2]));
                lemma_beats_total(self.spec_templates()[i1], self.spec_templates()[i2], segs);
            } else {
                assert(!same_shape(self.spec_templates()[i2], self.spec_templates()[i1]));
                lemma_beats_total(self.spec_templates()[i2], self.spec_templates()[i1], segs);
            }
        }
    }

    /// The most specific registered template matching the path split into
    /// `segs`, with the parameters it captures.
    fn find_match(&self, segs: &Vec<String>) -> (r: Option<(usize, Params)>)
        ensures
            match r {
                Some(m) => self.spec_best(segs.deep_view(), m.0 as int) && m.1.deep_view()
                    == params_of(self.spec_templates()[m.0 as int], segs.deep_view()),
                None => forall|i: int| !self.spec_matched(segs.deep_view(), i),
            },
    {
        proof {
            use_type_invariant(&*self);
        }
        let n = self.templates.len();
        let mut best: Option<usize> = None;
        for i in 0..n
            invariant
                n == self.templates.len(),
                self.wf(),
                match best {
                    None => forall|j: int| 0 <= j < i ==> !self.spec_matched(segs.deep_view(), j),
                    Some(b) => b < i && self.spec_matched(segs.deep_view(), b as int)
                        && forall|j: int|
                        #[trigger] self.spec_matched(segs.deep_view(), j) && 0 <= j < i && j
                            != b as int ==> beats(
                            self.spec_templates()[b as int],
                            self.spec_templates()[j],
                        ),
                },
        {
            proof {
                assert(self.spec_templates()[i as int] == self.templates@[i as int].deep_view());
            }
            if template_matches(&self.templates[i], segs) {
                match best {
                    None => {
                        best = Some(i);
                    },
                    Some(b) => {
                        proof {
                            assert(self.spec_templates()[b as int] == self.templates@[
                                b as int].deep_view());
                        }
                        if template_beats(&self.templates[i], &self.templates[b]) {
                            proof {
                                let ti = self.spec_templates()[i as int];
                                let tb = self.spec_templates()[b as int];
                                assert forall|j: int|
                                    #[trigger] self.spec_matched(segs.deep_view(), j) && 0 <= j < i
                                        + 1 && j != i as int implies beats(
                                    ti,
                                    self.spec_templates()[j],
                                ) by {
                                    let tj = self.spec_templates()[j];
                                    if j == b as int {
                                    } else {
                                        assert(beats(tb, tj));
                                        assert(segs_match(ti, segs.deep_view()));
                                        assert(segs_match(tb, segs.deep_view()));
                                        assert(segs_match(tj, segs.deep_view()));
                                        lemma_beats_trans(ti, tb, tj);
                                    }
                                }
                            }
                            best = Some(i);
                        } else {
                            proof {
                                let ti = self.spec_templates()[i as int];
                                let tb = self.spec_templates()[b as int];
                                assert(!same_shape(tb, ti)) by {
                                    if (b as int) < (i as int) {
                                        assert(!same_shape(
                                            self.spec_templates()[b as int],
                                            self.spec_templates()[i as int],
                                        ));
                                    }
                                }
                                lemma_beats_total(tb, ti, segs.deep_view());
                            }
                        }
                    },
                }
            }
        }
        match best {
            None => None,
            Some(b) => {
                proof {
                    assert(self.spec_templates()[b as int] == self.templates@[
                        b as int].deep_view());
                }
                let ps = collect_params(&self.templates[b], segs);
                Some((b, Params { pairs: ps }))
            },
        }
    }

    /// Match a path against the registered templates: the most specific
    /// matching template's identifier and the parameters it captures, or
    /// nothing when no template matches.
    pub fn at(&self, path: &str) -> (r: Option<(usize, Params)>)
        ensures
            match r {
                Some(m) => self.spec_best(spec_split(path@), m.0 as int) && m.1.deep_view()
                    == params_of(self.spec_templates()[m.0 as int], spec_split(path@)),
                None => forall|i: int| !self.spec_matched(spec_split(path@), i),
            },
    {
        let segs = split_path(path);
        self.find_match(&segs)
    }

    /// Whether a handler is registered for this template and method.
    pub fn has_route(&self, path: &str, method: Method) -> (r: bool)
        ensures
            r == self.spec_has_route(spec_parse_template(path@), method),
    {
        proof {
            use_type_invariant(&*self);
        }
        let t = parse_template(path);
        match self.find_template(&t) {
            None => {
                proof {
                    if self.spec_has_route(t.deep_view(), method) {
                        let k = choose|k: int|
                            0 <= k < self.spec_entries().len() && (#[trigger] self.spec_entries()[k]).1 == method && same_shape(
                                self.spec_templates()[self.spec_entries()[k].0 as int],
                                t.deep_view(),
                            );
                        assert(!same_shape(
                            self.spec_templates()[self.spec_entries()[k].0 as int],
                            t.deep_view(),
                        ));
                    }
                }
                false
            },
            Some(tid) => {
                let found = self.find_entry(tid, method);
                proof {
                    if found is None && self.spec_has_route(t.deep_view(), method) {
                        let k = choose|k: int|
                            0 <= k < self.spec_entries().len() && (#[trigger] self.spec_entries()[k]).1 == method && same_shape(
                                self.spec_templates()[self.spec_entries()[k].0 as int],
                                t.deep_view(),
                            );
                        let etid = self.spec_entries()[k].0 as int;
                        lemma_same_shape_sym(self.spec_templates()[tid as int], t.deep_view());
                        lemma_same_shape_trans(
                            self.spec_templates()[etid],
                            t.deep_view(),
                            self.spec_templates()[tid as int],
                        );
                        lemma_same_shape_sym(
                            self.spec_templates()[etid],
                            self.spec_templates()[tid as int],
                        );
                        if etid != tid as int {
                            assert(false);
                        }
                        assert(self.spec_entries()[k].0 == tid as int && self.spec_entries()[k].1
                            == method);
                        assert(false);
                    }
                    if found is Some {
                        let k = found->0 as int;
                        assert(self.spec_has_route(t.deep_view(), method)) by {
                            assert(self.spec_entries()[k].1 == method && same_shape(
                                self.spec_templates()[self.spec_entries()[k].0 as int],
                                t.deep_view(),
                            ));
                        }
                    }
                }
                match found {
                    Some(_) => true,
                    None => false,
                }
            },
        }
    }

    /// What a registration does: it keeps every earlier template and entry,
    /// adds at most one template, and adds exactly one entry holding this
    /// method and handler under an identifier whose template has the given
    /// shape.
    pub open spec fn spec_inserted(
        pre: Self,
        template: Seq<SegRep>,
        method: Method,
        handler: H,
        post: Self,
    ) -> bool {
        &&& post.spec_entries().len() == pre.spec_entries().len() + 1
        &&& post.spec_entries().subrange(0, pre.spec_entries().len() as int)
            == pre.spec_entries()
        &&& post.spec_entries().last().1 == method
        &&& post.spec_entries().last().2 == handler
        &&& (post.spec_entries().last().0 as int) < post.spec_templates().len()
        &&& same_shape(post.spec_templates()[post.spec_entries().last().0 as int], template)
        &&& pre.spec_templates().len() <= post.spec_templates().len() <= pre.spec_templates().len()
            + 1
        &&& post.spec_templates().subrange(0, pre.spec_templates().len() as int)
            == pre.spec_templates()
    }

    /// Register a handler for a template and method. Registering a pair that
    /// already has a handler is a configuration error, ruled out up front;
    /// [`Router::try_insert`] reports it as a value instead.
    pub fn insert(self, path: &str, method: Method, handler: H) -> (r: Self)
        requires
            !self.spec_has_route(spec_parse_template(path@), method),
        ensures
            Self::spec_inserted(self, spec_parse_template(path@), method, handler, r),
            forall|shape: Seq<SegRep>, m: Method| #[trigger]
                r.spec_has_route(shape, m) <==> (self.spec_has_route(shape, m) || (same_shape(
                    shape,
                    spec_parse_template(path@),
                ) && m == method)),
    {
        proof {
            use_type_invariant(&self);
        }
        let ghost pre = self;
        let t = parse_template(path);
        let found = self.find_template(&t);
        let Router { mut templates, mut entries, marker } = self;
        let tid = match found {
            Some(tid) => tid,
            None => {
                let tid = templates.len();
                templates.push(t);
                tid
            },
        };
        proof {
            assert(templates.deep_view().subrange(0, pre.spec_templates().len() as int)
                =~= pre.spec_templates());
            assert(same_shape(templates.deep_view()[tid as int], spec_parse_template(path@))) by {
                if found is Some {
                } else {
                    assert(templates.deep_view()[tid as int] == templates@[tid as int].deep_view());
                    lemma_same_shape_refl(spec_parse_template(path@));
                }
            }
        }
        entries.push((tid, method, handler));
        proof {
            let tds = templates.deep_view();
            let eds = entries@;
            let tpl = spec_parse_template(path@);
            assert forall|i: int, j: int| 0 <= i < j < tds.len() implies !same_shape(
                #[trigger] tds[i],
                #[trigger] tds[j],
            ) by {
                if j < pre.spec_templates().len() {
                    assert(!same_shape(pre.spec_templates()[i], pre.spec_templates()[j]));
                } else {
                    // j is the freshly pushed template: no earlier template shares its shape
                    assert(tds[j] == tpl);
                    assert(!same_shape(pre.spec_templates()[i], tpl));
                }
            }
            assert forall|k1: int, k2: int| 0 <= k1 < k2 < eds.len() implies !((
            #[trigger] eds[k1]).0 == (#[trigger] eds[k2]).0 && eds[k1].1 == eds[k2].1) by {
                if k2 < pre.spec_entries().len() {
                    assert(!(pre.spec_entries()[k1].0 == pre.spec_entries()[k2].0
                        && pre.spec_entries()[k1].1 == pre.spec_entries()[k2].1));
                } else {
                    // k2 is the new entry; an old entry on the same identifier and
                    // method would mean the pair was already registered
                    if eds[k1].0 == tid && eds[k1].1 == method {
                        if found is Some {
                            assert(pre.spec_has_route(tpl, method)) by {
                                assert(pre.spec_entries()[k1].1 == method && same_shape(
                                    pre.spec_templates()[pre.spec_entries()[k1].0 as int],
                                    tpl,
                                ));
                            }
                        } else {
                            assert((pre.spec_entries()[k1].0 as int)
                                < pre.spec_templates().len());
                        }
                    }
                }
            }
            assert forall|k: int| 0 <= k < eds.len() implies (#[trigger] eds[k]).0 < tds.len() by {
                if k < pre.spec_entries().len() {
                    assert((pre.spec_entries()[k].0 as int) < pre.spec_templates().len());
                }
            }
        }
        let r = Router { templates, entries, marker };
        proof {
            assert(r.spec_entries().subrange(0, pre.spec_entries().len() as int)
                =~= pre.spec_entries());
            // registration is visible exactly for this shape and method
            let tpl = spec_parse_template(path@);
            assert forall|shape: Seq<SegRep>, m: Method| #[trigger]
                r.spec_has_route(shape, m) implies (pre.spec_has_route(shape, m) || (same_shape(
                shape,
                tpl,
            ) && m == method)) by {
                let k = choose|k: int|
                    0 <= k < r.spec_entries().len() && (#[trigger] r.spec_entries()[k]).1 == m
                        && same_shape(r.spec_templates()[r.spec_entries()[k].0 as int], shape);
                if k < pre.spec_entries().len() {
                    assert(pre.spec_has_route(shape, m)) by {
                        assert(pre.spec_entries()[k].1 == m && same_shape(
                            pre.spec_templates()[pre.spec_entries()[k].0 as int],
                            shape,
                        ));
                    }
                } else {
                    lemma_same_shape_sym(r.spec_templates()[tid as int], tpl);
                    lemma_same_shape_trans(tpl, r.spec_templates()[tid as int], shape);
                    lemma_same_shape_sym(tpl, shape);
                }
            }
            assert forall|shape: Seq<SegRep>, m: Method|
                (pre.spec_has_route(shape, m) || (same_shape(shape, tpl) && m
                    == method)) implies #[trigger] r.spec_has_route(shape, m) by {
                if pre.spec_has_route(shape, m) {
                    let k = choose|k: int|
                        0 <= k < pre.spec_entries().len() && (#[trigger] pre.spec_entries()[k]).1
                            == m && same_shape(
                            pre.spec_templates()[pre.spec_entries()[k].0 as int],
                            shape,
                        );
                    assert(r.spec_entries()[k].1 == m && same_shape(
                        r.spec_templates()[r.spec_entries()[k].0 as int],
                        shape,
                    ));
                } else {
                    let k = r.spec_entries().len() - 1;
                    lemma_same_shape_sym(shape, tpl);
                    lemma_same_shape_trans(r.spec_templates()[tid as int], tpl, shape);
                    assert(r.spec_entries()[k].1 == m && same_shape(
                        r.spec_templates()[r.spec_entries()[k].0 as int],
                        shape,
                    ));
                }
            }
        }
        r
    }

    /// Register a handler for a template and method, reporting a duplicate
    /// registration as an error instead of ruling it out up front.
    pub fn try_insert(self, path: &str, method: Method, handler: H) -> (r: Result<
        Self,
        RouteConflict,
    >)
        ensures
            match r {
                Ok(router) => !self.spec_has_route(spec_parse_template(path@), method)
                    && Self::spec_inserted(
                    self,
                    spec_parse_template(path@),
                    method,
                    handler,
                    router,
                ) && forall|shape: Seq<SegRep>, m: Method| #[trigger]
                    router.spec_has_route(shape, m) <==> (self.spec_has_route(shape, m) || (
                    same_shape(shape, spec_parse_template(path@)) && m == method)),
                Err(_) => self.spec_has_route(spec_parse_template(path@), method),
            },
    {
        if self.has_route(path, method) {
            Err(RouteConflict)
        } else {
            Ok(self.insert(path, method, handler))
        }
    }

    /// Register a handler for GET requests on a template.
    pub fn get(self, path: &str, handler: H) -> (r: Self)
        requires
            !self.spec_has_route(spec_parse_template(path@), Method::Get),
        ensures
            Self::spec_inserted(self, spec_parse_template(path@), Method::Get, handler, r),
            forall|shape: Seq<SegRep>, m: Method| #[trigger]
                r.spec_has_route(shape, m) <==> (self.spec_has_route(shape, m) || (same_shape(
                    shape,
                    spec_parse_template(path@),
                ) && m == Method::Get)),
    {
        self.insert(path, Method::Get, handler)
    }

    /// Register a handler for POST requests on a template.
    pub fn post(self, path: &str, handler: H) -> (r: Self)
        requires
            !self.spec_has_route(spec_parse_template(path@), Method::Post),
        ensures
            Self::spec_inserted(self, spec_parse_template(path@), Method::Post, handler, r),
            forall|shape: Seq<SegRep>, m: Method| #[trigger]
                r.spec_has_route(shape, m) <==> (self.spec_has_route(shape, m) || (same_shape(
                    shape,
                    spec_parse_template(path@),
                ) && m == Method::Post)),
    {
        self.insert(path, Method::Post, handler)
    }

    /// Register a handler for PUT requests on a template.
    pub fn put(self, path: &str, handler: H) -> (r: Self)
        requires
            !self.spec_has_route(spec_parse_template(path@), Method::Put),
        ensures
            Self::spec_inserted(self, spec_parse_template(path@), Method::Put, handler, r),
            forall|shape: Seq<SegRep>, m: Method| #[trigger]
                r.spec_has_route(shape, m) <==> (self.spec_has_route(shape, m) || (same_shape(
                    shape,
                    spec_parse_template(path@),
                ) && m == Method::Put)),
    {
        self.insert(path, Method::Put, handler)
    }
}

impl<S, H: Handler<Request, S, Output = HttpResponse>> Router<S, H> {
    /// What dispatch answers for a request with the given content: 404 when
    /// no template matches the path, 405 when the most specific matching
    /// template has no handler for the method, and otherwise whatever the
    /// registered handler answers once the captured parameters are injected.
    pub open spec fn spec_dispatch(&self, req: ReqRep, state: &S) -> RespRep {
        let segs = spec_split(req.path);
        if exists|i: int| self.spec_matched(segs, i) {
            let i = choose|i: int| self.spec_best(segs, i);
            match self.spec_entry_index(i, req.method) {
                Some(k) => self.spec_entries()[k].2.spec_handle(
                    rep_with_params(req, params_of(self.spec_templates()[i], segs)),
                    state,
                ),
                None => rep_status_only(STATUS_METHOD_NOT_ALLOWED),
            }
        } else {
            rep_status_only(STATUS_NOT_FOUND)
        }
    }
}

impl<S, H: Handler<Request, S, Output = HttpResponse>> Router<S, H> {
    /// A request whose path matches no registered template is answered with
    /// 404 and an empty body.
    pub proof fn lemma_unmatched_is_not_found(&self, req: ReqRep, state: &S)
        requires
            forall|i: int| !self.spec_matched(spec_split(req.path), i),
        ensures
            self.spec_dispatch(req, state) == rep_status_only(STATUS_NOT_FOUND),
    {
    }

    /// A request whose path matches a registered template, with no handler
    /// for its method on that template, is answered with 405.
    pub proof fn lemma_no_method_is_not_allowed(&self, req: ReqRep, state: &S, i: int)
        requires
            self.wf(),
            self.spec_best(spec_split(req.path), i),
            self.spec_entry_index(i, req.method) is None,
        ensures
            self.spec_dispatch(req, state) == rep_status_only(STATUS_METHOD_NOT_ALLOWED),
    {
        let segs = spec_split(req.path);
        assert(self.spec_matched(segs, i));
        let c = choose|j: int| self.spec_best(segs, j);
        self.lemma_best_unique(segs, c, i);
    }

    /// A request whose path matches a registered template, with a handler
    /// registered for its method there, is answered by exactly that handler,
    /// given the request with the captured parameters injected.
    pub proof fn lemma_registered_handler_answers(
        &self,
        req: ReqRep,
        state: &S,
        i: int,
        k: int,
    )
        requires
            self.wf(),
            self.spec_best(spec_split(req.path), i),
            0 <= k < self.spec_entries().len(),
            self.spec_entries()[k].0 == i,
            self.spec_entries()[k].1 == req.method,
        ensures
            self.spec_dispatch(req, state) == self.spec_entries()[k].2.spec_handle(
                rep_with_params(req, params_of(self.spec_templates()[i], spec_split(req.path))),
                state,
            ),
    {
        let segs = spec_split(req.path);
        assert(self.spec_matched(segs, i));
        let c = choose|j: int| self.spec_best(segs, j);
        self.lemma_best_unique(segs, c, i);
        assert(self.spec_entry_index(i, req.method) == Some(k)) by {
            assert(0 <= k < self.spec_entries().len() && (self.spec_entries()[k]).0 == i
                && self.spec_entries()[k].1 == req.method);
            let w = choose|k2: int|
                0 <= k2 < self.spec_entries().len() && (#[trigger] self.spec_entries()[k2]).0 == i
                    && self.spec_entries()[k2].1 == req.method;
            if w != k {
                assert(false);
            }
        }
    }
}

impl<S, H: Handler<Request, S, Output = HttpResponse>> Handler<Request, S> for Router<S, H> {
    type Output = HttpResponse;

    open spec fn spec_handle(&self, input: ReqRep, state: &S) -> RespRep {
        self.spec_dispatch(input, state)
    }

    fn handle(&self, input: Request, state: &S) -> (out: HttpResponse) {
        proof {
            use_type_invariant(&*self);
        }
        let segs = split_path(input.path.as_str());
        let ghost segs_rep = spec_split(input.deep_view().path);
        match self.find_match(&segs) {
            None => {
                proof {
                    assert(forall|i: int| !self.spec_matched(segs_rep, i));
                }
                HttpResponse::new_empty(STATUS_NOT_FOUND)
            },
            Some((tid, params)) => {
                proof {
                    assert(self.spec_best(segs_rep, tid as int));
                    let i = choose|i: int| self.spec_best(segs_rep, i);
                    self.lemma_best_unique(segs_rep, i, tid as int);
                }
                match self.find_entry(tid, input.method) {
                    None => HttpResponse::new_empty(STATUS_METHOD_NOT_ALLOWED),
                    Some(k) => {
                        let ghost pre_rep = input.deep_view();
                        let mut req = input;
                        req.params = params;
                        proof {
                            assert(req.deep_view() == rep_with_params(
                                pre_rep,
                                params_of(self.spec_templates()[tid as int], segs_rep),
                            ));
                        }
                        let e = &self.entries[k];
                        e.2.handle(req, state)
                    },
                }
            },
        }
    }
}

} // verus!
