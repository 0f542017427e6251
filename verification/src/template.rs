//! Route templates: splitting paths into segments, classifying segments as
//! literals or named parameters, matching a path against a template,
//! capturing parameter values, and the specificity order that lets literal
//! segments take priority over parameter segments.
use vstd::prelude::*;
use crate::request::ParamsRep;

verus! {

/// One segment of a route template: a literal to be matched exactly, or a
/// named parameter that captures any non-empty path segment.
pub enum Segment {
    Lit(String),
    Param(String),
}

/// Representation of a segment.
pub enum SegRep {
    Lit(Seq<char>),
    Param(Seq<char>),
}

impl DeepView for Segment {
    type V = SegRep;

    open spec fn deep_view(&self) -> SegRep {
        match self {
            Segment::Lit(s) => SegRep::Lit(s@),
            Segment::Param(s) => SegRep::Param(s@),
        }
    }
}

/// The number of characters before the first `/`, or the whole length when
/// there is none.
pub open spec fn prefix_len(s: Seq<char>) -> nat
    decreases s.len(),
{
    if s.len() == 0 || s[0] == '/' {
        0
    } else {
        1 + prefix_len(s.drop_first())
    }
}

/// `prefix_len` is the unique cut: everything before it is slash-free and it
/// stops at a slash or the end.
pub proof fn lemma_prefix_len_is(s: Seq<char>, k: int)
    requires
        0 <= k <= s.len(),
        forall|j: int| 0 <= j < k ==> s[j] != '/',
        k < s.len() ==> s[k] == '/',
    ensures
        prefix_len(s) == k,
    decreases k,
{
    if k == 0 {
    } else {
        assert(s[0] != '/');
        assert(forall|j: int| 0 <= j < k - 1 ==> s.drop_first()[j] == s[j + 1]);
        lemma_prefix_len_is(s.drop_first(), k - 1);
    }
}

/// The slash-free prefix never reaches past the end.
pub proof fn lemma_prefix_len_le(s: Seq<char>)
    ensures
        prefix_len(s) <= s.len(),
    decreases s.len(),
{
    if !(s.len() == 0 || s[0] == '/') {
        lemma_prefix_len_le(s.drop_first());
    }
}

/// A path's segments: the maximal slash-free pieces between slashes. A
/// leading or trailing slash contributes an empty segment, so `/a/b` splits
/// into an empty segment, `a` and `b`.
pub open spec fn spec_split(s: Seq<char>) -> Seq<Seq<char>>
    decreases s.len(),
    via spec_split_decreases
{
    let k = prefix_len(s) as int;
    if k == s.len() {
        seq![s]
    } else {
        seq![s.subrange(0, k)] + spec_split(s.skip(k + 1))
    }
}

#[via_fn]
proof fn spec_split_decreases(s: Seq<char>) {
    lemma_prefix_len_le(s);
}

/// The character index of the first `/` at or after `from`, or the string's
/// length when there is none.
fn scan_to_slash(s: &str, from: usize, len: usize) -> (k: usize)
    requires
        len == s@.len(),
        from <= len,
    ensures
        from <= k <= len,
        forall|j: int| from <= j < k ==> s@[j] != '/',
        k < len ==> s@[k as int] == '/',
    decreases len - from,
{
    if from == len {
        from
    } else if s.get_char(from) == '/' {
        from
    } else {
        scan_to_slash(s, from + 1, len)
    }
}

/// Split a path into its segments.
pub fn split_path(s: &str) -> (r: Vec<String>)
    ensures
        r.deep_view() == spec_split(s@),
    decreases s@.len(),
{
    let len = s.unicode_len();
    let k = scan_to_slash(s, 0, len);
    proof {
        lemma_prefix_len_is(s@, k as int);
    }
    if k == len {
        let mut r: Vec<String> = Vec::new();
        r.push(String::from_str(s));
        proof {
            assert(r.deep_view() =~= seq![s@]);
        }
        r
    } else {
        let head = s.substring_char(0, k);
        let tail = s.substring_char(k + 1, len);
        let mut rest = split_path(tail);
        rest.insert(0, String::from_str(head));
        proof {
            assert(rest.deep_view() =~= seq![s@.subrange(0, k as int)] + spec_split(
                s@.skip(k as int + 1),
            ));
        }
        rest
    }
}

/// How a raw segment reads as a template segment: `{name}` is a parameter
/// named `name`, anything else is a literal.
pub open spec fn spec_classify(seg: Seq<char>) -> SegRep {
    if seg.len() >= 2 && seg[0] == '{' && seg[seg.len() - 1] == '}' {
        SegRep::Param(seg.subrange(1, seg.len() - 1))
    } else {
        SegRep::Lit(seg)
    }
}

/// A template's segments, as read from its path string.
pub open spec fn spec_parse_template(s: Seq<char>) -> Seq<SegRep> {
    spec_split(s).map_values(|seg: Seq<char>| spec_classify(seg))
}

/// Parse a route template string into its segments.
pub fn parse_template(s: &str) -> (r: Vec<Segment>)
    ensures
        r.deep_view() == spec_parse_template(s@),
{
    let raw = split_path(s);
    let mut r: Vec<Segment> = Vec::new();
    let n = raw.len();
    for i in 0..n
        invariant
            n == raw.len(),
            raw.deep_view() == spec_split(s@),
            r.deep_view().len() == i,
            forall|j: int| 0 <= j < i ==> r.deep_view()[j] == spec_classify(
                #[trigger] raw.deep_view()[j],
            ),
    {
        let seg = &raw[i];
        let seg_len = seg.as_str().unicode_len();
        let is_param = seg_len >= 2 && seg.as_str().get_char(0) == '{' && seg.as_str().get_char(
            seg_len - 1,
        ) == '}';
        proof {
            assert(raw.deep_view()[i as int] == raw@[i as int]@);
        }
        let ghost prev = r.deep_view();
        if is_param {
            let name = seg.as_str().substring_char(1, seg_len - 1);
            r.push(Segment::Param(String::from_str(name)));
        } else {
            r.push(Segment::Lit(seg.clone()));
        }
        proof {
            assert(r.deep_view() =~= prev.push(spec_classify(raw.deep_view()[i as int])));
        }
    }
    proof {
        assert(r.deep_view() =~= spec_parse_template(s@));
    }
    r
}

/// Decide whether a template matches a path, segment by segment.
pub fn template_matches(t: &Vec<Segment>, p: &Vec<String>) -> (r: bool)
    ensures
        r == segs_match(t.deep_view(), p.deep_view()),
{
    if t.len() != p.len() {
        return false;
    }
    let n = t.len();
    for i in 0..n
        invariant
            n == t.len() == p.len(),
            forall|j: int| 0 <= j < i ==> seg_matches(t.deep_view()[j], p.deep_view()[j]),
    {
        let ok = match &t[i] {
            Segment::Lit(s) => s.eq(&p[i]),
            Segment::Param(_) => !p[i].as_str().is_empty(),
        };
        proof {
            assert(t.deep_view()[i as int] == t@[i as int].deep_view());
            assert(p.deep_view()[i as int] == p@[i as int]@);
            assert(ok == seg_matches(t.deep_view()[i as int], p.deep_view()[i as int]));
        }
        if !ok {
            return false;
        }
    }
    true
}

/// Decide whether two templates are structurally identical.
pub fn shapes_equal(a: &Vec<Segment>, b: &Vec<Segment>) -> (r: bool)
    ensures
        r == same_shape(a.deep_view(), b.deep_view()),
{
    if a.len() != b.len() {
        return false;
    }
    let n = a.len();
    for i in 0..n
        invariant
            n == a.len() == b.len(),
            forall|j: int| 0 <= j < i ==> #[trigger] seg_shape_eq(a.deep_view()[j], b.deep_view()[j]),
    {
        let ok = match (&a[i], &b[i]) {
            (Segment::Lit(x), Segment::Lit(y)) => x.eq(y),
            (Segment::Param(_), Segment::Param(_)) => true,
            _ => false,
        };
        proof {
            assert(a.deep_view()[i as int] == a@[i as int].deep_view());
            assert(b.deep_view()[i as int] == b@[i as int].deep_view());
            assert(ok == seg_shape_eq(a.deep_view()[i as int], b.deep_view()[i as int]));
        }
        if !ok {
            return false;
        }
    }
    true
}

/// Decide whether template `a` is more specific than template `b`.
pub fn template_beats(a: &Vec<Segment>, b: &Vec<Segment>) -> (r: bool)
    ensures
        r == beats(a.deep_view(), b.deep_view()),
{
    let n = if a.len() < b.len() {
        a.len()
    } else {
        b.len()
    };
    proof {
        assert(a.deep_view().skip(0) =~= a.deep_view());
        assert(b.deep_view().skip(0) =~= b.deep_view());
    }
    for i in 0..n
        invariant
            n <= a.len(),
            n <= b.len(),
            beats(a.deep_view(), b.deep_view()) == beats(
                a.deep_view().skip(i as int),
                b.deep_view().skip(i as int),
            ),
    {
        proof {
            assert(a.deep_view().skip(i as int)[0] == a.deep_view()[i as int]);
            assert(b.deep_view().skip(i as int)[0] == b.deep_view()[i as int]);
            assert(a.deep_view().skip(i as int).drop_first() =~= a.deep_view().skip(i as int + 1));
            assert(b.deep_view().skip(i as int).drop_first() =~= b.deep_view().skip(i as int + 1));
        }
        match (&a[i], &b[i]) {
            (Segment::Lit(_), Segment::Param(_)) => {
                return true;
            },
            (Segment::Param(_), Segment::Lit(_)) => {
                return false;
            },
            _ => {},
        }
    }
    proof {
        let at = a.deep_view().skip(n as int);
        let bt = b.deep_view().skip(n as int);
        assert(at.len() == 0 || bt.len() == 0);
        assert(!beats(at, bt));
    }
    false
}

/// Capture the parameters of a successful match.
pub fn collect_params(t: &Vec<Segment>, p: &Vec<String>) -> (r: Vec<(String, String)>)
    requires
        segs_match(t.deep_view(), p.deep_view()),
    ensures
        r.deep_view() == params_of(t.deep_view(), p.deep_view()),
{
    let mut r: Vec<(String, String)> = Vec::new();
    let n = t.len();
    proof {
        assert(r.deep_view() =~= params_of(
            t.deep_view().subrange(0, 0),
            p.deep_view().subrange(0, 0),
        ));
    }
    for i in 0..n
        invariant
            n == t.len() == p.len(),
            segs_match(t.deep_view(), p.deep_view()),
            r.deep_view() == params_of(
                t.deep_view().subrange(0, i as int),
                p.deep_view().subrange(0, i as int),
            ),
    {
        let ghost prev = r.deep_view();
        if let Segment::Param(name) = &t[i] {
            r.push((name.clone(), p[i].clone()));
            proof {
                assert(r.deep_view() =~= prev.push((name@, p.deep_view()[i as int])));
            }
        }
        proof {
            let tp = t.deep_view().subrange(0, i as int + 1);
            let pp = p.deep_view().subrange(0, i as int + 1);
            assert(tp.drop_last() =~= t.deep_view().subrange(0, i as int));
            assert(pp.drop_last() =~= p.deep_view().subrange(0, i as int));
            assert(tp.last() == t.deep_view()[i as int]);
            assert(pp.last() == p.deep_view()[i as int]);
            match t.deep_view()[i as int] {
                SegRep::Param(nm) => {
                    assert(r.deep_view() =~= params_of(tp, pp));
                },
                SegRep::Lit(_) => {
                    assert(r.deep_view() =~= params_of(tp, pp));
                },
            }
        }
    }
    proof {
        assert(t.deep_view().subrange(0, n as int) =~= t.deep_view());
        assert(p.deep_view().subrange(0, n as int) =~= p.deep_view());
    }
    r
}

/// Whether one template segment accepts one path segment: a literal matches
/// itself, a parameter matches any non-empty segment.
pub open spec fn seg_matches(t: SegRep, p: Seq<char>) -> bool {
    match t {
        SegRep::Lit(s) => s == p,
        SegRep::Param(_) => p.len() > 0,
    }
}

/// Whether a template matches a path, segment by segment.
pub open spec fn segs_match(t: Seq<SegRep>, p: Seq<Seq<char>>) -> bool {
    t.len() == p.len() && forall|i: int| 0 <= i < t.len() ==> seg_matches(t[i], p[i])
}

/// The parameter map a successful match captures: each parameter segment's
/// name bound to the path segment it matched, in template order.
pub open spec fn params_of(t: Seq<SegRep>, p: Seq<Seq<char>>) -> ParamsRep
    decreases t.len(),
{
    if t.len() == 0 || p.len() == 0 {
        Seq::empty()
    } else {
        params_of(t.drop_last(), p.drop_last()) + (match t.last() {
            SegRep::Param(name) => seq![(name, p.last())],
            SegRep::Lit(_) => Seq::<(Seq<char>, Seq<char>)>::empty(),
        })
    }
}

/// Whether two template segments have the same shape: equal literals, or
/// both parameters, names aside.
pub open spec fn seg_shape_eq(x: SegRep, y: SegRep) -> bool {
    match (x, y) {
        (SegRep::Lit(a), SegRep::Lit(b)) => a == b,
        (SegRep::Param(_), SegRep::Param(_)) => true,
        _ => false,
    }
}

/// Whether two templates are structurally identical: the same literals in
/// the same places and parameters in the same places, names aside.
pub open spec fn same_shape(a: Seq<SegRep>, b: Seq<SegRep>) -> bool {
    a.len() == b.len() && forall|i: int| 0 <= i < a.len() ==> #[trigger] seg_shape_eq(a[i], b[i])
}

/// Structural identity of templates is reflexive.
pub proof fn lemma_same_shape_refl(a: Seq<SegRep>)
    ensures
        same_shape(a, a),
{
    assert forall|i: int| 0 <= i < a.len() implies #[trigger] seg_shape_eq(a[i], a[i]) by {
        match a[i] {
            SegRep::Lit(_) => {},
            SegRep::Param(_) => {},
        }
    }
}

/// Structural identity of templates is symmetric.
pub proof fn lemma_same_shape_sym(a: Seq<SegRep>, b: Seq<SegRep>)
    requires
        same_shape(a, b),
    ensures
        same_shape(b, a),
{
    assert forall|i: int| 0 <= i < b.len() implies #[trigger] seg_shape_eq(b[i], a[i]) by {
        assert(seg_shape_eq(a[i], b[i]));
    }
}

/// Structural identity of templates is transitive.
pub proof fn lemma_same_shape_trans(a: Seq<SegRep>, b: Seq<SegRep>, c: Seq<SegRep>)
    requires
        same_shape(a, b),
        same_shape(b, c),
    ensures
        same_shape(a, c),
{
    assert forall|i: int| 0 <= i < a.len() implies #[trigger] seg_shape_eq(a[i], c[i]) by {
        assert(seg_shape_eq(a[i], b[i]));
        assert(seg_shape_eq(b[i], c[i]));
    }
}

/// Whether template `a` is more specific than template `b`: at the first
/// position where one has a literal and the other a parameter, `a` has the
/// literal.
pub open spec fn beats(a: Seq<SegRep>, b: Seq<SegRep>) -> bool
    decreases a.len(),
{
    if a.len() == 0 || b.len() == 0 {
        false
    } else {
        match (a[0], b[0]) {
            (SegRep::Lit(_), SegRep::Param(_)) => true,
            (SegRep::Param(_), SegRep::Lit(_)) => false,
            _ => beats(a.drop_first(), b.drop_first()),
        }
    }
}

/// Of two structurally different templates matching the same path, exactly
/// one is more specific.
pub proof fn lemma_beats_total(a: Seq<SegRep>, b: Seq<SegRep>, p: Seq<Seq<char>>)
    requires
        segs_match(a, p),
        segs_match(b, p),
        !same_shape(a, b),
    ensures
        beats(a, b) <==> !beats(b, a),
        beats(a, b) || beats(b, a),
    decreases a.len(), 1int,
{
    assert(a.len() == b.len());
    if a.len() == 0 {
        assert(same_shape(a, b));
    } else {
        match (a[0], b[0]) {
            (SegRep::Lit(x), SegRep::Lit(y)) => {
                assert(seg_matches(a[0], p[0]) && seg_matches(b[0], p[0]));
                assert(x == y);
                lemma_tail_case(a, b, p);
            },
            (SegRep::Param(_), SegRep::Param(_)) => {
                lemma_tail_case(a, b, p);
            },
            _ => {},
        }
    }
}

/// Helper for [`lemma_beats_total`]: when the first segments agree in kind,
/// the question moves to the tails.
proof fn lemma_tail_case(a: Seq<SegRep>, b: Seq<SegRep>, p: Seq<Seq<char>>)
    requires
        segs_match(a, p),
        segs_match(b, p),
        !same_shape(a, b),
        a.len() > 0,
        seg_shape_eq(a[0], b[0]),
    ensures
        beats(a, b) <==> !beats(b, a),
        beats(a, b) || beats(b, a),
    decreases a.len(), 0int,
{
    let at = a.drop_first();
    let bt = b.drop_first();
    let pt = p.drop_first();
    assert(forall|i: int| 0 <= i < at.len() ==> at[i] == a[i + 1] && bt[i] == b[i + 1] && pt[i]
        == p[i + 1]);
    assert(segs_match(at, pt));
    assert(segs_match(bt, pt));
    assert(!same_shape(at, bt)) by {
        if same_shape(at, bt) {
            assert(forall|i: int| 1 <= i < a.len() ==> a[i] == at[i - 1] && b[i] == bt[i - 1]);
            assert(same_shape(a, b));
        }
    }
    lemma_beats_total(at, bt, pt);
    assert(beats(a, b) == beats(at, bt));
    assert(beats(b, a) == beats(bt, at));
}

/// Specificity is transitive over templates of one length.
pub proof fn lemma_beats_trans(a: Seq<SegRep>, b: Seq<SegRep>, c: Seq<SegRep>)
    requires
        a.len() == b.len() == c.len(),
        beats(a, b),
        beats(b, c),
    ensures
        beats(a, c),
    decreases a.len(),
{
    if a.len() > 0 {
        match (a[0], b[0], c[0]) {
            (SegRep::Lit(_), SegRep::Param(_), _) => {
                match c[0] {
                    SegRep::Param(_) => {},
                    SegRep::Lit(_) => {
                        assert(!beats(b, c));
                    },
                }
            },
            _ => {
                if a[0] is Lit && b[0] is Lit && c[0] is Param {
                } else if a[0] is Param && b[0] is Param && c[0] is Param {
                    lemma_beats_trans(a.drop_first(), b.drop_first(), c.drop_first());
                } else if a[0] is Lit && b[0] is Lit && c[0] is Lit {
                    lemma_beats_trans(a.drop_first(), b.drop_first(), c.drop_first());
                }
            },
        }
    }
}

} // verus!
