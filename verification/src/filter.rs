//! The routing core: composable filters that match a request and extract a
//! typed tuple from it.
//!
//! A filter's behaviour is captured by two specification functions:
//! `spec_match` gives, as a pure function of the request view and the entry
//! cursor, whether the filter matches and where it leaves the cursor, and
//! `valid_extract` says which extracted values a successful match may
//! produce.  The contract of [`Filter::filter`] ties every run to these two
//! functions; in particular a run that reports no match leaves the cursor
//! exactly where it was (the backtracking contract).
use vstd::prelude::*;
use crate::method::Method;
use crate::request::{header_lookup, ReqView, Request};
use crate::response::{IntoResponse, RespView, Response};
use crate::text::{lower_seq, split_drop, split_str, str_eq, views_of};

verus! {

/// Cursor state threaded through a filter tree during one match: the request
/// under consideration and how many of its path segments are consumed.
pub struct Context<'a> {
    request: &'a Request,
    path_index: usize,
}

impl<'a> Context<'a> {
    /// The request being matched.
    pub closed spec fn req(&self) -> ReqView {
        (*self.request)@
    }

    /// How many path segments have been consumed.
    pub closed spec fn cursor(&self) -> int {
        self.path_index as int
    }

    /// The cursor never runs past the end of the path.
    pub open spec fn wf(&self) -> bool {
        0 <= self.cursor() <= self.req().segments.len()
    }

    /// A fresh context for `request`, with the cursor at the first segment.
    pub fn new(request: &'a Request) -> (ctx: Context<'a>)
        ensures
            ctx.req() == request@,
            ctx.cursor() == 0,
            ctx.wf(),
    {
        Context { request, path_index: 0 }
    }

    /// Whether the whole path has been consumed.
    pub fn is_path_matched(&self) -> (r: bool)
        ensures
            r == (self.cursor() == self.req().segments.len()),
    {
        self.path_index == self.request.path_segments().len()
    }

    /// Take the segment under the cursor and advance past it; at the end of
    /// the path, return nothing and stay put.
    pub fn next_segment(&mut self) -> (r: Option<&'a str>)
        requires
            old(self).wf(),
        ensures
            final(self).req() == old(self).req(),
            final(self).wf(),
            match r {
                Some(s) => old(self).cursor() < old(self).req().segments.len() && s@ == old(
                    self,
                ).req().segments[old(self).cursor()] && final(self).cursor() == old(
                    self,
                ).cursor() + 1,
                None => old(self).cursor() == old(self).req().segments.len() && *final(self)
                    == *old(self),
            },
    {
        proof {
            self.request.lemma_segment_count();
        }
        match self.request.path_segment(self.path_index) {
            Some(s) => {
                self.path_index = self.path_index + 1;
                Some(s)
            },
            None => None,
        }
    }

    /// The segment under the cursor, without advancing past it.
    pub fn peek_next(&self) -> (r: Option<&'a str>)
        ensures
            match r {
                Some(s) => self.cursor() < self.req().segments.len() && s@
                    == self.req().segments[self.cursor()],
                None => self.cursor() >= self.req().segments.len(),
            },
    {
        self.request.path_segment(self.path_index)
    }

    /// An independent copy, used for speculative matching.
    pub fn fork(&self) -> (c: Context<'a>)
        ensures
            c == *self,
    {
        Context { request: self.request, path_index: self.path_index }
    }

    /// Adopt the position of a fork whose speculative match succeeded.
    pub fn restore(&mut self, other: &Context<'a>)
        ensures
            *final(self) == *other,
    {
        self.request = other.request;
        self.path_index = other.path_index;
    }
}

/// A composable match-and-extract rule over a request.
///
/// `spec_match(req, pos)` returns the cursor position after a successful
/// match starting at `pos`, or `None` when the filter does not match there;
/// it is the full specification of the filter's matching behaviour.
/// `valid_extract(req, pos, e)` says whether `e` is a value the filter may
/// extract from that match; for every filter except [`Mapped`] it pins the
/// extracted value exactly.  `req_ok` collects the obligations on
/// user-supplied mapping functions inside the tree.
pub trait Filter: Sized + Send + Sync {
    type Extract;

    /// The obligations on the user-supplied functions held by this filter
    /// tree; `true` for every tree without `map`.
    spec fn req_ok(&self) -> bool;

    /// Where a match starting at `pos` leaves the cursor, or `None`.
    spec fn spec_match(&self, req: ReqView, pos: int) -> Option<int>;

    /// Whether `e` is a possible extract of a match starting at `pos`.
    spec fn valid_extract(&self, req: ReqView, pos: int, e: Self::Extract) -> bool;

    /// A match never leaves the cursor outside the path.
    proof fn lemma_match_in_range(&self, req: ReqView, pos: int)
        requires
            0 <= pos <= req.segments.len(),
        ensures
            match self.spec_match(req, pos) {
                Some(p) => pos <= p <= req.segments.len(),
                None => true,
            },
    ;

    /// Run the filter.  On a match the cursor advances exactly as
    /// `spec_match` says and the result is a valid extract; on no match the
    /// cursor is exactly where it was.
    fn filter<'a>(&self, ctx: &mut Context<'a>) -> (r: Option<Self::Extract>)
        requires
            old(ctx).wf(),
            self.req_ok(),
        ensures
            final(ctx).wf(),
            final(ctx).req() == old(ctx).req(),
            match self.spec_match(old(ctx).req(), old(ctx).cursor()) {
                Some(p) => {
                    &&& final(ctx).cursor() == p
                    &&& r matches Some(e) && self.valid_extract(
                        old(ctx).req(),
                        old(ctx).cursor(),
                        e,
                    )
                },
                None => final(ctx).cursor() == old(ctx).cursor() && r is None,
            },
    ;
}

/// The combinator constructors, available on every filter.
pub trait FilterExt: Filter {
    /// Sequential composition: `self`, then `other`, extracts combined.
    fn and<B: Filter>(self, other: B) -> (r: And<Self, B>)
        ensures
            r == (And { a: self, b: other }),
    ;

    /// Ordered alternative: `self` first; only if it fails, `other`.
    fn or<B: Filter>(self, other: B) -> (r: Or<Self, B>)
        ensures
            r == (Or { a: self, b: other }),
    ;

    /// Transform the extract with a function.
    fn map<B, F: Fn(Self::Extract) -> B + Send + Sync>(self, func: F) -> (r: Mapped<Self, B, F>)
        ensures
            r == (Mapped { filter: self, func }),
    ;

    /// Optional suffix: `other` may match after `self`, its extract becomes
    /// an `Option` slot.
    fn maybe<B: Filter>(self, other: B) -> (r: Maybe<Self, B>)
        ensures
            r == (Maybe { filter: self, other }),
    ;

    /// Append a literal path to this filter.
    fn path(self, p: &str) -> (r: And<Self, Path>)
        ensures
            r.a == self,
            views_of(r.b.subs@) == split_drop(p@, '/'),
    ;

    /// Append a one-segment parameter to this filter.
    fn param<T: From<String> + Send + Sync>(self) -> (r: And<Self, PathParam<T>>)
        ensures
            r.a == self,
    ;
}

impl<A: Filter> FilterExt for A {
    fn and<B: Filter>(self, other: B) -> (r: And<Self, B>) {
        And { a: self, b: other }
    }

    fn or<B: Filter>(self, other: B) -> (r: Or<Self, B>) {
        Or { a: self, b: other }
    }

    fn map<B, F: Fn(Self::Extract) -> B + Send + Sync>(self, func: F) -> (r: Mapped<
        Self,
        B,
        F,
    >) {
        Mapped { filter: self, func }
    }

    fn maybe<B: Filter>(self, other: B) -> (r: Maybe<Self, B>) {
        Maybe { filter: self, other }
    }

    fn path(self, p: &str) -> (r: And<Self, Path>) {
        And { a: self, b: path(p) }
    }

    fn param<T: From<String> + Send + Sync>(self) -> (r: And<Self, PathParam<T>>) {
        And { a: self, b: PathParam::new() }
    }
}

/// Sequential composition of two filters; see [`FilterExt::and`].
pub struct And<A: Filter, B: Filter> {
    pub a: A,
    pub b: B,
}

/// Ordered choice between two filters; see [`FilterExt::or`].
pub struct Or<A: Filter, B: Filter> {
    pub a: A,
    pub b: B,
}

/// A filter whose extract is transformed by a function; see
/// [`FilterExt::map`].
#[verifier::reject_recursive_types(B)]
pub struct Mapped<A: Filter, B, F: Fn(A::Extract) -> B> {
    pub filter: A,
    pub func: F,
}

/// A filter followed by an optional one; see [`FilterExt::maybe`].
pub struct Maybe<A: Filter, B: Filter> {
    pub filter: A,
    pub other: B,
}

/// Matches a literal path: each sub-segment of the literal must equal the
/// next request segment.
pub struct Path {
    pub subs: Vec<String>,
}

/// Matches only when every path segment has been consumed.
pub struct End;

/// Consumes one segment and converts it into a `T`.
pub struct PathParam<T: From<String>> {
    _marker: core::marker::PhantomData<T>,
}

impl<T: From<String>> PathParam<T> {
    /// A fresh path-parameter filter.  The filter carries no state: its
    /// whole behaviour is in its `spec_match` and `valid_extract`.
    pub fn new() -> Self {
        PathParam { _marker: core::marker::PhantomData }
    }
}

/// Matches when the request carries the named header; extracts its value.
pub struct Header {
    pub name: &'static str,
}

/// Carries the extract of whichever side of an [`Or`] matched.
#[derive(Debug, PartialEq, Eq)]
pub enum Either<A, B> {
    A(A),
    B(B),
}

impl Filter for End {
    type Extract = ();

    open spec fn req_ok(&self) -> bool {
        true
    }

    open spec fn spec_match(&self, req: ReqView, pos: int) -> Option<int> {
        if pos == req.segments.len() {
            Some(pos)
        } else {
            None
        }
    }

    open spec fn valid_extract(&self, req: ReqView, pos: int, e: ()) -> bool {
        true
    }

    proof fn lemma_match_in_range(&self, req: ReqView, pos: int) {
    }

    fn filter<'a>(&self, ctx: &mut Context<'a>) -> (r: Option<()>) {
        if ctx.is_path_matched() {
            Some(())
        } else {
            None
        }
    }
}

impl Filter for () {
    type Extract = ();

    open spec fn req_ok(&self) -> bool {
        true
    }

    open spec fn spec_match(&self, req: ReqView, pos: int) -> Option<int> {
        Some(pos)
    }

    open spec fn valid_extract(&self, req: ReqView, pos: int, e: ()) -> bool {
        true
    }

    proof fn lemma_match_in_range(&self, req: ReqView, pos: int) {
    }

    fn filter<'a>(&self, ctx: &mut Context<'a>) -> (r: Option<()>) {
        Some(())
    }
}

impl Filter for Method {
    type Extract = ();

    open spec fn req_ok(&self) -> bool {
        true
    }

    open spec fn spec_match(&self, req: ReqView, pos: int) -> Option<int> {
        if req.method == *self {
            Some(pos)
        } else {
            None
        }
    }

    open spec fn valid_extract(&self, req: ReqView, pos: int, e: ()) -> bool {
        true
    }

    proof fn lemma_match_in_range(&self, req: ReqView, pos: int) {
    }

    fn filter<'a>(&self, ctx: &mut Context<'a>) -> (r: Option<()>) {
        if ctx.request.method() == self {
            Some(())
        } else {
            None
        }
    }
}

impl Filter for Path {
    type Extract = ();

    open spec fn req_ok(&self) -> bool {
        true
    }

    open spec fn spec_match(&self, req: ReqView, pos: int) -> Option<int> {
        let subs = views_of(self.subs@);
        if pos + subs.len() <= req.segments.len() && req.segments.subrange(
            pos,
            pos + subs.len(),
        ) == subs {
            Some(pos + subs.len())
        } else {
            None
        }
    }

    open spec fn valid_extract(&self, req: ReqView, pos: int, e: ()) -> bool {
        true
    }

    proof fn lemma_match_in_range(&self, req: ReqView, pos: int) {
    }

    fn filter<'a>(&self, ctx: &mut Context<'a>) -> (r: Option<()>) {
        let ghost req = ctx.req();
        let ghost pos = ctx.cursor();
        let ghost subs = views_of(self.subs@);
        let snapshot = ctx.fork();
        let mut k: usize = 0;
        #[verifier::loop_isolation(false)]
        while k < self.subs.len()
            invariant
                0 <= k <= self.subs@.len(),
                ctx.wf(),
                ctx.req() == req,
                snapshot.req() == req,
                snapshot.cursor() == pos,
                subs == views_of(self.subs@),
                0 <= pos,
                ctx.cursor() == pos + k,
                pos + k <= req.segments.len(),
                forall|j: int| 0 <= j < k ==> req.segments[pos + j] == subs[j],
            decreases self.subs@.len() - k,
        {
            match ctx.next_segment() {
                Some(s) => {
                    if !str_eq(s, self.subs[k].as_str()) {
                        // mismatch: the literal cannot match here
                        proof {
                            assert(req.segments[pos + k] != subs[k as int]);
                            if self.spec_match(req, pos) is Some {
                                assert(req.segments.subrange(pos, pos + subs.len())[k as int]
                                    == subs[k as int]);
                            }
                        }
                        ctx.restore(&snapshot);
                        return None;
                    }
                },
                None => {
                    // the path is exhausted before the literal is
                    proof {
                        assert(pos + subs.len() > req.segments.len());
                    }
                    ctx.restore(&snapshot);
                    return None;
                },
            }
            k += 1;
        }
        proof {
            assert(req.segments.subrange(pos, pos + subs.len()) =~= subs);
        }
        Some(())
    }
}

impl<T: From<String> + Send + Sync> Filter for PathParam<T> {
    type Extract = (T,);

    open spec fn req_ok(&self) -> bool {
        true
    }

    open spec fn spec_match(&self, req: ReqView, pos: int) -> Option<int> {
        if pos < req.segments.len() {
            Some(pos + 1)
        } else {
            None
        }
    }

    open spec fn valid_extract(&self, req: ReqView, pos: int, e: (T,)) -> bool {
        exists|s: String| s@ == req.segments[pos] && call_ensures(T::from, (s,), e.0)
    }

    proof fn lemma_match_in_range(&self, req: ReqView, pos: int) {
    }

    fn filter<'a>(&self, ctx: &mut Context<'a>) -> (r: Option<(T,)>) {
        let ghost req = ctx.req();
        let ghost pos = ctx.cursor();
        match ctx.next_segment() {
            Some(s) => {
                let owned = s.to_owned();
                let ghost gowned = owned;
                let f = T::from;
                let value = f(owned);
                proof {
                    assert(gowned@ == req.segments[pos] && call_ensures(
                        T::from,
                        (gowned,),
                        value,
                    ));
                }
                Some((value,))
            },
            None => None,
        }
    }
}

impl Filter for Header {
    type Extract = (String,);

    open spec fn req_ok(&self) -> bool {
        true
    }

    open spec fn spec_match(&self, req: ReqView, pos: int) -> Option<int> {
        if header_lookup(req.headers, lower_seq(self.name@)) is Some {
            Some(pos)
        } else {
            None
        }
    }

    open spec fn valid_extract(&self, req: ReqView, pos: int, e: (String,)) -> bool {
        header_lookup(req.headers, lower_seq(self.name@)) == Some(e.0@)
    }

    proof fn lemma_match_in_range(&self, req: ReqView, pos: int) {
    }

    fn filter<'a>(&self, ctx: &mut Context<'a>) -> (r: Option<(String,)>) {
        match ctx.request.header(self.name) {
            Some(v) => Some((v.to_owned(),)),
            None => None,
        }
    }
}

impl<A: Filter, B: Filter> Filter for And<A, B> where A::Extract: Combiner<B::Extract> {
    type Extract = <A::Extract as Combiner<B::Extract>>::Extract;

    open spec fn req_ok(&self) -> bool {
        self.a.req_ok() && self.b.req_ok()
    }

    open spec fn spec_match(&self, req: ReqView, pos: int) -> Option<int> {
        match self.a.spec_match(req, pos) {
            Some(p1) => self.b.spec_match(req, p1),
            None => None,
        }
    }

    open spec fn valid_extract(&self, req: ReqView, pos: int, e: Self::Extract) -> bool {
        match self.a.spec_match(req, pos) {
            Some(p1) => exists|ea: A::Extract, eb: B::Extract|
                {
                    &&& self.a.valid_extract(req, pos, ea)
                    &&& self.b.valid_extract(req, p1, eb)
                    &&& e == ea.spec_combine(eb)
                },
            None => false,
        }
    }

    proof fn lemma_match_in_range(&self, req: ReqView, pos: int) {
        self.a.lemma_match_in_range(req, pos);
        if let Some(p1) = self.a.spec_match(req, pos) {
            self.b.lemma_match_in_range(req, p1);
        }
    }

    fn filter<'a>(&self, ctx: &mut Context<'a>) -> (r: Option<Self::Extract>) {
        let ghost req = ctx.req();
        let ghost pos = ctx.cursor();
        let snapshot = ctx.fork();
        let a = match self.a.filter(ctx) {
            Some(a) => a,
            None => {
                return None;
            },
        };
        let b = match self.b.filter(ctx) {
            Some(b) => b,
            None => {
                // the second filter failed after the first consumed segments:
                // give them back
                ctx.restore(&snapshot);
                return None;
            },
        };
        let ghost ga = a;
        let ghost gb = b;
        let e = a.combine(b);
        proof {
            let p1 = self.a.spec_match(req, pos).unwrap();
            assert(self.a.valid_extract(req, pos, ga) && self.b.valid_extract(req, p1, gb)
                && e == ga.spec_combine(gb));
        }
        Some(e)
    }
}

impl<A: Filter, B: Filter> Filter for Or<A, B> {
    type Extract = Either<A::Extract, B::Extract>;

    open spec fn req_ok(&self) -> bool {
        self.a.req_ok() && self.b.req_ok()
    }

    open spec fn spec_match(&self, req: ReqView, pos: int) -> Option<int> {
        match self.a.spec_match(req, pos) {
            Some(p) => Some(p),
            None => self.b.spec_match(req, pos),
        }
    }

    open spec fn valid_extract(&self, req: ReqView, pos: int, e: Self::Extract) -> bool {
        match self.a.spec_match(req, pos) {
            Some(_) => e matches Either::A(ea) && self.a.valid_extract(req, pos, ea),
            None => e matches Either::B(eb) && self.b.valid_extract(req, pos, eb),
        }
    }

    proof fn lemma_match_in_range(&self, req: ReqView, pos: int) {
        self.a.lemma_match_in_range(req, pos);
        self.b.lemma_match_in_range(req, pos);
    }

    fn filter<'a>(&self, ctx: &mut Context<'a>) -> (r: Option<Self::Extract>) {
        let mut a_ctx = ctx.fork();
        if let Some(a) = self.a.filter(&mut a_ctx) {
            ctx.restore(&a_ctx);
            Some(Either::A(a))
        } else {
            let mut b_ctx = ctx.fork();
            match self.b.filter(&mut b_ctx) {
                Some(b) => {
                    ctx.restore(&b_ctx);
                    Some(Either::B(b))
                },
                None => None,
            }
        }
    }
}

impl<A: Filter, B: Filter> Filter for Maybe<A, B> where
    A::Extract: Combiner<(Option<<B::Extract as OneTuple>::Extract>,)>,
    B::Extract: OneTuple,
 {
    type Extract = <A::Extract as Combiner<
        (Option<<B::Extract as OneTuple>::Extract>,),
    >>::Extract;

    open spec fn req_ok(&self) -> bool {
        self.filter.req_ok() && self.other.req_ok()
    }

    open spec fn spec_match(&self, req: ReqView, pos: int) -> Option<int> {
        match self.filter.spec_match(req, pos) {
            Some(p1) => match self.other.spec_match(req, p1) {
                Some(p2) => Some(p2),
                None => Some(p1),
            },
            None => None,
        }
    }

    open spec fn valid_extract(&self, req: ReqView, pos: int, e: Self::Extract) -> bool {
        match self.filter.spec_match(req, pos) {
            Some(p1) => match self.other.spec_match(req, p1) {
                Some(_) => exists|ea: A::Extract, eb: B::Extract|
                    {
                        &&& self.filter.valid_extract(req, pos, ea)
                        &&& self.other.valid_extract(req, p1, eb)
                        &&& e == ea.spec_combine((Some(eb.spec_extract()),))
                    },
                None => exists|ea: A::Extract|
                    {
                        &&& self.filter.valid_extract(req, pos, ea)
                        &&& e == ea.spec_combine((None::<<B::Extract as OneTuple>::Extract>,))
                    },
            },
            None => false,
        }
    }

    proof fn lemma_match_in_range(&self, req: ReqView, pos: int) {
        self.filter.lemma_match_in_range(req, pos);
        if let Some(p1) = self.filter.spec_match(req, pos) {
            self.other.lemma_match_in_range(req, p1);
        }
    }

    fn filter<'a>(&self, ctx: &mut Context<'a>) -> (r: Option<Self::Extract>) {
        let ghost req = ctx.req();
        let ghost pos = ctx.cursor();
        let a = match self.filter.filter(ctx) {
            Some(a) => a,
            None => {
                return None;
            },
        };
        let ghost ga = a;
        let ghost p1 = ctx.cursor();
        let mut sub_ctx = ctx.fork();
        match self.other.filter(&mut sub_ctx) {
            Some(b) => {
                ctx.restore(&sub_ctx);
                let ghost gb = b;
                let extracted = b.extract();
                let e = a.combine((Some(extracted),));
                proof {
                    assert(self.filter.valid_extract(req, pos, ga) && self.other.valid_extract(
                        req,
                        p1,
                        gb,
                    ) && e == ga.spec_combine((Some(gb.spec_extract()),)));
                }
                Some(e)
            },
            None => {
                let e = a.combine((None,));
                proof {
                    assert(self.filter.valid_extract(req, pos, ga) && e == ga.spec_combine(
                        (None::<<B::Extract as OneTuple>::Extract>,),
                    ));
                }
                Some(e)
            },
        }
    }
}

impl<A, B, F> Filter for Mapped<A, B, F> where
    A: Filter,
    B: Send + Sync,
    F: Fn(A::Extract) -> B + Send + Sync,
 {
    type Extract = B;

    open spec fn req_ok(&self) -> bool {
        self.filter.req_ok() && forall|ea: A::Extract| call_requires(self.func, (ea,))
    }

    open spec fn spec_match(&self, req: ReqView, pos: int) -> Option<int> {
        self.filter.spec_match(req, pos)
    }

    open spec fn valid_extract(&self, req: ReqView, pos: int, e: B) -> bool {
        exists|ea: A::Extract|
            {
                &&& self.filter.valid_extract(req, pos, ea)
                &&& call_ensures(self.func, (ea,), e)
            }
    }

    proof fn lemma_match_in_range(&self, req: ReqView, pos: int) {
        self.filter.lemma_match_in_range(req, pos);
    }

    fn filter<'a>(&self, ctx: &mut Context<'a>) -> (r: Option<B>) {
        let ghost req = ctx.req();
        let ghost pos = ctx.cursor();
        let a = match self.filter.filter(ctx) {
            Some(a) => a,
            None => {
                return None;
            },
        };
        let ghost ga = a;
        let b = (self.func)(a);
        proof {
            assert(self.filter.valid_extract(req, pos, ga) && call_ensures(
                self.func,
                (ga,),
                b,
            ));
        }
        Some(b)
    }
}

/// Unwraps a one-element tuple; the contract [`Maybe`] places on its optional
/// side.
pub trait OneTuple {
    type Extract;

    /// The tuple's single component.
    spec fn spec_extract(self) -> Self::Extract;

    /// Unwrap the tuple.
    fn extract(self) -> (r: Self::Extract)
        ensures
            r == self.spec_extract(),
    ;
}

impl<T> OneTuple for (T,) {
    type Extract = T;

    open spec fn spec_extract(self) -> T {
        self.0
    }

    fn extract(self) -> (r: T) {
        self.0
    }
}

/// Flat concatenation of tuple-shaped extracts: the tuple algebra that keeps
/// combined extracts flat.
pub trait Combiner<T> {
    type Extract;

    /// The combined tuple.
    spec fn spec_combine(self, other: T) -> Self::Extract;

    /// Combine the two extracts.
    fn combine(self, other: T) -> (r: Self::Extract)
        ensures
            r == self.spec_combine(other),
    ;
}

impl Combiner<()> for () {
    type Extract = ();

    open spec fn spec_combine(self, other: ()) -> () {
        self
    }

    fn combine(self, other: ()) -> (r: ()) {
        self
    }
}

impl<A> Combiner<()> for (A,) {
    type Extract = (A,);

    open spec fn spec_combine(self, other: ()) -> (A,) {
        self
    }

    fn combine(self, other: ()) -> (r: (A,)) {
        self
    }
}

impl<A, B> Combiner<()> for (A, B) {
    type Extract = (A, B);

    open spec fn spec_combine(self, other: ()) -> (A, B) {
        self
    }

    fn combine(self, other: ()) -> (r: (A, B)) {
        self
    }
}

impl<A, B, C> Combiner<()> for (A, B, C) {
    type Extract = (A, B, C);

    open spec fn spec_combine(self, other: ()) -> (A, B, C) {
        self
    }

    fn combine(self, other: ()) -> (r: (A, B, C)) {
        self
    }
}

impl<T> Combiner<(T,)> for () {
    type Extract = (T,);

    open spec fn spec_combine(self, other: (T,)) -> (T,) {
        other
    }

    fn combine(self, other: (T,)) -> (r: (T,)) {
        other
    }
}

impl<A, B> Combiner<(B,)> for (A,) {
    type Extract = (A, B);

    open spec fn spec_combine(self, other: (B,)) -> (A, B) {
        (self.0, other.0)
    }

    fn combine(self, other: (B,)) -> (r: (A, B)) {
        (self.0, other.0)
    }
}

impl<A, B, C> Combiner<(C,)> for (A, B) {
    type Extract = (A, B, C);

    open spec fn spec_combine(self, other: (C,)) -> (A, B, C) {
        (self.0, self.1, other.0)
    }

    fn combine(self, other: (C,)) -> (r: (A, B, C)) {
        (self.0, self.1, other.0)
    }
}

impl<A, B, C> Combiner<(B, C)> for (A,) {
    type Extract = (A, B, C);

    open spec fn spec_combine(self, other: (B, C)) -> (A, B, C) {
        (self.0, other.0, other.1)
    }

    fn combine(self, other: (B, C)) -> (r: (A, B, C)) {
        (self.0, other.0, other.1)
    }
}

impl<A: IntoResponse, B: IntoResponse> IntoResponse for Either<A, B> {
    open spec fn resp_of(&self, r: RespView) -> bool {
        match self {
            Either::A(a) => a.resp_of(r),
            Either::B(b) => b.resp_of(r),
        }
    }

    fn into_response(self) -> (r: Response) {
        match self {
            Either::A(a) => a.into_response(),
            Either::B(b) => b.into_response(),
        }
    }
}

/// The outcomes of a run of [`Filter::filter`] that its contract allows:
/// `matched` says whether it returned an extract, `cursor` where it left the
/// context.
pub open spec fn filter_outcome<F: Filter>(
    f: &F,
    req: ReqView,
    pos: int,
    matched: bool,
    cursor: int,
) -> bool {
    match f.spec_match(req, pos) {
        Some(p) => matched && cursor == p,
        None => !matched && cursor == pos,
    }
}

/// Determinism of matching: any two runs of a filter on the same request and
/// entry cursor agree on whether they matched and on the final cursor,
/// because the contract of `filter` pins both to the pure function
/// `spec_match`.
pub proof fn lemma_filter_deterministic<F: Filter>(
    f: &F,
    req: ReqView,
    pos: int,
    m1: bool,
    c1: int,
    m2: bool,
    c2: int,
)
    requires
        filter_outcome(f, req, pos, m1, c1),
        filter_outcome(f, req, pos, m2, c2),
    ensures
        m1 == m2,
        c1 == c2,
{
}

/// Left priority of `or`: when both branches would match, the whole filter
/// matches exactly as the left branch does, and every extract it may produce
/// is the left branch's, wrapped in `Either::A`.
pub proof fn lemma_or_left_priority<A: Filter, B: Filter>(or: &Or<A, B>, req: ReqView, pos: int)
    requires
        or.a.spec_match(req, pos) is Some,
        or.b.spec_match(req, pos) is Some,
    ensures
        or.spec_match(req, pos) == or.a.spec_match(req, pos),
        forall|e: Either<A::Extract, B::Extract>| #[trigger]
            or.valid_extract(req, pos, e) ==> (e matches Either::A(ea) && or.a.valid_extract(
                req,
                pos,
                ea,
            )),
{
}

/// Optionality of `maybe`: `Maybe(A, B)` matches exactly when `A` does, and
/// every extract it may produce combines an extract of `A` with an optional
/// slot that is filled exactly when `B` matches at the cursor `A` leaves.
pub proof fn lemma_maybe_optionality<A: Filter, B: Filter>(m: &Maybe<A, B>, req: ReqView, pos: int) where
    A::Extract: Combiner<(Option<<B::Extract as OneTuple>::Extract>,)>,
    B::Extract: OneTuple,

    ensures
        (m.spec_match(req, pos) is Some) == (m.filter.spec_match(req, pos) is Some),
        forall|e: <Maybe<A, B> as Filter>::Extract| #[trigger]
            m.valid_extract(req, pos, e) ==> exists|
                ea: A::Extract,
                slot: Option<<B::Extract as OneTuple>::Extract>,
            |
                {
                    &&& m.filter.valid_extract(req, pos, ea)
                    &&& e == ea.spec_combine((slot,))
                    &&& (slot is Some) == (m.other.spec_match(
                        req,
                        m.filter.spec_match(req, pos).unwrap(),
                    ) is Some)
                },
{
    if let Some(p1) = m.filter.spec_match(req, pos) {
        assert forall|e: <Maybe<A, B> as Filter>::Extract| #[trigger]
            m.valid_extract(req, pos, e) implies exists|
            ea: A::Extract,
            slot: Option<<B::Extract as OneTuple>::Extract>,
        |
            {
                &&& m.filter.valid_extract(req, pos, ea)
                &&& e == ea.spec_combine((slot,))
                &&& (slot is Some) == (m.other.spec_match(
                    req,
                    m.filter.spec_match(req, pos).unwrap(),
                ) is Some)
            } by {
            match m.other.spec_match(req, p1) {
                Some(_) => {
                    let (ea, eb): (A::Extract, B::Extract) = choose|
                        ea: A::Extract,
                        eb: B::Extract,
                    |
                        {
                            &&& m.filter.valid_extract(req, pos, ea)
                            &&& m.other.valid_extract(req, p1, eb)
                            &&& e == ea.spec_combine((Some(eb.spec_extract()),))
                        };
                    let slot = Some(eb.spec_extract());
                    assert(m.filter.valid_extract(req, pos, ea) && e == ea.spec_combine(
                        (slot,),
                    ) && (slot is Some) == (m.other.spec_match(req, p1) is Some));
                },
                None => {
                    let ea: A::Extract = choose|ea: A::Extract|
                        {
                            &&& m.filter.valid_extract(req, pos, ea)
                            &&& e == ea.spec_combine(
                                (None::<<B::Extract as OneTuple>::Extract>,),
                            )
                        };
                    let slot = None::<<B::Extract as OneTuple>::Extract>;
                    assert(m.filter.valid_extract(req, pos, ea) && e == ea.spec_combine(
                        (slot,),
                    ) && (slot is Some) == (m.other.spec_match(req, p1) is Some));
                },
            }
        }
    }
}

/// Associativity of `and` on one-tuple extracts: grouping three filters as
/// `(X and Y) and Z` or as `X and (Y and Z)` matches the same requests,
/// moves the cursor the same way, and yields the same flat three-tuples.
pub proof fn lemma_and_associative<
    T1,
    T2,
    T3,
    X: Filter<Extract = (T1,)>,
    Y: Filter<Extract = (T2,)>,
    Z: Filter<Extract = (T3,)>,
>(x: X, y: Y, z: Z, req: ReqView, pos: int)
    ensures
        (And { a: And { a: x, b: y }, b: z }).spec_match(req, pos) == (And {
            a: x,
            b: And { a: y, b: z },
        }).spec_match(req, pos),
        forall|e: (T1, T2, T3)|
            (And { a: And { a: x, b: y }, b: z }).valid_extract(req, pos, e) == (And {
                a: x,
                b: And { a: y, b: z },
            }).valid_extract(req, pos, e),
{
    let left = And { a: And { a: x, b: y }, b: z };
    let right = And { a: x, b: And { a: y, b: z } };
    assert forall|e: (T1, T2, T3)|
        left.valid_extract(req, pos, e) == right.valid_extract(req, pos, e) by {
        if let Some(p1) = x.spec_match(req, pos) {
            if let Some(p2) = y.spec_match(req, p1) {
                if left.valid_extract(req, pos, e) {
                    let (exy, ez): ((T1, T2), (T3,)) = choose|exy: (T1, T2), ez: (T3,)|
                        {
                            &&& (And { a: x, b: y }).valid_extract(req, pos, exy)
                            &&& z.valid_extract(req, p2, ez)
                            &&& e == exy.spec_combine(ez)
                        };
                    let (ex, ey): ((T1,), (T2,)) = choose|ex: (T1,), ey: (T2,)|
                        {
                            &&& x.valid_extract(req, pos, ex)
                            &&& y.valid_extract(req, p1, ey)
                            &&& exy == ex.spec_combine(ey)
                        };
                    assert(y.valid_extract(req, p1, ey) && z.valid_extract(req, p2, ez) && (
                    ey.0,
                    ez.0,
                ) == ey.spec_combine(ez));
                    assert((And { a: y, b: z }).valid_extract(req, p1, (ey.0, ez.0)));
                    assert(x.valid_extract(req, pos, ex) && e == ex.spec_combine((ey.0, ez.0)));
                    assert(exists|ea: (T1,), eb: (T2, T3)|
                        right.a.valid_extract(req, pos, ea) && right.b.valid_extract(
                            req,
                            p1,
                            eb,
                        ) && e == ea.spec_combine(eb)) by {
                        assert(right.a.valid_extract(req, pos, ex) && right.b.valid_extract(
                            req,
                            p1,
                            (ey.0, ez.0),
                        ) && e == ex.spec_combine((ey.0, ez.0)));
                    }
                    assert(right.valid_extract(req, pos, e));
                }
                if right.valid_extract(req, pos, e) {
                    let (ex, eyz): ((T1,), (T2, T3)) = choose|ex: (T1,), eyz: (T2, T3)|
                        {
                            &&& x.valid_extract(req, pos, ex)
                            &&& (And { a: y, b: z }).valid_extract(req, p1, eyz)
                            &&& e == ex.spec_combine(eyz)
                        };
                    let (ey, ez): ((T2,), (T3,)) = choose|ey: (T2,), ez: (T3,)|
                        {
                            &&& y.valid_extract(req, p1, ey)
                            &&& z.valid_extract(req, p2, ez)
                            &&& eyz == ey.spec_combine(ez)
                        };
                    assert(x.valid_extract(req, pos, ex) && y.valid_extract(req, p1, ey) && (
                    ex.0,
                    ey.0,
                ) == ex.spec_combine(ey));
                    assert((And { a: x, b: y }).valid_extract(req, pos, (ex.0, ey.0)));
                    assert(e == (ex.0, ey.0, ez.0));
                    assert(e == ((ex.0, ey.0)).spec_combine(ez));
                    assert(exists|ea: (T1, T2), eb: (T3,)|
                        left.a.valid_extract(req, pos, ea) && left.b.valid_extract(
                            req,
                            p2,
                            eb,
                        ) && e == ea.spec_combine(eb)) by {
                        assert(left.a.valid_extract(req, pos, (ex.0, ey.0))
                            && left.b.valid_extract(req, p2, ez) && e == ((
                        ex.0,
                        ey.0,
                        )).spec_combine(ez));
                    }
                    assert(left.valid_extract(req, pos, e));
                }
            }
        }
    }
}

/// A filter for the named header; see [`Header`].
pub fn header(name: &'static str) -> (r: Header)
    ensures
        r == (Header { name }),
{
    Header { name }
}

/// A filter for a GET request at the given literal path.
pub fn get(p: &str) -> (r: And<Method, Path>)
    ensures
        r.a == Method::Get,
        views_of(r.b.subs@) == split_drop(p@, '/'),
{
    And { a: Method::Get, b: path(p) }
}

/// A filter for a POST request at the given literal path.
pub fn post(p: &str) -> (r: And<Method, Path>)
    ensures
        r.a == Method::Post,
        views_of(r.b.subs@) == split_drop(p@, '/'),
{
    And { a: Method::Post, b: path(p) }
}

/// A filter for the given literal path; the literal is split at `/` when the
/// filter is built.
pub fn path(p: &str) -> (r: Path)
    ensures
        views_of(r.subs@) == split_drop(p@, '/'),
{
    Path { subs: split_str(p, '/') }
}

/// The end-of-path filter; see [`End`].
pub fn end() -> (r: End)
    ensures
        r == End,
{
    End
}

/// A one-segment parameter filter; see [`PathParam`].
pub fn param<T: From<String> + Send + Sync>() -> PathParam<T> {
    PathParam::new()
}

} // verus!
