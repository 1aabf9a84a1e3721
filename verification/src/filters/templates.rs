//! The filter interface, chains of filters, and the catalog of named rule
//! sets.
pub mod html;
pub mod notion;

use crate::config::ConfigMap;
use vstd::prelude::*;

verus! {

/// Why a filter could not be built.
#[derive(Debug)]
pub struct BuildError {
    /// The rule set of the rule that failed.
    pub name: String,
    /// What the pattern compiler reported.
    pub cause: String,
}

impl View for BuildError {
    type V = (Seq<char>, Seq<char>);

    open spec fn view(&self) -> (Seq<char>, Seq<char>) {
        (self.name@, self.cause@)
    }
}

impl BuildError {
    /// A one-line description naming the rule set.
    pub fn message(&self) -> (r: String)
        ensures
            r@ == "failed to init a regex response filter ("@ + self.name@ + "): "@ + self.cause@,
    {
        let mut out = "failed to init a regex response filter (".to_owned();
        out.append(self.name.as_str());
        out.append("): ");
        out.append(self.cause.as_str());
        out
    }
}

/// A rewriter of response bodies.
pub trait ResponseFilter where Self: Send + Sync {
    /// What the filter makes of `body` under `params`.
    spec fn filtered(&self, params: Map<Seq<char>, Seq<char>>, body: Seq<char>) -> Seq<char>;

    /// Rewrites `body` with the per-request parameters.
    fn filter(&self, config: &ConfigMap, body: String) -> (out: String)
        ensures
            out@ == self.filtered(config@, body@),
    ;
}

/// A description from which a filter is built once, at startup.
pub trait ResponseFilterBuilder: Sized {
    type FILTER: 'static + ResponseFilter;

    /// Whether a filter can be built from the description.
    spec fn buildable(&self) -> bool;

    /// What the filter built from the description makes of `body` under
    /// `params`.
    spec fn outcome(&self, params: Map<Seq<char>, Seq<char>>, body: Seq<char>) -> Seq<char>;

    /// The error of the first rule that cannot be built: its rule set, and
    /// what the pattern compiler reported of it.
    spec fn failure(&self) -> (Seq<char>, Seq<char>);

    /// Builds the filter.
    fn try_build(self) -> (r: Result<Self::FILTER, BuildError>)
        ensures
            r is Ok <==> self.buildable(),
            r matches Ok(filter) ==> forall|params: Map<Seq<char>, Seq<char>>, body: Seq<char>|
                #[trigger] filter.filtered(params, body) == self.outcome(params, body),
            r matches Err(e) ==> e@ == self.failure(),
    ;
}

/// What a sequence of filters makes of a body: each filter is fed the output
/// of the one before it.
pub open spec fn chain_filtered<F: ResponseFilter>(
    filters: Seq<F>,
    params: Map<Seq<char>, Seq<char>>,
    body: Seq<char>,
) -> Seq<char>
    decreases filters.len(),
{
    if filters.len() == 0 {
        body
    } else {
        filters.last().filtered(params, chain_filtered(filters.drop_last(), params, body))
    }
}

/// An ordered chain of filters. The order is fixed when the chain is built.
pub struct ResponseFilters<F>(Vec<F>);

impl<F> ResponseFilters<F> {
    /// The filters of the chain, in the order in which they are applied.
    pub closed spec fn filters(&self) -> Seq<F> {
        self.0@
    }

    /// The number of filters in the chain.
    pub fn len(&self) -> (r: usize)
        ensures
            r == self.filters().len(),
    {
        self.0.len()
    }
}

impl<F: ResponseFilter> ResponseFilter for ResponseFilters<F> {
    open spec fn filtered(&self, params: Map<Seq<char>, Seq<char>>, body: Seq<char>) -> Seq<char> {
        chain_filtered(self.filters(), params, body)
    }

    fn filter(&self, config: &ConfigMap, body: String) -> (out: String) {
        let ghost input = body@;
        let mut out = body;
        let mut i: usize = 0;
        while i < self.0.len()
            invariant
                i <= self.0@.len(),
                out@ == chain_filtered(self.0@.take(i as int), config@, input),
            decreases self.0@.len() - i,
        {
            out = self.0[i].filter(config, out);
            assert(self.0@.take(i as int + 1).drop_last() =~= self.0@.take(i as int));
            i += 1;
        }
        assert(self.0@.take(i as int) =~= self.0@);
        out
    }
}

/// What the filters built from a sequence of descriptions make of a body.
pub open spec fn chain_outcome<T: ResponseFilterBuilder>(
    builders: Seq<T>,
    params: Map<Seq<char>, Seq<char>>,
    body: Seq<char>,
) -> Seq<char>
    decreases builders.len(),
{
    if builders.len() == 0 {
        body
    } else {
        builders.last().outcome(params, chain_outcome(builders.drop_last(), params, body))
    }
}

/// The position of the first description from which no filter can be built.
pub open spec fn first_unbuildable<T: ResponseFilterBuilder>(builders: Seq<T>) -> int
    decreases builders.len(),
{
    if builders.len() == 0 {
        0
    } else if !builders[0].buildable() {
        0
    } else {
        1 + first_unbuildable(builders.drop_first())
    }
}

/// Moves the items of an array into a vector, through `Vec::from`.
///
/// Trusted: the vector holds the array's items in the array's order.
#[verifier::external_body]
fn into_vec<T, const N: usize>(items: [T; N]) -> (r: Vec<T>)
    ensures
        r@ == items@,
{
    Vec::from(items)
}

impl<T, const N: usize> ResponseFilterBuilder for [T; N] where T: ResponseFilterBuilder {
    type FILTER = ResponseFilters<T::FILTER>;

    open spec fn buildable(&self) -> bool {
        forall|i: int| 0 <= i < self@.len() ==> (#[trigger] self@[i]).buildable()
    }

    open spec fn outcome(&self, params: Map<Seq<char>, Seq<char>>, body: Seq<char>) -> Seq<char> {
        chain_outcome(self@, params, body)
    }

    open spec fn failure(&self) -> (Seq<char>, Seq<char>) {
        self@[first_unbuildable(self@)].failure()
    }

    /// Builds each description in order into a chain, and stops at the first
    /// that fails, whose error is passed on as it is.
    fn try_build(self) -> (r: Result<ResponseFilters<T::FILTER>, BuildError>)
        ensures
            r matches Ok(chain) ==> chain.filters().len() == N,
    {
        let ghost builders = self@;
        let pending = into_vec(self);
        let mut filters: Vec<T::FILTER> = Vec::new();
        for builder in it: pending
            invariant
                builders == self@,
                builders.len() == N,
                it.seq() == builders,
                filters@.len() == it.index(),
                forall|j: int| 0 <= j < it.index() ==> (#[trigger] builders[j]).buildable(),
                forall|params: Map<Seq<char>, Seq<char>>, body: Seq<char>|
                    #[trigger] chain_filtered(filters@, params, body) == chain_outcome(
                        builders.take(it.index() as int),
                        params,
                        body,
                    ),
        {
            let ghost i = it.index() as int;
            assert(builder == builders[i]);
            match builder.try_build() {
                Ok(filter) => {
                    let ghost before = filters@;
                    filters.push(filter);
                    proof {
                        assert(filters@.drop_last() =~= before);
                        assert(builders.take(i + 1).drop_last() =~= builders.take(i));
                        assert forall|params: Map<Seq<char>, Seq<char>>, body: Seq<char>|
                            #[trigger] chain_filtered(filters@, params, body) == chain_outcome(
                                builders.take(i + 1),
                                params,
                                body,
                            ) by {
                            let fed = chain_filtered(before, params, body);
                            assert(filters@.last().filtered(params, fed) == builder.outcome(
                                params,
                                fed,
                            ));
                        }
                    }
                },
                Err(e) => {
                    proof {
                        lemma_first_unbuildable(builders, i);
                    }
                    return Err(e);
                },
            }
        }
        assert(builders.take(N as int) =~= builders);
        Ok(ResponseFilters(filters))
    }
}

/// The first unbuildable description is the one before which all are
/// buildable.
proof fn lemma_first_unbuildable<T: ResponseFilterBuilder>(builders: Seq<T>, i: int)
    requires
        0 <= i < builders.len(),
        !builders[i].buildable(),
        forall|j: int| 0 <= j < i ==> (#[trigger] builders[j]).buildable(),
    ensures
        first_unbuildable(builders) == i,
    decreases i,
{
    if i > 0 {
        let rest = builders.drop_first();
        assert forall|j: int| 0 <= j < i - 1 implies (#[trigger] rest[j]).buildable() by {
            assert(builders[j + 1].buildable());
        }
        lemma_first_unbuildable(rest, i - 1);
    }
}

/// The named rule sets of the catalog.
#[derive(Clone, Copy, Debug, PartialEq, Eq, Structural)]
pub enum FilterSet {
    /// Base-path patching of HTML documents.
    Html,
    /// Patching of the configuration that the Notion site generator embeds.
    Notion,
}

impl FilterSet {
    /// The rules of the set, in the order in which they are applied.
    pub open spec fn rules(&self) -> Seq<crate::filters::base::regex::ResponseFilterBuilder<'static>> {
        match self {
            FilterSet::Html => html::rules(),
            FilterSet::Notion => notion::rules(),
        }
    }
}

impl ResponseFilterBuilder for FilterSet {
    type FILTER = ResponseFilters<crate::filters::base::regex::ResponseFilter>;

    open spec fn buildable(&self) -> bool {
        forall|i: int| 0 <= i < self.rules().len() ==> (#[trigger] self.rules()[i]).buildable()
    }

    open spec fn outcome(&self, params: Map<Seq<char>, Seq<char>>, body: Seq<char>) -> Seq<char> {
        chain_outcome(self.rules(), params, body)
    }

    open spec fn failure(&self) -> (Seq<char>, Seq<char>) {
        self.rules()[first_unbuildable(self.rules())].failure()
    }

    /// Builds the chain of the set's rules.
    fn try_build(self) -> (r: Result<
        ResponseFilters<crate::filters::base::regex::ResponseFilter>,
        BuildError,
    >)
        ensures
            r matches Ok(chain) ==> chain.filters().len() == self.rules().len(),
    {
        match self {
            FilterSet::Html => {
                let builders = html::response_filter_builder();
                assert(builders@ == self.rules());
                builders.try_build()
            },
            FilterSet::Notion => {
                let builders = notion::response_filter_builder();
                assert(builders@ == self.rules());
                builders.try_build()
            },
        }
    }
}

/// The filter of a deployment with every rule set active: the sets of the
/// catalog in catalog order.
pub struct DefaultResponseFilter;

impl DefaultResponseFilter {
    /// The active rule sets, in the order in which they are applied.
    pub open spec fn sets() -> Seq<FilterSet> {
        seq![FilterSet::Html, FilterSet::Notion]
    }
}

impl ResponseFilterBuilder for DefaultResponseFilter {
    type FILTER = ResponseFilters<ResponseFilters<crate::filters::base::regex::ResponseFilter>>;

    open spec fn buildable(&self) -> bool {
        forall|i: int|
            0 <= i < Self::sets().len() ==> (#[trigger] Self::sets()[i]).buildable()
    }

    open spec fn outcome(&self, params: Map<Seq<char>, Seq<char>>, body: Seq<char>) -> Seq<char> {
        chain_outcome(Self::sets(), params, body)
    }

    open spec fn failure(&self) -> (Seq<char>, Seq<char>) {
        Self::sets()[first_unbuildable(Self::sets())].failure()
    }

    /// Builds the chain of the active sets' chains.
    fn try_build(self) -> (r: Result<
        ResponseFilters<ResponseFilters<crate::filters::base::regex::ResponseFilter>>,
        BuildError,
    >)
        ensures
            r matches Ok(chain) ==> chain.filters().len() == Self::sets().len(),
    {
        let sets = [FilterSet::Html, FilterSet::Notion];
        assert(sets@ =~= Self::sets());
        sets.try_build()
    }
}

} // verus!
