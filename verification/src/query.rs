//! Compilation of a declarative read query into the execution strategy the
//! cluster supports: equality filters win over a key list, a key list gives
//! point lookups, and neither is rejected before the cluster is touched. An
//! explicit full scan is a separate, policy-bounded entry point.

use vstd::prelude::*;

verus! {

/// A filter value as the declarative query carries it. Only the three
/// scalar shapes constrain the result; the others are skipped for forward
/// compatibility with future filter shapes.
#[derive(Debug, PartialEq, Eq, Clone)]
pub enum FilterValue {
    Null,
    Bool(bool),
    Int(i64),
    /// A numeric value that does not fit a signed 64-bit integer.
    OtherNumber,
    Str(String),
    Array,
    Object,
}

/// A scalar an equality predicate compares against.
#[derive(Debug, PartialEq, Eq, Clone)]
pub enum FilterScalar {
    Bool(bool),
    Int(i64),
    Str(String),
}

/// One equality predicate of an indexed scan; the compiled filter
/// expression is the conjunction of all of them.
#[derive(Debug, PartialEq, Eq, Clone)]
pub struct EqualityPredicate {
    pub field: String,
    pub value: FilterScalar,
}

/// A declarative read query. `projection` restricts the returned fields;
/// `keys` asks for point lookups; `filters` asks for a secondary-index
/// equality scan; `include_ttl` asks for a time-to-live presence predicate
/// beside whichever strategy is chosen.
#[derive(Debug, PartialEq, Eq, Clone)]
pub struct Query {
    pub namespace: String,
    pub set: String,
    pub projection: Option<Vec<String>>,
    pub keys: Option<Vec<String>>,
    pub filters: Option<Vec<(String, FilterValue)>>,
    pub include_ttl: Option<bool>,
}

/// The execution strategy a query compiles into.
#[derive(Debug, PartialEq, Eq, Clone)]
pub enum Strategy {
    /// One lookup per key, in the query's key order.
    PointLookup { keys: Vec<String> },
    /// A server-side scan filtered by the conjunction of the predicates.
    IndexedScan { predicates: Vec<EqualityPredicate> },
    /// An unrestricted scan, bounded by a small socket time budget so the
    /// operator cannot accidentally saturate the cluster.
    FullScan { socket_timeout_ms: u32 },
}

/// A compiled query, ready to run against the cluster.
#[derive(Debug, PartialEq, Eq, Clone)]
pub struct ExecutionPlan {
    pub namespace: String,
    pub set: String,
    pub projection: Option<Vec<String>>,
    pub strategy: Strategy,
    pub ttl_filter: bool,
}

/// Why a query was rejected before touching the cluster.
#[derive(Debug, PartialEq, Eq, Clone)]
pub enum QueryError {
    /// Neither keys nor filters were given: projection alone never triggers
    /// the costlier unrestricted scan implicitly.
    NothingToExecute,
    /// A key list was given but holds no key — a user error, distinct from
    /// the key list being absent.
    EmptyKeySet,
}

/// The time budget of the explicit full scan.
pub const SCAN_SOCKET_TIMEOUT_MS: u32 = 1;

/// The scalar a filter value constrains the result with; `None` for the
/// shapes that are skipped.
pub open spec fn spec_scalar_of(v: FilterValue) -> Option<FilterScalar> {
    match v {
        FilterValue::Bool(b) => Some(FilterScalar::Bool(b)),
        FilterValue::Int(i) => Some(FilterScalar::Int(i)),
        FilterValue::Str(s) => Some(FilterScalar::Str(s)),
        _ => None,
    }
}

/// The equality predicates compiled from the query's filters, in order:
/// one per scalar-valued entry, the other entries skipped.
pub open spec fn spec_predicates(filters: Seq<(String, FilterValue)>) -> Seq<EqualityPredicate>
    decreases filters.len(),
{
    if filters.len() == 0 {
        Seq::empty()
    } else {
        spec_predicates(filters.drop_last()) + match spec_scalar_of(filters.last().1) {
            Some(sc) => seq![EqualityPredicate { field: filters.last().0, value: sc }],
            None => Seq::<EqualityPredicate>::empty(),
        }
    }
}

/// Whether the query carries filters that select the indexed-scan strategy:
/// present and non-empty.
pub open spec fn spec_has_filters(q: Query) -> bool {
    q.filters matches Some(fs) && fs@.len() > 0
}

/// Compiles the filter entries into equality predicates, as
/// [`spec_predicates`] describes.
fn compile_predicates(filters: &Vec<(String, FilterValue)>) -> (preds: Vec<EqualityPredicate>)
    ensures
        preds@ == spec_predicates(filters@),
{
    let mut preds: Vec<EqualityPredicate> = Vec::new();
    proof {
        assert(preds@ =~= spec_predicates(filters@.subrange(0, 0)));
    }
    let mut i: usize = 0;
    while i < filters.len()
        invariant
            i <= filters.len(),
            preds@ == spec_predicates(filters@.subrange(0, i as int)),
        decreases filters.len() - i,
    {
        let ghost old_preds = preds@;
        proof {
            assert(filters@.subrange(0, i + 1).drop_last() =~= filters@.subrange(0, i as int));
            assert(filters@.subrange(0, i + 1).last() == filters@[i as int]);
        }
        let field = filters[i].0.clone();
        let scalar: Option<FilterScalar> = match &filters[i].1 {
            FilterValue::Bool(b) => Some(FilterScalar::Bool(*b)),
            FilterValue::Int(n) => Some(FilterScalar::Int(*n)),
            FilterValue::Str(s) => Some(FilterScalar::Str(s.clone())),
            _ => None,
        };
        match scalar {
            Some(sc) => {
                preds.push(EqualityPredicate { field, value: sc });
                proof {
                    assert(preds@ =~= old_preds + seq![preds@.last()]);
                }
            },
            None => {
                proof {
                    assert(spec_predicates(filters@.subrange(0, i + 1)) =~= old_preds);
                }
            },
        }
        i = i + 1;
    }
    proof {
        assert(filters@.subrange(0, filters@.len() as int) =~= filters@);
    }
    preds
}

/// Selects the execution strategy of a declarative query — a total function
/// of the presence and content of `filters` and `keys`, evaluated once per
/// query. Present, non-empty filters always win over keys; keys alone give
/// point lookups, an explicitly empty key list is rejected as
/// [`QueryError::EmptyKeySet`]; with neither, the query is rejected as
/// [`QueryError::NothingToExecute`], whether or not a projection was given.
pub fn compile(q: Query) -> (r: Result<ExecutionPlan, QueryError>)
    ensures
        match r {
            Ok(plan) => {
                &&& plan.namespace@ == q.namespace@
                &&& plan.set@ == q.set@
                &&& plan.projection == q.projection
                &&& plan.ttl_filter == (q.include_ttl == Some(true))
                &&& if spec_has_filters(q) {
                    plan.strategy matches Strategy::IndexedScan { predicates } && predicates@
                        == spec_predicates(q.filters->Some_0@)
                } else {
                    q.keys matches Some(ks) && ks@.len() > 0 && plan.strategy
                        == (Strategy::PointLookup { keys: ks })
                }
            },
            Err(e) => {
                &&& !spec_has_filters(q)
                &&& match e {
                    QueryError::EmptyKeySet => q.keys matches Some(ks) && ks@.len() == 0,
                    QueryError::NothingToExecute => q.keys is None,
                }
            },
        },
{
    let Query { namespace, set, projection, keys, filters, include_ttl } = q;
    let ttl_filter = match include_ttl {
        Some(true) => true,
        _ => false,
    };
    let has_filters = match &filters {
        Some(fs) => fs.len() > 0,
        None => false,
    };
    if has_filters {
        let fs = match filters {
            Some(fs) => fs,
            None => Vec::new(),
        };
        let predicates = compile_predicates(&fs);
        Ok(
            ExecutionPlan {
                namespace,
                set,
                projection,
                strategy: Strategy::IndexedScan { predicates },
                ttl_filter,
            },
        )
    } else {
        match keys {
            Some(ks) => {
                if ks.len() == 0 {
                    Err(QueryError::EmptyKeySet)
                } else {
                    Ok(
                        ExecutionPlan {
                            namespace,
                            set,
                            projection,
                            strategy: Strategy::PointLookup { keys: ks },
                            ttl_filter,
                        },
                    )
                }
            },
            None => Err(QueryError::NothingToExecute),
        }
    }
}

/// The explicit "browse everything" entry point: always a full scan,
/// whatever a declarative query would have selected, bounded by
/// [`SCAN_SOCKET_TIMEOUT_MS`] and returning every field.
pub fn compile_scan(namespace: String, set: String) -> (plan: ExecutionPlan)
    ensures
        plan.namespace@ == namespace@,
        plan.set@ == set@,
        plan.projection is None,
        plan.strategy == (Strategy::FullScan { socket_timeout_ms: SCAN_SOCKET_TIMEOUT_MS }),
        !plan.ttl_filter,
{
    ExecutionPlan {
        namespace,
        set,
        projection: None,
        strategy: Strategy::FullScan { socket_timeout_ms: SCAN_SOCKET_TIMEOUT_MS },
        ttl_filter: false,
    }
}

} // verus!
