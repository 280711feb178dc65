use vstd::prelude::*;

verus! {

/// Lifecycle mode of a worker. Transitions only ever move forward:
/// `Starting` to `Running` once the start hooks are done, `Running` to
/// `Exiting` on an exit command; `Exiting` is terminal.
#[derive(Clone, Copy, PartialEq, Eq, Structural, Debug)]
pub enum GooseClientMode {
    Starting,
    Running,
    Exiting,
}

/// Aggregated counters for one request label.
pub struct GooseRequest {
    pub name: String,
    pub success_count: u64,
    pub fail_count: u64,
}

/// Mathematical model of a [`GooseRequest`].
#[verifier::ext_equal]
pub ghost struct GooseRequestView {
    pub name: Seq<char>,
    pub success_count: int,
    pub fail_count: int,
}

impl View for GooseRequest {
    type V = GooseRequestView;

    open spec fn view(&self) -> GooseRequestView {
        GooseRequestView {
            name: self.name@,
            success_count: self.success_count as int,
            fail_count: self.fail_count as int,
        }
    }
}

impl DeepView for GooseRequest {
    type V = GooseRequestView;

    open spec fn deep_view(&self) -> GooseRequestView {
        self.view()
    }
}

/// The mutable per-worker record: lifecycle mode, the weighted bucket
/// structure with its cursor pair, the hook sequences, the think-time
/// bounds, and the per-iteration request counters.
pub struct GooseClient {
    pub mode: GooseClientMode,
    /// Buckets of task indices; each bucket is one randomized pass over the
    /// weighted free tasks (a task index appears once per unit of weight).
    pub weighted_tasks: Vec<Vec<usize>>,
    /// Index of the bucket currently being drained.
    pub weighted_bucket: usize,
    /// Cursor into the current bucket.
    pub weighted_bucket_position: usize,
    pub weighted_on_start_tasks: Vec<Vec<usize>>,
    pub weighted_on_stop_tasks: Vec<Vec<usize>>,
    /// Inclusive lower bound of the think time, in seconds; `0` disables
    /// waiting entirely.
    pub min_wait: usize,
    /// Exclusive upper bound of the think time, in seconds.
    pub max_wait: usize,
    /// Label under which the currently running action records its results.
    pub request_name: String,
    /// Counters accumulated since the last synchronization with the parent.
    pub requests: Vec<GooseRequest>,
}

/// Mathematical model of a [`GooseClient`].
#[verifier::ext_equal]
pub ghost struct GooseClientView {
    pub mode: GooseClientMode,
    pub weighted_tasks: Seq<Seq<usize>>,
    pub weighted_bucket: int,
    pub weighted_bucket_position: int,
    pub weighted_on_start_tasks: Seq<Seq<usize>>,
    pub weighted_on_stop_tasks: Seq<Seq<usize>>,
    pub min_wait: int,
    pub max_wait: int,
    pub request_name: Seq<char>,
    pub requests: Seq<GooseRequestView>,
}

impl View for GooseClient {
    type V = GooseClientView;

    open spec fn view(&self) -> GooseClientView {
        GooseClientView {
            mode: self.mode,
            weighted_tasks: self.weighted_tasks.deep_view(),
            weighted_bucket: self.weighted_bucket as int,
            weighted_bucket_position: self.weighted_bucket_position as int,
            weighted_on_start_tasks: self.weighted_on_start_tasks.deep_view(),
            weighted_on_stop_tasks: self.weighted_on_stop_tasks.deep_view(),
            min_wait: self.min_wait as int,
            max_wait: self.max_wait as int,
            request_name: self.request_name@,
            requests: self.requests.deep_view(),
        }
    }
}

/// Rank of a lifecycle mode along the one-way `Starting`, `Running`,
/// `Exiting` progression.
pub open spec fn mode_rank(mode: GooseClientMode) -> int {
    match mode {
        GooseClientMode::Starting => 0,
        GooseClientMode::Running => 1,
        GooseClientMode::Exiting => 2,
    }
}

/// The lifecycle transitions the engine permits: `Starting` to `Running`
/// (once, before the first scheduled task) and `Running` to `Exiting`
/// (once, on an exit command).
pub open spec fn valid_mode_transition(from: GooseClientMode, to: GooseClientMode) -> bool {
    ||| (from == GooseClientMode::Starting && to == GooseClientMode::Running)
    ||| (from == GooseClientMode::Running && to == GooseClientMode::Exiting)
}

/// Lifecycle monotonicity: every permitted transition strictly increases the
/// mode rank, no transition re-enters `Starting`, and no transition leaves
/// `Exiting`.
pub proof fn lemma_mode_transitions_monotonic(from: GooseClientMode, to: GooseClientMode)
    requires
        valid_mode_transition(from, to),
    ensures
        mode_rank(from) < mode_rank(to),
        to != GooseClientMode::Starting,
        from != GooseClientMode::Exiting,
        forall|later: GooseClientMode| !valid_mode_transition(GooseClientMode::Exiting, later),
{
}

impl GooseClient {
    /// A fresh worker state: mode `Starting`, cursor at the origin, empty
    /// counters, and the supplied schedule and think-time bounds.
    pub fn new(
        weighted_tasks: Vec<Vec<usize>>,
        weighted_on_start_tasks: Vec<Vec<usize>>,
        weighted_on_stop_tasks: Vec<Vec<usize>>,
        min_wait: usize,
        max_wait: usize,
    ) -> (r: GooseClient)
        ensures
            r@ == (GooseClientView {
                mode: GooseClientMode::Starting,
                weighted_tasks: weighted_tasks.deep_view(),
                weighted_bucket: 0,
                weighted_bucket_position: 0,
                weighted_on_start_tasks: weighted_on_start_tasks.deep_view(),
                weighted_on_stop_tasks: weighted_on_stop_tasks.deep_view(),
                min_wait: min_wait as int,
                max_wait: max_wait as int,
                request_name: Seq::<char>::empty(),
                requests: Seq::<GooseRequestView>::empty(),
            }),
    {
        let r = GooseClient {
            mode: GooseClientMode::Starting,
            weighted_tasks,
            weighted_bucket: 0,
            weighted_bucket_position: 0,
            weighted_on_start_tasks,
            weighted_on_stop_tasks,
            min_wait,
            max_wait,
            request_name: String::new(),
            requests: Vec::new(),
        };
        proof {
            assert(r.requests.deep_view() =~= Seq::<GooseRequestView>::empty());
        }
        r
    }

    /// Move to a new lifecycle mode; only the forward transitions of
    /// [`valid_mode_transition`] are permitted.
    pub fn set_mode(&mut self, mode: GooseClientMode)
        requires
            valid_mode_transition(old(self)@.mode, mode),
        ensures
            final(self)@ == (GooseClientView { mode, ..old(self)@ }),
    {
        self.mode = mode;
    }

    /// A value copy of the whole worker state, the only form in which the
    /// parent ever observes it: the parent's copy models exactly the same
    /// state, and later worker mutations cannot reach it.
    pub fn snapshot(&self) -> (r: GooseClient)
        ensures
            r@ == self@,
    {
        let r = GooseClient {
            mode: self.mode,
            weighted_tasks: clone_buckets(&self.weighted_tasks),
            weighted_bucket: self.weighted_bucket,
            weighted_bucket_position: self.weighted_bucket_position,
            weighted_on_start_tasks: clone_buckets(&self.weighted_on_start_tasks),
            weighted_on_stop_tasks: clone_buckets(&self.weighted_on_stop_tasks),
            min_wait: self.min_wait,
            max_wait: self.max_wait,
            request_name: self.request_name.clone(),
            requests: clone_requests(&self.requests),
        };
        proof {
            assert(r@ =~~= self@);
        }
        r
    }

    /// Record one completed request under the currently set `request_name`:
    /// bump the counters of the first entry carrying that label, or append a
    /// fresh entry when the label is new.
    pub fn record_request(&mut self, success: bool)
        ensures
            final(self)@ == (GooseClientView { requests: final(self)@.requests, ..old(self)@ }),
            ({
                let reqs = old(self)@.requests;
                let name = old(self)@.request_name;
                ||| (exists|i: int|
                    {
                        &&& 0 <= i < reqs.len()
                        &&& (#[trigger] reqs[i]).name == name
                        &&& (forall|j: int| 0 <= j < i ==> (#[trigger] reqs[j]).name != name)
                        &&& final(self)@.requests == reqs.update(i, bump_request(reqs[i], success))
                    })
                ||| ((forall|j: int| 0 <= j < reqs.len() ==> (#[trigger] reqs[j]).name != name)
                    && final(self)@.requests == reqs.push(fresh_request(name, success)))
            }),
    {
        let ghost reqs = self@.requests;
        let ghost name = self@.request_name;
        let n = self.requests.len();
        let mut i: usize = 0;
        let mut found: Option<usize> = None;
        while i < n && found.is_none()
            invariant
                n == self.requests.len(),
                reqs == self.requests.deep_view(),
                name == self.request_name@,
                0 <= i <= n,
                match found {
                    Some(k) => {
                        &&& 0 <= k < n
                        &&& reqs[k as int].name == name
                        &&& (forall|j: int| 0 <= j < k ==> (#[trigger] reqs[j]).name != name)
                    },
                    None => forall|j: int| 0 <= j < i ==> (#[trigger] reqs[j]).name != name,
                },
            decreases n - i, (if found is None {
                1int
            } else {
                0int
            }),
        {
            if self.requests[i].name == self.request_name {
                found = Some(i);
                proof {
                    assert(self.requests@[i as int].name@ == self.request_name@);
                    assert(reqs[i as int] == self.requests@[i as int]@);
                    assert(reqs[i as int].name == name);
                }
            } else {
                proof {
                    assert(reqs[i as int] == self.requests@[i as int]@);
                    assert(reqs[i as int].name != name);
                }
                i = i + 1;
            }
        }
        match found {
            Some(k) => {
                let entry = &mut self.requests[k];
                if success {
                    if entry.success_count < u64::MAX {
                        entry.success_count = entry.success_count + 1;
                    }
                } else {
                    if entry.fail_count < u64::MAX {
                        entry.fail_count = entry.fail_count + 1;
                    }
                }
                proof {
                    assert(self.requests.deep_view() =~~= reqs.update(
                        k as int,
                        bump_request(reqs[k as int], success),
                    ));
                    assert(self@ =~~= (GooseClientView { requests: self@.requests, ..old(self)@ }));
                    assert({
                        &&& 0 <= k < reqs.len()
                        &&& reqs[k as int].name == name
                        &&& (forall|j: int| 0 <= j < k ==> (#[trigger] reqs[j]).name != name)
                        &&& self@.requests == reqs.update(k as int, bump_request(reqs[k as int], success))
                    });
                }
            },
            None => {
                let entry = GooseRequest {
                    name: self.request_name.clone(),
                    success_count: if success {
                        1
                    } else {
                        0
                    },
                    fail_count: if success {
                        0
                    } else {
                        1
                    },
                };
                self.requests.push(entry);
                proof {
                    assert(self.requests.deep_view() =~~= reqs.push(fresh_request(name, success)));
                    assert(self@ =~~= (GooseClientView { requests: self@.requests, ..old(self)@ }));
                }
            },
        }
    }
}

/// The per-label counters after one more recorded request: the matching
/// counter grows by one, saturating at its maximum.
pub open spec fn bump_request(r: GooseRequestView, success: bool) -> GooseRequestView {
    if success {
        GooseRequestView {
            success_count: if r.success_count < u64::MAX {
                r.success_count + 1
            } else {
                r.success_count
            },
            ..r
        }
    } else {
        GooseRequestView {
            fail_count: if r.fail_count < u64::MAX {
                r.fail_count + 1
            } else {
                r.fail_count
            },
            ..r
        }
    }
}

/// The counters a label starts with when its first request is recorded.
pub open spec fn fresh_request(name: Seq<char>, success: bool) -> GooseRequestView {
    GooseRequestView {
        name,
        success_count: if success {
            1
        } else {
            0
        },
        fail_count: if success {
            0
        } else {
            1
        },
    }
}

/// An element-by-element copy of one bucket of task indices.
pub(crate) fn clone_bucket(bucket: &Vec<usize>) -> (r: Vec<usize>)
    ensures
        r@ == bucket@,
{
    let mut r: Vec<usize> = Vec::new();
    let n = bucket.len();
    let mut i: usize = 0;
    while i < n
        invariant
            n == bucket.len(),
            0 <= i <= n,
            r@ == bucket@.take(i as int),
        decreases n - i,
    {
        r.push(bucket[i]);
        proof {
            assert(r@ =~= bucket@.take(i as int + 1));
        }
        i = i + 1;
    }
    proof {
        assert(r@ =~= bucket@);
    }
    r
}

/// An element-by-element copy of a bucket structure.
fn clone_buckets(buckets: &Vec<Vec<usize>>) -> (r: Vec<Vec<usize>>)
    ensures
        r.deep_view() == buckets.deep_view(),
{
    let mut r: Vec<Vec<usize>> = Vec::new();
    let n = buckets.len();
    let mut i: usize = 0;
    while i < n
        invariant
            n == buckets.len(),
            0 <= i <= n,
            r@.len() == i,
            forall|j: int| 0 <= j < i ==> (#[trigger] r@[j])@ == buckets@[j]@,
        decreases n - i,
    {
        r.push(clone_bucket(&buckets[i]));
        i = i + 1;
    }
    proof {
        assert forall|j: int| 0 <= j < n implies r.deep_view()[j] =~= buckets.deep_view()[j] by {
            assert(r@[j]@ == buckets@[j]@);
        }
        assert(r.deep_view() =~~= buckets.deep_view());
    }
    r
}

/// An element-by-element copy of the request counters.
fn clone_requests(requests: &Vec<GooseRequest>) -> (r: Vec<GooseRequest>)
    ensures
        r.deep_view() == requests.deep_view(),
{
    let mut r: Vec<GooseRequest> = Vec::new();
    let n = requests.len();
    let mut i: usize = 0;
    while i < n
        invariant
            n == requests.len(),
            0 <= i <= n,
            r@.len() == i,
            forall|j: int| 0 <= j < i ==> (#[trigger] r@[j])@ == requests@[j]@,
        decreases n - i,
    {
        let entry = GooseRequest {
            name: requests[i].name.clone(),
            success_count: requests[i].success_count,
            fail_count: requests[i].fail_count,
        };
        r.push(entry);
        i = i + 1;
    }
    proof {
        assert forall|j: int| 0 <= j < n implies r.deep_view()[j] =~= requests.deep_view()[j] by {
            assert(r@[j]@ == requests@[j]@);
        }
        assert(r.deep_view() =~~= requests.deep_view());
    }
    r
}

} // verus!
