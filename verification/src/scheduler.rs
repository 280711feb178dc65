use vstd::prelude::*;

use crate::client::{GooseClient, GooseClientView};
use crate::tasks::{GooseError, GooseTaskSet};

verus! {

/// Well-formedness of the scheduling cursor: there is at least one bucket,
/// the bucket index is in range, and the position never exceeds the current
/// bucket's length.
pub open spec fn buckets_wf(c: GooseClientView) -> bool {
    &&& c.weighted_tasks.len() > 0
    &&& 0 <= c.weighted_bucket < c.weighted_tasks.len()
    &&& 0 <= c.weighted_bucket_position <= c.weighted_tasks[c.weighted_bucket].len()
}

/// At least one bucket holds a task index, so selection can always make
/// progress.
pub open spec fn has_runnable_bucket(buckets: Seq<Seq<usize>>) -> bool {
    exists|i: int| 0 <= i < buckets.len() && buckets[i].len() > 0
}

/// Every task index stored in the buckets refers to a task of the set.
pub open spec fn tasks_in_range(buckets: Seq<Seq<usize>>, task_count: int) -> bool {
    forall|i: int, j: int|
        0 <= i < buckets.len() && 0 <= j < buckets[i].len() ==> #[trigger] buckets[i][j]
            < task_count
}

/// The bucket index following `bucket`, wrapping past the last bucket back
/// to bucket 0.
pub open spec fn wrap_next(bucket_count: int, bucket: int) -> int {
    if bucket + 1 >= bucket_count {
        0
    } else {
        bucket + 1
    }
}

/// The bucket index reached from `bucket` after `step` forward moves with
/// wrap-around (meaningful for `0 <= bucket < bucket_count` and
/// `0 <= step <= bucket_count`).
pub open spec fn cyclic_index(bucket_count: int, bucket: int, step: int) -> int {
    if bucket + step >= bucket_count {
        bucket + step - bucket_count
    } else {
        bucket + step
    }
}

/// The worker advanced its cursor out of an exhausted bucket: `post` drains
/// the first non-empty bucket `step` moves past the old one (every bucket
/// strictly in between is empty), from position 0, with that bucket
/// reshuffled (same multiset of task indices) and everything else unchanged.
pub open spec fn advanced_by(pre: GooseClientView, post: GooseClientView, step: int) -> bool {
    let count = pre.weighted_tasks.len() as int;
    let b = cyclic_index(count, pre.weighted_bucket, step);
    &&& 1 <= step <= count
    &&& forall|e: int|
        1 <= e < step ==> pre.weighted_tasks[cyclic_index(
            count,
            pre.weighted_bucket,
            e,
        )].len() == 0
    &&& pre.weighted_tasks[b].len() > 0
    &&& post.weighted_tasks.len() == count
    &&& forall|i: int| 0 <= i < count && i != b ==> post.weighted_tasks[i] == pre.weighted_tasks[i]
    &&& post.weighted_tasks[b].to_multiset() == pre.weighted_tasks[b].to_multiset()
    &&& post == (GooseClientView {
        weighted_tasks: post.weighted_tasks,
        weighted_bucket: b,
        weighted_bucket_position: 0,
        ..pre
    })
}

/// How one exhaustion check relates the worker state before and after: a
/// cursor still inside its bucket is left alone; an exhausted cursor moves
/// to the next non-empty bucket, which is reshuffled on entry.
pub open spec fn schedule_step(pre: GooseClientView, post: GooseClientView) -> bool {
    if pre.weighted_bucket_position < pre.weighted_tasks[pre.weighted_bucket].len() {
        post == pre
    } else {
        exists|step: int| advanced_by(pre, post, step)
    }
}

/// Cursor behaviour across one exhaustion check: a cursor short of the end
/// of its bucket changes nothing, and the position is reset to 0 exactly
/// when the check advances out of an exhausted bucket.
pub proof fn lemma_cursor_reset(pre: GooseClientView, post: GooseClientView)
    requires
        schedule_step(pre, post),
    ensures
        pre.weighted_bucket_position < pre.weighted_tasks[pre.weighted_bucket].len() ==> post
            == pre,
        pre.weighted_bucket_position >= pre.weighted_tasks[pre.weighted_bucket].len()
            ==> post.weighted_bucket_position == 0,
{
}

/// One pass through a reshuffled bucket is a permutation of the bucket's
/// previous contents: the same length, every task index with the same
/// multiplicity, none duplicated, none omitted.
pub proof fn lemma_pass_is_permutation(original: Seq<usize>, shuffled: Seq<usize>)
    requires
        shuffled.to_multiset() == original.to_multiset(),
    ensures
        shuffled.len() == original.len(),
        forall|t: usize| #[trigger] shuffled.to_multiset().count(t) == original.to_multiset().count(
            t,
        ),
        forall|t: usize| original.contains(t) <==> shuffled.contains(t),
{
    broadcast use vstd::seq_lib::group_to_multiset_ensures;

    assert(shuffled.len() == shuffled.to_multiset().len());
    assert(original.len() == original.to_multiset().len());
    assert forall|t: usize| original.contains(t) <==> shuffled.contains(t) by {
        assert(original.contains(t) <==> original.to_multiset().count(t) > 0);
        assert(shuffled.contains(t) <==> shuffled.to_multiset().count(t) > 0);
    }
}

/// Wrap-around: when the bucket cyclically following the exhausted one is
/// itself non-empty (in particular bucket 0 right after the last bucket),
/// the advance lands exactly there, freshly reshuffled, from position 0.
pub proof fn lemma_wrap_around(pre: GooseClientView, post: GooseClientView)
    requires
        buckets_wf(pre),
        pre.weighted_bucket_position >= pre.weighted_tasks[pre.weighted_bucket].len(),
        pre.weighted_tasks[wrap_next(
            pre.weighted_tasks.len() as int,
            pre.weighted_bucket,
        )].len() > 0,
        schedule_step(pre, post),
    ensures
        post.weighted_bucket == wrap_next(pre.weighted_tasks.len() as int, pre.weighted_bucket),
        post.weighted_bucket_position == 0,
        post.weighted_tasks[post.weighted_bucket].to_multiset()
            == pre.weighted_tasks[post.weighted_bucket].to_multiset(),
{
    let count = pre.weighted_tasks.len() as int;
    let step = choose|step: int| advanced_by(pre, post, step);
    assert(advanced_by(pre, post, step));
    if step > 1 {
        assert(pre.weighted_tasks[cyclic_index(count, pre.weighted_bucket, 1)].len() == 0);
        assert(cyclic_index(count, pre.weighted_bucket, 1) == wrap_next(
            count,
            pre.weighted_bucket,
        ));
        assert(false);
    }
}

impl GooseClient {
    /// Whether the cursor stands on a selectable entry of the current
    /// bucket.
    pub fn cursor_in_bucket(&self) -> (r: bool)
        requires
            buckets_wf(self@),
        ensures
            r == (self@.weighted_bucket_position < self@.weighted_tasks[self@.weighted_bucket].len()),
    {
        self.weighted_bucket_position < self.weighted_tasks[self.weighted_bucket].len()
    }

    /// The single operation allowed to move the cursor pair between
    /// buckets: if the current bucket is exhausted, advance (with
    /// wrap-around) to the next non-empty bucket, reset the position to 0,
    /// and reshuffle the bucket being entered; otherwise leave everything
    /// unchanged. Afterwards the cursor always stands on a selectable entry.
    pub fn advance_to_runnable(&mut self)
        requires
            buckets_wf(old(self)@),
            has_runnable_bucket(old(self)@.weighted_tasks),
        ensures
            schedule_step(old(self)@, final(self)@),
            buckets_wf(final(self)@),
            final(self)@.weighted_bucket_position
                < final(self)@.weighted_tasks[final(self)@.weighted_bucket].len(),
    {
        let count = self.weighted_tasks.len();
        if self.weighted_bucket_position < self.weighted_tasks[self.weighted_bucket].len() {
            return ;
        }
        self.weighted_bucket_position = 0;
        let ghost pre = old(self)@;
        let ghost count_i = count as int;
        let ghost b0 = pre.weighted_bucket;
        proof {
            let i = choose|i: int| 0 <= i < count_i && pre.weighted_tasks[i].len() > 0;
            let witness: int = if i > b0 {
                i - b0
            } else {
                i + count_i - b0
            };
            assert(cyclic_index(count_i, b0, witness) == i);
            assert(1 <= witness <= count_i && pre.weighted_tasks[cyclic_index(
                count_i,
                b0,
                witness,
            )].len() > 0);
        }
        let ghost target: int = choose|step: int|
            1 <= step <= count_i && pre.weighted_tasks[cyclic_index(count_i, b0, step)].len() > 0;
        let mut bucket: usize = if self.weighted_bucket + 1 >= count {
            0
        } else {
            self.weighted_bucket + 1
        };
        let mut step: usize = 1;
        while self.weighted_tasks[bucket].len() == 0
            invariant
                buckets_wf(pre),
                count == pre.weighted_tasks.len(),
                count_i == count as int,
                b0 == pre.weighted_bucket,
                self@ == (GooseClientView { weighted_bucket_position: 0, ..pre }),
                0 <= bucket < count,
                1 <= step <= target,
                1 <= target <= count_i,
                pre.weighted_tasks[cyclic_index(count_i, b0, target)].len() > 0,
                bucket == cyclic_index(count_i, b0, step as int),
                forall|e: int|
                    1 <= e < step ==> pre.weighted_tasks[cyclic_index(count_i, b0, e)].len() == 0,
            decreases target - step,
        {
            proof {
                assert(self@.weighted_tasks[bucket as int] =~= self.weighted_tasks@[
                    bucket as int]@);
                assert(pre.weighted_tasks[cyclic_index(count_i, b0, step as int)].len() == 0);
                assert(step as int != target);
                assert(cyclic_index(count_i, b0, step as int + 1) == wrap_next(
                    count_i,
                    cyclic_index(count_i, b0, step as int),
                ));
            }
            bucket = if bucket + 1 >= count {
                0
            } else {
                bucket + 1
            };
            step = step + 1;
        }
        proof {
            assert(self@.weighted_tasks[bucket as int] =~= self.weighted_tasks@[bucket as int]@);
            assert(pre.weighted_tasks[bucket as int].len() > 0);
        }
        self.weighted_bucket = bucket;
        let ghost before_shuffle = self.weighted_tasks@;
        crate::rng::shuffle_tasks(&mut self.weighted_tasks[bucket]);
        proof {
            assert(self.weighted_tasks@ =~= before_shuffle.update(
                bucket as int,
                self.weighted_tasks@[bucket as int],
            ));
            assert(self@.weighted_tasks.len() == count_i);
            assert forall|i: int| 0 <= i < count_i && i != bucket implies self@.weighted_tasks[i]
                == pre.weighted_tasks[i] by {
                assert(self.weighted_tasks@[i] == before_shuffle[i]);
                assert(self@.weighted_tasks[i] =~= self.weighted_tasks@[i]@);
                assert(pre.weighted_tasks[i] =~= before_shuffle[i]@);
            }
            assert(self@.weighted_tasks[bucket as int] =~= self.weighted_tasks@[bucket as int]@);
            assert(pre.weighted_tasks[bucket as int] =~= before_shuffle[bucket as int]@);
            assert(self@.weighted_tasks[bucket as int].to_multiset() == pre.weighted_tasks[
                bucket as int].to_multiset());
            assert(self@ =~~= (GooseClientView {
                weighted_tasks: self@.weighted_tasks,
                weighted_bucket: bucket as int,
                weighted_bucket_position: 0,
                ..pre
            }));
            assert(advanced_by(pre, self@, step as int));
        }
    }

    /// Whether this state satisfies everything [`Self::schedule_next`]
    /// demands of it for the given task set: a well-formed cursor, at least
    /// one non-empty bucket, and only task indices that the set resolves.
    pub fn can_schedule(&self, task_set: &GooseTaskSet) -> (r: bool)
        ensures
            r == ({
                &&& buckets_wf(self@)
                &&& has_runnable_bucket(self@.weighted_tasks)
                &&& tasks_in_range(self@.weighted_tasks, task_set.tasks@.len() as int)
            }),
    {
        let count = self.weighted_tasks.len();
        if count == 0 {
            return false;
        }
        if self.weighted_bucket >= count {
            return false;
        }
        if self.weighted_bucket_position > self.weighted_tasks[self.weighted_bucket].len() {
            proof {
                assert(self@.weighted_tasks[self@.weighted_bucket] =~= self.weighted_tasks@[
                    self.weighted_bucket as int]@);
            }
            return false;
        }
        proof {
            assert(self@.weighted_tasks[self@.weighted_bucket] =~= self.weighted_tasks@[
                self.weighted_bucket as int]@);
            assert(buckets_wf(self@));
        }
        let task_count = task_set.tasks.len();
        let mut runnable = false;
        let mut i: usize = 0;
        while i < count
            invariant
                count == self.weighted_tasks@.len(),
                task_count == task_set.tasks@.len(),
                0 <= i <= count,
                runnable == (exists|k: int|
                    0 <= k < i && self@.weighted_tasks[k].len() > 0),
                forall|k: int, j: int|
                    0 <= k < i && 0 <= j < self@.weighted_tasks[k].len()
                        ==> #[trigger] self@.weighted_tasks[k][j] < task_count,
            decreases count - i,
        {
            let bucket_len = self.weighted_tasks[i].len();
            proof {
                assert(self@.weighted_tasks[i as int] =~= self.weighted_tasks@[i as int]@);
            }
            if bucket_len > 0 {
                runnable = true;
            }
            let mut j: usize = 0;
            while j < bucket_len
                invariant
                    count == self.weighted_tasks@.len(),
                    task_count == task_set.tasks@.len(),
                    0 <= i < count,
                    bucket_len == self@.weighted_tasks[i as int].len(),
                    0 <= j <= bucket_len,
                    forall|l: int|
                        0 <= l < j ==> #[trigger] self@.weighted_tasks[i as int][l] < task_count,
                decreases bucket_len - j,
            {
                proof {
                    assert(self@.weighted_tasks[i as int] =~= self.weighted_tasks@[i as int]@);
                }
                if self.weighted_tasks[i][j] >= task_count {
                    return false;
                }
                j = j + 1;
            }
            i = i + 1;
        }
        runnable
    }

    /// One scheduling decision of the worker's main loop: advance out of an
    /// exhausted bucket if need be, select the task index under the cursor,
    /// resolve its action, and set `request_name` to the task's name so the
    /// action records its results under that label. Returns the selected
    /// task index together with its action handle, or the fatal
    /// configuration error when the selected task has no action (in which
    /// case `request_name` is left untouched). The cursor is not moved past
    /// the selection until [`Self::complete_task`] is called.
    pub fn schedule_next(&mut self, task_set: &GooseTaskSet) -> (r: Result<
        (usize, usize),
        GooseError,
    >)
        requires
            buckets_wf(old(self)@),
            has_runnable_bucket(old(self)@.weighted_tasks),
            tasks_in_range(old(self)@.weighted_tasks, task_set.tasks@.len() as int),
        ensures
            buckets_wf(final(self)@),
            final(self)@.weighted_bucket_position
                < final(self)@.weighted_tasks[final(self)@.weighted_bucket].len(),
            ({
                let post = final(self)@;
                let selected = post.weighted_tasks[post.weighted_bucket][post.weighted_bucket_position];
                &&& selected < task_set.tasks@.len()
                &&& match r {
                    Ok((task_index, handle)) => {
                        &&& schedule_step(
                            old(self)@,
                            GooseClientView { request_name: old(self)@.request_name, ..final(self)@ },
                        )
                        &&& task_index == selected
                        &&& task_set.tasks@[selected as int].action == Some(handle)
                        &&& final(self)@.request_name == task_set.tasks@[selected as int].name@
                    },
                    Err(e) => {
                        &&& schedule_step(old(self)@, final(self)@)
                        &&& task_set.tasks@[selected as int].action is None
                        &&& match e {
                            GooseError::MissingAction { task_set_name, task_name } => {
                                &&& task_set_name@ == task_set.name@
                                &&& task_name@ == task_set.tasks@[selected as int].name@
                            },
                        }
                    },
                }
            }),
    {
        self.advance_to_runnable();
        let task_index = self.current_task();
        proof {
            broadcast use vstd::seq_lib::group_to_multiset_ensures;

            let pre = old(self)@;
            let post = self@;
            let b = post.weighted_bucket;
            if pre.weighted_bucket_position < pre.weighted_tasks[pre.weighted_bucket].len() {
                assert(post == pre);
            } else {
                let step = choose|step: int| advanced_by(pre, post, step);
                assert(advanced_by(pre, post, step));
                assert(post.weighted_tasks[b].contains(task_index as usize));
                assert(post.weighted_tasks[b].to_multiset().count(task_index as usize) > 0);
                assert(pre.weighted_tasks[b].to_multiset().count(task_index as usize) > 0);
                assert(pre.weighted_tasks[b].contains(task_index as usize));
            }
            assert(task_index < task_set.tasks@.len());
        }
        match task_set.resolve_action(task_index) {
            Ok(handle) => {
                let ghost mid = self@;
                self.request_name = task_set.task_name(task_index);
                proof {
                    assert(self@ =~~= (GooseClientView { request_name: self@.request_name, ..mid }));
                    assert((GooseClientView { request_name: old(self)@.request_name, ..self@ })
                        =~~= mid);
                }
                Ok((task_index, handle))
            },
            Err(e) => Err(e),
        }
    }

    /// The task index under the cursor.
    pub fn current_task(&self) -> (task_index: usize)
        requires
            buckets_wf(self@),
            self@.weighted_bucket_position < self@.weighted_tasks[self@.weighted_bucket].len(),
        ensures
            task_index == self@.weighted_tasks[self@.weighted_bucket][self@.weighted_bucket_position],
    {
        self.weighted_tasks[self.weighted_bucket][self.weighted_bucket_position]
    }

    /// Move the cursor past the entry whose task just ran; the only
    /// operation that advances the position within a bucket.
    pub fn complete_task(&mut self)
        requires
            buckets_wf(old(self)@),
            old(self)@.weighted_bucket_position
                < old(self)@.weighted_tasks[old(self)@.weighted_bucket].len(),
        ensures
            final(self)@ == (GooseClientView {
                weighted_bucket_position: old(self)@.weighted_bucket_position + 1,
                ..old(self)@
            }),
            buckets_wf(final(self)@),
    {
        let bucket_len = self.weighted_tasks[self.weighted_bucket].len();
        proof {
            assert(self@.weighted_tasks[self@.weighted_bucket] =~= self.weighted_tasks@[
                self.weighted_bucket as int]@);
        }
        self.weighted_bucket_position = self.weighted_bucket_position + 1;
    }
}

} // verus!
