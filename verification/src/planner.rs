//! From what the caller asks of a run to its tasks: one task for each
//! batch, with dense batch identifiers, that together ask for exactly the
//! entries of the target.

use crate::run_model::dense_ids;
use crate::text::{decimal, decimal_string};
use crate::types::{GenerationConfig, GenerationTask, Model};
use vstd::prelude::*;
use vstd::string::*;

verus! {

/// `uuid::Uuid::new_v4`, written out. The identifier is drawn at random:
/// nothing is claimed of it.
#[verifier::external_body]
fn fresh_task_id() -> (id: String) {
    uuid::Uuid::new_v4().to_string()
}

/// The number of batches of `batch_size` that it takes to reach `target`
/// entries.
pub open spec fn batch_count(target: usize, batch_size: usize) -> int {
    (target + batch_size - 1) / (batch_size as int)
}

/// The entries that batch `batch` asks for: a full batch, or what is left
/// of the target after the batches before it.
pub open spec fn batch_entries(target: usize, batch_size: usize, batch: int) -> int {
    let left = target - batch * batch_size;
    if left <= 0 {
        0
    } else if left < batch_size {
        left
    } else {
        batch_size as int
    }
}

/// What batch `batch` is told of the batches before it.
pub open spec fn batch_context(target: usize, batch_size: usize, batch: int) -> Seq<char> {
    if batch == 0 {
        "This is the first batch of the dataset."@
    } else {
        "Previous batches completed: "@ + decimal(batch as nat) + ". Current progress: "@
            + decimal((batch * batch_size) as nat) + "/"@ + decimal(target as nat)
            + " total entries."@
    }
}

/// The entries that the first `n` of `tasks` ask for together.
pub open spec fn entries_asked(tasks: Seq<GenerationTask>, n: int) -> int
    decreases n,
{
    if n <= 0 {
        0
    } else {
        entries_asked(tasks, n - 1) + tasks[n - 1].entries_to_generate
    }
}

/// `tasks` is the plan of `config` for `model`: one task for each batch
/// in order, each for the model, with the goal of the configuration.
pub open spec fn is_plan(tasks: Seq<GenerationTask>, config: GenerationConfig, model: Model)
    -> bool {
    &&& tasks.len() == batch_count(config.target_entries, config.batch_size)
    &&& forall|i: int|
        0 <= i < tasks.len() ==> {
            &&& (#[trigger] tasks[i]).batch_id == i
            &&& tasks[i].entries_to_generate == batch_entries(
                config.target_entries,
                config.batch_size,
                i,
            )
            &&& tasks[i].model_id@ == model.id@
            &&& tasks[i].provider == model.provider
            &&& tasks[i].goal@ == config.fine_tuning_goal@
            &&& tasks[i].context@ == batch_context(config.target_entries, config.batch_size, i)
        }
}

proof fn lemma_batches(target: usize, batch_size: usize)
    requires
        batch_size > 0,
    ensures
        batch_count(target, batch_size) == target / batch_size + if target % batch_size == 0 {
            0int
        } else {
            1int
        },
        0 <= batch_count(target, batch_size) <= target,
        batch_count(target, batch_size) * batch_size >= target,
        forall|i: int|
            0 <= i < batch_count(target, batch_size) ==> 0 <= #[trigger] (i * batch_size) < target,
{
    let q: int = target as int / batch_size as int;
    let r: int = target as int % batch_size as int;
    let n: int = batch_count(target, batch_size);
    assert(q * batch_size + r == target && 0 <= r < batch_size && q >= 0 && q <= q * batch_size)
        by (nonlinear_arith)
        requires
            q == target as int / batch_size as int,
            r == target as int % batch_size as int,
            batch_size > 0,
            target >= 0,
    ;
    assert(n == q + if r == 0 {
        0int
    } else {
        1int
    }) by (nonlinear_arith)
        requires
            n == (target + batch_size - 1) / (batch_size as int),
            q * batch_size + r == target,
            0 <= r < batch_size,
            batch_size > 0,
    ;
    assert(n * batch_size >= target) by (nonlinear_arith)
        requires
            n == q + if r == 0 {
                0int
            } else {
                1int
            },
            q * batch_size + r == target,
            0 <= r < batch_size,
    ;
    assert forall|i: int| 0 <= i < n implies 0 <= #[trigger] (i * batch_size) < target by {
        assert(0 <= i * batch_size < target) by (nonlinear_arith)
            requires
                0 <= i < n,
                n == q + if r == 0 {
                    0int
                } else {
                    1int
                },
                q * batch_size + r == target,
                0 <= r < batch_size,
                batch_size > 0,
        ;
    }
}

proof fn lemma_entries_asked(tasks: Seq<GenerationTask>, target: usize, batch_size: usize, n: int)
    requires
        batch_size > 0,
        0 <= n <= tasks.len(),
        n <= batch_count(target, batch_size),
        forall|i: int|
            0 <= i < n ==> (#[trigger] tasks[i]).entries_to_generate == batch_entries(
                target,
                batch_size,
                i,
            ),
    ensures
        entries_asked(tasks, n) == if n * batch_size < target {
            n * batch_size
        } else {
            target as int
        },
    decreases n,
{
    if n > 0 {
        lemma_entries_asked(tasks, target, batch_size, n - 1);
        lemma_batches(target, batch_size);
        assert(0 <= (n - 1) * batch_size < target);
        assert(n * batch_size == (n - 1) * batch_size + batch_size) by (nonlinear_arith);
    } else {
        assert(0 * batch_size == 0) by (nonlinear_arith);
    }
}

/// The tasks of a plan have dense batch identifiers and ask for exactly
/// the entries of the target.
pub proof fn lemma_plan_covers_target(tasks: Seq<GenerationTask>, config: GenerationConfig, model: Model)
    requires
        config.batch_size > 0,
        is_plan(tasks, config, model),
    ensures
        dense_ids(tasks),
        entries_asked(tasks, tasks.len() as int) == config.target_entries,
{
    lemma_batches(config.target_entries, config.batch_size);
    lemma_entries_asked(tasks, config.target_entries, config.batch_size, tasks.len() as int);
}

fn context_of(target: usize, batch_size: usize, batch: usize) -> (context: String)
    requires
        batch_size > 0,
        batch < batch_count(target, batch_size),
    ensures
        context@ == batch_context(target, batch_size, batch as int),
{
    if batch == 0 {
        return String::from_str("This is the first batch of the dataset.");
    }
    proof {
        lemma_batches(target, batch_size);
        assert(0 <= batch * batch_size < target);
    }
    let done: usize = batch * batch_size;
    let mut context: String = String::from_str("Previous batches completed: ");
    let batches: String = decimal_string(batch);
    context.append(batches.as_str());
    context.append(". Current progress: ");
    let entries: String = decimal_string(done);
    context.append(entries.as_str());
    context.append("/");
    let total: String = decimal_string(target);
    context.append(total.as_str());
    context.append(" total entries.");
    context
}

/// The tasks of a run for `config` with `model`. Each task gets an
/// identifier of its own, drawn at random.
pub fn plan_tasks(config: &GenerationConfig, model: &Model) -> (tasks: Vec<GenerationTask>)
    requires
        config.batch_size > 0,
    ensures
        is_plan(tasks@, *config, *model),
        dense_ids(tasks@),
        entries_asked(tasks@, tasks.len() as int) == config.target_entries,
{
    let target: usize = config.target_entries;
    let batch_size: usize = config.batch_size;
    proof {
        lemma_batches(target, batch_size);
    }
    let total: usize = if target % batch_size == 0 {
        target / batch_size
    } else {
        target / batch_size + 1
    };
    let mut tasks: Vec<GenerationTask> = Vec::new();
    let mut batch: usize = 0;
    while batch < total
        invariant
            batch_size > 0,
            target == config.target_entries,
            batch_size == config.batch_size,
            total == batch_count(target, batch_size),
            batch <= total,
            tasks.len() == batch,
            forall|i: int|
                0 <= i < batch ==> {
                    &&& (#[trigger] tasks[i]).batch_id == i
                    &&& tasks[i].entries_to_generate == batch_entries(target, batch_size, i)
                    &&& tasks[i].model_id@ == model.id@
                    &&& tasks[i].provider == model.provider
                    &&& tasks[i].goal@ == config.fine_tuning_goal@
                    &&& tasks[i].context@ == batch_context(target, batch_size, i)
                },
        decreases total - batch,
    {
        proof {
            lemma_batches(target, batch_size);
            assert(0 <= batch * batch_size < target);
        }
        let left: usize = target - batch * batch_size;
        let entries_to_generate: usize = if left < batch_size {
            left
        } else {
            batch_size
        };
        tasks.push(
            GenerationTask {
                id: fresh_task_id(),
                batch_id: batch,
                entries_to_generate,
                model_id: model.id.clone(),
                provider: model.provider,
                goal: config.fine_tuning_goal.clone(),
                context: context_of(target, batch_size, batch),
            },
        );
        batch = batch + 1;
    }
    proof {
        lemma_plan_covers_target(tasks@, *config, *model);
    }
    tasks
}

} // verus!
