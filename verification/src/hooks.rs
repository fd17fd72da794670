//! The hook pipelines.
//!
//! Pre-hooks (`pre_build`, `pre_run`) form an argument pipeline and post-hooks (`post_run`) an
//! output pipeline: the hooks run in order, each receives what the previous stage produced, and
//! the pipeline's result is what the last hook produced (or the initial value when there are no
//! hooks). The first hook that fails ends the pipeline with its error.
//!
//! Running one hook (spawning the executable, passing it its input, reading what it prints) is
//! the caller's work, handed in as `run_hook`; it is given the hook's path, the kind of hook
//! (`pre-build`, `pre-run` or `post-run`) and the current value.

use vstd::prelude::*;

verus! {

/// `vals` records a successful run of `hooks` of the given kind: hook `i` was given `vals[i]`
/// and returned `vals[i + 1]`.
pub open spec fn is_hook_run<T, E, F: Fn(&String, &str, &T) -> Result<T, E>>(
    run_hook: F,
    label: &str,
    hooks: Seq<String>,
    vals: Seq<T>,
) -> bool {
    &&& vals.len() == hooks.len() + 1
    &&& forall|i: int|
        0 <= i < hooks.len() ==> #[trigger] run_hook.ensures((&hooks[i], label, &vals[i]), Ok(vals[i + 1]))
}

/// What a pipeline returns: the last value of a successful run that starts at `initial`, or
/// the error of the first hook that failed, after the hooks before it succeeded.
pub open spec fn pipeline_result<T, E, F: Fn(&String, &str, &T) -> Result<T, E>>(
    run_hook: F,
    label: &str,
    hooks: Seq<String>,
    initial: T,
    res: Result<T, E>,
) -> bool {
    match res {
        Ok(out) => exists|vals: Seq<T>|
            #![trigger is_hook_run(run_hook, label, hooks, vals)]
            is_hook_run(run_hook, label, hooks, vals) && vals[0] == initial && vals.last() == out,
        Err(e) => exists|k: int, vals: Seq<T>|
            #![trigger is_hook_run(run_hook, label, hooks.take(k), vals)]
            0 <= k < hooks.len() && is_hook_run(run_hook, label, hooks.take(k), vals) && vals[0]
                == initial && run_hook.ensures((&hooks[k], label, &vals.last()), Err(e)),
    }
}

/// Run `hooks` in order, each on the previous stage's value, starting from `initial`.
pub fn run_hook_pipeline<T, E, F: Fn(&String, &str, &T) -> Result<T, E>>(
    hooks: &[String],
    label: &str,
    initial: T,
    run_hook: F,
) -> (res: Result<T, E>)
    requires
        forall|h: &String, v: &T| #[trigger] run_hook.requires((h, label, v)),
    ensures
        pipeline_result(run_hook, label, hooks@, initial, res),
{
    let ghost mut vals: Seq<T> = seq![initial];
    let mut current = initial;
    let mut i: usize = 0;
    assert(hooks@.take(0) =~= Seq::<String>::empty());
    while i < hooks.len()
        invariant
            i <= hooks@.len(),
            forall|h: &String, v: &T| #[trigger] run_hook.requires((h, label, v)),
            vals.len() == i + 1,
            vals[0] == initial,
            vals.last() == current,
            is_hook_run(run_hook, label, hooks@.take(i as int), vals),
        decreases hooks.len() - i,
    {
        let outcome = run_hook(&hooks[i], label, &current);
        match outcome {
            Ok(next) => {
                proof {
                    let before = vals;
                    vals = vals.push(next);
                    assert(hooks@.take(i + 1).take(i as int) =~= hooks@.take(i as int));
                    assert forall|j: int| 0 <= j < i + 1 implies #[trigger] run_hook.ensures(
                        (&hooks@.take(i + 1)[j], label, &vals[j]),
                        Ok(vals[j + 1]),
                    ) by {
                        if j < i {
                            assert(hooks@.take(i + 1)[j] == hooks@.take(i as int)[j]);
                            assert(vals[j] == before[j]);
                            assert(vals[j + 1] == before[j + 1]);
                        } else {
                            assert(hooks@.take(i + 1)[j] == hooks@[i as int]);
                        }
                    }
                }
                current = next;
            },
            Err(e) => {
                assert(is_hook_run(run_hook, label, hooks@.take(i as int), vals));
                return Err(e);
            },
        }
        i = i + 1;
    }
    assert(hooks@.take(hooks.len() as int) =~= hooks@);
    assert(is_hook_run(run_hook, label, hooks@, vals));
    Ok(current)
}

/// Execute pre-hooks of the given kind as an argument pipeline and return the final arguments.
pub fn execute_pre_hooks<E, F: Fn(&String, &str, &Vec<String>) -> Result<Vec<String>, E>>(
    hook_paths: &[String],
    hook_label: &str,
    initial_args: Vec<String>,
    run_hook: F,
) -> (res: Result<Vec<String>, E>)
    requires
        forall|h: &String, v: &Vec<String>| #[trigger] run_hook.requires((h, hook_label, v)),
    ensures
        pipeline_result(run_hook, hook_label, hook_paths@, initial_args, res),
{
    run_hook_pipeline(hook_paths, hook_label, initial_args, run_hook)
}

/// Execute the pre-build hooks on the `docker build` hookable arguments.
pub fn execute_pre_build_hooks<E, F: Fn(&String, &str, &Vec<String>) -> Result<Vec<String>, E>>(
    pre_build: &[String],
    initial_args: Vec<String>,
    run_hook: F,
) -> (res: Result<Vec<String>, E>)
    requires
        forall|h: &String, v: &Vec<String>| #[trigger] run_hook.requires((h, "pre-build", v)),
    ensures
        pipeline_result(run_hook, "pre-build", pre_build@, initial_args, res),
{
    execute_pre_hooks(pre_build, "pre-build", initial_args, run_hook)
}

/// Execute the pre-run hooks on the `docker run` hookable arguments.
pub fn execute_pre_run_hooks<E, F: Fn(&String, &str, &Vec<String>) -> Result<Vec<String>, E>>(
    pre_run: &[String],
    initial_args: Vec<String>,
    run_hook: F,
) -> (res: Result<Vec<String>, E>)
    requires
        forall|h: &String, v: &Vec<String>| #[trigger] run_hook.requires((h, "pre-run", v)),
    ensures
        pipeline_result(run_hook, "pre-run", pre_run@, initial_args, res),
{
    execute_pre_hooks(pre_run, "pre-run", initial_args, run_hook)
}

/// Execute the post-run hooks as an output pipeline on the output of `docker run`.
pub fn execute_post_run_hooks<E, F: Fn(&String, &str, &Vec<u8>) -> Result<Vec<u8>, E>>(
    post_run: &[String],
    initial_output: Vec<u8>,
    run_hook: F,
) -> (res: Result<Vec<u8>, E>)
    requires
        forall|h: &String, v: &Vec<u8>| #[trigger] run_hook.requires((h, "post-run", v)),
    ensures
        pipeline_result(run_hook, "post-run", post_run@, initial_output, res),
{
    run_hook_pipeline(post_run, "post-run", initial_output, run_hook)
}

} // verus!
