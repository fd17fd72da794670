use agentcontainer::hooks::{
    execute_post_run_hooks, execute_pre_build_hooks, execute_pre_hooks, execute_pre_run_hooks,
};
use std::cell::RefCell;

fn strings(values: &[&str]) -> Vec<String> {
    values.iter().map(|s| String::from(*s)).collect()
}

#[test]
fn pipeline_without_hooks_returns_the_initial_value() {
    let out = execute_pre_hooks(&[], "pre-run", strings(&["--env", "A"]), |_, _, _| {
        Err::<Vec<String>, String>(String::from("no hook should run"))
    });
    assert_eq!(out, Ok(strings(&["--env", "A"])));
}

#[test]
fn each_hook_sees_the_previous_output_in_order() {
    let seen = RefCell::new(Vec::new());
    let out = execute_pre_build_hooks(
        &strings(&["first", "second", "third"]),
        strings(&["start"]),
        |path: &String, label: &str, args: &Vec<String>| {
            seen.borrow_mut().push(format!("{label}:{path}:{}", args.len()));
            let mut next = args.clone();
            next.push(path.clone());
            Ok::<Vec<String>, String>(next)
        },
    );
    assert_eq!(out, Ok(strings(&["start", "first", "second", "third"])));
    assert_eq!(
        seen.into_inner(),
        vec!["pre-build:first:1", "pre-build:second:2", "pre-build:third:3"]
    );
}

#[test]
fn first_failing_hook_ends_the_pipeline() {
    let ran = RefCell::new(Vec::new());
    let out = execute_pre_run_hooks(
        &strings(&["ok", "bad", "never"]),
        vec![],
        |path: &String, _label: &str, args: &Vec<String>| {
            ran.borrow_mut().push(path.clone());
            if path == "bad" {
                Err(format!("{path} failed"))
            } else {
                Ok(args.clone())
            }
        },
    );
    assert_eq!(out, Err(String::from("bad failed")));
    assert_eq!(ran.into_inner(), vec!["ok", "bad"]);
}

#[test]
fn post_run_hooks_transform_the_output() {
    let out = execute_post_run_hooks(
        &strings(&["upper", "exclaim"]),
        b"hello".to_vec(),
        |path: &String, label: &str, input: &Vec<u8>| {
            assert_eq!(label, "post-run");
            let mut next = input.clone();
            if path == "upper" {
                next.make_ascii_uppercase();
            } else {
                next.push(b'!');
            }
            Ok::<Vec<u8>, String>(next)
        },
    );
    assert_eq!(out, Ok(b"HELLO!".to_vec()));
}
