use wasm_runner::task::{Task, TaskError};

fn run(out_dir: &str, wasm: &str) -> Result<Task, TaskError> {
    Ok(Task::Run { out_dir: out_dir.to_string(), wasm: wasm.to_string() })
}

#[test]
fn test_task_run() {
    let path = "target/wasm32-unknown-unknown/debug/libweb.wasm";
    assert_eq!(Task::classify(path), run("target/wasm32-unknown-unknown/debug", "libweb"));
}

#[test]
fn test_task_test() {
    let path = "target/wasm32-unknown-unknown/debug/deps/libweb.wasm";
    assert_eq!(Task::classify(path), Ok(Task::Test));
}

#[test]
fn deps_anywhere_in_a_path_is_a_test() {
    assert_eq!(Task::classify("deps/libweb.wasm"), Ok(Task::Test));
    assert_eq!(Task::classify("/abs/deps/libweb-1234.wasm"), Ok(Task::Test));
    assert_eq!(Task::classify("target/deps/libweb"), Ok(Task::Test));
}

#[test]
fn only_a_directory_named_exactly_deps_is_a_test() {
    assert_eq!(Task::classify("target/DEPS/libweb.wasm"), run("target/DEPS", "libweb"));
    assert_eq!(Task::classify("target/deps.d/libweb.wasm"), run("target/deps.d", "libweb"));
    assert_eq!(Task::classify("deps/debug/libweb.wasm"), run("deps/debug", "libweb"));
    assert_eq!(Task::classify("target/ /libweb.wasm"), run("target/ ", "libweb"));
}

#[test]
fn stem_drops_only_the_final_extension() {
    assert_eq!(Task::classify("out/libweb.tar.wasm"), run("out", "libweb.tar"));
    assert_eq!(Task::classify("out/libweb"), run("out", "libweb"));
    assert_eq!(Task::classify("out/.hidden"), run("out", ".hidden"));
}

#[test]
fn bare_file_name_has_no_directory() {
    assert_eq!(Task::classify("libweb.wasm"), Err(TaskError::NoParentDir));
    assert_eq!(Task::classify("/libweb.wasm"), Err(TaskError::NoParentDir));
}

#[test]
fn path_without_file_name_has_no_stem() {
    assert_eq!(Task::classify(""), Err(TaskError::NoFileStem));
    assert_eq!(Task::classify("/"), Err(TaskError::NoFileStem));
    assert_eq!(Task::classify("target/deps/.."), Err(TaskError::NoFileStem));
}
