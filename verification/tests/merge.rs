use lev::{Env, Request};

fn environment(pairs: &[(&str, &str)]) -> Env {
    let mut env = Env::new();
    for (name, value) in pairs {
        env.insert(name.to_string(), value.to_string());
    }
    env
}

fn assign(pairs: &[(&str, &str)]) -> Request {
    Request::Assign(
        pairs
            .iter()
            .map(|(name, value)| (name.to_string(), value.to_string()))
            .collect(),
    )
}

fn remove(names: &[&str]) -> Request {
    Request::Remove(names.iter().map(|name| name.to_string()).collect())
}

#[test]
fn assign_into_empty_environment() {
    let merged = lev::merge::merge(Env::new(), &assign(&[("bar", "baz"), ("boom", "zoom")]));
    assert_eq!(merged, environment(&[("bar", "baz"), ("boom", "zoom")]));
    assert_eq!(merged.len(), 2);
}

#[test]
fn remove_one_of_two() {
    let current = environment(&[("foo", "bar"), ("baz", "qux")]);
    let merged = lev::merge::merge(current, &remove(&["baz"]));
    assert_eq!(merged, environment(&[("foo", "bar")]));
}

#[test]
fn remove_of_a_missing_name_changes_nothing() {
    let current = environment(&[("foo", "bar")]);
    let merged = lev::merge::merge(current, &remove(&["missing"]));
    assert_eq!(merged, environment(&[("foo", "bar")]));
}

#[test]
fn remove_from_empty_environment_is_empty() {
    let merged = lev::merge::merge(Env::new(), &remove(&["foo", "bar"]));
    assert_eq!(merged, Env::new());
}

#[test]
fn assign_overwrites_and_keeps_the_rest() {
    let current = environment(&[("foo", "bar"), ("baz", "qux")]);
    let merged = lev::merge::merge(current, &assign(&[("foo", "new"), ("extra", "1")]));
    assert_eq!(
        merged,
        environment(&[("foo", "new"), ("baz", "qux"), ("extra", "1")])
    );
}

#[test]
fn later_pair_with_the_same_name_wins() {
    let current = environment(&[("foo", "bar")]);
    let merged = lev::merge::merge(
        current,
        &assign(&[("foo", "first"), ("x", "1"), ("foo", "second"), ("x", "2")]),
    );
    assert_eq!(merged, environment(&[("foo", "second"), ("x", "2")]));
    assert_eq!(merged.get("foo"), Some(&"second".to_string()));
}

#[test]
fn remove_drops_every_listed_name_and_keeps_the_rest() {
    let current = environment(&[("a", "1"), ("b", "2"), ("c", "3"), ("d", "4")]);
    let merged = lev::merge::merge(current, &remove(&["b", "missing", "d", "b"]));
    assert_eq!(merged, environment(&[("a", "1"), ("c", "3")]));
    assert!(!merged.contains_key("b"));
    assert!(!merged.contains_key("d"));
}

#[test]
fn empty_requests_change_nothing() {
    let current = environment(&[("foo", "bar")]);
    assert_eq!(lev::merge::merge(current.clone(), &assign(&[])), current);
    assert_eq!(lev::merge::merge(current.clone(), &remove(&[])), current);
}

#[test]
fn assigning_twice_is_assigning_once() {
    let request = assign(&[("foo", "1"), ("bar", "2"), ("foo", "3")]);
    let current = environment(&[("foo", "0"), ("baz", "qux")]);
    let once = lev::merge::merge(current, &request);
    let twice = lev::merge::merge(once.clone(), &request);
    assert_eq!(twice, once);
    assert_eq!(
        once,
        environment(&[("foo", "3"), ("bar", "2"), ("baz", "qux")])
    );
}

#[test]
fn removing_twice_is_removing_once() {
    let request = remove(&["foo", "missing"]);
    let current = environment(&[("foo", "0"), ("baz", "qux")]);
    let once = lev::merge::merge(current, &request);
    let twice = lev::merge::merge(once.clone(), &request);
    assert_eq!(twice, once);
    assert_eq!(once, environment(&[("baz", "qux")]));
}
