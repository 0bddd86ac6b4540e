use dockerrs::reconcile::{find_by_id, reconcile};
use dockerrs::sorting::{name_le, sort_by_name};
use dockerrs::summary::{container_name, container_ports};
use dockerrs::{App, ContainerSummary, NetworkSummary, Port};

fn container(id: &str, name: &str) -> ContainerSummary {
    ContainerSummary {
        id: Some(id.to_string()),
        names: Some(vec![format!("/{}", name)]),
        image: None,
        image_id: None,
        command: None,
        state: Some("running".to_string()),
        status: None,
        ports: None,
        labels: None,
        networks: None,
        mounts: None,
    }
}

fn network(id: &str, name: &str) -> NetworkSummary {
    NetworkSummary {
        id: Some(id.to_string()),
        name: Some(name.to_string()),
        driver: None,
        scope: None,
        containers: None,
    }
}

fn ids(app: &App) -> Vec<String> {
    app.containers.iter().map(|c| c.id.clone().unwrap_or_default()).collect()
}

fn selected_id(app: &App) -> Option<String> {
    app.selected_container_id()
}

#[test]
fn snapshot_is_sorted_by_display_name() {
    let mut app = App::new();
    app.update_containers(vec![container("3", "web"), container("1", "cache"), container("2", "db")]);
    assert_eq!(ids(&app), vec!["1", "2", "3"]);
    let names: Vec<String> = app.containers.iter().map(container_name).collect();
    assert_eq!(names, vec!["cache", "db", "web"]);
}

#[test]
fn sort_is_case_sensitive_and_bytewise() {
    let sorted = sort_by_name(vec![
        container("1", "beta"),
        container("2", "Zulu"),
        container("3", "alpha"),
        container("4", "al"),
    ]);
    let names: Vec<String> = sorted.iter().map(container_name).collect();
    assert_eq!(names, vec!["Zulu", "al", "alpha", "beta"]);
}

#[test]
fn sort_is_stable_for_equal_names() {
    let sorted = sort_by_name(vec![
        container("x1", "same"),
        container("a", "aaa"),
        container("x2", "same"),
        container("x3", "same"),
    ]);
    let order: Vec<String> = sorted.iter().map(|c| c.id.clone().unwrap()).collect();
    assert_eq!(order, vec!["a", "x1", "x2", "x3"]);
}

#[test]
fn sort_of_empty_and_single_snapshot() {
    assert!(sort_by_name(Vec::<ContainerSummary>::new()).is_empty());
    let one = sort_by_name(vec![container("1", "only")]);
    assert_eq!(one.len(), 1);
    assert_eq!(one[0].id.as_deref(), Some("1"));
}

#[test]
fn name_order_puts_prefix_first() {
    let a = container("1", "app");
    let b = container("2", "apple");
    assert!(name_le(&a, &b));
    assert!(!name_le(&b, &a));
    assert!(name_le(&a, &a));
}

#[test]
fn first_snapshot_selects_first_row() {
    let mut app = App::new();
    assert_eq!(app.container_selected, None);
    app.update_containers(vec![container("2", "b"), container("1", "a")]);
    assert_eq!(app.container_selected, Some(0));
    assert_eq!(selected_id(&app).as_deref(), Some("1"));
}

#[test]
fn empty_snapshot_on_empty_list_leaves_unselected() {
    let mut app = App::new();
    app.update_containers(Vec::new());
    assert_eq!(app.container_selected, None);
    assert!(app.containers.is_empty());
}

#[test]
fn selection_follows_row_under_reordering() {
    let mut app = App::new();
    app.update_containers(vec![container("a", "alpha"), container("b", "bravo"), container("c", "charlie")]);
    app.container_selected = Some(1);
    assert_eq!(selected_id(&app).as_deref(), Some("b"));
    // The same rows in another order: the cursor stays on "b".
    app.update_containers(vec![container("c", "charlie"), container("b", "bravo"), container("a", "alpha")]);
    assert_eq!(selected_id(&app).as_deref(), Some("b"));
    assert_eq!(app.container_selected, Some(1));
}

#[test]
fn selection_follows_row_that_moved() {
    let mut app = App::new();
    app.update_containers(vec![container("a", "alpha"), container("b", "bravo"), container("c", "charlie")]);
    app.container_selected = Some(2);
    // "charlie" was renamed and now sorts first.
    app.update_containers(vec![container("a", "alpha"), container("b", "bravo"), container("c", "aardvark")]);
    assert_eq!(app.container_selected, Some(0));
    assert_eq!(selected_id(&app).as_deref(), Some("c"));
}

#[test]
fn selection_clamps_when_row_is_removed() {
    let mut app = App::new();
    app.update_containers(vec![
        container("a", "a"),
        container("b", "b"),
        container("c", "c"),
        container("d", "d"),
        container("e", "e"),
    ]);
    app.container_selected = Some(4);
    // N = 5, M = 2, the selected row is gone: min(4, 1) = 1.
    app.update_containers(vec![container("a", "a"), container("b", "b")]);
    assert_eq!(app.container_selected, Some(1));
}

#[test]
fn selection_keeps_index_when_row_is_removed_in_the_middle() {
    let mut app = App::new();
    app.update_containers(vec![container("a", "a"), container("b", "b"), container("c", "c"), container("d", "d")]);
    app.container_selected = Some(1);
    // N = 4, M = 3: min(1, 2) = 1.
    app.update_containers(vec![container("a", "a"), container("c", "c"), container("d", "d")]);
    assert_eq!(app.container_selected, Some(1));
    assert_eq!(selected_id(&app).as_deref(), Some("c"));
}

#[test]
fn selection_clears_when_list_becomes_empty() {
    let mut app = App::new();
    app.update_containers(vec![container("a", "a"), container("b", "b")]);
    assert_eq!(app.container_selected, Some(0));
    app.update_containers(Vec::new());
    assert_eq!(app.container_selected, None);
    // From empty to non-empty the first row is selected.
    app.update_containers(vec![container("z", "z"), container("y", "y")]);
    assert_eq!(app.container_selected, Some(0));
    assert_eq!(selected_id(&app).as_deref(), Some("y"));
}

#[test]
fn same_snapshot_twice_is_idempotent() {
    let snapshot = || vec![container("c", "charlie"), container("a", "alpha"), container("b", "bravo")];
    let mut app = App::new();
    app.update_containers(vec![container("b", "bravo"), container("q", "quebec")]);
    app.container_selected = Some(1);
    app.update_containers(snapshot());
    let first_ids = ids(&app);
    let first_cursor = app.container_selected;
    app.update_containers(snapshot());
    assert_eq!(ids(&app), first_ids);
    assert_eq!(app.container_selected, first_cursor);
    assert_eq!(first_ids, vec!["a", "b", "c"]);
    assert_eq!(first_cursor, Some(1));
}

#[test]
fn selection_of_row_without_identity_is_clamped() {
    let mut app = App::new();
    let mut nameless = container("", "zz");
    nameless.id = None;
    app.update_containers(vec![container("a", "a"), container("b", "b"), nameless]);
    app.container_selected = Some(2);
    assert_eq!(app.selected_container_id(), None);
    app.update_containers(vec![container("a", "a")]);
    assert_eq!(app.container_selected, Some(0));
}

#[test]
fn dangling_cursor_is_repaired() {
    let mut app = App::new();
    app.update_containers(vec![container("a", "a")]);
    app.container_selected = Some(9);
    app.update_containers(vec![container("a", "a"), container("b", "b")]);
    assert_eq!(app.container_selected, Some(1));
}

#[test]
fn networks_are_reconciled_like_containers() {
    let mut app = App::new();
    app.update_networks(vec![network("n2", "host"), network("n1", "bridge"), network("n3", "none")]);
    let names: Vec<&str> = app.networks.iter().map(|n| n.name.as_deref().unwrap()).collect();
    assert_eq!(names, vec!["bridge", "host", "none"]);
    assert_eq!(app.network_selected, Some(0));
    app.network_selected = Some(2);
    app.update_networks(vec![network("n3", "none"), network("n0", "aaa"), network("n1", "bridge")]);
    assert_eq!(app.network_selected, Some(2));
    assert_eq!(app.networks[2].id.as_deref(), Some("n3"));
    app.update_networks(vec![network("n1", "bridge")]);
    assert_eq!(app.network_selected, Some(0));
    app.update_networks(Vec::new());
    assert_eq!(app.network_selected, None);
    // The container list is untouched by network snapshots.
    assert!(app.containers.is_empty());
    assert_eq!(app.container_selected, None);
}

#[test]
fn network_without_name_sorts_first() {
    let mut nameless = network("n9", "");
    nameless.name = None;
    let sorted = sort_by_name(vec![network("n1", "bridge"), nameless]);
    assert_eq!(sorted[0].id.as_deref(), Some("n9"));
    assert_eq!(sorted[1].id.as_deref(), Some("n1"));
}

#[test]
fn reconcile_on_plain_vectors() {
    let mut rows = vec![container("a", "a"), container("b", "b")];
    let mut cursor = Some(1);
    reconcile(&mut rows, &mut cursor, vec![container("b", "b"), container("0", "0")]);
    assert_eq!(cursor, Some(1));
    assert_eq!(rows[1].id.as_deref(), Some("b"));
    assert_eq!(find_by_id(&rows, &"0".to_string()), Some(0));
    assert_eq!(find_by_id(&rows, &"missing".to_string()), None);
}

#[test]
fn find_by_id_returns_first_match() {
    let rows = vec![container("dup", "a"), container("dup", "b"), container("x", "c")];
    assert_eq!(find_by_id(&rows, &"dup".to_string()), Some(0));
    assert_eq!(find_by_id(&rows, &"x".to_string()), Some(2));
}

#[test]
fn container_name_strips_leading_separators() {
    let mut c = container("1", "web");
    assert_eq!(container_name(&c), "web");
    c.names = Some(vec!["//deep/er".to_string(), "/second".to_string()]);
    assert_eq!(container_name(&c), "deep/er");
    c.names = Some(vec!["///".to_string()]);
    assert_eq!(container_name(&c), "");
    c.names = Some(Vec::new());
    assert_eq!(container_name(&c), "unnamed");
    c.names = None;
    assert_eq!(container_name(&c), "unnamed");
}

#[test]
fn container_ports_are_summarised() {
    let mut c = container("1", "web");
    assert_eq!(container_ports(&c), "");
    c.ports = Some(Vec::new());
    assert_eq!(container_ports(&c), "");
    c.ports = Some(vec![
        Port { ip: Some("0.0.0.0".to_string()), private_port: 80, public_port: Some(8080) },
        Port { ip: None, private_port: 443, public_port: Some(8443) },
        Port { ip: None, private_port: 5432, public_port: None },
        Port { ip: Some("::".to_string()), private_port: 0, public_port: Some(65535) },
    ]);
    assert_eq!(container_ports(&c), "8080:80, 443, 5432, 65535:0");
}

#[test]
fn shared_identity_moves_cursor_to_its_first_row() {
    // Two rows share the identity "x". The selected row "y" disappears, the
    // index is kept; a second delivery then follows "x" to its first row.
    let snapshot = || vec![container("x", "a"), container("x", "b")];
    let mut app = App::new();
    app.update_containers(vec![container("p", "a"), container("y", "b")]);
    app.container_selected = Some(1);
    app.update_containers(snapshot());
    assert_eq!(app.container_selected, Some(1));
    app.update_containers(snapshot());
    assert_eq!(app.container_selected, Some(0));
}
