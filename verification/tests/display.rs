use dockerrs::display::{
    container_cells, container_detail, detail_text, id_cell, key_hints, log_title, log_window,
    network_cells, network_detail, network_detail_text, state_tone, status_line, value_or, Tone,
};
use dockerrs::{App, ContainerSummary, Endpoint, Mode, Mount, NetworkSummary, Port, Tab};

fn bare_container() -> ContainerSummary {
    ContainerSummary {
        id: None,
        names: None,
        image: None,
        image_id: None,
        command: None,
        state: None,
        status: None,
        ports: None,
        labels: None,
        networks: None,
        mounts: None,
    }
}

fn full_container() -> ContainerSummary {
    ContainerSummary {
        id: Some("0123456789abcdef0123".to_string()),
        names: Some(vec!["/web".to_string()]),
        image: Some("nginx:latest".to_string()),
        image_id: Some("sha256:feed".to_string()),
        command: Some("nginx -g daemon off;".to_string()),
        state: Some("running".to_string()),
        status: Some("Up 2 hours".to_string()),
        ports: Some(vec![
            Port { ip: Some("0.0.0.0".to_string()), private_port: 80, public_port: Some(8080) },
            Port { ip: None, private_port: 443, public_port: None },
        ]),
        labels: Some(vec![
            ("com.example.a".to_string(), "1".to_string()),
            ("com.example.b".to_string(), "".to_string()),
        ]),
        networks: Some(vec!["bridge".to_string(), "backend".to_string()]),
        mounts: Some(vec![
            Mount { source: Some("/srv".to_string()), destination: Some("/data".to_string()) },
            Mount { source: None, destination: None },
        ]),
    }
}

fn bare_network() -> NetworkSummary {
    NetworkSummary { id: None, name: None, driver: None, scope: None, containers: None }
}

#[test]
fn tones_of_states() {
    assert_eq!(state_tone("running"), Tone::Running);
    assert_eq!(state_tone("exited"), Tone::Stopped);
    assert_eq!(state_tone("dead"), Tone::Stopped);
    assert_eq!(state_tone("paused"), Tone::Paused);
    assert_eq!(state_tone("restarting"), Tone::Restarting);
    assert_eq!(state_tone("created"), Tone::Created);
    assert_eq!(state_tone("unknown"), Tone::Other);
    assert_eq!(state_tone(""), Tone::Other);
    assert_eq!(state_tone("Running"), Tone::Other);
}

#[test]
fn hints_per_mode_and_tab() {
    assert_eq!(
        key_hints(Mode::Normal, Tab::Containers),
        "q: Quit | Tab: Switch | j/k: Navigate | Enter: Detail | l: Logs | s: Start/Stop | x: Kill | r: Remove"
    );
    assert_eq!(key_hints(Mode::Normal, Tab::Networks), "q: Quit | Tab: Switch | j/k: Navigate");
    assert_eq!(
        key_hints(Mode::Detail, Tab::Containers),
        "Esc: Back | l: Logs | s: Start/Stop | x: Kill | r: Remove"
    );
    assert_eq!(key_hints(Mode::Logs, Tab::Containers), "PgUp/PgDn: Scroll | g/G: Top/Bottom | Esc: Back");
    assert_eq!(key_hints(Mode::Logs, Tab::Networks), key_hints(Mode::Logs, Tab::Containers));
}

#[test]
fn status_line_puts_the_message_first() {
    let mut app = App::new();
    assert_eq!(status_line(&app), key_hints(Mode::Normal, Tab::Containers));
    app.status_message = Some("Stopped container abc".to_string());
    app.tab = Tab::Networks;
    assert_eq!(status_line(&app), "Stopped container abc | q: Quit | Tab: Switch | j/k: Navigate");
    app.status_message = Some(String::new());
    assert_eq!(status_line(&app), " | q: Quit | Tab: Switch | j/k: Navigate");
}

#[test]
fn log_titles() {
    assert_eq!(log_title(true), " Logs (streaming) - Esc to exit ");
    assert_eq!(log_title(false), " Logs (ended) - Esc to exit ");
}

#[test]
fn log_window_stays_inside_the_buffer() {
    assert_eq!(log_window(100, 0, 20), (0, 20));
    assert_eq!(log_window(100, 90, 20), (90, 100));
    assert_eq!(log_window(100, 100, 20), (100, 100));
    assert_eq!(log_window(100, 250, 20), (100, 100));
    assert_eq!(log_window(0, 0, 20), (0, 0));
    assert_eq!(log_window(5, 2, 0), (2, 2));
    assert_eq!(log_window(10, 3, usize::MAX), (3, 10));
    assert_eq!(log_window(usize::MAX, usize::MAX - 1, 5), (usize::MAX - 1, usize::MAX));
}

#[test]
fn identity_cells_are_short() {
    assert_eq!(id_cell(&Some("0123456789abcdef".to_string())), "0123456789ab");
    assert_eq!(id_cell(&Some("abc".to_string())), "abc");
    assert_eq!(id_cell(&None), "");
    assert_eq!(value_or(&None, "N/A"), "N/A");
    assert_eq!(value_or(&Some("x".to_string()), "N/A"), "x");
}

#[test]
fn cells_of_a_container() {
    assert_eq!(
        container_cells(&full_container()),
        vec!["web", "Up 2 hours", "nginx:latest", "8080:80, 443", "0123456789ab"]
    );
    assert_eq!(container_cells(&bare_container()), vec!["unnamed", "", "", "", ""]);
}

#[test]
fn cells_of_a_network() {
    let mut n = bare_network();
    assert_eq!(network_cells(&n), vec!["", "", "", "0", ""]);
    n.id = Some("fedcba9876543210".to_string());
    n.name = Some("bridge".to_string());
    n.driver = Some("bridge".to_string());
    n.scope = Some("local".to_string());
    n.containers = Some(Vec::new());
    assert_eq!(network_cells(&n), vec!["bridge", "bridge", "local", "0", "fedcba987654"]);
    n.containers = Some(
        (0..12).map(|i| Endpoint { container_id: format!("c{}", i), name: None }).collect(),
    );
    assert_eq!(network_cells(&n), vec!["bridge", "bridge", "local", "12", "fedcba987654"]);
}

#[test]
fn detail_of_a_container() {
    let expected = "ID:       0123456789abcdef0123\n\
                    Image:    nginx:latest\n\
                    ImageID:  sha256:feed\n\
                    Command:  nginx -g daemon off;\n\
                    State:    running\n\
                    Status:   Up 2 hours\n\
                    Ports:    8080:80, 443\n\n\
                    Labels:\n  com.example.a=1\n  com.example.b=\n\n\
                    Networks:\n  bridge\n  backend\n\n\
                    Mounts:\n  /srv -> /data\n  ? -> ?";
    assert_eq!(container_detail(&full_container()), expected);
}

#[test]
fn detail_of_a_container_without_values() {
    let expected = "ID:       N/A\n\
                    Image:    N/A\n\
                    ImageID:  N/A\n\
                    Command:  N/A\n\
                    State:    N/A\n\
                    Status:   N/A\n\
                    Ports:    \n\n\
                    Labels:\n  (none)\n\n\
                    Networks:\n  (none)\n\n\
                    Mounts:\n  (none)";
    assert_eq!(container_detail(&bare_container()), expected);
    let mut c = bare_container();
    c.labels = Some(Vec::new());
    c.networks = Some(Vec::new());
    c.mounts = Some(Vec::new());
    let text = container_detail(&c);
    assert!(text.ends_with("Labels:\n\n\nNetworks:\n\n\nMounts:\n"));
}

#[test]
fn detail_pane_follows_the_selection() {
    let mut app = App::new();
    assert_eq!(detail_text(&app), "No container selected");
    app.update_containers(vec![full_container()]);
    assert_eq!(detail_text(&app), container_detail(&full_container()));
    app.container_selected = Some(7);
    assert_eq!(detail_text(&app), "No container selected");
}

#[test]
fn detail_of_a_network() {
    let mut n = bare_network();
    assert_eq!(network_detail(&n), "Connected Containers:\n  (none)");
    n.containers = Some(Vec::new());
    assert_eq!(network_detail(&n), "Connected Containers:\n  (none)");
    n.containers = Some(vec![
        Endpoint { container_id: "0123456789abcdef".to_string(), name: Some("web".to_string()) },
        Endpoint { container_id: "ff".to_string(), name: None },
    ]);
    assert_eq!(
        network_detail(&n),
        "Connected Containers:\n  web (0123456789ab)\n  unnamed (ff)"
    );
}

#[test]
fn network_detail_pane_follows_the_selection() {
    let mut app = App::new();
    assert_eq!(network_detail_text(&app), "No network selected");
    let mut n = bare_network();
    n.id = Some("n1".to_string());
    app.update_networks(vec![n]);
    assert_eq!(network_detail_text(&app), "Connected Containers:\n  (none)");
    app.network_selected = Some(3);
    assert_eq!(network_detail_text(&app), "No network selected");
    app.network_selected = None;
    assert_eq!(network_detail_text(&app), "No network selected");
}
