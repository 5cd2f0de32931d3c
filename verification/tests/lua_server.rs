use wow_ui_sim::lua_server::client;
use wow_ui_sim::lua_server::{socket_pid, Response};
use wow_ui_sim::lua_server_windows;

#[test]
fn socket_pid_extracts_pid_from_wow_lua_socket_name() {
    let pid = socket_pid("/tmp/wow-lua-12345.sock");
    assert_eq!(pid, Some(12345));
}

#[test]
fn socket_pid_rejects_non_matching_socket_names() {
    assert_eq!(socket_pid("/tmp/auth-challenge.sock"), None);
    assert_eq!(socket_pid("/tmp/wow-lua-not-a-pid.sock"), None);
    assert_eq!(socket_pid("/tmp/wow-lua-12345"), None);
}

#[test]
fn socket_pid_reads_signs_and_ignores_trailing_separators() {
    assert_eq!(socket_pid("wow-lua-+7.sock"), Some(7));
    assert_eq!(socket_pid("/tmp/wow-lua--3.sock"), Some(-3));
    assert_eq!(socket_pid("/tmp/wow-lua-99.sock/"), Some(99));
    assert_eq!(socket_pid("/tmp/wow-lua-.sock"), None);
    assert_eq!(socket_pid("/tmp/wow-lua-99999999999.sock"), None);
}

#[test]
fn client_response_result_maps_expected_error_and_unexpected() {
    let pong = client::response_result(Response::Pong, |response| {
        matches!(response, Response::Pong).then_some(())
    });
    assert!(pong.is_ok());

    let error = client::response_result(Response::Error("boom".to_string()), |_| Some(()));
    assert_eq!(error, Err("boom".to_string()));

    let unexpected = client::response_result(Response::Tree("tree".to_string()), |response| {
        matches!(response, Response::Pong).then_some(())
    });
    assert_eq!(unexpected, Err("Unexpected response".to_string()));
}

#[test]
fn exec_replies_are_interpreted() {
    assert_eq!(client::exec(Response::Output("ok".into())), Ok("ok".to_string()));
    assert_eq!(client::exec(Response::Error("bad".into())), Err("bad".to_string()));
    assert_eq!(client::exec(Response::Pong), Err("Unexpected pong".to_string()));
    assert_eq!(client::exec(Response::Tree("t".into())), Err("Unexpected tree".to_string()));
    assert_eq!(client::exec(Response::Quads("q".into())), Err("Unexpected quads".to_string()));
}

#[test]
fn other_replies_are_interpreted() {
    assert_eq!(client::ping(Response::Pong), Ok(()));
    assert_eq!(client::ping(Response::Output("x".into())), Err("Unexpected response".to_string()));
    assert_eq!(client::dump_tree(Response::Tree("t".into())), Ok("t".to_string()));
    assert_eq!(client::dump_tree(Response::Quads("q".into())), Err("Unexpected response".to_string()));
    assert_eq!(client::dump_quads(Response::Quads("q".into())), Ok("q".to_string()));
    assert_eq!(client::dump_quads(Response::Error("e".into())), Err("e".to_string()));
    assert_eq!(client::screenshot(Response::Output("saved".into())), Ok("saved".to_string()));
    assert_eq!(client::stream_frame(Response::Pong), Err("Unexpected response".to_string()));
    assert_eq!(client::mouse_click(Response::Output("Btn".into())), Ok("Btn".to_string()));
    assert_eq!(client::mouse_move(Response::Error("no".into())), Err("no".to_string()));
    assert_eq!(client::advance_frame_time(Response::Output("1".into())), Ok("1".to_string()));
}

#[test]
fn windows_entry_points_report_missing_ipc() {
    let msg = "lua_server IPC is not supported on Windows yet".to_string();
    assert_eq!(lua_server_windows::client::exec("s", "print(1)"), Err(msg.clone()));
    assert_eq!(lua_server_windows::client::ping("s"), Err(msg.clone()));
    assert_eq!(lua_server_windows::client::screenshot("s", "o.png", 1, 1, None, None), Err(msg.clone()));
    assert_eq!(lua_server_windows::client::dump_tree("s", None, None, false, false), Err(msg.clone()));
    assert_eq!(lua_server_windows::client::dump_quads("s", None, false), Err(msg));
    assert!(lua_server_windows::client::find_servers().is_empty());
}
