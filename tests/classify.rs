use code_launcher::classify::{is_endpoint_file_name, is_like_vscode_ipc_socket};

#[test]
fn test_is_like_vscode_ipc_socket() {
    let cases = [
        (
            "/tmp/vscode-ipc-7dc5f21f-5139-4eb4-8dd6-c4479f10c312.sock",
            true,
        ),
        (
            "/var/tmp/vscode-ipc-7dc5f21f-5139-4eb4-8dd6-c4479f10c312.sock",
            true,
        ),
        (
            "/vscode-ipc-7dc5f21f-5139-4eb4-8dd6-c4479f10c312.sock",
            true,
        ),
        (
            "/vscode-ipc-7dc5f21f-5139-4eb4-8dd6-c4479f10c312.txt",
            false,
        ),
        ("/vscode-7dc5f21f-5139-4eb4-8dd6-c4479f10c312.sock", false),
    ];

    for (idx, (path, expected)) in cases.into_iter().enumerate() {
        let got = is_like_vscode_ipc_socket(path);
        assert_eq!(
            got, expected,
            "#{}: expecting {:?} for {:?}, but got {:?}",
            idx, expected, path, got
        );
    }
}

#[test]
fn paths_without_a_file_name_are_not_sockets() {
    assert!(!is_like_vscode_ipc_socket("/"));
    assert!(!is_like_vscode_ipc_socket(""));
    assert!(!is_like_vscode_ipc_socket("/tmp/vscode-ipc-a.sock/.."));
}

#[test]
fn only_the_final_component_is_classified() {
    assert!(!is_like_vscode_ipc_socket("/tmp/vscode-ipc-a.sock/other"));
    assert!(is_like_vscode_ipc_socket("vscode-ipc-a.sock"));
    assert!(is_like_vscode_ipc_socket("/tmp/vscode-ipc-a.sock/"));
    assert!(is_like_vscode_ipc_socket("/x/vscode-ipc-.sock"));
}

#[test]
fn naming_convention_is_case_sensitive_and_exact() {
    assert!(is_endpoint_file_name("vscode-ipc-1.sock"));
    assert!(!is_endpoint_file_name("VSCODE-ipc-1.sock"));
    assert!(!is_endpoint_file_name("vscode-ipc-1.SOCK"));
    assert!(!is_endpoint_file_name("vscode-ipc-1.sock.bak"));
    assert!(!is_endpoint_file_name("xvscode-ipc-1.sock"));
    assert!(!is_endpoint_file_name("vscode-ipc"));
    assert!(!is_endpoint_file_name(""));
}
