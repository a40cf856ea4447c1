use terminal::windows_shell_integration::{
    cmd_integration_script, detect_shell_kind, integration_args, integration_file,
    integration_launch, powershell_integration_script, WindowsShellKind,
};

#[test]
fn powershell_script_emits_current_directory_osc_event() {
    let script = powershell_integration_script();

    assert!(script.contains("Get-Location"));
    assert!(script.contains("file://localhost/"));
    assert!(script.contains("[char]27"));
    assert!(script.contains("[char]7"));
}

#[test]
fn cmd_script_uses_dynamic_prompt_path_and_st_terminator() {
    let script = cmd_integration_script();

    assert!(script.contains("$P"));
    assert!(script.contains("$E]7;file://localhost/"));
    assert!(script.contains("$E]133;A"));
    assert!(script.contains("$E]133;B"));
    assert!(script.contains("$E\\"));
}

#[test]
fn powershell_arguments_keep_shell_open_after_loading_integration() {
    let args = integration_args(WindowsShellKind::PowerShell, r"C:\Temp\onetcli.ps1");

    assert_eq!(
        args,
        vec![
            "-NoLogo",
            "-NoExit",
            "-ExecutionPolicy",
            "Bypass",
            "-File",
            r"C:\Temp\onetcli.ps1"
        ]
    );
}

#[test]
fn cmd_arguments_run_integration_batch_and_keep_shell_open() {
    let args = integration_args(WindowsShellKind::Cmd, r"C:\Temp\onetcli.cmd");

    assert_eq!(args, vec!["/K", "call", r"C:\Temp\onetcli.cmd"]);
}

#[test]
fn cmd_arguments_keep_a_spaced_path_as_a_single_argument() {
    let path = r"C:\Users\Wang\AppData\Local\Temp\onetcli session\shell_integration.cmd";
    let args = integration_args(WindowsShellKind::Cmd, path);

    assert_eq!(args, vec!["/K", "call", path]);
    assert!(
        args.iter().all(|arg| !arg.contains('"')),
        "cmd integration arguments must not contain embedded quotes: {args:?}"
    );
}

#[test]
fn powershell_arguments_keep_a_quoted_path_as_a_single_argument() {
    let path = r"C:\Users\Wang\AppData\Local\Temp\onetcli session\shell's.ps1";
    let args = integration_args(WindowsShellKind::PowerShell, path);

    assert_eq!(args.last().map(String::as_str), Some(path));
    assert!(
        !args.iter().any(|arg| arg == "-Command"),
        "PowerShell integration should not build a nested command string: {args:?}"
    );
}

#[test]
fn detects_supported_windows_shell_executables() {
    assert_eq!(
        detect_shell_kind(r"C:\Program Files\PowerShell\7\pwsh.exe"),
        WindowsShellKind::PowerShell
    );
    assert_eq!(
        detect_shell_kind(r"C:\Windows\System32\cmd.exe"),
        WindowsShellKind::Cmd
    );
    assert_eq!(
        detect_shell_kind(r"C:\Tools\custom.exe"),
        WindowsShellKind::Unsupported
    );
}

#[test]
fn detection_ignores_case_and_either_separator() {
    assert_eq!(detect_shell_kind("POWERSHELL.EXE"), WindowsShellKind::PowerShell);
    assert_eq!(detect_shell_kind("/usr/bin/Cmd"), WindowsShellKind::Cmd);
    assert_eq!(detect_shell_kind("cmd.exe/"), WindowsShellKind::Unsupported);
    assert_eq!(detect_shell_kind(""), WindowsShellKind::Unsupported);
}

#[test]
fn launch_sets_the_marker_only_for_supported_shells() {
    assert_eq!(integration_file(WindowsShellKind::Cmd).unwrap().0, "cmd");
    assert_eq!(integration_file(WindowsShellKind::PowerShell).unwrap().0, "ps1");
    assert!(integration_file(WindowsShellKind::Unsupported).is_none());
    let (env, args) = integration_launch("pwsh.exe", "/tmp/shell_integration.ps1");
    assert_eq!(
        env,
        vec![("ONETCLI_SHELL_INTEGRATION".to_string(), "1".to_string())]
    );
    assert_eq!(args.first().map(String::as_str), Some("-NoLogo"));
    assert_eq!(args.last().map(String::as_str), Some("/tmp/shell_integration.ps1"));
    let (env, args) = integration_launch("bash", "/tmp/x");
    assert!(env.is_empty() && args.is_empty());
}
