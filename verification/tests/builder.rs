use croc_sidecar::{
    ClipboardKind, Code, Croc, CrocCommand, EncryptionCurve, HashKind, IpAddress, Platform, Relay,
    StdioMode,
};

fn strings(v: &[&str]) -> Vec<String> {
    v.iter().map(|s| s.to_string()).collect()
}

fn envs(v: &[(&str, &str)]) -> Vec<(String, String)> {
    v.iter().map(|(k, v)| (k.to_string(), v.to_string())).collect()
}

fn check(cmd: &CrocCommand, args: &[&str], env: &[(&str, &str)]) {
    assert_eq!(cmd.program, "croc");
    assert_eq!(cmd.args, strings(args));
    assert_eq!(cmd.envs, envs(env));
}

#[test]
fn readme_send_with_custom_code() {
    let cmd = Croc::new()
        .send()
        .code("my-custom-code".to_string())
        .file("/path/to/file.rs".to_string())
        .command(Platform::Other);
    check(
        &cmd,
        &["--yes", "send", "--hash=xxhash", "--transfers=4", "--port=9009", "/path/to/file.rs"],
        &[("CROC_SECRET", "my-custom-code")],
    );
    assert_eq!(cmd.stdin, StdioMode::Null);
    assert_eq!(cmd.stdout, StdioMode::Null);
    assert_eq!(cmd.stderr, StdioMode::Piped);
    assert!(cmd.hide_window);
}

#[test]
fn send_code_on_windows_is_an_argument() {
    let cmd = Croc::new()
        .send()
        .code("my-custom-code".to_string())
        .file("a.txt".to_string())
        .command(Platform::Windows);
    check(
        &cmd,
        &[
            "--yes",
            "send",
            "--hash=xxhash",
            "--transfers=4",
            "--port=9009",
            "--code=my-custom-code",
            "a.txt",
        ],
        &[],
    );
}

#[test]
fn send_with_generated_code_sets_no_secret() {
    let cmd = Croc::new().send().file("file.rs".to_string()).command(Platform::Other);
    check(
        &cmd,
        &["--yes", "send", "--hash=xxhash", "--transfers=4", "--port=9009", "file.rs"],
        &[],
    );
}

#[test]
fn readme_receive_with_code() {
    let cmd = Croc::new().receive().command("my-custom-code", Platform::Other);
    check(&cmd, &["--yes"], &[("CROC_SECRET", "my-custom-code")]);
}

#[test]
fn receive_code_is_trimmed() {
    let cmd = Croc::new().receive().command("  1234-code\n", Platform::Other);
    check(&cmd, &["--yes"], &[("CROC_SECRET", "1234-code")]);
    let cmd = Croc::new().receive().command(" 1234-code\r\n", Platform::Windows);
    check(&cmd, &["--yes", "1234-code"], &[]);
}

#[test]
fn receive_code_stays_off_the_arguments() {
    let a = Croc::new().receive().overwrite(true).command("one", Platform::Other);
    let b = Croc::new().receive().overwrite(true).command("another", Platform::Other);
    assert_eq!(a.args, b.args);
    assert_eq!(a.envs, envs(&[("CROC_SECRET", "one")]));
}

#[test]
fn send_code_stays_off_the_arguments() {
    let custom = Croc::new().send().code("secret".to_string()).command(Platform::Other);
    let generated = Croc::new().send().command(Platform::Other);
    assert_eq!(custom.args, generated.args);
    assert_eq!(custom.envs, envs(&[("CROC_SECRET", "secret")]));
}

#[test]
fn receive_options() {
    let cmd = Croc::new()
        .receive()
        .overwrite(true)
        .out("/tmp/downloads".to_string(), true)
        .command("c", Platform::Other);
    check(&cmd, &["--yes", "--overwrite", "--out=/tmp/downloads"], &[("CROC_SECRET", "c")]);
}

#[test]
fn receive_out_of_a_file_is_its_directory() {
    let cmd = Croc::new()
        .receive()
        .out("/tmp/downloads/file.txt".to_string(), false)
        .command("c", Platform::Other);
    check(&cmd, &["--yes", "--out=/tmp/downloads"], &[("CROC_SECRET", "c")]);
}

#[test]
fn receive_out_without_parent_is_dropped() {
    let cmd = Croc::new().receive().out("/".to_string(), false).command("c", Platform::Other);
    check(&cmd, &["--yes"], &[("CROC_SECRET", "c")]);
}

#[test]
fn receive_out_of_a_bare_file_name_is_the_empty_path() {
    let cmd = Croc::new().receive().out("file.txt".to_string(), false).command("c", Platform::Other);
    check(&cmd, &["--yes", "--out="], &[("CROC_SECRET", "c")]);
}

#[test]
fn receive_out_of_a_relative_file_is_its_directory() {
    let cmd = Croc::new().receive().out("dir/file.txt".to_string(), false).command("c", Platform::Other);
    check(&cmd, &["--yes", "--out=dir"], &[("CROC_SECRET", "c")]);
    let cmd = Croc::new().receive().out("./file.txt".to_string(), false).command("c", Platform::Other);
    check(&cmd, &["--yes", "--out=."], &[("CROC_SECRET", "c")]);
}

#[test]
fn receive_out_of_the_empty_path_is_dropped() {
    let cmd = Croc::new().receive().out(String::new(), false).command("c", Platform::Other);
    check(&cmd, &["--yes"], &[("CROC_SECRET", "c")]);
}

#[test]
fn all_global_options() {
    let cmd = Croc::new_with_path("croc".to_string())
        .internal_dns(true)
        .debug(true)
        .yes(false)
        .compress(false)
        .local(true)
        .quiet(true)
        .clipboard(ClipboardKind::Extended)
        .multicast(IpAddress::V4("239.255.255.250".to_string()))
        .curve(EncryptionCurve::Ed25519)
        .ip(IpAddress::V6("::1".to_string()))
        .relay(IpAddress::V4("10.0.0.1".to_string()), 9009)
        .pass("hunter2".to_string())
        .receive()
        .command("c", Platform::Other);
    check(
        &cmd,
        &[
            "--internal-dns",
            "--debug",
            "--no-compress",
            "--local",
            "--quiet",
            "--multicast=239.255.255.250",
            "--ip=::1",
            "--extended-clipboard",
            "--curve=ed25519",
        ],
        &[("CROC_RELAY", "10.0.0.1:9009"), ("CROC_PASS", "hunter2"), ("CROC_SECRET", "c")],
    );
}

#[test]
fn ipv6_relay_uses_its_own_variable() {
    let cmd = Croc::new()
        .relay(IpAddress::V6("fe80::1".to_string()), 9010)
        .clipboard(ClipboardKind::from(false))
        .receive()
        .command("c", Platform::Windows);
    check(&cmd, &["--yes", "--disable-clipboard", "c"], &[("CROC_RELAY6", "[fe80::1]:9010")]);
}

#[test]
fn all_send_options() {
    let cmd = Croc::new()
        .yes(false)
        .send()
        .zip(true)
        .hash(HashKind::Md5)
        .local(false)
        .multiplexing(false)
        .ignore_git(true)
        .port(65535)
        .transfers(0)
        .exclude("node_modules".to_string())
        .exclude_many(vec!["target".to_string(), ".git".to_string()])
        .file("a".to_string())
        .files(vec!["b".to_string(), "c".to_string()])
        .command(Platform::Other);
    check(
        &cmd,
        &[
            "send",
            "--hash=md5",
            "--transfers=0",
            "--port=65535",
            "--zip",
            "--no-local",
            "--no-multi",
            "--git",
            "--exclude=node_modules",
            "--exclude=target",
            "--exclude=.git",
            "a",
            "b",
            "c",
        ],
        &[],
    );
}

#[test]
fn imohash_and_transfers() {
    let cmd = Croc::new()
        .send()
        .hash(HashKind::Imohash)
        .transfers(255)
        .port(0)
        .command(Platform::Other);
    check(&cmd, &["--yes", "send", "--hash=imohash", "--transfers=255", "--port=0"], &[]);
}

#[test]
fn stdio_settings() {
    let cmd = Croc::new()
        .pipe_stdin()
        .pipe_stdout()
        .no_stderr()
        .into_command();
    assert_eq!(cmd.stdin, StdioMode::Piped);
    assert_eq!(cmd.stdout, StdioMode::Piped);
    assert_eq!(cmd.stderr, StdioMode::Null);
    assert!(cmd.args.is_empty());
    let cmd = Croc::new().pipe_stdin().no_stdin().pipe_stdout().no_stdout().pipe_stderr().into_command();
    assert_eq!(cmd.stdin, StdioMode::Null);
    assert_eq!(cmd.stdout, StdioMode::Null);
    assert_eq!(cmd.stderr, StdioMode::Piped);
}

#[test]
fn into_command_has_no_options() {
    let cmd = Croc::default().debug(true).yes(true).into_command();
    assert_eq!(cmd.program, "croc");
    assert!(cmd.args.is_empty());
    assert!(cmd.envs.is_empty());
    let cmd = Croc::new_with_path("/usr/local/bin/croc".to_string()).into_command();
    assert_eq!(cmd.program, "/usr/local/bin/croc");
}

#[test]
fn curves_and_hashes_names() {
    assert_eq!(EncryptionCurve::P521.as_str(), "p521");
    assert_eq!(EncryptionCurve::P256.as_str(), "p256");
    assert_eq!(EncryptionCurve::P384.as_str(), "p384");
    assert_eq!(EncryptionCurve::Siec.as_str(), "siec");
    assert_eq!(EncryptionCurve::Ed25519.as_str(), "ed25519");
    assert_eq!(HashKind::Xxhash.as_str(), "xxhash");
    assert_eq!(HashKind::Imohash.as_str(), "imohash");
    assert_eq!(HashKind::Md5.as_str(), "md5");
}

#[test]
fn p256_curve_is_not_passed() {
    let cmd = Croc::new().curve(EncryptionCurve::P384).curve(EncryptionCurve::P256).receive().command("c", Platform::Windows);
    check(&cmd, &["--yes", "c"], &[]);
    let cmd = Croc::new().curve(EncryptionCurve::Siec).receive().command("c", Platform::Windows);
    check(&cmd, &["--yes", "--curve=siec", "c"], &[]);
}

#[test]
fn defaults() {
    assert_eq!(ClipboardKind::default(), ClipboardKind::Enabled);
    assert_eq!(EncryptionCurve::default(), EncryptionCurve::P256);
    assert_eq!(HashKind::default(), HashKind::Xxhash);
    assert_eq!(Code::default(), Code::Generated);
    assert_eq!(ClipboardKind::from(true), ClipboardKind::Enabled);
    assert_eq!(ClipboardKind::from(false), ClipboardKind::Disabled);
    let enabled: ClipboardKind = true.into();
    assert_eq!(enabled, ClipboardKind::Enabled);
    assert_eq!(Code::from("abc".to_string()), Code::Custom("abc".to_string()));
}

#[test]
fn relay_text() {
    assert_eq!(Relay::new(IpAddress::V4("127.0.0.1".to_string()), 9009).to_string(), "127.0.0.1:9009");
    assert_eq!(Relay::new(IpAddress::V6("::1".to_string()), 0).to_string(), "[::1]:0");
    let r = Relay::new(IpAddress::V4("1.2.3.4".to_string()), 80);
    assert!(r.address.is_ipv4());
    assert_eq!(r.address.text(), "1.2.3.4");
    assert!(!IpAddress::V6("::".to_string()).is_ipv4());
}

#[test]
fn relay_password_stays_off_the_arguments() {
    let with = Croc::new().pass("secret".to_string()).receive().command("c", Platform::Windows);
    let without = Croc::new().receive().command("c", Platform::Windows);
    assert_eq!(with.args, without.args);
    assert_eq!(with.envs, envs(&[("CROC_PASS", "secret")]));
    assert!(without.envs.is_empty());
}

#[test]
fn global_options_step() {
    let mut c = Croc::new().debug(true).compress(false);
    c.parse_options();
    let cmd = c.into_command();
    assert_eq!(cmd.args, strings(&["--debug", "--yes", "--no-compress"]));
}
