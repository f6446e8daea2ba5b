use syncbox::sync::remote::{
    download_command, keypair_answer_is_yes, login_tools_check, keypair_test_command, listing_command, listing_failure,
    mkdir_command, parse_listing, parse_remote_target, remove_command, ssh_command, upload_command,
    upload_failure, RemoteFile, RemoteTarget,
};

#[test]
fn test_parse_remote_target() {
    let target = "admin@192.168.0.121:/Users/admin/Desktop/lgtest";
    let parsed = parse_remote_target(target);
    assert!(parsed.is_some(), "目标路径解析失败");
    let remote = parsed.unwrap();
    assert_eq!(remote.user, "admin");
    assert_eq!(remote.host, "192.168.0.121");
    assert_eq!(remote.path, "/Users/admin/Desktop/lgtest");
}

#[test]
fn parse_remote_target_defaults_to_port_22() {
    let remote = parse_remote_target("admin@host:/data").unwrap();
    assert_eq!(remote.port, 22);
    assert_eq!(remote.ssh_key_path, None);
}

#[test]
fn parse_remote_target_reads_port_and_key() {
    let remote = parse_remote_target("bob@example.org:2222:/srv/backup?key=~/.ssh/id_ed25519").unwrap();
    assert_eq!(remote.user, "bob");
    assert_eq!(remote.host, "example.org");
    assert_eq!(remote.port, 2222);
    assert_eq!(remote.path, "/srv/backup");
    assert_eq!(remote.ssh_key_path.as_deref(), Some("~/.ssh/id_ed25519"));
}

#[test]
fn parse_remote_target_rejects_local_and_malformed() {
    assert!(parse_remote_target("./local/path").is_none());
    assert!(parse_remote_target("/absolute/path").is_none());
    assert!(parse_remote_target("not@valid").is_none());
    assert!(parse_remote_target("user@host:port:/p").is_none());
    assert!(parse_remote_target("user@host:70000:/p").is_none());
}

#[test]
fn parse_remote_target_path_after_last_colon() {
    // host and port are what precedes the last ':'; a non-numeric port fails
    assert!(parse_remote_target("user@host:with:colon").is_none());
    let remote = parse_remote_target("user@host:22:/a").unwrap();
    assert_eq!(remote.host, "host");
    assert_eq!(remote.port, 22);
    assert_eq!(remote.path, "/a");
    // the user is what precedes the first '@'
    let remote = parse_remote_target("a@b@c:/p").unwrap();
    assert_eq!(remote.user, "a");
    assert_eq!(remote.host, "b@c");
}

fn target() -> RemoteTarget {
    RemoteTarget {
        user: "alice".to_string(),
        host: "10.0.0.2".to_string(),
        port: 2200,
        path: "/backup dir".to_string(),
        ssh_key_path: Some("/home/alice/.ssh/key".to_string()),
    }
}

#[test]
fn ssh_command_with_password_and_key() {
    let args = ssh_command(&target(), Some("pw"));
    assert_eq!(
        args,
        vec![
            "sshpass", "-p", "pw", "ssh", "-i", "/home/alice/.ssh/key", "-o",
            "StrictHostKeyChecking=accept-new", "-o", "ConnectTimeout=10", "-p", "2200",
            "alice@10.0.0.2",
        ]
    );
}

#[test]
fn ssh_command_without_password() {
    let mut t = target();
    t.ssh_key_path = None;
    let args = ssh_command(&t, None);
    assert_eq!(
        args,
        vec!["ssh", "-o", "StrictHostKeyChecking=accept-new", "-o", "ConnectTimeout=10", "-p", "2200", "alice@10.0.0.2"]
    );
}

#[test]
fn upload_and_download_commands() {
    let up = upload_command(&target(), None, "/tmp/a.txt");
    assert_eq!(
        up,
        vec![
            "scp", "-o", "StrictHostKeyChecking=accept-new", "-o", "ConnectTimeout=10", "-P", "2200", "-i",
            "/home/alice/.ssh/key", "/tmp/a.txt", "alice@10.0.0.2:/backup dir",
        ]
    );
    let down = download_command(&target(), Some("pw"), "/tmp/b.txt");
    assert_eq!(
        down,
        vec![
            "sshpass", "-p", "pw", "scp", "-i", "/home/alice/.ssh/key", "-o", "StrictHostKeyChecking=accept-new",
            "-o", "ConnectTimeout=10", "-P", "2200", "alice@10.0.0.2:/backup dir", "/tmp/b.txt",
        ]
    );
}

#[test]
fn keypair_test_command_uses_batch_mode() {
    let args = keypair_test_command(&"u".to_string(), &"h".to_string(), 22);
    assert_eq!(
        args,
        vec![
            "ssh", "-o", "StrictHostKeyChecking=accept-new", "-o", "ConnectTimeout=5", "-o", "BatchMode=yes",
            "-o", "PasswordAuthentication=no", "-p", "22", "u@h", "exit 0",
        ]
    );
}

#[test]
fn remote_shell_commands_escape_paths() {
    let t = target();
    assert_eq!(mkdir_command(&t), "mkdir -p '/backup dir'");
    assert_eq!(
        listing_command(&t),
        "cd '/backup dir' && find . -type f ! -name '.*' -printf '%P\\t%s\\t%T@\\n'"
    );
    assert_eq!(remove_command(&t, "it's.txt"), "rm -f /backup dir/'it'\\''s.txt'");
    let mut plain = target();
    plain.path = "/srv/data".to_string();
    assert_eq!(mkdir_command(&plain), "mkdir -p /srv/data");
}

#[test]
fn parse_listing_reads_records() {
    let out = "a.txt\t12\t1700000000.5\nsub/b.bin\t7\t1600000000\r\nbroken line\nc\tx\t-5.25\n";
    let files = parse_listing(out);
    assert_eq!(files.len(), 3);
    assert_eq!(files[0].path, "a.txt");
    assert_eq!(files[0].size, 12);
    assert_eq!(files[0].mtime, 1700000000);
    assert_eq!(files[1].path, "sub/b.bin");
    assert_eq!(files[1].size, 7);
    assert_eq!(files[1].mtime, 1600000000);
    assert_eq!(files[2].path, "c");
    assert_eq!(files[2].size, 0);
    assert_eq!(files[2].mtime, -5);
}

#[test]
fn parse_listing_of_nothing() {
    assert!(parse_listing("").is_empty());
    assert!(parse_listing("\n\n").is_empty());
}

#[test]
fn listing_failure_missing_directory_is_empty() {
    assert_eq!(listing_failure("find: No such file or directory"), None);
    assert_eq!(
        listing_failure("Permission denied").as_deref(),
        Some("❌ 扫描远程目录失败:\nPermission denied")
    );
}

#[test]
fn upload_failure_messages() {
    let t = target();
    assert_eq!(
        upload_failure("scp: Permission denied (publickey)", &t),
        "❌ 上传失败: 权限不足，请检查远程目录权限或认证信息"
    );
    assert_eq!(
        upload_failure("ssh: connect to host: Connection refused", &t),
        "❌ 上传失败: 连接被拒绝，请检查主机10.0.0.2和端口2200是否可用"
    );
    assert_eq!(
        upload_failure("scp: /x: No such file or directory", &t),
        "❌ 上传失败: 远程目录不存在，请先创建目录"
    );
    assert_eq!(upload_failure("other", &t), "❌ 上传失败: other");
}

#[test]
fn resolve_and_auth_prefers_environment_password() {
    let (remote, pw) =
        RemoteTarget::resolve_and_auth("u@h:/p", Some("cli".to_string()), Some("env".to_string())).unwrap();
    assert_eq!(remote.host, "h");
    assert_eq!(pw.as_deref(), Some("env"));
    let (_, pw) = RemoteTarget::resolve_and_auth("u@h:/p", Some("cli".to_string()), None).unwrap();
    assert_eq!(pw.as_deref(), Some("cli"));
    let (_, pw) = RemoteTarget::resolve_and_auth("u@h:/p", None, None).unwrap();
    assert_eq!(pw, None);
    let err = RemoteTarget::resolve_and_auth("local/dir", None, None).err().unwrap();
    assert_eq!(err, "无效的远程目标格式: local/dir");
}

#[test]
fn keypair_answers() {
    assert!(keypair_answer_is_yes("y\n"));
    assert!(keypair_answer_is_yes("  YES \r\n"));
    assert!(keypair_answer_is_yes("Yes"));
    assert!(!keypair_answer_is_yes("n\n"));
    assert!(!keypair_answer_is_yes("yess"));
    assert!(!keypair_answer_is_yes(""));
}

#[test]
fn remote_file_compares_size_and_time() {
    let f = RemoteFile { path: "a".to_string(), size: 10, mtime: 100 };
    assert!(f.is_same_as_local(Some((10, Some(100)))));
    assert!(!f.is_same_as_local(Some((10, Some(101)))));
    assert!(!f.is_same_as_local(Some((11, Some(100)))));
    assert!(!f.is_same_as_local(None));
    assert!(!f.is_same_as_local(Some((10, None))));
    let epoch = RemoteFile { path: "a".to_string(), size: 10, mtime: 0 };
    assert!(epoch.is_same_as_local(Some((10, None))));
}

#[test]
fn parse_remote_target_reads_back_written_target() {
    let remote = parse_remote_target("a:b@h@x:2200:/p?key=k?key=z").unwrap();
    assert_eq!(remote.user, "a:b");
    assert_eq!(remote.host, "h@x");
    assert_eq!(remote.port, 2200);
    assert_eq!(remote.path, "/p");
    assert_eq!(remote.ssh_key_path.as_deref(), Some("k?key=z"));
}

#[test]
fn parse_listing_reads_back_printed_records() {
    let printed = "dir with space/f\r.txt\t18446744073709551615\t-9223372036854775808.000\nz\t0\t0.\n";
    let files = parse_listing(printed);
    assert_eq!(files.len(), 2);
    assert_eq!(files[0].path, "dir with space/f\r.txt");
    assert_eq!(files[0].size, u64::MAX);
    assert_eq!(files[0].mtime, i64::MIN);
    assert_eq!(files[1].path, "z");
    assert_eq!(files[1].size, 0);
    assert_eq!(files[1].mtime, 0);
}

#[test]
fn password_login_needs_sshpass() {
    assert!(login_tools_check(false, false).is_ok());
    assert!(login_tools_check(true, true).is_ok());
    let m = login_tools_check(true, false).unwrap_err();
    assert!(m.starts_with("需要安装 sshpass 以使用密码认证，请执行：\n- Ubuntu/Debian: sudo apt install sshpass"));
}
