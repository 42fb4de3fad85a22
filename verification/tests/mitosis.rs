use cell_sdk::mitosis::{
    init_config, init_config_with, podman_args, Capsid, CapsidError, MitosisResponse,
    MyceliumRoot, Ribosome, BuildVerdict, SpawnOutcome, SpawnStage, System, is_safe_arg, str_eq,
};

#[test]
fn named_identities_get_their_peers() {
    let c = init_config_with("alpha-cell", Some("Alpha"), 77);
    assert_eq!(c.node_id, 1);
    assert_eq!(c.cell_name, "alpha-cell");
    assert_eq!(c.socket_path, "/tmp/cell/alpha-cell.sock");
    let peers: Vec<(u64, String)> = c.peers.iter().map(|p| (p.node_id, p.address.clone())).collect();
    assert_eq!(peers, vec![(2, "Beta".to_string()), (3, "Gamma".to_string())]);
    let g = init_config_with("g", Some("Gamma"), 77);
    assert_eq!(g.node_id, 3);
    assert_eq!(g.peers[1].address, "Beta");
    let other = init_config_with("w", Some("Delta"), 77);
    assert_eq!(other.node_id, 77);
    assert!(other.peers.is_empty());
    let none = init_config_with("w", None, 5);
    assert_eq!(none.node_id, 5);
    let random = init_config("w", None);
    assert!(random.peers.is_empty());
    assert_eq!(random.socket_path, "/tmp/cell/w.sock");
    assert!(str_eq("abc", "abc"));
    assert!(!str_eq("abc", "abd"));
}

#[test]
fn root_spawn_steps() {
    let root = MyceliumRoot::new("/home/u");
    assert_eq!(root.socket_dir_str(), "/home/u/.cell/run");
    assert_eq!(root.dna_path_str(), "/home/u/.cell/dna");
    assert_eq!(root.umbilical_path_str(), "/home/u/.cell/run/mitosis.sock");
    assert!(matches!(
        MyceliumRoot::spawn_step(SpawnStage::FindDna, "db", true, ""),
        SpawnOutcome::Continue(SpawnStage::Build)
    ));
    match MyceliumRoot::spawn_step(SpawnStage::FindDna, "db", false, "") {
        SpawnOutcome::Reply(MitosisResponse::Denied { reason }) => assert_eq!(reason, "DNA not found for db"),
        _ => panic!("expected a denial"),
    }
    match MyceliumRoot::spawn_step(SpawnStage::Build, "db", false, "linker") {
        SpawnOutcome::Reply(MitosisResponse::Denied { reason }) => assert_eq!(reason, "Build Failed: linker"),
        _ => panic!("expected a denial"),
    }
    match MyceliumRoot::spawn_step(SpawnStage::Launch, "db", false, "no bwrap") {
        SpawnOutcome::Reply(MitosisResponse::Denied { reason }) => assert_eq!(reason, "Capsid Error: no bwrap"),
        _ => panic!("expected a denial"),
    }
    match MyceliumRoot::spawn_step(SpawnStage::Launch, "db", true, "") {
        SpawnOutcome::Reply(MitosisResponse::Spawned { socket_path }) => assert_eq!(socket_path, "db"),
        _ => panic!("expected a spawn"),
    }
}

#[test]
fn hypervisor_answers() {
    assert_eq!(System::spawn_result(None), Err("Empty response from Hypervisor".to_string()));
    assert_eq!(
        System::spawn_result(Some(MitosisResponse::Spawned { socket_path: "p".to_string() })),
        Ok("p".to_string())
    );
    assert_eq!(
        System::spawn_result(Some(MitosisResponse::Denied { reason: "full".to_string() })),
        Err("Spawn denied: full".to_string())
    );
}

#[test]
fn sandbox_checks_and_arguments() {
    assert!(is_safe_arg("--membrane"));
    for bad in ["$HOME", "a`b`", "x;y", "a|b", "a&b", "<in", "out>"] {
        assert!(!is_safe_arg(bad));
    }
    let ok = vec!["--membrane".to_string()];
    assert_eq!(Capsid::check(true, true, &ok), Ok(()));
    assert_eq!(Capsid::check(true, false, &ok), Err(CapsidError::NotAFile));
    assert_eq!(Capsid::check(false, false, &ok), Ok(()));
    let bad = vec!["ok".to_string(), "rm;x".to_string()];
    assert_eq!(Capsid::check(true, true, &bad), Err(CapsidError::UnsafeArgument));
    assert_eq!(CapsidError::NotAFile.message(), "Target is not a file");
    let args = Capsid::bwrap_command_args("/s", "/s/m.sock", "/b/cell", &ok);
    assert_eq!(
        args,
        vec![
            "--unshare-all", "--share-net", "--die-with-parent", "--ro-bind", "/", "/", "--dev",
            "/dev", "--proc", "/proc", "--tmpfs", "/tmp", "--bind", "/s", "/tmp/cell", "--bind",
            "/s/m.sock", "/tmp/mitosis.sock", "--ro-bind", "/b/cell", "/tmp/dna", "/tmp/dna",
            "--membrane",
        ]
    );
}

#[test]
fn container_and_build_commands() {
    let a = podman_args("worker", "/dna", "/run", "/run/m.sock", 1000, 100);
    assert_eq!(
        a,
        vec![
            "run", "--rm", "--detach", "--network", "none", "--read-only", "-v", "/dna:/dna:ro",
            "-v", "/run:/tmp/cell", "-v", "/run/m.sock:/mitosis.sock", "--user", "1000:100",
            "--cpus", "1.0", "--memory", "512m", "alpine:latest", "/dna/worker",
        ]
    );
    assert_eq!(Ribosome::cargo_build_args(true), vec!["build", "--release", "--offline"]);
    assert_eq!(Ribosome::cargo_build_args(false), vec!["build", "--release"]);
    assert_eq!(Ribosome::build_verdict(false, true), BuildVerdict::CompileFailed);
    assert_eq!(Ribosome::build_verdict(true, false), BuildVerdict::BinaryMissing);
    assert_eq!(Ribosome::build_verdict(true, true), BuildVerdict::Built);
    assert_eq!(Ribosome::compile_failed_message("db"), "Ribosome failed to compile db");
}
