use pal::hosts::{known_host_line, parse_config_hosts, parse_known_hosts};

#[test]
fn config_hosts_without_patterns_or_repeats() {
    let mut hosts = vec!["web".to_string()];
    parse_config_hosts("Host web db\n  host *.internal jump\nHostName ignored\nHOST x?y !z\n", &mut hosts);
    assert_eq!(hosts, vec!["web", "db", "jump"]);
}

#[test]
fn known_hosts_names() {
    assert_eq!(known_host_line("github.com,140.82.1.1 ssh-ed25519 AAAA"), vec!["github.com"]);
    assert_eq!(known_host_line("[git.example]:2222 ssh-rsa AAAA"), vec!["git.example"]);
    assert!(known_host_line("|1|abc|def ssh-rsa AAAA").is_empty());
    assert!(known_host_line("# comment").is_empty());
    assert!(known_host_line("@cert-authority * ssh-rsa").is_empty());
    let mut hosts = Vec::new();
    parse_known_hosts("a.example ssh-rsa K\n\nb.example,a.example ssh-rsa K\n", &mut hosts);
    assert_eq!(hosts, vec!["a.example", "b.example"]);
}
