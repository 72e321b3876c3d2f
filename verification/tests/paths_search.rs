use nextchat::paths::{
    ancestor_chain, ancestor_start, ancestor_step, config_candidates_from_chains, goose_agent_candidates, goose_agent_file_name,
    goose_config_candidates, resolve_goose_agent, PathCandidate,
};

fn view(c: &PathCandidate) -> (String, Vec<String>) {
    (c.base.clone(), c.parts.clone())
}

fn cand(base: &str, parts: &[&str]) -> (String, Vec<String>) {
    (base.to_string(), parts.iter().map(|p| p.to_string()).collect())
}

#[test]
fn agent_file_name_per_platform() {
    assert_eq!(goose_agent_file_name(true), "goosed.exe");
    assert_eq!(goose_agent_file_name(false), "goosed");
}

#[test]
fn agent_candidates_in_documented_order() {
    let dirs = vec!["/opt/app".to_string(), "/res".to_string()];
    let got: Vec<_> = goose_agent_candidates(&dirs, true).iter().map(view).collect();
    assert_eq!(
        got,
        vec![
            cand("/opt/app", &["bin", "Goose-win32-x64", "resources", "bin", "goosed.exe"]),
            cand("/res", &["bin", "Goose-win32-x64", "resources", "bin", "goosed.exe"]),
            cand("/opt/app", &["goosed.exe"]),
            cand("/res", &["goosed.exe"]),
            cand("/opt/app", &["bin", "goosed.exe"]),
            cand("/res", &["bin", "goosed.exe"]),
        ]
    );
    assert!(goose_agent_candidates(&vec![], false).is_empty());
}

#[test]
fn packaged_agent_wins_over_plain_file() {
    let dirs = vec!["/d".to_string()];
    let cands: Vec<(String, bool)> = goose_agent_candidates(&dirs, true)
        .iter()
        .map(|c| {
            let path = format!("{}/{}", c.base, c.parts.join("/"));
            let exists = path == "/d/goosed.exe" || path == "/d/bin/Goose-win32-x64/resources/bin/goosed.exe";
            (path, exists)
        })
        .collect();
    assert_eq!(
        resolve_goose_agent(&None, &cands, &None),
        Some("/d/bin/Goose-win32-x64/resources/bin/goosed.exe".to_string())
    );
}

#[test]
fn ancestor_chain_stops_at_six_or_the_root() {
    let chain = ancestor_chain("/a/b/c/d/e/f/g");
    assert_eq!(chain, vec!["/a/b/c/d/e/f/g", "/a/b/c/d/e/f", "/a/b/c/d/e", "/a/b/c/d", "/a/b/c", "/a/b"]);
    let short = ancestor_chain("/a");
    assert_eq!(short, vec!["/a", "/"]);
    assert_eq!(ancestor_chain("/"), vec!["/"]);
}

#[test]
fn config_candidates_env_first_then_each_directory() {
    let chains = vec![vec!["/x/y".to_string(), "/x".to_string()]];
    let got: Vec<_> =
        config_candidates_from_chains(&Some("/etc/g.json".to_string()), &chains).iter().map(view).collect();
    assert_eq!(
        got,
        vec![
            cand("/etc/g.json", &[]),
            cand("/x/y", &["goose.config.json"]),
            cand("/x/y", &["resources", "goose.config.json"]),
            cand("/x/y", &["_up_", "goose.config.json"]),
            cand("/x/y", &["resources", "_up_", "goose.config.json"]),
            cand("/x", &["goose.config.json"]),
            cand("/x", &["resources", "goose.config.json"]),
            cand("/x", &["_up_", "goose.config.json"]),
            cand("/x", &["resources", "_up_", "goose.config.json"]),
        ]
    );
    let blank = config_candidates_from_chains(&Some("  ".to_string()), &vec![]);
    assert!(blank.is_empty());
}

#[test]
fn config_candidates_walk_up_from_base_dirs() {
    let got = goose_config_candidates(&None, &vec!["/p/q".to_string()]);
    let bases: Vec<String> = got.iter().map(|c| c.base.clone()).collect();
    assert_eq!(bases, vec!["/p/q", "/p/q", "/p/q", "/p/q", "/p", "/p", "/p", "/p", "/", "/", "/", "/"]);
}

#[test]
fn agent_override_then_first_existing_then_goose_bin() {
    let cands = vec![("a".to_string(), false), ("b".to_string(), true), ("c".to_string(), true)];
    let goose = Some("/usr/bin/goose".to_string());
    assert_eq!(resolve_goose_agent(&Some("/custom/goosed".to_string()), &cands, &goose), Some("/custom/goosed".to_string()));
    assert_eq!(resolve_goose_agent(&Some(" ".to_string()), &cands, &goose), Some("b".to_string()));
    assert_eq!(resolve_goose_agent(&None, &cands, &None), Some("b".to_string()));
    let none_exist = vec![("a".to_string(), false)];
    assert_eq!(resolve_goose_agent(&None, &none_exist, &None), None);
    assert_eq!(resolve_goose_agent(&None, &none_exist, &goose), Some("/usr/bin/goose".to_string()));
    assert_eq!(resolve_goose_agent(&None, &none_exist, &Some("\t".to_string())), None);
}

#[test]
fn ancestor_walk_steps() {
    let (mut chain, ask) = ancestor_start("/a/b");
    assert_eq!(chain, vec!["/a/b"]);
    assert_eq!(ask, Some("/a/b".to_string()));
    assert_eq!(ancestor_step(&mut chain, Some("/a".to_string())), Some("/a".to_string()));
    assert_eq!(chain, vec!["/a/b", "/a"]);
    assert_eq!(ancestor_step(&mut chain, None), None);
    assert_eq!(chain, vec!["/a/b", "/a"]);
    let mut full: Vec<String> = (0..5).map(|k| k.to_string()).collect();
    assert_eq!(ancestor_step(&mut full, Some("p".to_string())), None);
    assert_eq!(full.len(), 6);
    assert_eq!(ancestor_step(&mut full, Some("q".to_string())), None);
    assert_eq!(full.len(), 6);
}

#[test]
fn ancestor_chain_entries_are_shrinking_prefixes() {
    let chain = ancestor_chain("/srv/app/resources/bin");
    assert_eq!(chain[0], "/srv/app/resources/bin");
    for k in 1..chain.len() {
        assert!(chain[k].len() < chain[k - 1].len());
        assert!(chain[k - 1].starts_with(chain[k].as_str()));
    }
}
