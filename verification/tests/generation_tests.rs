use gitops_bootstrap::collections::{PathMap, PathSet};
use gitops_bootstrap::generate::{
    add_namespace, closing_ops, component_ops, generation_paths, indent_content, is_copied, namespace_ops,
    namespace_rewrite_op, release_namespace_of, without_namespace_resource, FsOp,
};

fn written(ops: &[FsOp], path: &str) -> Option<String> {
    ops.iter().find_map(|op| match op {
        FsOp::Write(p, c) | FsOp::WriteIgnoringError(p, c) if p == path => Some(c.clone()),
        _ => None,
    })
}

#[test]
fn test_finalize_generation_monolithic() {
    let mut checked = PathSet::new();
    checked.insert("infrastructure/networking/cilium");
    checked.insert("apps/my-app");
    let customized = PathMap::new();
    let paths = generation_paths("/cache", "/target", None, "bases", "test-cluster");
    assert_eq!(paths.target_cluster, "/target/test-cluster");
    assert_eq!(paths.target_bases, "/target/bases");
    assert_eq!(paths.source_bases, "/cache/bases");

    let mut ops = component_ops(&paths.target_cluster, "bases", &checked, &customized);
    ops.extend(closing_ops(&paths.target_cluster, &checked, false));
    let root = written(&ops, "/target/test-cluster/kustomization.yaml").unwrap();
    assert!(root.contains("- infrastructure/networking/cilium"));
    assert!(root.contains("- apps/my-app"));
    assert!(root.contains("- repositories"));
    assert_eq!(
        root,
        "apiVersion: kustomize.config.k8s.io/v1beta1\nkind: Kustomization\nresources:\n- infrastructure/networking/cilium\n- apps/my-app\n- repositories\n"
    );
}

#[test]
fn component_kustomization_points_at_its_base() {
    let mut checked = PathSet::new();
    checked.insert("infrastructure/networking/cilium");
    let customized = PathMap::new();
    let ops = component_ops("/t/c", "bases", &checked, &customized);
    assert_eq!(ops.len(), 2);
    assert!(matches!(&ops[0], FsOp::CreateDir(p) if p == "/t/c/infrastructure/networking/cilium"));
    let k = written(&ops, "/t/c/infrastructure/networking/cilium/kustomization.yaml").unwrap();
    assert_eq!(
        k,
        "apiVersion: kustomize.config.k8s.io/v1beta1\nkind: Kustomization\nresources:\n  - ../../../../bases/infrastructure/networking/cilium\n"
    );
}

#[test]
fn customized_component_gets_a_patch() {
    let mut checked = PathSet::new();
    checked.insert("apps/redis");
    let mut customized = PathMap::new();
    customized.insert("apps/redis".to_string(), "replicas: 2\nauth:\n  enabled: false".to_string());
    let ops = component_ops("/t/c", "bases", &checked, &customized);
    assert_eq!(ops.len(), 3);
    let patch = written(&ops, "/t/c/apps/redis/patch.yaml").unwrap();
    assert_eq!(
        patch,
        "apiVersion: helm.toolkit.fluxcd.io/v2\nkind: HelmRelease\nmetadata:\n  name: redis\nspec:\n  values:\n    replicas: 2\n    auth:\n      enabled: false"
    );
    let k = written(&ops, "/t/c/apps/redis/kustomization.yaml").unwrap();
    assert!(k.ends_with("  - ../../../bases/apps/redis\npatches:\n  - path: patch.yaml\n"));
}

#[test]
fn namespaces_come_first_in_root_kustomization() {
    let mut checked = PathSet::new();
    checked.insert("apps/a");
    let ops = closing_ops("/c", &checked, true);
    assert_eq!(ops.len(), 3);
    assert!(matches!(&ops[0], FsOp::CreateDir(p) if p == "/c/repositories"));
    assert_eq!(
        written(&ops, "/c/repositories/kustomization.yaml").unwrap(),
        "apiVersion: kustomize.config.k8s.io/v1beta1\nkind: Kustomization\nresources:\n  - ../../bases/repositories\n"
    );
    assert_eq!(
        written(&ops, "/c/kustomization.yaml").unwrap(),
        "apiVersion: kustomize.config.k8s.io/v1beta1\nkind: Kustomization\nresources:\n- namespaces\n- apps/a\n- repositories\n"
    );
}

#[test]
fn namespace_files_are_sorted_and_listed() {
    let mut nss: Vec<String> = Vec::new();
    add_namespace(&mut nss, "monitoring".to_string());
    add_namespace(&mut nss, "cert-manager".to_string());
    add_namespace(&mut nss, "monitoring".to_string());
    assert_eq!(nss, vec!["cert-manager", "monitoring"]);
    let ops = namespace_ops("/c", &nss);
    assert_eq!(ops.len(), 4);
    assert_eq!(
        written(&ops, "/c/namespaces/cert-manager.yaml").unwrap(),
        "apiVersion: v1\nkind: Namespace\nmetadata:\n  name: cert-manager\n"
    );
    assert_eq!(
        written(&ops, "/c/namespaces/kustomization.yaml").unwrap(),
        "apiVersion: kustomize.config.k8s.io/v1beta1\nkind: Kustomization\nresources:\n  - cert-manager.yaml\n  - monitoring.yaml\n"
    );
    assert!(namespace_ops("/c", &Vec::new()).is_empty());
}

#[test]
fn release_namespace_is_read_from_first_namespace_line() {
    assert_eq!(release_namespace_of("kind: HelmRelease\nmetadata:\n  namespace: \"monitoring\"\n").as_deref(), Some("monitoring"));
    assert_eq!(release_namespace_of("metadata:\n  namespace: 'cert-manager'\nspec:\n  namespace: other\n").as_deref(), Some("cert-manager"));
    assert_eq!(release_namespace_of("metadata:\n  namespace: flux-system\n"), None);
    assert_eq!(release_namespace_of("metadata:\n  namespace: default\n"), None);
    assert_eq!(release_namespace_of("metadata:\n  name: x\n"), None);
}

#[test]
fn base_kustomization_loses_its_namespace_resource() {
    let k = "resources:\n  - namespace.yaml\n  - helm-release.yaml\n";
    assert_eq!(without_namespace_resource(k), "resources:\n  - helm-release.yaml\n");
    let op = namespace_rewrite_op("/t/bases", "apps/a", k);
    assert!(matches!(op, FsOp::WriteIgnoringError(p, c) if p == "/t/bases/apps/a/kustomization.yaml" && c == "resources:\n  - helm-release.yaml\n"));
}

#[test]
fn copying_skips_git_directories_only() {
    assert!(!is_copied(".git", true));
    assert!(is_copied(".git", false));
    assert!(is_copied("apps", true));
}

#[test]
fn gitops_dir_under_home_is_expanded() {
    let paths = generation_paths("/cache", "~/gitops", Some("/home/u"), "bases", "c1");
    assert_eq!(paths.target_root, "/home/u/gitops");
    assert_eq!(paths.target_cluster, "/home/u/gitops/c1");
    let paths = generation_paths("/cache", "~/gitops", None, "bases", "c1");
    assert_eq!(paths.target_root, "~/gitops");
}

#[test]
fn indent_content_indents_non_empty_lines() {
    assert_eq!(indent_content("a: 1\n\nb:\n  c: 2\n", 4), "    a: 1\n\n    b:\n      c: 2");
    assert_eq!(indent_content("", 2), "");
    assert_eq!(indent_content("x\r\ny", 1), " x\n y");
}

#[test]
fn indent_comes_off_again() {
    let content = "a: 1\n\nb:\n  c: 2\r\nlast";
    let out = indent_content(content, 4);
    let back: Vec<String> = out
        .split('\n')
        .map(|p| if p.is_empty() { p.to_string() } else { p[4..].to_string() })
        .collect();
    let lines: Vec<String> = content.lines().map(|l| l.to_string()).collect();
    assert_eq!(back, lines);
    assert!(out.split('\n').all(|p| p.is_empty() || p.starts_with("    ")));
    assert_eq!(indent_content("", 4), "");
    assert_eq!(indent_content(content, 0), lines.join("\n"));
}
