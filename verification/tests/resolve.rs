use proc_debug::resolve::{resolve_all_packages, resolve_deps, Graph, Package, Target, TargetKind};

fn lib(proc_macro: bool) -> Target {
    Target { kind: TargetKind::Lib, name: "lib".to_string(), proc_macro, src_path: "src/lib.rs".to_string() }
}

fn bin(proc_macro: bool) -> Target {
    Target { kind: TargetKind::Bin, name: "main".to_string(), proc_macro, src_path: "src/main.rs".to_string() }
}

fn pkg(name: &str, targets: Vec<Target>, deps: &[usize]) -> Package {
    Package {
        name: name.to_string(),
        version: "1.0.0".to_string(),
        source: "registry".to_string(),
        manifest_path: format!("/{}/Cargo.toml", name),
        targets,
        deps: deps.to_vec(),
    }
}

/// 0 app -> 1 derive-a, 2 derive-b, 3 proc-debug
/// 1 derive-a (macros) -> 4 syn-like (macros)
/// 2 derive-b (macros) -> 5 helper
/// 3 proc-debug -> 4 syn-like, 6 proc-debug-macro (macros)
/// 4 syn-like (macros) -> 7 leaf
/// 5 helper, 6 proc-debug-macro -> 4, 7 leaf
fn graph() -> Graph {
    Graph {
        packages: vec![
            pkg("app", vec![bin(false), lib(false)], &[1, 2, 3]),
            pkg("derive-a", vec![lib(true)], &[4]),
            pkg("derive-b", vec![bin(false), lib(true)], &[5]),
            pkg("proc-debug", vec![lib(false)], &[4, 6]),
            pkg("syn-like", vec![lib(true)], &[7]),
            pkg("helper", vec![lib(false)], &[]),
            pkg("proc-debug-macro", vec![lib(true)], &[4]),
            pkg("leaf", vec![], &[]),
        ],
    }
}

#[test]
fn closure_holds_seeds_and_all_they_reach() {
    let g = graph();
    assert!(g.check());
    assert_eq!(
        resolve_deps(&vec![3], &g),
        vec![false, false, false, true, true, false, true, true]
    );
    assert_eq!(
        resolve_deps(&vec![0], &g),
        vec![true, true, true, true, true, true, true, true]
    );
    assert_eq!(
        resolve_deps(&vec![5, 7, 5], &g),
        vec![false, false, false, false, false, true, false, true]
    );
    assert_eq!(resolve_deps(&vec![], &g), vec![false; 8]);
    assert_eq!(resolve_deps(&vec![99], &g), vec![false; 8]);
}

#[test]
fn closure_ends_on_a_cycle() {
    let g = Graph {
        packages: vec![
            pkg("a", vec![], &[1]),
            pkg("b", vec![], &[2, 1]),
            pkg("c", vec![], &[0]),
            pkg("d", vec![], &[0]),
        ],
    };
    assert!(g.check());
    assert_eq!(resolve_deps(&vec![1], &g), vec![true, true, true, false]);
    assert_eq!(resolve_deps(&vec![3], &g), vec![true, true, true, true]);
}

#[test]
fn support_library_and_its_dependencies_are_never_selected() {
    let g = graph();
    assert_eq!(resolve_all_packages(&g, "proc-debug", &vec![]), vec![1, 2]);
}

#[test]
fn without_a_support_library_every_provider_is_selected() {
    let g = graph();
    assert_eq!(resolve_all_packages(&g, "absent", &vec![]), vec![1, 2, 4, 6]);
}

#[test]
fn name_filter_restricts_the_providers() {
    let g = graph();
    let filter = vec!["derive-b".to_string(), "syn-like".to_string(), "app".to_string()];
    assert_eq!(resolve_all_packages(&g, "proc-debug", &filter), vec![2]);
    assert_eq!(
        resolve_all_packages(&g, "proc-debug", &vec!["nothing".to_string()]),
        Vec::<usize>::new()
    );
}

#[test]
fn library_is_the_first_lib_target() {
    let p = pkg("x", vec![bin(true), lib(false), lib(true)], &[]);
    assert_eq!(p.library(), Some(1));
    assert!(!p.is_macro_provider());
    let q = pkg("y", vec![bin(true)], &[]);
    assert_eq!(q.library(), None);
    assert!(!q.is_macro_provider());
    assert!(pkg("z", vec![lib(true)], &[]).is_macro_provider());
}

#[test]
fn graph_check_finds_a_dangling_dependency() {
    let g = Graph { packages: vec![pkg("a", vec![], &[0, 1])] };
    assert!(!g.check());
    let h = Graph { packages: vec![pkg("a", vec![], &[0])] };
    assert!(h.check());
    assert!(Graph { packages: vec![] }.check());
}
