use nodo::caps::ProjectRoot;
use nodo::names::FileName;
use nodo::project_root::{locate_root, DirPath, RootSearch};

fn dir(path: &str) -> DirPath {
    let components = path.split('/').filter(|c| !c.is_empty()).map(|c| c.to_owned()).collect();
    DirPath::from_components(components).unwrap()
}

/// Whether the ancestor `i` levels above `start` holds `marker`, in a tree given by its
/// paths.
fn hits(tree: &[&str], start: &DirPath, marker: &str) -> Vec<bool> {
    let marker = FileName::try_from(marker.to_owned()).unwrap();
    (0..=start.depth())
        .map(|up| {
            let candidate = start.ancestor(up).join(&marker).render();
            tree.iter().any(|p| *p == candidate)
        })
        .collect()
}

#[test]
fn innermost_and_outermost_on_nested_markers() {
    let tree = ["/a/marker", "/a/b/marker", "/a/b/c"];
    let start = dir("/a/b/c");
    let h = hits(&tree, &start, "marker");
    assert_eq!(h, vec![false, true, true, false]);

    let inner = locate_root(&h, ProjectRoot::Innermost).unwrap();
    assert_eq!(start.ancestor(inner).render(), "/a/b");
    let outer = locate_root(&h, ProjectRoot::Outermost).unwrap();
    assert_eq!(start.ancestor(outer).render(), "/a");
}

#[test]
fn start_directory_is_checked_first() {
    assert_eq!(locate_root(&vec![true, true], ProjectRoot::Innermost), Some(0));
    assert_eq!(locate_root(&vec![true, false], ProjectRoot::Outermost), Some(0));
}

#[test]
fn no_marker_no_root() {
    assert_eq!(locate_root(&vec![false, false, false], ProjectRoot::Innermost), None);
    assert_eq!(locate_root(&vec![false, false, false], ProjectRoot::Outermost), None);
    assert_eq!(locate_root(&vec![], ProjectRoot::Outermost), None);
}

#[test]
fn innermost_search_stops_at_first_match() {
    let mut search = RootSearch::new(ProjectRoot::Innermost);
    search.observe(false);
    assert!(!search.is_done());
    search.observe(true);
    assert!(search.is_done());
    assert_eq!(search.result(), Some(1));

    let mut search = RootSearch::new(ProjectRoot::Outermost);
    search.observe(true);
    search.observe(false);
    assert!(!search.is_done());
    search.observe(true);
    assert_eq!(search.result(), Some(2));
}

#[test]
fn paths_render_and_join() {
    let root = DirPath::root();
    assert_eq!(root.render(), "/");
    assert_eq!(root.depth(), 0);
    let git = FileName::try_from(".git".to_owned()).unwrap();
    assert_eq!(root.join(&git).render(), "/.git");
    let d = dir("/home/me/My Projects/x");
    assert_eq!(d.render(), "/home/me/My Projects/x");
    assert_eq!(d.ancestor(4).render(), "/");
    assert_eq!(d.ancestor(1).join(&git).render(), "/home/me/My Projects/.git");
}

#[test]
fn bad_components_are_refused() {
    assert!(DirPath::from_components(vec!["a/b".to_owned()]).is_none());
    assert!(DirPath::from_components(vec![String::new()]).is_none());
    assert!(DirPath::from_components(vec!["a\0".to_owned()]).is_none());
    assert!(DirPath::from_components(vec![]).is_some());
}
