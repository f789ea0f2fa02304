use code_launcher::resolve::{find_best_match_and_clean, Action, Event};

/// A directory of files, some of them sockets with a listener, and a record of
/// what the search did to it.
struct World {
    files: Vec<String>,
    live: Vec<String>,
    listable: bool,
    connects: Vec<String>,
    removes: Vec<String>,
    listings: usize,
}

impl World {
    fn new(files: &[&str], live: &[&str], listable: bool) -> World {
        World {
            files: files.iter().map(|f| f.to_string()).collect(),
            live: live.iter().map(|f| f.to_string()).collect(),
            listable,
            connects: vec![],
            removes: vec![],
            listings: 0,
        }
    }

    fn resolve(&mut self, hint: &str) -> Result<Option<String>, ()> {
        let (mut search, mut action) = find_best_match_and_clean(hint);
        loop {
            let event = match action {
                Action::Connect(p) => {
                    self.connects.push(p.clone());
                    if self.files.contains(&p) && self.live.contains(&p) {
                        Event::Connected
                    } else {
                        Event::Refused
                    }
                }
                Action::Remove(p) => {
                    self.removes.push(p.clone());
                    self.files.retain(|f| *f != p);
                    Event::Removed
                }
                Action::ReadDir(d) => {
                    self.listings += 1;
                    if self.listable {
                        let prefix = format!("{}/", d);
                        Event::Listed(
                            self.files
                                .iter()
                                .filter(|f| f.starts_with(&prefix) && !f[prefix.len()..].contains('/'))
                                .cloned()
                                .collect(),
                        )
                    } else {
                        Event::ListFailed
                    }
                }
                Action::Found(p) => return Ok(Some(p)),
                Action::NotFound => return Ok(None),
                Action::Failed => return Err(()),
            };
            assert!(!search.is_done());
            action = search.advance(event);
        }
    }
}

#[test]
fn dead_hint_alone_is_removed_and_nothing_is_found() {
    let mut w = World::new(&["/tmp/vscode-ipc-aaaa.sock", "/tmp/notes.txt"], &[], true);
    assert_eq!(w.resolve("/tmp/vscode-ipc-aaaa.sock"), Ok(None));
    assert!(!w.files.contains(&"/tmp/vscode-ipc-aaaa.sock".to_string()));
    assert!(w.files.contains(&"/tmp/notes.txt".to_string()));
}

#[test]
fn live_hint_is_returned_and_kept() {
    let mut w = World::new(&["/tmp/vscode-ipc-aaaa.sock"], &["/tmp/vscode-ipc-aaaa.sock"], true);
    assert_eq!(
        w.resolve("/tmp/vscode-ipc-aaaa.sock"),
        Ok(Some("/tmp/vscode-ipc-aaaa.sock".to_string()))
    );
    assert!(w.files.contains(&"/tmp/vscode-ipc-aaaa.sock".to_string()));
    assert_eq!(w.listings, 0);
    assert!(w.removes.is_empty());
}

#[test]
fn dead_hint_falls_back_to_live_sibling() {
    let mut w = World::new(
        &["/tmp/vscode-ipc-aaaa.sock", "/tmp/vscode-ipc-bbbb.sock"],
        &["/tmp/vscode-ipc-bbbb.sock"],
        true,
    );
    assert_eq!(
        w.resolve("/tmp/vscode-ipc-aaaa.sock"),
        Ok(Some("/tmp/vscode-ipc-bbbb.sock".to_string()))
    );
    assert!(!w.files.contains(&"/tmp/vscode-ipc-aaaa.sock".to_string()));
    assert!(w.files.contains(&"/tmp/vscode-ipc-bbbb.sock".to_string()));
}

#[test]
fn unlistable_directory_is_an_error() {
    let mut w = World::new(&["/gone/vscode-ipc-aaaa.sock"], &[], false);
    assert_eq!(w.resolve("/gone/vscode-ipc-aaaa.sock"), Err(()));
}

#[test]
fn second_search_after_a_miss_removes_nothing_more() {
    let mut w = World::new(
        &["/tmp/vscode-ipc-aaaa.sock", "/tmp/vscode-ipc-cccc.sock", "/tmp/keep.sock"],
        &[],
        true,
    );
    assert_eq!(w.resolve("/tmp/vscode-ipc-aaaa.sock"), Ok(None));
    assert_eq!(w.files, vec!["/tmp/keep.sock".to_string()]);
    let after_first = w.files.clone();
    assert_eq!(w.resolve("/tmp/vscode-ipc-aaaa.sock"), Ok(None));
    assert_eq!(w.files, after_first);
}

#[test]
fn files_with_other_names_are_never_probed_or_removed() {
    let mut w = World::new(
        &["/tmp/vscode-ipc-aaaa.sock", "/tmp/other.sock", "/tmp/vscode-ipc-x.txt"],
        &["/tmp/other.sock"],
        true,
    );
    assert_eq!(w.resolve("/tmp/vscode-ipc-aaaa.sock"), Ok(None));
    assert_eq!(w.connects, vec!["/tmp/vscode-ipc-aaaa.sock".to_string()]);
    assert_eq!(w.removes, vec!["/tmp/vscode-ipc-aaaa.sock".to_string()]);
    assert!(w.files.contains(&"/tmp/other.sock".to_string()));
    assert!(w.files.contains(&"/tmp/vscode-ipc-x.txt".to_string()));
}

#[test]
fn hint_with_another_name_goes_straight_to_its_directory() {
    let mut w = World::new(
        &["/run/hook", "/run/vscode-ipc-live.sock"],
        &["/run/vscode-ipc-live.sock", "/run/hook"],
        true,
    );
    assert_eq!(w.resolve("/run/hook"), Ok(Some("/run/vscode-ipc-live.sock".to_string())));
    assert_eq!(w.connects, vec!["/run/vscode-ipc-live.sock".to_string()]);
    assert!(w.files.contains(&"/run/hook".to_string()));
}

#[test]
fn first_live_entry_in_listing_order_wins() {
    let mut w = World::new(
        &["/s/vscode-ipc-1.sock", "/s/vscode-ipc-2.sock", "/s/vscode-ipc-3.sock"],
        &["/s/vscode-ipc-2.sock", "/s/vscode-ipc-3.sock"],
        true,
    );
    assert_eq!(w.resolve("/s/vscode-ipc-0.sock"), Ok(Some("/s/vscode-ipc-2.sock".to_string())));
    assert_eq!(
        w.removes,
        vec!["/s/vscode-ipc-0.sock".to_string(), "/s/vscode-ipc-1.sock".to_string()]
    );
    assert!(!w.connects.contains(&"/s/vscode-ipc-3.sock".to_string()));
}

#[test]
fn hint_without_a_directory_ends_empty() {
    let mut w = World::new(&[], &[], true);
    assert_eq!(w.resolve("/"), Ok(None));
    assert_eq!(w.listings, 0);
    assert!(w.connects.is_empty());
}

#[test]
fn first_action_probes_a_matching_hint() {
    let (search, action) = find_best_match_and_clean("/tmp/vscode-ipc-aaaa.sock");
    assert!(!search.is_done());
    match action {
        Action::Connect(p) => assert_eq!(p, "/tmp/vscode-ipc-aaaa.sock"),
        other => panic!("expecting Connect but got {:?}", other),
    }
    let (_, action) = find_best_match_and_clean("/tmp/hook");
    match action {
        Action::ReadDir(d) => assert_eq!(d, "/tmp"),
        other => panic!("expecting ReadDir but got {:?}", other),
    }
}
