use oxideterm::sidebar_layout::{sidebar_rows, SidebarInputs, SidebarSlot};
use oxideterm::workspace::{EndpointKey, RuntimeRowClaimIdentity};

fn endpoint(host: &str) -> EndpointKey {
    EndpointKey { host: host.to_string(), port: 22, username: "root".to_string() }
}

fn runtime(owner: Option<&str>, host: &str) -> RuntimeRowClaimIdentity {
    RuntimeRowClaimIdentity {
        saved_connection_id: owner.map(str::to_string),
        host: host.to_string(),
        username: "root".to_string(),
        port: 22,
    }
}

fn group(name: Option<&str>) -> Option<String> {
    name.map(str::to_string)
}

#[test]
fn folders_hold_their_entries_and_leftover_runtime_rows_come_last() {
    let inputs = SidebarInputs {
        groups: vec!["work".to_string(), "home".to_string(), "work".to_string()],
        expanded: vec![true, false, true],
        catalog_groups: vec![group(Some("work")), group(None), group(Some("home")), group(Some("work")), group(Some("gone"))],
        catalog_endpoints: vec![Some(endpoint("a")), None, Some(endpoint("b")), Some(endpoint("c")), Some(endpoint("d"))],
        standalone_saved: vec![true, false],
        standalone_endpoints: vec![Some(endpoint("x")), Some(endpoint("y"))],
        runtime: vec![
            runtime(None, "a"),
            runtime(None, "c"),
            runtime(None, "a"),
            runtime(Some("z"), "a"),
            runtime(None, "d"),
            runtime(None, "b"),
        ],
        runtime_depths: vec![0, 0, 1, 0, 0, 0],
        consumed: vec![false, true, false, false, false, false],
    };
    assert_eq!(
        sidebar_rows(&inputs),
        vec![
            SidebarSlot::Folder { group: 0, has_children: true },
            SidebarSlot::Catalog(0),
            SidebarSlot::Catalog(3),
            SidebarSlot::Folder { group: 1, has_children: true },
            SidebarSlot::Folder { group: 2, has_children: false },
            SidebarSlot::Catalog(1),
            SidebarSlot::Standalone(1),
            SidebarSlot::Runtime(2),
            SidebarSlot::Runtime(3),
            SidebarSlot::Runtime(4),
            SidebarSlot::Runtime(5),
        ]
    );
}

#[test]
fn an_empty_sidebar_has_no_rows() {
    let inputs = SidebarInputs {
        groups: Vec::new(),
        expanded: Vec::new(),
        catalog_groups: Vec::new(),
        catalog_endpoints: Vec::new(),
        standalone_saved: Vec::new(),
        standalone_endpoints: Vec::new(),
        runtime: Vec::new(),
        runtime_depths: Vec::new(),
        consumed: Vec::new(),
    };
    assert!(sidebar_rows(&inputs).is_empty());
}
